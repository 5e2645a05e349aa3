use vstd::prelude::*;

use crate::event::Clock;

verus! {

/// What a scene asks of the scene controller after a frame.
#[derive(Clone, Copy, Debug, PartialEq, Eq, Structural)]
pub enum SceneTransition {
    Keep,
    Reset,
    Transition,
}

/// The scenes that the game moves between.
#[derive(Clone, Copy, Debug, PartialEq, Eq, Structural)]
pub enum SceneID {
    Null,
    MainDesk,
    Scenario,
    Dream,
}

/// A scene that shows nothing and never asks to move on.
pub struct NullScene {}

impl NullScene {
    pub fn new() -> (r: NullScene)
        ensures
            r == (NullScene {}),
    {
        NullScene {}
    }

    /// After a frame the null scene always stays.
    pub fn post_process(&self) -> (r: SceneTransition)
        ensures
            r == SceneTransition::Keep,
    {
        SceneTransition::Keep
    }

    /// The scene that the null scene hands over to: itself.
    pub fn transition(&self) -> (r: SceneID)
        ensures
            r == SceneID::Null,
    {
        SceneID::Null
    }

    /// The null scene's clock never runs.
    pub fn get_current_clock(&self) -> (r: Clock)
        ensures
            r == 0,
    {
        0
    }
}

} // verus!
