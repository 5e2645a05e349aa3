use vstd::prelude::*;

use crate::geometry::{CollisionError, CollisionInfo, Point, Vector2, horizontal_correction, vertical_correction};
use crate::map_object::MapObject;

verus! {

/// `a` or `b`, whichever is smaller.
pub open spec fn min_int(a: int, b: int) -> int {
    if a < b {
        a
    } else {
        b
    }
}

/// The actor that the player steers.
pub struct PlayableCharacter {
    character: MapObject,
}

impl PlayableCharacter {
    pub closed spec fn character_spec(&self) -> &MapObject {
        &self.character
    }

    pub open spec fn wf(&self) -> bool {
        self.character_spec().wf()
    }

    /// The X position that a step at the current speed reaches, stopped at
    /// `border`.
    pub open spec fn next_x(&self, border: i32) -> int {
        min_int(
            self.character_spec().position_spec().current.x
                + self.character_spec().speed_info_spec().speed_spec().x,
            border as int,
        )
    }

    /// The Y position that a step at the current speed reaches, stopped at
    /// `border`.
    pub open spec fn next_y(&self, border: i32) -> int {
        min_int(
            self.character_spec().position_spec().current.y
                + self.character_spec().speed_info_spec().speed_spec().y,
            border as int,
        )
    }

    pub fn new(character: MapObject) -> (r: PlayableCharacter)
        ensures
            r.character_spec() == character,
    {
        PlayableCharacter { character }
    }

    pub fn get_character_object(&self) -> (r: &MapObject)
        ensures
            r == self.character_spec(),
    {
        &self.character
    }

    pub fn get_map_position(&self) -> (r: Point)
        ensures
            r == self.character_spec().position_spec().current,
    {
        self.character.get_map_position()
    }

    /// Steps along X at the current speed, but no further than `border`.
    pub fn move_map_current_speed_x(&mut self, border: i32)
        requires
            old(self).wf(),
            i32::MIN <= old(self).next_x(border),
            old(self).next_x(border) + old(self).character_spec().width_spec() <= i32::MAX,
        ensures
            final(self).wf(),
            final(self).character_spec().position_spec().previous == old(
                self,
            ).character_spec().position_spec().current,
            final(self).character_spec().position_spec().current == (Point {
                x: old(self).next_x(border) as i32,
                y: old(self).character_spec().position_spec().current.y,
            }),
            final(self).character_spec().same_but_position(old(self).character_spec()),
    {
        let x_speed = self.character.speed_info().get_speed().x;
        let pos = self.character.get_map_position();
        let overflow: i64 = ((pos.x as i64) + x_speed) - (border as i64);
        if overflow > 0 {
            self.character.move_map(Vector2 { x: x_speed - overflow, y: 0 });
        } else {
            self.character.move_map(Vector2 { x: x_speed, y: 0 });
        }
    }

    /// Steps along Y at the current speed, but no further than `border`.
    pub fn move_map_current_speed_y(&mut self, border: i32)
        requires
            old(self).wf(),
            i32::MIN <= old(self).next_y(border),
            old(self).next_y(border) + old(self).character_spec().height_spec() <= i32::MAX,
        ensures
            final(self).wf(),
            final(self).character_spec().position_spec().previous == old(
                self,
            ).character_spec().position_spec().current,
            final(self).character_spec().position_spec().current == (Point {
                x: old(self).character_spec().position_spec().current.x,
                y: old(self).next_y(border) as i32,
            }),
            final(self).character_spec().same_but_position(old(self).character_spec()),
    {
        let y_speed = self.character.speed_info().get_speed().y;
        let pos = self.character.get_map_position();
        let overflow: i64 = ((pos.y as i64) + y_speed) - (border as i64);
        if overflow > 0 {
            self.character.move_map(Vector2 { x: 0, y: y_speed - overflow });
        } else {
            self.character.move_map(Vector2 { x: 0, y: y_speed });
        }
    }

    /// Stores `speed`, clamped against the player's speed border.
    pub fn set_speed(&mut self, speed: Vector2)
        requires
            old(self).wf(),
        ensures
            final(self).wf(),
            final(self).character_spec().speed_info_spec().speed_spec() == old(
                self,
            ).character_spec().speed_info_spec().border_spec().round_spec(
                speed.x as int,
                speed.y as int,
            ),
            final(self).character_spec().position_spec() == old(
                self,
            ).character_spec().position_spec(),
    {
        self.character.set_speed(speed);
    }

    /// Stops the player, or brings it to the slowest speed its border allows.
    pub fn reset_speed(&mut self)
        requires
            old(self).wf(),
        ensures
            final(self).wf(),
            final(self).character_spec().speed_info_spec().speed_spec() == old(
                self,
            ).character_spec().speed_info_spec().border_spec().round_spec(0, 0),
            final(self).character_spec().position_spec() == old(
                self,
            ).character_spec().position_spec(),
    {
        self.character.set_speed(Vector2 { x: 0, y: 0 });
    }

    pub fn get_speed(&self) -> (r: Vector2)
        ensures
            r == self.character_spec().speed_info_spec().speed_spec(),
    {
        self.character.speed_info().get_speed()
    }

    /// The vertical correction out of the collision that `info` reports.
    pub fn fix_collision_vertical(&self, info: &CollisionInfo) -> (r: Result<i64, CollisionError>)
        requires
            info.wf(),
        ensures
            !info.collision ==> r == Err::<i64, CollisionError>(CollisionError::InvalidState),
            info.collision ==> r == Ok::<i64, CollisionError>(vertical_correction(*info) as i64),
    {
        self.character.fix_collision_vertical(info)
    }

    /// The horizontal correction out of the collision that `info` reports.
    pub fn fix_collision_horizon(&self, info: &CollisionInfo) -> (r: Result<i64, CollisionError>)
        requires
            info.wf(),
        ensures
            !info.collision ==> r == Err::<i64, CollisionError>(CollisionError::InvalidState),
            info.collision ==> r == Ok::<i64, CollisionError>(horizontal_correction(*info) as i64),
    {
        self.character.fix_collision_horizon(info)
    }

    /// Places the player's sprite with its top-left corner at `position`.
    pub fn set_map_position(&mut self, position: Point)
        requires
            old(self).wf(),
            old(self).character_spec().fits(position),
        ensures
            final(self).wf(),
            final(self).character_spec().position_spec().previous == old(
                self,
            ).character_spec().position_spec().current,
            final(self).character_spec().position_spec().current == position,
            final(self).character_spec().same_but_position(old(self).character_spec()),
    {
        self.character.set_map_position(position);
    }
}

} // verus!
