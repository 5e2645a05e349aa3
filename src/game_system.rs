use vstd::prelude::*;

verus! {

/// A place to go on a day out.
#[derive(Clone, Copy, Debug, PartialEq, Eq, Structural)]
pub enum GoingOutEvent {
    AkyuTei,
    Dangoya,
    Terakoya,
}

/// What a day of the week is spent on.
#[derive(Clone, Copy, Debug, PartialEq, Eq, Structural)]
pub enum DayWorkType {
    ShopWork,
    GoingOut(GoingOutEvent),
    TakingRest,
}

/// The Japanese label of a kind of day.
pub open spec fn day_work_label(w: DayWorkType) -> Seq<char> {
    match w {
        DayWorkType::ShopWork => "店番"@,
        DayWorkType::GoingOut(GoingOutEvent::AkyuTei) => "外出（阿求亭）"@,
        DayWorkType::GoingOut(GoingOutEvent::Dangoya) => "外出（団子屋）"@,
        DayWorkType::GoingOut(GoingOutEvent::Terakoya) => "外出（寺子屋）"@,
        DayWorkType::TakingRest => "休憩"@,
    }
}

impl DayWorkType {
    /// The label shown for this kind of day.
    pub fn to_string_jp(&self) -> (r: String)
        ensures
            r@ == day_work_label(*self),
    {
        let s: &str = match self {
            DayWorkType::ShopWork => "店番",
            DayWorkType::GoingOut(dest) => match dest {
                GoingOutEvent::AkyuTei => "外出（阿求亭）",
                GoingOutEvent::Dangoya => "外出（団子屋）",
                GoingOutEvent::Terakoya => "外出（寺子屋）",
            },
            DayWorkType::TakingRest => "休憩",
        };
        s.to_owned()
    }
}

/// The progress of the story's events; it records nothing yet.
pub struct EventProgressTable {}

} // verus!
