use vstd::prelude::*;

use crate::event::Clock;
use crate::geometry::Vector2;

verus! {

/// `v` brought into `[lo, hi]`: above `hi` it becomes `hi`, below `lo` it
/// becomes `lo`.
pub open spec fn clamp(v: int, lo: int, hi: int) -> int {
    if v > hi {
        hi
    } else if v < lo {
        lo
    } else {
        v
    }
}

/// `v` moved toward zero by `r`, never past it.
pub open spec fn resist(v: int, r: int) -> int {
    if -r <= v <= r {
        0
    } else if v > 0 {
        v - r
    } else {
        v + r
    }
}

/// The range that a speed is held in, per axis.
#[derive(Clone, Copy, Debug, PartialEq, Eq, Structural)]
pub struct SpeedBorder {
    pub positive_x: i32,
    pub negative_x: i32,
    pub positive_y: i32,
    pub negative_y: i32,
}

impl SpeedBorder {
    pub open spec fn wf(self) -> bool {
        self.negative_x <= self.positive_x && self.negative_y <= self.positive_y
    }

    pub open spec fn contains(self, v: Vector2) -> bool {
        self.negative_x <= v.x <= self.positive_x && self.negative_y <= v.y <= self.positive_y
    }

    /// The speed `(x, y)` brought into the border's range.
    pub open spec fn round_spec(self, x: int, y: int) -> Vector2 {
        Vector2 {
            x: clamp(x, self.negative_x as int, self.positive_x as int) as i64,
            y: clamp(y, self.negative_y as int, self.positive_y as int) as i64,
        }
    }

    /// Brings an X speed into the border's range.
    pub fn round_speed_x(&self, speed: i128) -> (r: i64)
        ensures
            r == clamp(speed as int, self.negative_x as int, self.positive_x as int),
    {
        if speed > self.positive_x as i128 {
            self.positive_x as i64
        } else if speed < self.negative_x as i128 {
            self.negative_x as i64
        } else {
            speed as i64
        }
    }

    /// Brings a Y speed into the border's range.
    pub fn round_speed_y(&self, speed: i128) -> (r: i64)
        ensures
            r == clamp(speed as int, self.negative_y as int, self.positive_y as int),
    {
        if speed > self.positive_y as i128 {
            self.positive_y as i64
        } else if speed < self.negative_y as i128 {
            self.negative_y as i64
        } else {
            speed as i64
        }
    }
}

/// An actor's speed, in pixels per tick, with the border that every write
/// of it is clamped against, and the gravity and horizontal resistance that
/// act on a falling actor.
pub struct TextureSpeedInfo {
    speed: Vector2,
    speed_border: SpeedBorder,
    gravity_acc: i32,
    horizon_resistance: i32,
    fall_begin: Clock,
}

impl TextureSpeedInfo {
    pub closed spec fn speed_spec(&self) -> Vector2 {
        self.speed
    }

    pub closed spec fn border_spec(&self) -> SpeedBorder {
        self.speed_border
    }

    pub closed spec fn gravity_spec(&self) -> int {
        self.gravity_acc as int
    }

    pub closed spec fn resistance_spec(&self) -> int {
        self.horizon_resistance as int
    }

    pub closed spec fn fall_begin_spec(&self) -> Clock {
        self.fall_begin
    }

    /// The stored speed lies within the border.
    pub open spec fn wf(&self) -> bool {
        self.border_spec().wf() && self.border_spec().contains(self.speed_spec())
            && self.resistance_spec() >= 0
    }

    /// The speed is clamped against `border` before it is stored.
    pub fn new(gravity_acc: i32, horizon_res: i32, speed: Vector2, border: SpeedBorder) -> (r:
        TextureSpeedInfo)
        requires
            border.wf(),
            horizon_res >= 0,
        ensures
            r.wf(),
            r.speed_spec() == border.round_spec(speed.x as int, speed.y as int),
            r.border_spec() == border,
            r.gravity_spec() == gravity_acc,
            r.resistance_spec() == horizon_res,
            r.fall_begin_spec() == 0,
    {
        let x = border.round_speed_x(speed.x as i128);
        let y = border.round_speed_y(speed.y as i128);
        TextureSpeedInfo {
            speed: Vector2 { x, y },
            speed_border: border,
            gravity_acc,
            horizon_resistance: horizon_res,
            fall_begin: 0,
        }
    }

    /// Records the tick at which the actor started to fall.
    pub fn fall_start(&mut self, t: Clock)
        ensures
            final(self).fall_begin_spec() == t,
            final(self).speed_spec() == old(self).speed_spec(),
            final(self).border_spec() == old(self).border_spec(),
            final(self).gravity_spec() == old(self).gravity_spec(),
            final(self).resistance_spec() == old(self).resistance_spec(),
    {
        self.fall_begin = t;
    }

    /// Applies one tick of gravity and resistance at tick `t`: the Y speed
    /// grows by `gravity_acc * (t - fall_begin)`; the X speed moves toward
    /// zero by the horizontal resistance and never past it. Both are clamped.
    pub fn apply_resistance(&mut self, t: Clock)
        requires
            old(self).wf(),
        ensures
            final(self).wf(),
            final(self).speed_spec() == old(self).border_spec().round_spec(
                resist(old(self).speed_spec().x as int, old(self).resistance_spec()),
                old(self).speed_spec().y + old(self).gravity_spec() * (t
                    - old(self).fall_begin_spec()),
            ),
            final(self).border_spec() == old(self).border_spec(),
            final(self).gravity_spec() == old(self).gravity_spec(),
            final(self).resistance_spec() == old(self).resistance_spec(),
            final(self).fall_begin_spec() == old(self).fall_begin_spec(),
    {
        let elapsed: i128 = (t as i128) - (self.fall_begin as i128);
        proof {
            let g = self.gravity_acc as int;
            let e = elapsed as int;
            assert(-0x8000_0000_0000_0000_0000_0000 <= g * e <= 0x8000_0000_0000_0000_0000_0000)
                by (nonlinear_arith)
                requires
                    -0x8000_0000 <= g <= 0x8000_0000,
                    -0x1_0000_0000_0000_0000 <= e <= 0x1_0000_0000_0000_0000,
            ;
        }
        let fall: i128 = (self.gravity_acc as i128) * elapsed;
        let y = self.speed_border.round_speed_y((self.speed.y as i128) + fall);
        let sx = self.speed.x as i128;
        let r = self.horizon_resistance as i128;
        let x_next: i128 = if -r <= sx && sx <= r {
            0
        } else if sx > 0 {
            sx - r
        } else {
            sx + r
        };
        let x = self.speed_border.round_speed_x(x_next);
        self.speed = Vector2 { x, y };
    }

    /// Adds `speed` to the stored speed, clamped against the border.
    pub fn add_speed(&mut self, speed: Vector2)
        requires
            old(self).wf(),
        ensures
            final(self).wf(),
            final(self).speed_spec() == old(self).border_spec().round_spec(
                old(self).speed_spec().x + speed.x,
                old(self).speed_spec().y + speed.y,
            ),
            final(self).border_spec() == old(self).border_spec(),
            final(self).gravity_spec() == old(self).gravity_spec(),
            final(self).resistance_spec() == old(self).resistance_spec(),
            final(self).fall_begin_spec() == old(self).fall_begin_spec(),
    {
        let x = self.speed_border.round_speed_x((self.speed.x as i128) + (speed.x as i128));
        let y = self.speed_border.round_speed_y((self.speed.y as i128) + (speed.y as i128));
        self.speed = Vector2 { x, y };
    }

    /// Stores `speed`, clamped against the border.
    pub fn set_speed(&mut self, speed: Vector2)
        requires
            old(self).wf(),
        ensures
            final(self).wf(),
            final(self).speed_spec() == old(self).border_spec().round_spec(
                speed.x as int,
                speed.y as int,
            ),
            final(self).border_spec() == old(self).border_spec(),
            final(self).gravity_spec() == old(self).gravity_spec(),
            final(self).resistance_spec() == old(self).resistance_spec(),
            final(self).fall_begin_spec() == old(self).fall_begin_spec(),
    {
        let x = self.speed_border.round_speed_x(speed.x as i128);
        let y = self.speed_border.round_speed_y(speed.y as i128);
        self.speed = Vector2 { x, y };
    }

    /// Stores the X speed, clamped against the border.
    pub fn set_speed_x(&mut self, speed: i64)
        requires
            old(self).wf(),
        ensures
            final(self).wf(),
            final(self).speed_spec() == (Vector2 {
                x: clamp(
                    speed as int,
                    old(self).border_spec().negative_x as int,
                    old(self).border_spec().positive_x as int,
                ) as i64,
                y: old(self).speed_spec().y,
            }),
            final(self).border_spec() == old(self).border_spec(),
            final(self).gravity_spec() == old(self).gravity_spec(),
            final(self).resistance_spec() == old(self).resistance_spec(),
            final(self).fall_begin_spec() == old(self).fall_begin_spec(),
    {
        self.speed.x = self.speed_border.round_speed_x(speed as i128);
    }

    /// Stores the Y speed, clamped against the border.
    pub fn set_speed_y(&mut self, speed: i64)
        requires
            old(self).wf(),
        ensures
            final(self).wf(),
            final(self).speed_spec() == (Vector2 {
                x: old(self).speed_spec().x,
                y: clamp(
                    speed as int,
                    old(self).border_spec().negative_y as int,
                    old(self).border_spec().positive_y as int,
                ) as i64,
            }),
            final(self).border_spec() == old(self).border_spec(),
            final(self).gravity_spec() == old(self).gravity_spec(),
            final(self).resistance_spec() == old(self).resistance_spec(),
            final(self).fall_begin_spec() == old(self).fall_begin_spec(),
    {
        self.speed.y = self.speed_border.round_speed_y(speed as i128);
    }

    pub fn get_speed(&self) -> (r: Vector2)
        ensures
            r == self.speed_spec(),
    {
        self.speed
    }

    pub fn set_gravity(&mut self, g: i32)
        ensures
            final(self).gravity_spec() == g,
            final(self).speed_spec() == old(self).speed_spec(),
            final(self).border_spec() == old(self).border_spec(),
            final(self).resistance_spec() == old(self).resistance_spec(),
            final(self).fall_begin_spec() == old(self).fall_begin_spec(),
    {
        self.gravity_acc = g;
    }
}

/// The speed after adding each of `adds` in turn, starting from `v`, with
/// every sum clamped against `b`.
pub open spec fn speed_after_adds(v: Vector2, adds: Seq<Vector2>, b: SpeedBorder) -> Vector2
    decreases adds.len(),
{
    if adds.len() == 0 {
        v
    } else {
        let prev = speed_after_adds(v, adds.drop_last(), b);
        b.round_spec(prev.x + adds.last().x, prev.y + adds.last().y)
    }
}

/// However many speeds are added, and whatever they are, the stored speed
/// stays within the border on both axes.
pub proof fn lemma_speed_stays_within_border(v: Vector2, adds: Seq<Vector2>, b: SpeedBorder)
    requires
        b.wf(),
        b.contains(v),
    ensures
        b.contains(speed_after_adds(v, adds, b)),
    decreases adds.len(),
{
    if adds.len() > 0 {
        lemma_speed_stays_within_border(v, adds.drop_last(), b);
    }
}

} // verus!
