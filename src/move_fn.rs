use vstd::prelude::*;

use crate::event::Clock;
use crate::geometry::Point;
use crate::player::min_int;

verus! {

/// The speed of a fall `t` ticks in: it grows by `a` per tick from
/// `init_speed` and is capped at `max_speed`.
pub open spec fn fall_speed(t: Clock, init_speed: i32, max_speed: i32, a: i32) -> int {
    min_int(t * a + init_speed, max_speed as int)
}

/// The Y position reached from `y` at tick `t` of a fall, stopped at
/// `border_y`.
pub open spec fn fall_y(y: int, t: Clock, init_speed: i32, max_speed: i32, border_y: i32, a: i32) -> int {
    min_int(y + fall_speed(t, init_speed, max_speed, a), border_y as int)
}

/// A motion that stays at `pos`, wherever the object is.
pub fn halt(pos: Point, _p: Point, _t: Clock) -> (r: Point)
    ensures
        r == pos,
{
    pos
}

/// A falling motion: the object at `p` moves down at tick `t` by the fall
/// speed, and never below `border_y`.
pub fn gravity_move(
    p: Point,
    t: Clock,
    init_speed: i32,
    max_speed: i32,
    border_y: i32,
    a: i32,
) -> (r: Point)
    requires
        i32::MIN <= fall_y(p.y as int, t, init_speed, max_speed, border_y, a),
    ensures
        r == (Point {
            x: p.x,
            y: fall_y(p.y as int, t, init_speed, max_speed, border_y, a) as i32,
        }),
{
    proof {
        let tt = t as int;
        let aa = a as int;
        assert(-0x8000_0000_0000_0000_0000_0000 <= tt * aa <= 0x8000_0000_0000_0000_0000_0000)
            by (nonlinear_arith)
            requires
                0 <= tt <= 0x1_0000_0000_0000_0000,
                -0x8000_0000 <= aa <= 0x8000_0000,
        ;
    }
    let next_speed: i128 = (t as i128) * (a as i128) + (init_speed as i128);
    let speed: i128 = if next_speed < max_speed as i128 {
        next_speed
    } else {
        max_speed as i128
    };
    let next_y: i128 = (p.y as i128) + speed;
    let y: i128 = if next_y > border_y as i128 {
        border_y as i128
    } else {
        next_y
    };
    Point { x: p.x, y: y as i32 }
}

} // verus!
