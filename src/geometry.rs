use vstd::prelude::*;

verus! {

/// A point in map (world) coordinates, in whole pixels.
#[derive(Clone, Copy, Debug, PartialEq, Eq, Structural)]
pub struct Point {
    pub x: i32,
    pub y: i32,
}

impl Point {
    pub fn new(x: i32, y: i32) -> (r: Point)
        ensures
            r.x == x,
            r.y == y,
    {
        Point { x, y }
    }
}

/// A displacement or a difference of positions, wide enough to hold the
/// difference of any two points.
#[derive(Clone, Copy, Debug, PartialEq, Eq, Structural)]
pub struct Vector2 {
    pub x: i64,
    pub y: i64,
}

/// The largest magnitude of a rectangle's coordinate or extent.
pub const COORD_LIMIT: i64 = 1_099_511_627_776;

/// An axis-aligned rectangle: the half-open area `[x, x + w) x [y, y + h)`.
#[derive(Clone, Copy, Debug, PartialEq, Eq, Structural)]
pub struct Rect {
    pub x: i64,
    pub y: i64,
    pub w: i64,
    pub h: i64,
}

/// The half-open spans `[a, a + alen)` and `[b, b + blen)` share a point.
pub open spec fn spans_overlap(a: int, alen: int, b: int, blen: int) -> bool {
    a < b + blen && b < a + alen
}

impl Rect {
    pub open spec fn wf(self) -> bool {
        &&& 0 <= self.w <= COORD_LIMIT
        &&& 0 <= self.h <= COORD_LIMIT
        &&& -COORD_LIMIT <= self.x <= COORD_LIMIT
        &&& -COORD_LIMIT <= self.y <= COORD_LIMIT
    }

    pub open spec fn overlaps_spec(self, o: Rect) -> bool {
        spans_overlap(self.x as int, self.w as int, o.x as int, o.w as int)
            && spans_overlap(self.y as int, self.h as int, o.y as int, o.h as int)
    }

    pub fn new(x: i64, y: i64, w: i64, h: i64) -> (r: Rect)
        ensures
            r == (Rect { x, y, w, h }),
    {
        Rect { x, y, w, h }
    }

    /// Whether the two rectangles share at least one pixel.
    pub fn overlaps(&self, o: &Rect) -> (r: bool)
        ensures
            r == self.overlaps_spec(*o),
    {
        (self.x as i128) < (o.x as i128) + (o.w as i128) && (o.x as i128) < (self.x as i128) + (
        self.w as i128) && (self.y as i128) < (o.y as i128) + (o.h as i128) && (o.y as i128) < (
        self.y as i128) + (self.h as i128)
    }
}

/// Twice the centre of the span `[a, a + len)`, so that it stays integral.
pub open spec fn double_center(a: int, len: int) -> int {
    2 * a + len
}

/// The error of asking a collision query for something it does not hold.
#[derive(Clone, Copy, Debug, PartialEq, Eq, Structural)]
pub enum CollisionError {
    /// A correction was asked of a result that reports no collision.
    InvalidState,
}

/// The result of a collision query between a moving box (`object1_area`)
/// and another box (`object2_area`).
///
/// `center_diff` is the centre of the second box minus the centre of the
/// first, measured in half pixels: only its sign per axis is used, to choose
/// the side on which a correction pushes.
#[derive(Clone, Copy, Debug, PartialEq, Eq, Structural)]
pub struct CollisionInfo {
    pub collision: bool,
    pub object1_area: Rect,
    pub object2_area: Rect,
    pub center_diff: Vector2,
}

/// What a collision query between `a1` and `a2` reports.
pub open spec fn collision_info_of(a1: Rect, a2: Rect) -> CollisionInfo {
    if a1.overlaps_spec(a2) {
        CollisionInfo {
            collision: true,
            object1_area: a1,
            object2_area: a2,
            center_diff: Vector2 {
                x: (double_center(a2.x as int, a2.w as int) - double_center(
                    a1.x as int,
                    a1.w as int,
                )) as i64,
                y: (double_center(a2.y as int, a2.h as int) - double_center(
                    a1.y as int,
                    a1.h as int,
                )) as i64,
            },
        }
    } else {
        CollisionInfo::no_collision_spec()
    }
}

/// The signed Y offset that moves the first box of `info` out of the second.
///
/// Below the other box (its centre is higher up, a negative difference) the
/// first box is pushed down until its top edge meets the other's bottom edge;
/// above it, pushed up until its bottom edge meets the other's top edge; with
/// both centres level nothing moves. The boxes end exactly adjacent.
pub open spec fn vertical_correction(info: CollisionInfo) -> int {
    let a1 = info.object1_area;
    let a2 = info.object2_area;
    if info.center_diff.y < 0 {
        (a2.y + a2.h) - a1.y
    } else if info.center_diff.y > 0 {
        a2.y - (a1.y + a1.h)
    } else {
        0
    }
}

/// The signed X offset that moves the first box of `info` out of the second,
/// chosen as `vertical_correction` chooses, on the X axis.
pub open spec fn horizontal_correction(info: CollisionInfo) -> int {
    let a1 = info.object1_area;
    let a2 = info.object2_area;
    if info.center_diff.x < 0 {
        (a2.x + a2.w) - a1.x
    } else if info.center_diff.x > 0 {
        a2.x - (a1.x + a1.w)
    } else {
        0
    }
}

impl CollisionInfo {
    /// Both boxes lie in the coordinate range, as every query produces them.
    pub open spec fn wf(self) -> bool {
        self.object1_area.wf() && self.object2_area.wf()
    }

    pub open spec fn no_collision_spec() -> CollisionInfo {
        CollisionInfo {
            collision: false,
            object1_area: Rect { x: 0, y: 0, w: 0, h: 0 },
            object2_area: Rect { x: 0, y: 0, w: 0, h: 0 },
            center_diff: Vector2 { x: 0, y: 0 },
        }
    }

    /// A result that reports no collision.
    pub fn new_not_collision() -> (r: CollisionInfo)
        ensures
            r == CollisionInfo::no_collision_spec(),
    {
        CollisionInfo {
            collision: false,
            object1_area: Rect { x: 0, y: 0, w: 0, h: 0 },
            object2_area: Rect { x: 0, y: 0, w: 0, h: 0 },
            center_diff: Vector2 { x: 0, y: 0 },
        }
    }
}

/// Tests two boxes for overlap and, where they overlap, records both and
/// the difference of their centres.
pub fn check_overlap(a1: &Rect, a2: &Rect) -> (r: CollisionInfo)
    requires
        a1.wf(),
        a2.wf(),
    ensures
        r == collision_info_of(*a1, *a2),
{
    if a1.overlaps(a2) {
        let cx: i64 = (2 * a2.x + a2.w) - (2 * a1.x + a1.w);
        let cy: i64 = (2 * a2.y + a2.h) - (2 * a1.y + a1.h);
        CollisionInfo {
            collision: true,
            object1_area: *a1,
            object2_area: *a2,
            center_diff: Vector2 { x: cx, y: cy },
        }
    } else {
        CollisionInfo::new_not_collision()
    }
}

/// The vertical correction for `info`; an error where it reports no
/// collision.
pub fn resolve_vertical(info: &CollisionInfo) -> (r: Result<i64, CollisionError>)
    requires
        info.wf(),
    ensures
        !info.collision ==> r == Err::<i64, CollisionError>(CollisionError::InvalidState),
        info.collision ==> r == Ok::<i64, CollisionError>(vertical_correction(*info) as i64),
{
    if !info.collision {
        return Err(CollisionError::InvalidState);
    }
    let a1 = info.object1_area;
    let a2 = info.object2_area;
    if info.center_diff.y < 0 {
        Ok((a2.y + a2.h) - a1.y)
    } else if info.center_diff.y > 0 {
        Ok(a2.y - (a1.y + a1.h))
    } else {
        Ok(0)
    }
}

/// The horizontal correction for `info`; an error where it reports no
/// collision.
pub fn resolve_horizontal(info: &CollisionInfo) -> (r: Result<i64, CollisionError>)
    requires
        info.wf(),
    ensures
        !info.collision ==> r == Err::<i64, CollisionError>(CollisionError::InvalidState),
        info.collision ==> r == Ok::<i64, CollisionError>(horizontal_correction(*info) as i64),
{
    if !info.collision {
        return Err(CollisionError::InvalidState);
    }
    let a1 = info.object1_area;
    let a2 = info.object2_area;
    if info.center_diff.x < 0 {
        Ok((a2.x + a2.w) - a1.x)
    } else if info.center_diff.x > 0 {
        Ok(a2.x - (a1.x + a1.w))
    } else {
        Ok(0)
    }
}

/// Applying the vertical correction to the first of two overlapping boxes
/// leaves no penetration along Y, unless both centres are level, where no
/// side can be chosen and nothing moves.
pub proof fn lemma_vertical_correction_separates(a1: Rect, a2: Rect)
    requires
        a1.wf(),
        a2.wf(),
        a1.overlaps_spec(a2),
        collision_info_of(a1, a2).center_diff.y != 0,
    ensures
        !spans_overlap(
            a1.y + vertical_correction(collision_info_of(a1, a2)),
            a1.h as int,
            a2.y as int,
            a2.h as int,
        ),
{
}

/// Applying the horizontal correction to the first of two overlapping boxes
/// leaves no penetration along X, unless both centres are level.
pub proof fn lemma_horizontal_correction_separates(a1: Rect, a2: Rect)
    requires
        a1.wf(),
        a2.wf(),
        a1.overlaps_spec(a2),
        collision_info_of(a1, a2).center_diff.x != 0,
    ensures
        !spans_overlap(
            a1.x + horizontal_correction(collision_info_of(a1, a2)),
            a1.w as int,
            a2.x as int,
            a2.w as int,
        ),
{
}

} // verus!
