use vstd::prelude::*;

use crate::geometry::{
    check_overlap, collision_info_of, resolve_horizontal, resolve_vertical, CollisionError,
    CollisionInfo, Point, Rect, Vector2, horizontal_correction, vertical_correction,
};
use crate::speed::TextureSpeedInfo;
use crate::tile_grid::TileGrid;

verus! {

/// The animation that faces up.
pub const MODE_UP: usize = 0;

/// The animation that faces down.
pub const MODE_DOWN: usize = 1;

/// The animation that faces right.
pub const MODE_RIGHT: usize = 2;

/// The animation that faces left.
pub const MODE_LEFT: usize = 3;

/// The denominator of the fractions of a collision crop.
pub const CROP_SCALE: u32 = 100;

/// The largest drawing size of an actor's sprite, per axis.
pub const SPRITE_LIMIT: u32 = 65_536;

/// The animation for a heading of `(dx, dy)`, by the quarter of the compass
/// that the heading's angle falls in: `[45, 135)` degrees faces up,
/// `[135, 225)` left, `[225, 315)` down, and the rest, the zero heading
/// included, right.
pub open spec fn heading_mode(dx: int, dy: int) -> usize {
    if dy > 0 && -dy < dx <= dy {
        MODE_UP
    } else if dx < 0 && dx < dy <= -dx {
        MODE_LEFT
    } else if dy < 0 && dy <= dx < -dy {
        MODE_DOWN
    } else {
        MODE_RIGHT
    }
}

/// The animation that an actor heading `(dx, dy)` shows.
pub fn animation_mode_from_heading(dx: i64, dy: i64) -> (r: usize)
    ensures
        r == heading_mode(dx as int, dy as int),
{
    if dy > 0 && (-(dy as i128)) < dx as i128 && dx <= dy {
        MODE_UP
    } else if dx < 0 && dx < dy && (dy as i128) <= -(dx as i128) {
        MODE_LEFT
    } else if dy < 0 && dy <= dx && (dx as i128) < -(dy as i128) {
        MODE_DOWN
    } else {
        MODE_RIGHT
    }
}

/// A position tracked over two steps, so that the last displacement is
/// known.
#[derive(Clone, Copy, Debug, PartialEq, Eq, Structural)]
pub struct TwoStepPoint {
    pub previous: Point,
    pub current: Point,
}

impl TwoStepPoint {
    /// The displacement of the last step.
    pub fn diff(&self) -> (r: Vector2)
        ensures
            r.x == self.current.x - self.previous.x,
            r.y == self.current.y - self.previous.y,
    {
        Vector2 {
            x: (self.current.x as i64) - (self.previous.x as i64),
            y: (self.current.y as i64) - (self.previous.y as i64),
        }
    }

    /// Steps to `pos`.
    pub fn update(&mut self, pos: Point)
        ensures
            final(self).previous == old(self).current,
            final(self).current == pos,
    {
        self.previous = self.current;
        self.current = pos;
    }

    /// Steps by `offset`.
    pub fn move_diff(&mut self, offset: &Vector2)
        requires
            i32::MIN <= old(self).current.x + offset.x <= i32::MAX,
            i32::MIN <= old(self).current.y + offset.y <= i32::MAX,
        ensures
            final(self).previous == old(self).current,
            final(self).current.x == old(self).current.x + offset.x,
            final(self).current.y == old(self).current.y + offset.y,
    {
        self.previous = self.current;
        self.current = Point {
            x: ((self.current.x as i64) + offset.x) as i32,
            y: ((self.current.y as i64) + offset.y) as i32,
        };
    }
}

/// The part of a sprite that collides, as fractions of its drawing size in
/// hundredths: the collidable box runs from `left` to `right` across and
/// from `top` to `bottom` down.
#[derive(Clone, Copy, Debug, PartialEq, Eq, Structural)]
pub struct CollisionCrop {
    pub left: u32,
    pub top: u32,
    pub right: u32,
    pub bottom: u32,
}

impl CollisionCrop {
    pub open spec fn wf(self) -> bool {
        self.left <= self.right <= CROP_SCALE && self.top <= self.bottom <= CROP_SCALE
    }
}

/// A point at which an actor's sprite can stand without its drawing area
/// leaving the `i32` range.
pub open spec fn position_fits(p: Point, w: u32, h: u32) -> bool {
    p.x + w <= i32::MAX && p.y + h <= i32::MAX
}

/// An actor on the map: its two-step position, its speed, the size of its
/// sprite, the crop that gives its collidable box, and the animation it
/// shows.
pub struct MapObject {
    map_position: TwoStepPoint,
    display_position: Vector2,
    speed_info: TextureSpeedInfo,
    collision_crop: CollisionCrop,
    drawing_w: u32,
    drawing_h: u32,
    animation_mode: usize,
}

impl MapObject {
    pub closed spec fn position_spec(&self) -> TwoStepPoint {
        self.map_position
    }

    pub closed spec fn display_spec(&self) -> Vector2 {
        self.display_position
    }

    pub closed spec fn speed_info_spec(&self) -> &TextureSpeedInfo {
        &self.speed_info
    }

    pub closed spec fn crop_spec(&self) -> CollisionCrop {
        self.collision_crop
    }

    pub closed spec fn width_spec(&self) -> u32 {
        self.drawing_w
    }

    pub closed spec fn height_spec(&self) -> u32 {
        self.drawing_h
    }

    pub closed spec fn mode_spec(&self) -> usize {
        self.animation_mode
    }

    pub open spec fn wf(&self) -> bool {
        &&& self.speed_info_spec().wf()
        &&& self.crop_spec().wf()
        &&& self.width_spec() <= SPRITE_LIMIT
        &&& self.height_spec() <= SPRITE_LIMIT
        &&& position_fits(self.position_spec().current, self.width_spec(), self.height_spec())
        &&& position_fits(self.position_spec().previous, self.width_spec(), self.height_spec())
    }

    /// Whether the actor may stand at `p`.
    pub open spec fn fits(&self, p: Point) -> bool {
        position_fits(p, self.width_spec(), self.height_spec())
    }

    /// The offset of the collidable box from the sprite's top-left corner.
    pub open spec fn top_offset_spec(&self) -> Vector2 {
        Vector2 {
            x: (self.width_spec() * self.crop_spec().left / CROP_SCALE as int) as i64,
            y: (self.height_spec() * self.crop_spec().top / CROP_SCALE as int) as i64,
        }
    }

    /// The size of the collidable box.
    pub open spec fn collision_size_spec(&self) -> Vector2 {
        Vector2 {
            x: (self.width_spec() * (self.crop_spec().right - self.crop_spec().left)
                / CROP_SCALE as int) as i64,
            y: (self.height_spec() * (self.crop_spec().bottom - self.crop_spec().top)
                / CROP_SCALE as int) as i64,
        }
    }

    /// The collidable box at the current map position.
    pub open spec fn collision_area_spec(&self) -> Rect {
        Rect {
            x: (self.position_spec().current.x + self.top_offset_spec().x) as i64,
            y: (self.position_spec().current.y + self.top_offset_spec().y) as i64,
            w: self.collision_size_spec().x,
            h: self.collision_size_spec().y,
        }
    }

    /// The map position of the collidable box's top-left corner.
    pub open spec fn collision_position_spec(&self) -> Point {
        Point {
            x: (self.position_spec().current.x + self.top_offset_spec().x) as i32,
            y: (self.position_spec().current.y + self.top_offset_spec().y) as i32,
        }
    }

    /// Everything but the position stays.
    pub open spec fn same_but_position(&self, o: &MapObject) -> bool {
        &&& self.speed_info_spec() == o.speed_info_spec()
        &&& self.crop_spec() == o.crop_spec()
        &&& self.width_spec() == o.width_spec()
        &&& self.height_spec() == o.height_spec()
        &&& self.mode_spec() == o.mode_spec()
        &&& self.display_spec() == o.display_spec()
    }

    pub fn new(
        drawing_w: u32,
        drawing_h: u32,
        mode: usize,
        speed_info: TextureSpeedInfo,
        map_position: Point,
        collision_crop: CollisionCrop,
    ) -> (r: MapObject)
        requires
            speed_info.wf(),
            collision_crop.wf(),
            drawing_w <= SPRITE_LIMIT,
            drawing_h <= SPRITE_LIMIT,
            position_fits(map_position, drawing_w, drawing_h),
        ensures
            r.wf(),
            r.position_spec() == (TwoStepPoint { previous: map_position, current: map_position }),
            r.display_spec() == (Vector2 { x: 0, y: 0 }),
            r.speed_info_spec() == speed_info,
            r.crop_spec() == collision_crop,
            r.width_spec() == drawing_w,
            r.height_spec() == drawing_h,
            r.mode_spec() == mode,
    {
        MapObject {
            map_position: TwoStepPoint { previous: map_position, current: map_position },
            display_position: Vector2 { x: 0, y: 0 },
            speed_info,
            collision_crop,
            drawing_w,
            drawing_h,
            animation_mode: mode,
        }
    }

    pub proof fn lemma_crop_bounds(&self)
        requires
            self.wf(),
        ensures
            0 <= self.top_offset_spec().x <= self.width_spec(),
            0 <= self.top_offset_spec().y <= self.height_spec(),
            0 <= self.collision_size_spec().x <= self.width_spec(),
            0 <= self.collision_size_spec().y <= self.height_spec(),
            self.width_spec() * self.crop_spec().left <= 7_000_000,
            self.height_spec() * self.crop_spec().top <= 7_000_000,
            self.width_spec() * (self.crop_spec().right - self.crop_spec().left) <= 7_000_000,
            self.height_spec() * (self.crop_spec().bottom - self.crop_spec().top) <= 7_000_000,
    {
        let w = self.width_spec() as int;
        let h = self.height_spec() as int;
        let c = self.crop_spec();
        assert(0 <= w * c.left / 100 <= w) by (nonlinear_arith)
            requires
                0 <= w,
                0 <= c.left <= 100,
        ;
        assert(0 <= h * c.top / 100 <= h) by (nonlinear_arith)
            requires
                0 <= h,
                0 <= c.top <= 100,
        ;
        assert(0 <= w * (c.right - c.left) / 100 <= w) by (nonlinear_arith)
            requires
                0 <= w,
                0 <= c.right - c.left <= 100,
        ;
        assert(0 <= h * (c.bottom - c.top) / 100 <= h) by (nonlinear_arith)
            requires
                0 <= h,
                0 <= c.bottom - c.top <= 100,
        ;
        assert(w * c.left <= 7_000_000 && w * (c.right - c.left) <= 7_000_000) by (nonlinear_arith)
            requires
                0 <= w <= 65536,
                0 <= c.left <= 100,
                0 <= c.right - c.left <= 100,
        ;
        assert(h * c.top <= 7_000_000 && h * (c.bottom - c.top) <= 7_000_000) by (nonlinear_arith)
            requires
                0 <= h <= 65536,
                0 <= c.top <= 100,
                0 <= c.bottom - c.top <= 100,
        ;
    }

    /// The size of the collidable box: the sprite's size scaled by the crop.
    pub fn get_collision_size(&self) -> (r: Vector2)
        requires
            self.wf(),
        ensures
            r == self.collision_size_spec(),
    {
        proof {
            self.lemma_crop_bounds();
        }
        let c = self.collision_crop;
        Vector2 {
            x: ((self.drawing_w as u64) * ((c.right - c.left) as u64) / (CROP_SCALE as u64)) as i64,
            y: ((self.drawing_h as u64) * ((c.bottom - c.top) as u64) / (CROP_SCALE as u64)) as i64,
        }
    }

    /// The offset of the collidable box from the sprite's top-left corner.
    pub fn get_collision_top_offset(&self) -> (r: Vector2)
        requires
            self.wf(),
        ensures
            r == self.top_offset_spec(),
    {
        proof {
            self.lemma_crop_bounds();
        }
        let c = self.collision_crop;
        Vector2 {
            x: ((self.drawing_w as u64) * (c.left as u64) / (CROP_SCALE as u64)) as i64,
            y: ((self.drawing_h as u64) * (c.top as u64) / (CROP_SCALE as u64)) as i64,
        }
    }

    /// The collidable box in map coordinates.
    pub fn get_collision_area(&self) -> (r: Rect)
        requires
            self.wf(),
        ensures
            r == self.collision_area_spec(),
            r.wf(),
    {
        proof {
            self.lemma_crop_bounds();
        }
        let off = self.get_collision_top_offset();
        let size = self.get_collision_size();
        Rect {
            x: (self.map_position.current.x as i64) + off.x,
            y: (self.map_position.current.y as i64) + off.y,
            w: size.x,
            h: size.y,
        }
    }

    pub fn speed_info(&self) -> (r: &TextureSpeedInfo)
        ensures
            r == self.speed_info_spec(),
    {
        &self.speed_info
    }

    /// Stores `speed`, clamped against the actor's speed border.
    pub fn set_speed(&mut self, speed: Vector2)
        requires
            old(self).wf(),
        ensures
            final(self).wf(),
            final(self).speed_info_spec().speed_spec() == old(
                self,
            ).speed_info_spec().border_spec().round_spec(speed.x as int, speed.y as int),
            final(self).speed_info_spec().border_spec() == old(
                self,
            ).speed_info_spec().border_spec(),
            final(self).position_spec() == old(self).position_spec(),
            final(self).crop_spec() == old(self).crop_spec(),
            final(self).width_spec() == old(self).width_spec(),
            final(self).height_spec() == old(self).height_spec(),
            final(self).mode_spec() == old(self).mode_spec(),
            final(self).display_spec() == old(self).display_spec(),
    {
        self.speed_info.set_speed(speed);
    }

    /// Shows the animation `mode`.
    pub fn change_animation_mode(&mut self, mode: usize)
        ensures
            final(self).mode_spec() == mode,
            final(self).position_spec() == old(self).position_spec(),
            final(self).speed_info_spec() == old(self).speed_info_spec(),
            final(self).crop_spec() == old(self).crop_spec(),
            final(self).width_spec() == old(self).width_spec(),
            final(self).height_spec() == old(self).height_spec(),
            final(self).display_spec() == old(self).display_spec(),
    {
        self.animation_mode = mode;
    }

    pub fn get_animation_mode(&self) -> (r: usize)
        ensures
            r == self.mode_spec(),
    {
        self.animation_mode
    }

    /// Returns to the position before the last step.
    pub fn undo_move(&mut self)
        requires
            old(self).wf(),
        ensures
            final(self).wf(),
            final(self).position_spec().current == old(self).position_spec().previous,
            final(self).position_spec().previous == old(self).position_spec().previous,
            final(self).same_but_position(old(self)),
    {
        self.map_position.current = self.map_position.previous;
    }

    /// The displacement of the last step.
    pub fn get_last_map_move_distance(&self) -> (r: Vector2)
        ensures
            r.x == self.position_spec().current.x - self.position_spec().previous.x,
            r.y == self.position_spec().current.y - self.position_spec().previous.y,
    {
        self.map_position.diff()
    }

    /// Steps by `offset`.
    pub fn move_map(&mut self, offset: Vector2)
        requires
            old(self).wf(),
            i32::MIN <= old(self).position_spec().current.x + offset.x,
            i32::MIN <= old(self).position_spec().current.y + offset.y,
            old(self).position_spec().current.x + offset.x + old(self).width_spec() <= i32::MAX,
            old(self).position_spec().current.y + offset.y + old(self).height_spec() <= i32::MAX,
        ensures
            final(self).wf(),
            final(self).position_spec().previous == old(self).position_spec().current,
            final(self).position_spec().current.x == old(self).position_spec().current.x
                + offset.x,
            final(self).position_spec().current.y == old(self).position_spec().current.y
                + offset.y,
            final(self).same_but_position(old(self)),
    {
        self.map_position.move_diff(&offset);
    }

    pub fn get_map_position(&self) -> (r: Point)
        ensures
            r == self.position_spec().current,
    {
        self.map_position.current
    }

    /// Steps to `position`.
    pub fn set_map_position(&mut self, position: Point)
        requires
            old(self).wf(),
            old(self).fits(position),
        ensures
            final(self).wf(),
            final(self).position_spec().previous == old(self).position_spec().current,
            final(self).position_spec().current == position,
            final(self).same_but_position(old(self)),
    {
        self.map_position.update(position);
    }

    /// The map position of the collidable box's top-left corner.
    pub fn get_map_position_with_collision_top_offset(&self) -> (r: Point)
        requires
            self.wf(),
        ensures
            r == self.collision_position_spec(),
            r.x == self.position_spec().current.x + self.top_offset_spec().x,
            r.y == self.position_spec().current.y + self.top_offset_spec().y,
    {
        proof {
            self.lemma_crop_bounds();
        }
        let off = self.get_collision_top_offset();
        Point {
            x: ((self.map_position.current.x as i64) + off.x) as i32,
            y: ((self.map_position.current.y as i64) + off.y) as i32,
        }
    }

    /// Steps so that the collidable box's top-left corner lands on
    /// `position`.
    pub fn set_map_position_with_collision_top_offset(&mut self, position: Point)
        requires
            old(self).wf(),
            i32::MIN <= position.x - old(self).top_offset_spec().x,
            i32::MIN <= position.y - old(self).top_offset_spec().y,
            position.x - old(self).top_offset_spec().x + old(self).width_spec() <= i32::MAX,
            position.y - old(self).top_offset_spec().y + old(self).height_spec() <= i32::MAX,
        ensures
            final(self).wf(),
            final(self).position_spec().previous == old(self).position_spec().current,
            final(self).position_spec().current.x == position.x - old(self).top_offset_spec().x,
            final(self).position_spec().current.y == position.y - old(self).top_offset_spec().y,
            final(self).same_but_position(old(self)),
            final(self).collision_position_spec() == position,
    {
        proof {
            self.lemma_crop_bounds();
        }
        let off = self.get_collision_top_offset();
        let p = Point {
            x: ((position.x as i64) - off.x) as i32,
            y: ((position.y as i64) - off.y) as i32,
        };
        self.map_position.update(p);
    }

    /// Records where the actor is drawn under `camera`.
    pub fn update_display_position(&mut self, camera: &Rect)
        requires
            camera.wf(),
        ensures
            final(self).display_spec() == crate::tile_grid::map_to_display_spec(
                old(self).position_spec().current,
                *camera,
            ),
            final(self).position_spec() == old(self).position_spec(),
            final(self).speed_info_spec() == old(self).speed_info_spec(),
            final(self).crop_spec() == old(self).crop_spec(),
            final(self).width_spec() == old(self).width_spec(),
            final(self).height_spec() == old(self).height_spec(),
            final(self).mode_spec() == old(self).mode_spec(),
    {
        self.display_position = crate::tile_grid::map_to_display(&self.map_position.current, camera);
    }

    pub fn get_display_position(&self) -> (r: Vector2)
        ensures
            r == self.display_spec(),
    {
        self.display_position
    }

    /// The vertical correction that takes this actor out of the collision
    /// that `info` reports; an error where it reports none.
    pub fn fix_collision_vertical(&self, info: &CollisionInfo) -> (r: Result<i64, CollisionError>)
        requires
            info.wf(),
        ensures
            !info.collision ==> r == Err::<i64, CollisionError>(CollisionError::InvalidState),
            info.collision ==> r == Ok::<i64, CollisionError>(vertical_correction(*info) as i64),
    {
        resolve_vertical(info)
    }

    /// The horizontal correction that takes this actor out of the collision
    /// that `info` reports; an error where it reports none.
    pub fn fix_collision_horizon(&self, info: &CollisionInfo) -> (r: Result<i64, CollisionError>)
        requires
            info.wf(),
        ensures
            !info.collision ==> r == Err::<i64, CollisionError>(CollisionError::InvalidState),
            info.collision ==> r == Ok::<i64, CollisionError>(horizontal_correction(*info) as i64),
    {
        resolve_horizontal(info)
    }

    /// Tests this actor's collidable box against another actor's.
    pub fn check_collision_with_character(&self, chara: &MapObject) -> (r: CollisionInfo)
        requires
            self.wf(),
            chara.wf(),
        ensures
            r == collision_info_of(self.collision_area_spec(), chara.collision_area_spec()),
            r.wf(),
    {
        let a1 = self.get_collision_area();
        let a2 = chara.get_collision_area();
        check_overlap(&a1, &a2)
    }
}

/// Tile `(x, y)` is the first blocked tile, row by row from the top left,
/// that `area` overlaps.
pub open spec fn first_hit(g: &TileGrid, area: Rect, x: int, y: int) -> bool {
    &&& g.blocked(x, y)
    &&& area.overlaps_spec(g.tile_rect_spec(x, y))
    &&& forall|cx: int, cy: int|
        #![trigger g.tile_rect_spec(cx, cy)]
        (cy < y || (cy == y && cx < x)) && g.blocked(cx, cy) ==> !area.overlaps_spec(
            g.tile_rect_spec(cx, cy),
        )
}

impl TileGrid {
    /// Tests an actor's collidable box against the blocked tiles of the grid
    /// and reports a collision with the first of those it overlaps, row by
    /// row from the top left; no collision where it overlaps none.
    pub fn check_character_collision(&self, chara: &MapObject) -> (r: CollisionInfo)
        requires
            self.wf(),
            chara.wf(),
        ensures
            r.wf(),
            !r.collision <==> forall|x: int, y: int|
                #![trigger self.tile_rect_spec(x, y)]
                self.blocked(x, y) ==> !chara.collision_area_spec().overlaps_spec(
                    self.tile_rect_spec(x, y),
                ),
            r.collision ==> exists|x: int, y: int|
                #![trigger self.tile_rect_spec(x, y)]
                first_hit(self, chara.collision_area_spec(), x, y) && r == collision_info_of(
                    chara.collision_area_spec(),
                    self.tile_rect_spec(x, y),
                ),
    {
        let area = chara.get_collision_area();
        let w = self.width();
        let h = self.height();
        let mut y: u32 = 0;
        while y < h
            invariant
                self.wf(),
                area == chara.collision_area_spec(),
                area.wf(),
                w == self.width_spec(),
                h == self.height_spec(),
                y <= h,
                forall|cx: int, cy: int|
                    #![trigger self.tile_rect_spec(cx, cy)]
                    0 <= cy < y && self.blocked(cx, cy) ==> !area.overlaps_spec(
                        self.tile_rect_spec(cx, cy),
                    ),
            decreases h - y,
        {
            let mut x: u32 = 0;
            while x < w
                invariant
                    self.wf(),
                    area == chara.collision_area_spec(),
                    area.wf(),
                    w == self.width_spec(),
                    h == self.height_spec(),
                    y < h,
                    x <= w,
                    forall|cx: int, cy: int|
                        #![trigger self.tile_rect_spec(cx, cy)]
                        0 <= cy < y && self.blocked(cx, cy) ==> !area.overlaps_spec(
                            self.tile_rect_spec(cx, cy),
                        ),
                    forall|cx: int|
                        #![trigger self.tile_rect_spec(cx, y as int)]
                        0 <= cx < x && self.blocked(cx, y as int) ==> !area.overlaps_spec(
                            self.tile_rect_spec(cx, y as int),
                        ),
                decreases w - x,
            {
                if !self.is_passable(x as i64, y as i64) {
                    let tile = self.tile_rect(x, y);
                    if area.overlaps(&tile) {
                        let r = check_overlap(&area, &tile);
                        proof {
                            assert(self.blocked(x as int, y as int));
                            assert(first_hit(self, area, x as int, y as int));
                        }
                        return r;
                    }
                }
                x = x + 1;
            }
            y = y + 1;
        }
        CollisionInfo::new_not_collision()
    }
}

} // verus!
