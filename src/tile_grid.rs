use vstd::prelude::*;

use crate::geometry::{Point, Rect, Vector2, COORD_LIMIT};

verus! {

/// The coordinate of one tile of the grid, counted in tiles from the top
/// left.
#[derive(Clone, Copy, Debug, PartialEq, Eq, Structural)]
pub struct TilePosition {
    pub x: u32,
    pub y: u32,
}

impl TilePosition {
    pub fn new(x: u32, y: u32) -> (r: TilePosition)
        ensures
            r == (TilePosition { x, y }),
    {
        TilePosition { x, y }
    }
}

/// The largest extent of a map in pixels, per axis. It leaves room for a
/// sprite drawn at the map's far edge within the `i32` range.
pub const MAP_PIXEL_LIMIT: i32 = 1_073_741_824;

/// The passability of a scene's tiles, the pixel size of one tile, and the
/// camera: the rectangle of the map that is on screen.
pub struct TileGrid {
    width: u32,
    height: u32,
    tile_size: u32,
    blocking: Vec<bool>,
    camera: Rect,
}

/// The screen position at which a map position is drawn under `camera`.
pub open spec fn map_to_display_spec(p: Point, camera: Rect) -> Vector2 {
    Vector2 { x: (p.x - camera.x) as i64, y: (p.y - camera.y) as i64 }
}

/// Where a map position is drawn: its offset from the camera's origin.
pub fn map_to_display(p: &Point, camera: &Rect) -> (r: Vector2)
    requires
        camera.wf(),
    ensures
        r == map_to_display_spec(*p, *camera),
{
    Vector2 { x: (p.x as i64) - camera.x, y: (p.y as i64) - camera.y }
}

impl TileGrid {
    pub closed spec fn width_spec(&self) -> int {
        self.width as int
    }

    pub closed spec fn height_spec(&self) -> int {
        self.height as int
    }

    pub closed spec fn tile_size_spec(&self) -> int {
        self.tile_size as int
    }

    pub closed spec fn camera_spec(&self) -> Rect {
        self.camera
    }

    /// The blocking flags, row by row.
    pub closed spec fn blocking_spec(&self) -> Seq<bool> {
        self.blocking@
    }

    pub open spec fn wf(&self) -> bool {
        &&& self.tile_size_spec() > 0
        &&& self.blocking_spec().len() == self.width_spec() * self.height_spec()
        &&& self.width_spec() * self.tile_size_spec() <= MAP_PIXEL_LIMIT
        &&& self.height_spec() * self.tile_size_spec() <= MAP_PIXEL_LIMIT
        &&& self.width_spec() >= 0
        &&& self.height_spec() >= 0
        &&& self.width_spec() * self.height_spec() <= usize::MAX
    }

    pub open spec fn in_bounds(&self, x: int, y: int) -> bool {
        0 <= x < self.width_spec() && 0 <= y < self.height_spec()
    }

    /// A tile that an actor may stand on; nothing outside the grid is.
    pub open spec fn passable(&self, x: int, y: int) -> bool {
        self.in_bounds(x, y) && !self.blocking_spec()[y * self.width_spec() + x]
    }

    pub open spec fn tile_to_map_spec(&self, t: TilePosition) -> Point {
        Point {
            x: (t.x * self.tile_size_spec()) as i32,
            y: (t.y * self.tile_size_spec()) as i32,
        }
    }

    pub open spec fn map_to_tile_spec(&self, p: Point) -> Option<TilePosition> {
        if p.x < 0 || p.y < 0 {
            None
        } else if (p.x as int) / self.tile_size_spec() >= self.width_spec() || (p.y as int) / self.tile_size_spec()
            >= self.height_spec() {
            None
        } else {
            Some(
                TilePosition {
                    x: ((p.x as int) / self.tile_size_spec()) as u32,
                    y: ((p.y as int) / self.tile_size_spec()) as u32,
                },
            )
        }
    }

    /// Builds the grid from the blocking flag of every tile, row by row.
    /// Gives `None` where the flags do not number `width * height`, the tile
    /// size is zero, or the map's pixel extent exceeds `MAP_PIXEL_LIMIT`.
    pub fn build_collision_map(
        width: u32,
        height: u32,
        tile_size: u32,
        blocking: Vec<bool>,
        camera: Rect,
    ) -> (r: Option<TileGrid>)
        ensures
            r.is_some() <==> (tile_size > 0 && blocking@.len() == width * height && width
                * tile_size <= MAP_PIXEL_LIMIT && height * tile_size <= MAP_PIXEL_LIMIT),
            r matches Some(g) ==> {
                &&& g.wf()
                &&& g.width_spec() == width
                &&& g.height_spec() == height
                &&& g.tile_size_spec() == tile_size
                &&& g.blocking_spec() == blocking@
                &&& g.camera_spec() == camera
            },
    {
        proof {
            lemma_u32_product_fits(width, height);
            lemma_u32_product_fits(width, tile_size);
            lemma_u32_product_fits(height, tile_size);
        }
        let cells: u64 = (width as u64) * (height as u64);
        if tile_size == 0 || (blocking.len() as u64) != cells || (width as u64) * (tile_size as u64)
            > (MAP_PIXEL_LIMIT as u64) || (height as u64) * (tile_size as u64) > (
        MAP_PIXEL_LIMIT as u64) {
            return None;
        }
        let n = blocking.len();
        assert(n <= usize::MAX);
        Some(TileGrid { width, height, tile_size, blocking, camera })
    }

    pub fn width(&self) -> (r: u32)
        ensures
            r == self.width_spec(),
    {
        self.width
    }

    pub fn height(&self) -> (r: u32)
        ensures
            r == self.height_spec(),
    {
        self.height
    }

    pub fn tile_size(&self) -> (r: u32)
        ensures
            r == self.tile_size_spec(),
    {
        self.tile_size
    }

    pub fn camera(&self) -> (r: Rect)
        ensures
            r == self.camera_spec(),
    {
        self.camera
    }

    /// Whether the tile at `(x, y)` can be entered; `false` outside the grid.
    pub fn is_passable(&self, x: i64, y: i64) -> (r: bool)
        requires
            self.wf(),
        ensures
            r == self.passable(x as int, y as int),
    {
        if x < 0 || y < 0 || x >= self.width as i64 || y >= self.height as i64 {
            return false;
        }
        proof {
            let w = self.width as int;
            let h = self.height as int;
            assert(y * w + x < w * h) by (nonlinear_arith)
                requires
                    0 <= x < w,
                    0 <= y < h,
            ;
            assert(y * w >= 0) by (nonlinear_arith)
                requires
                    0 <= x < w,
                    0 <= y < h,
            ;
        }
        let yu = y as usize;
        let xu = x as usize;
        let wu = self.width as usize;
        let n = self.blocking.len();
        assert(yu * wu + xu < n);
        let idx = yu * wu + xu;
        !self.blocking[idx]
    }

    /// The map position of the top-left corner of tile `t`.
    pub fn tile_position_to_map_position(&self, t: TilePosition) -> (r: Point)
        requires
            self.wf(),
            self.in_bounds(t.x as int, t.y as int),
        ensures
            r == self.tile_to_map_spec(t),
            r.x == t.x * self.tile_size_spec(),
            r.y == t.y * self.tile_size_spec(),
    {
        proof {
            let ts = self.tile_size as int;
            assert(t.x * ts >= 0 && t.y * ts >= 0) by (nonlinear_arith)
                requires
                    t.x >= 0,
                    t.y >= 0,
                    ts > 0,
            ;
            assert(t.x * ts <= self.width * ts) by (nonlinear_arith)
                requires
                    t.x < self.width,
                    ts > 0,
            ;
            assert(t.y * ts <= self.height * ts) by (nonlinear_arith)
                requires
                    t.y < self.height,
                    ts > 0,
            ;
        }
        Point {
            x: ((t.x as i64) * (self.tile_size as i64)) as i32,
            y: ((t.y as i64) * (self.tile_size as i64)) as i32,
        }
    }

    /// The area that tile `(x, y)` covers on the map.
    pub open spec fn tile_rect_spec(&self, x: int, y: int) -> Rect {
        Rect {
            x: (x * self.tile_size_spec()) as i64,
            y: (y * self.tile_size_spec()) as i64,
            w: self.tile_size_spec() as i64,
            h: self.tile_size_spec() as i64,
        }
    }

    /// A tile of the grid that actors cannot enter.
    pub open spec fn blocked(&self, x: int, y: int) -> bool {
        self.in_bounds(x, y) && !self.passable(x, y)
    }

    /// The area that tile `(x, y)` covers on the map.
    pub fn tile_rect(&self, x: u32, y: u32) -> (r: Rect)
        requires
            self.wf(),
            self.in_bounds(x as int, y as int),
        ensures
            r == self.tile_rect_spec(x as int, y as int),
            r.wf(),
    {
        let p = self.tile_position_to_map_position(TilePosition { x, y });
        proof {
            assert(self.tile_size_spec() <= self.width_spec() * self.tile_size_spec())
                by (nonlinear_arith)
                requires
                    self.width_spec() >= 1,
                    self.tile_size_spec() > 0,
            ;
        }
        Rect { x: p.x as i64, y: p.y as i64, w: self.tile_size as i64, h: self.tile_size as i64 }
    }

    /// The tile that holds map position `p`, or `None` outside the grid.
    pub fn map_position_to_tile_position(&self, p: Point) -> (r: Option<TilePosition>)
        requires
            self.wf(),
        ensures
            r == self.map_to_tile_spec(p),
    {
        if p.x < 0 || p.y < 0 {
            return None;
        }
        let tx = (p.x as u32) / self.tile_size;
        let ty = (p.y as u32) / self.tile_size;
        if tx >= self.width || ty >= self.height {
            return None;
        }
        Some(TilePosition { x: tx, y: ty })
    }

    /// Moves the camera by `offset`; nothing keeps it inside the map.
    pub fn move_camera(&mut self, offset: Vector2)
        requires
            -COORD_LIMIT <= old(self).camera_spec().x + offset.x <= COORD_LIMIT,
            -COORD_LIMIT <= old(self).camera_spec().y + offset.y <= COORD_LIMIT,
        ensures
            final(self).camera_spec() == (Rect {
                x: (old(self).camera_spec().x + offset.x) as i64,
                y: (old(self).camera_spec().y + offset.y) as i64,
                ..old(self).camera_spec()
            }),
            final(self).width_spec() == old(self).width_spec(),
            final(self).height_spec() == old(self).height_spec(),
            final(self).tile_size_spec() == old(self).tile_size_spec(),
            final(self).blocking_spec() == old(self).blocking_spec(),
    {
        self.camera.x = self.camera.x + offset.x;
        self.camera.y = self.camera.y + offset.y;
    }
}

proof fn lemma_u32_product_fits(a: u32, b: u32)
    ensures
        0 <= a * b <= u64::MAX,
{
    assert(0 <= a * b <= u32::MAX * u32::MAX) by (nonlinear_arith)
        requires
            0 <= a <= u32::MAX,
            0 <= b <= u32::MAX,
    ;
}

/// The map position of a tile inside the grid leads back to that tile.
pub proof fn lemma_tile_map_round_trip(g: &TileGrid, t: TilePosition)
    requires
        g.wf(),
        g.in_bounds(t.x as int, t.y as int),
    ensures
        g.map_to_tile_spec(g.tile_to_map_spec(t)) == Some(t),
{
    let ts = g.tile_size_spec();
    assert(t.x * ts <= g.width_spec() * ts) by (nonlinear_arith)
        requires
            t.x < g.width_spec(),
            ts > 0,
    ;
    assert(t.y * ts <= g.height_spec() * ts) by (nonlinear_arith)
        requires
            t.y < g.height_spec(),
            ts > 0,
    ;
    assert(t.x * ts >= 0) by (nonlinear_arith)
        requires
            t.x >= 0,
            ts > 0,
    ;
    assert(t.y * ts >= 0) by (nonlinear_arith)
        requires
            t.y >= 0,
            ts > 0,
    ;
    vstd::arithmetic::div_mod::lemma_div_multiples_vanish(t.x as int, ts);
    vstd::arithmetic::div_mod::lemma_div_multiples_vanish(t.y as int, ts);
    assert(ts * t.x == t.x * ts) by (nonlinear_arith);
    assert(ts * t.y == t.y * ts) by (nonlinear_arith);
}

} // verus!
