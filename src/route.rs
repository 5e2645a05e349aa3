use vstd::prelude::*;

use crate::tile_grid::{TileGrid, TilePosition};

verus! {

/// Tile `(x, y)` can be reached from `start` in at most `k` steps, each step
/// to one of the four neighbouring tiles, over passable tiles only.
pub open spec fn reach(g: &TileGrid, start: TilePosition, x: int, y: int, k: nat) -> bool
    decreases k,
{
    if k == 0 {
        x == start.x && y == start.y && g.passable(x, y)
    } else {
        reach(g, start, x, y, (k - 1) as nat) || (g.passable(x, y) && (reach(
            g,
            start,
            x,
            y - 1,
            (k - 1) as nat,
        ) || reach(g, start, x, y + 1, (k - 1) as nat) || reach(
            g,
            start,
            x - 1,
            y,
            (k - 1) as nat,
        ) || reach(g, start, x + 1, y, (k - 1) as nat)))
    }
}

/// Some walk leads from `start` to `goal`.
pub open spec fn route_exists(g: &TileGrid, start: TilePosition, goal: TilePosition) -> bool {
    exists|k: nat| reach(g, start, goal.x as int, goal.y as int, k)
}

/// The two tiles share an edge.
pub open spec fn adjacent(a: TilePosition, b: TilePosition) -> bool {
    let dx = a.x - b.x;
    let dy = a.y - b.y;
    (dx == 0 && (dy == 1 || dy == -1)) || (dy == 0 && (dx == 1 || dx == -1))
}

/// The tile from which step `i` of `route` is taken.
pub open spec fn step_from(start: TilePosition, route: Seq<TilePosition>, i: int) -> TilePosition {
    if i == 0 {
        start
    } else {
        route[i - 1]
    }
}

/// `route` is a walk from `start` to `goal` over passable tiles, one
/// neighbouring tile per step; it leaves `start` out and ends with `goal`.
pub open spec fn is_route(
    g: &TileGrid,
    start: TilePosition,
    goal: TilePosition,
    route: Seq<TilePosition>,
) -> bool {
    &&& g.passable(start.x as int, start.y as int)
    &&& route.len() == 0 ==> start == goal
    &&& route.len() > 0 ==> route.last() == goal
    &&& forall|i: int|
        0 <= i < route.len() ==> {
            &&& g.passable(#[trigger] route[i].x as int, route[i].y as int)
            &&& adjacent(step_from(start, route, i), route[i])
        }
}

/// `route` is a walk from `start` to `goal` and no walk of fewer steps
/// exists.
pub open spec fn is_shortest_route(
    g: &TileGrid,
    start: TilePosition,
    goal: TilePosition,
    route: Seq<TilePosition>,
) -> bool {
    &&& is_route(g, start, goal, route)
    &&& forall|k: nat| k < route.len() ==> !reach(g, start, goal.x as int, goal.y as int, k)
}

/// The tile that a route reaching `(x, y)` in `j` steps comes from: the
/// first of its neighbours up, down, left and right that lies exactly
/// `j - 1` steps from `start`.
pub open spec fn first_predecessor(
    g: &TileGrid,
    start: TilePosition,
    x: int,
    y: int,
    j: nat,
) -> (int, int) {
    let p = (j - 1) as nat;
    if shortest(g, start, x, y - 1, p) {
        (x, y - 1)
    } else if shortest(g, start, x, y + 1, p) {
        (x, y + 1)
    } else if shortest(g, start, x - 1, y, p) {
        (x - 1, y)
    } else {
        (x + 1, y)
    }
}

/// Each step of `route` comes from the neighbour that `first_predecessor`
/// picks: of several shortest routes, the one that the search order up,
/// down, left, right gives.
pub open spec fn follows_search_order(
    g: &TileGrid,
    start: TilePosition,
    route: Seq<TilePosition>,
) -> bool {
    forall|i: int|
        0 <= i < route.len() ==> {
            let p = step_from(start, route, i);
            (p.x as int, p.y as int) == first_predecessor(
                g,
                start,
                #[trigger] route[i].x as int,
                route[i].y as int,
                (i + 1) as nat,
            )
        }
}

/// The fewest steps from `start` to `(x, y)` are exactly `d`.
pub open spec fn shortest(g: &TileGrid, start: TilePosition, x: int, y: int, d: nat) -> bool {
    reach(g, start, x, y, d) && (d == 0 || !reach(g, start, x, y, (d - 1) as nat))
}

/// The search level recorded for tile `(x, y)`; `None` outside the grid.
pub open spec fn cell(d: Seq<Vec<Option<usize>>>, x: int, y: int) -> Option<usize> {
    if 0 <= y < d.len() && 0 <= x < d[y]@.len() {
        d[y]@[x]
    } else {
        None
    }
}

pub open spec fn has_shape(g: &TileGrid, d: Seq<Vec<Option<usize>>>) -> bool {
    &&& d.len() == g.height_spec()
    &&& forall|y: int| 0 <= y < d.len() ==> #[trigger] d[y]@.len() == g.width_spec()
}

/// After the search has run to level `k`: each recorded level is the exact
/// distance of its tile, none exceeds `k`, and every tile within `k` steps
/// has one.
pub open spec fn levels_complete(
    g: &TileGrid,
    start: TilePosition,
    d: Seq<Vec<Option<usize>>>,
    k: nat,
) -> bool {
    &&& has_shape(g, d)
    &&& forall|x: int, y: int| #[trigger]
        cell(d, x, y) matches Some(j) ==> j <= k && shortest(g, start, x, y, j as nat)
    &&& forall|x: int, y: int| #[trigger]
        reach(g, start, x, y, k) ==> cell(d, x, y).is_some()
}

/// What one more round of the search records for tile `(x, y)`.
pub open spec fn next_level(
    g: &TileGrid,
    d: Seq<Vec<Option<usize>>>,
    k: nat,
    x: int,
    y: int,
) -> Option<usize> {
    if cell(d, x, y).is_some() {
        cell(d, x, y)
    } else if g.passable(x, y) && (cell(d, x, y - 1) == Some(k as usize) || cell(d, x, y + 1)
        == Some(k as usize) || cell(d, x - 1, y) == Some(k as usize) || cell(d, x + 1, y) == Some(
        k as usize,
    )) {
        Some((k + 1) as usize)
    } else {
        None
    }
}

pub open spec fn row_count(r: Seq<Option<usize>>) -> nat
    decreases r.len(),
{
    if r.len() == 0 {
        0
    } else {
        row_count(r.drop_last()) + if r.last().is_some() {
            1nat
        } else {
            0nat
        }
    }
}

/// How many tiles have a recorded level.
pub open spec fn level_count(d: Seq<Vec<Option<usize>>>) -> nat
    decreases d.len(),
{
    if d.len() == 0 {
        0
    } else {
        level_count(d.drop_last()) + row_count(d.last()@)
    }
}

pub proof fn lemma_reach_mono(g: &TileGrid, start: TilePosition, x: int, y: int, a: nat, b: nat)
    requires
        a <= b,
        reach(g, start, x, y, a),
    ensures
        reach(g, start, x, y, b),
    decreases b - a,
{
    if a < b {
        lemma_reach_mono(g, start, x, y, a, (b - 1) as nat);
    }
}

pub proof fn lemma_reach_passable(g: &TileGrid, start: TilePosition, x: int, y: int, k: nat)
    requires
        reach(g, start, x, y, k),
    ensures
        g.passable(x, y),
    decreases k,
{
    if k > 0 && reach(g, start, x, y, (k - 1) as nat) {
        lemma_reach_passable(g, start, x, y, (k - 1) as nat);
    }
}

proof fn lemma_row_count_bound(r: Seq<Option<usize>>)
    ensures
        row_count(r) <= r.len(),
    decreases r.len(),
{
    if r.len() > 0 {
        lemma_row_count_bound(r.drop_last());
    }
}

proof fn lemma_level_count_bound(d: Seq<Vec<Option<usize>>>, w: int)
    requires
        w >= 0,
        forall|y: int| 0 <= y < d.len() ==> #[trigger] d[y]@.len() == w,
    ensures
        level_count(d) <= d.len() * w,
    decreases d.len(),
{
    if d.len() > 0 {
        let p = d.drop_last();
        assert forall|y: int| 0 <= y < p.len() implies #[trigger] p[y]@.len() == w by {
            assert(p[y] == d[y]);
        }
        lemma_level_count_bound(p, w);
        lemma_row_count_bound(d.last()@);
        assert(d.last()@.len() == w);
        assert((d.len() - 1) * w + w == d.len() * w) by (nonlinear_arith);
    }
}

/// A row where every recorded level stays recorded counts at least as many
/// levels, and one more where a new tile gained one.
proof fn lemma_row_count_grows(a: Seq<Option<usize>>, b: Seq<Option<usize>>, i: int)
    requires
        a.len() == b.len(),
        forall|j: int| 0 <= j < a.len() && (#[trigger] a[j]).is_some() ==> b[j].is_some(),
    ensures
        row_count(a) <= row_count(b),
        0 <= i < a.len() && a[i].is_none() && b[i].is_some() ==> row_count(a) < row_count(b),
    decreases a.len(),
{
    if a.len() > 0 {
        let pa = a.drop_last();
        let pb = b.drop_last();
        assert forall|j: int| 0 <= j < pa.len() && (#[trigger] pa[j]).is_some() implies pb[
            j].is_some() by {
            assert(pa[j] == a[j]);
            assert(pb[j] == b[j]);
        }
        lemma_row_count_grows(pa, pb, i);
        if 0 <= i < pa.len() {
            assert(pa[i] == a[i]);
            assert(pb[i] == b[i]);
        }
    }
}

proof fn lemma_level_count_grows(
    a: Seq<Vec<Option<usize>>>,
    b: Seq<Vec<Option<usize>>>,
    x: int,
    y: int,
)
    requires
        a.len() == b.len(),
        forall|r: int| 0 <= r < a.len() ==> (#[trigger] a[r])@.len() == b[r]@.len(),
        forall|c: int, r: int| (#[trigger] cell(a, c, r)).is_some() ==> cell(b, c, r).is_some(),
    ensures
        level_count(a) <= level_count(b),
        cell(a, x, y).is_none() && cell(b, x, y).is_some() ==> level_count(a) < level_count(b),
    decreases a.len(),
{
    if a.len() > 0 {
        let pa = a.drop_last();
        let pb = b.drop_last();
        let last = a.len() - 1;
        assert forall|r: int| 0 <= r < pa.len() implies (#[trigger] pa[r])@.len() == pb[r]@.len() by {
            assert(pa[r] == a[r]);
            assert(pb[r] == b[r]);
        }
        assert forall|c: int, r: int| (#[trigger] cell(pa, c, r)).is_some() implies cell(
            pb,
            c,
            r,
        ).is_some() by {
            assert(pa[r] == a[r]);
            assert(pb[r] == b[r]);
            assert(cell(a, c, r).is_some());
        }
        lemma_level_count_grows(pa, pb, x, y);
        assert forall|j: int|
            0 <= j < a.last()@.len() && (#[trigger] a.last()@[j]).is_some() implies b.last()@[
            j].is_some() by {
            assert(cell(a, j, last).is_some());
        }
        lemma_row_count_grows(a.last()@, b.last()@, x);
        if 0 <= y < pa.len() {
            assert(pa[y] == a[y]);
            assert(pb[y] == b[y]);
        }
    }
}

proof fn lemma_row_count_positive(r: Seq<Option<usize>>, i: int)
    requires
        0 <= i < r.len(),
        r[i].is_some(),
    ensures
        row_count(r) >= 1,
    decreases r.len(),
{
    if i < r.len() - 1 {
        assert(r.drop_last()[i] == r[i]);
        lemma_row_count_positive(r.drop_last(), i);
    }
}

proof fn lemma_level_count_positive(d: Seq<Vec<Option<usize>>>, x: int, y: int)
    requires
        cell(d, x, y).is_some(),
    ensures
        level_count(d) >= 1,
    decreases d.len(),
{
    if y < d.len() - 1 {
        assert(d.drop_last()[y] == d[y]);
        lemma_level_count_positive(d.drop_last(), x, y);
    } else {
        lemma_row_count_positive(d.last()@, x);
    }
}

/// One round of the search carries the invariant from level `k` to `k + 1`.
proof fn lemma_round(
    g: &TileGrid,
    start: TilePosition,
    d: Seq<Vec<Option<usize>>>,
    nd: Seq<Vec<Option<usize>>>,
    k: nat,
)
    requires
        levels_complete(g, start, d, k),
        has_shape(g, nd),
        k < usize::MAX,
        forall|x: int, y: int|
            g.in_bounds(x, y) ==> #[trigger] cell(nd, x, y) == next_level(g, d, k, x, y),
    ensures
        levels_complete(g, start, nd, k + 1),
{
    assert forall|x: int, y: int| #[trigger]
        cell(nd, x, y).is_some() implies cell(nd, x, y).unwrap() <= k + 1 && shortest(
        g,
        start,
        x,
        y,
        cell(nd, x, y).unwrap() as nat,
    ) by {
        assert(g.in_bounds(x, y));
        if cell(d, x, y).is_none() {
            let kk = k as usize;
            if cell(d, x, y - 1) == Some(kk) {
                assert(reach(g, start, x, y - 1, k));
            } else if cell(d, x, y + 1) == Some(kk) {
                assert(reach(g, start, x, y + 1, k));
            } else if cell(d, x - 1, y) == Some(kk) {
                assert(reach(g, start, x - 1, y, k));
            } else {
                assert(reach(g, start, x + 1, y, k));
            }
            assert(reach(g, start, x, y, k + 1));
        }
    }
    assert forall|x: int, y: int| #[trigger]
        reach(g, start, x, y, k + 1) implies cell(nd, x, y).is_some() by {
        lemma_reach_passable(g, start, x, y, k + 1);
        if !reach(g, start, x, y, k) && cell(d, x, y).is_none() {
            let (ux, uy) = if reach(g, start, x, y - 1, k) {
                (x, y - 1)
            } else if reach(g, start, x, y + 1, k) {
                (x, y + 1)
            } else if reach(g, start, x - 1, y, k) {
                (x - 1, y)
            } else {
                (x + 1, y)
            };
            assert(reach(g, start, ux, uy, k));
            let j = cell(d, ux, uy).unwrap();
            assert(shortest(g, start, ux, uy, j as nat));
            if j < k {
                assert(reach(g, start, x, y, (j + 1) as nat));
                lemma_reach_mono(g, start, x, y, (j + 1) as nat, k);
            }
            assert(cell(d, ux, uy) == Some(k as usize));
        }
    }
}

/// Where a round adds no level, no walk of any length reaches further than
/// `k` steps do.
proof fn lemma_stable(g: &TileGrid, start: TilePosition, k: nat, j: nat)
    requires
        k <= j,
        forall|x: int, y: int| #[trigger]
            reach(g, start, x, y, k + 1) ==> reach(g, start, x, y, k),
    ensures
        forall|x: int, y: int| #[trigger] reach(g, start, x, y, j) ==> reach(g, start, x, y, k),
    decreases j - k,
{
    if j > k {
        lemma_stable(g, start, k, (j - 1) as nat);
        assert forall|x: int, y: int| #[trigger]
            reach(g, start, x, y, j) implies reach(g, start, x, y, k) by {
            if !reach(g, start, x, y, (j - 1) as nat) {
                if reach(g, start, x, y - 1, (j - 1) as nat) {
                    assert(reach(g, start, x, y - 1, k));
                } else if reach(g, start, x, y + 1, (j - 1) as nat) {
                    assert(reach(g, start, x, y + 1, k));
                } else if reach(g, start, x - 1, y, (j - 1) as nat) {
                    assert(reach(g, start, x - 1, y, k));
                } else {
                    assert(reach(g, start, x + 1, y, (j - 1) as nat));
                    assert(reach(g, start, x + 1, y, k));
                }
                assert(reach(g, start, x, y, k + 1));
            }
        }
    }
}

/// Nothing is reachable from a start tile that cannot be stood on.
proof fn lemma_blocked_start(g: &TileGrid, start: TilePosition, x: int, y: int, k: nat)
    requires
        !g.passable(start.x as int, start.y as int),
    ensures
        !reach(g, start, x, y, k),
    decreases k,
{
    if k > 0 {
        lemma_blocked_start(g, start, x, y, (k - 1) as nat);
        lemma_blocked_start(g, start, x, y - 1, (k - 1) as nat);
        lemma_blocked_start(g, start, x, y + 1, (k - 1) as nat);
        lemma_blocked_start(g, start, x - 1, y, (k - 1) as nat);
        lemma_blocked_start(g, start, x + 1, y, (k - 1) as nat);
    }
}

/// Where a round of the search adds nothing and the goal has no level, no
/// walk of any length reaches the goal.
proof fn lemma_unreachable_when_stable(
    g: &TileGrid,
    start: TilePosition,
    goal: TilePosition,
    d: Seq<Vec<Option<usize>>>,
    nd: Seq<Vec<Option<usize>>>,
    k: nat,
)
    requires
        levels_complete(g, start, d, k),
        levels_complete(g, start, nd, k + 1),
        forall|x: int, y: int| #[trigger] cell(nd, x, y) == cell(d, x, y),
        cell(d, goal.x as int, goal.y as int).is_none(),
    ensures
        !route_exists(g, start, goal),
{
    assert forall|x: int, y: int| #[trigger] reach(g, start, x, y, k + 1) implies reach(
        g,
        start,
        x,
        y,
        k,
    ) by {
        assert(cell(nd, x, y) == cell(d, x, y));
        let j = cell(d, x, y).unwrap();
        lemma_reach_mono(g, start, x, y, j as nat, k);
    }
    assert forall|j: nat| !reach(g, start, goal.x as int, goal.y as int, j) by {
        if j <= k {
            if reach(g, start, goal.x as int, goal.y as int, j) {
                lemma_reach_mono(g, start, goal.x as int, goal.y as int, j, k);
            }
        } else {
            lemma_stable(g, start, k, j);
        }
        assert(!reach(g, start, goal.x as int, goal.y as int, k));
    }
}

/// A round that reports a change records strictly more levels.
proof fn lemma_round_grows(
    g: &TileGrid,
    d: Seq<Vec<Option<usize>>>,
    nd: Seq<Vec<Option<usize>>>,
    k: nat,
)
    requires
        has_shape(g, d),
        has_shape(g, nd),
        forall|x: int, y: int|
            g.in_bounds(x, y) ==> #[trigger] cell(nd, x, y) == next_level(g, d, k, x, y),
        exists|x: int, y: int|
            #![trigger cell(d, x, y)]
            cell(d, x, y).is_none() && cell(nd, x, y).is_some(),
    ensures
        level_count(d) < level_count(nd),
{
    let (wx, wy) = choose|x: int, y: int|
        #![trigger cell(d, x, y)]
        cell(d, x, y).is_none() && cell(nd, x, y).is_some();
    assert forall|c: int, r: int| (#[trigger] cell(d, c, r)).is_some() implies cell(
        nd,
        c,
        r,
    ).is_some() by {
        assert(g.in_bounds(c, r));
    }
    assert forall|r: int| 0 <= r < d.len() implies (#[trigger] d[r])@.len() == nd[r]@.len() by {}
    lemma_level_count_grows(d, nd, wx, wy);
}

/// Within the levels searched, a recorded level is exactly the distance.
proof fn lemma_level_iff_shortest(
    g: &TileGrid,
    start: TilePosition,
    d: Seq<Vec<Option<usize>>>,
    k: nat,
    x: int,
    y: int,
    j: usize,
)
    requires
        levels_complete(g, start, d, k),
        j <= k,
    ensures
        cell(d, x, y) == Some(j) <==> shortest(g, start, x, y, j as nat),
{
    if shortest(g, start, x, y, j as nat) {
        lemma_reach_mono(g, start, x, y, j as nat, k);
        let e = cell(d, x, y).unwrap();
        assert(shortest(g, start, x, y, e as nat));
        if e < j {
            lemma_reach_mono(g, start, x, y, e as nat, (j - 1) as nat);
        }
        if e > j {
            lemma_reach_mono(g, start, x, y, j as nat, (e - 1) as nat);
        }
    }
}

/// A tile at level `j > 0` has a neighbour at level `j - 1`.
proof fn lemma_predecessor(
    g: &TileGrid,
    start: TilePosition,
    d: Seq<Vec<Option<usize>>>,
    k: nat,
    x: int,
    y: int,
    j: usize,
)
    requires
        levels_complete(g, start, d, k),
        cell(d, x, y) == Some(j),
        j > 0,
    ensures
        cell(d, x, y - 1) == Some((j - 1) as usize) || cell(d, x, y + 1) == Some((j - 1) as usize)
            || cell(d, x - 1, y) == Some((j - 1) as usize) || cell(d, x + 1, y) == Some(
            (j - 1) as usize,
        ),
{
    let p = (j - 1) as nat;
    assert(shortest(g, start, x, y, j as nat));
    let (ux, uy) = if reach(g, start, x, y - 1, p) {
        (x, y - 1)
    } else if reach(g, start, x, y + 1, p) {
        (x, y + 1)
    } else if reach(g, start, x - 1, y, p) {
        (x - 1, y)
    } else {
        (x + 1, y)
    };
    assert(reach(g, start, ux, uy, p));
    lemma_reach_mono(g, start, ux, uy, p, k);
    let q = cell(d, ux, uy).unwrap();
    assert(shortest(g, start, ux, uy, q as nat));
    if q > p {
        lemma_reach_mono(g, start, ux, uy, p, (q - 1) as nat);
    }
    if q < p {
        lemma_reach_passable(g, start, x, y, j as nat);
        assert(reach(g, start, x, y, (q + 1) as nat));
        lemma_reach_mono(g, start, x, y, (q + 1) as nat, p);
    }
}

/// The level recorded for `(x, y)`; `None` outside the grid.
fn level_at(d: &Vec<Vec<Option<usize>>>, x: i64, y: i64) -> (r: Option<usize>)
    ensures
        r == cell(d@, x as int, y as int),
{
    if y < 0 || (y as u64) >= (d.len() as u64) {
        return None;
    }
    let row = &d[y as usize];
    if x < 0 || (x as u64) >= (row.len() as u64) {
        return None;
    }
    row[x as usize]
}

/// Whether `(x, y)` is recorded at level `k`.
fn is_level(d: &Vec<Vec<Option<usize>>>, x: i64, y: i64, k: usize) -> (r: bool)
    ensures
        r == (cell(d@, x as int, y as int) == Some(k)),
{
    match level_at(d, x, y) {
        Some(v) => v == k,
        None => false,
    }
}

impl TileGrid {
    /// One round of the search: records level `k + 1` for each passable tile
    /// without a level that borders a tile at level `k`. Also tells whether
    /// any tile gained a level.
    fn next_round(&self, d: &Vec<Vec<Option<usize>>>, k: usize) -> (r: (
        Vec<Vec<Option<usize>>>,
        bool,
    ))
        requires
            self.wf(),
            has_shape(self, d@),
            k < usize::MAX,
        ensures
            has_shape(self, r.0@),
            forall|x: int, y: int|
                self.in_bounds(x, y) ==> #[trigger] cell(r.0@, x, y) == next_level(
                    self,
                    d@,
                    k as nat,
                    x,
                    y,
                ),
            r.1 ==> exists|x: int, y: int|
                #![trigger cell(d@, x, y)]
                cell(d@, x, y).is_none() && cell(r.0@, x, y).is_some(),
            !r.1 ==> forall|x: int, y: int| #[trigger] cell(r.0@, x, y) == cell(d@, x, y),
    {
        let w = self.width();
        let h = self.height();
        let mut nd: Vec<Vec<Option<usize>>> = Vec::new();
        let mut changed = false;
        let ghost mut wit: (int, int) = (0, 0);
        let mut y: u32 = 0;
        while y < h
            invariant
                self.wf(),
                has_shape(self, d@),
                k < usize::MAX,
                w == self.width_spec(),
                h == self.height_spec(),
                y <= h,
                nd@.len() == y,
                forall|r: int| 0 <= r < y ==> #[trigger] nd@[r]@.len() == w,
                forall|cx: int, cy: int|
                    0 <= cx < w && 0 <= cy < y ==> #[trigger] cell(nd@, cx, cy) == next_level(
                        self,
                        d@,
                        k as nat,
                        cx,
                        cy,
                    ),
                changed ==> self.in_bounds(wit.0, wit.1) && cell(d@, wit.0, wit.1).is_none()
                    && next_level(self, d@, k as nat, wit.0, wit.1).is_some(),
                !changed ==> forall|cx: int, cy: int|
                    0 <= cx < w && 0 <= cy < y ==> #[trigger] cell(nd@, cx, cy) == cell(
                        d@,
                        cx,
                        cy,
                    ),
            decreases h - y,
        {
            let mut row: Vec<Option<usize>> = Vec::new();
            let mut x: u32 = 0;
            let ghost before = nd@;
            while x < w
                invariant
                    self.wf(),
                    has_shape(self, d@),
                    k < usize::MAX,
                    w == self.width_spec(),
                    h == self.height_spec(),
                    y < h,
                    x <= w,
                    nd@ == before,
                    row@.len() == x,
                    forall|cx: int|
                        0 <= cx < x ==> #[trigger] row@[cx] == next_level(
                            self,
                            d@,
                            k as nat,
                            cx,
                            y as int,
                        ),
                    changed ==> self.in_bounds(wit.0, wit.1) && cell(d@, wit.0, wit.1).is_none()
                        && next_level(self, d@, k as nat, wit.0, wit.1).is_some(),
                    !changed ==> forall|cx: int|
                        0 <= cx < x ==> #[trigger] row@[cx] == cell(d@, cx, y as int),
                    !changed ==> forall|cx: int, cy: int|
                        0 <= cx < w && 0 <= cy < y ==> #[trigger] cell(before, cx, cy) == cell(
                            d@,
                            cx,
                            cy,
                        ),
                decreases w - x,
            {
                let xi = x as i64;
                let yi = y as i64;
                let cur = level_at(d, xi, yi);
                let v = if cur.is_some() {
                    cur
                } else if self.is_passable(xi, yi) && (is_level(d, xi, yi - 1, k) || is_level(
                    d,
                    xi,
                    yi + 1,
                    k,
                ) || is_level(d, xi - 1, yi, k) || is_level(d, xi + 1, yi, k)) {
                    changed = true;
                    proof {
                        wit = (x as int, y as int);
                    }
                    Some(k + 1)
                } else {
                    None
                };
                row.push(v);
                assert(row@[x as int] == v);
                x = x + 1;
            }
            nd.push(row);
            proof {
                assert forall|cx: int, cy: int|
                    0 <= cx < w && 0 <= cy < y + 1 implies #[trigger] cell(nd@, cx, cy)
                    == next_level(self, d@, k as nat, cx, cy) by {
                    if cy < y {
                        assert(nd@[cy] == before[cy]);
                        assert(cell(before, cx, cy) == next_level(self, d@, k as nat, cx, cy));
                    }
                }
                if !changed {
                    assert forall|cx: int, cy: int|
                        0 <= cx < w && 0 <= cy < y + 1 implies #[trigger] cell(nd@, cx, cy)
                        == cell(d@, cx, cy) by {
                        if cy < y {
                            assert(nd@[cy] == before[cy]);
                            assert(cell(before, cx, cy) == cell(d@, cx, cy));
                        }
                    }
                }
            }
            y = y + 1;
        }
        proof {
            if changed {
                assert(cell(nd@, wit.0, wit.1).is_some());
            }
        }
        (nd, changed)
    }
}

impl TileGrid {
    /// Finds a shortest route from `start` to `goal`, moving one tile up,
    /// down, left or right per step over passable tiles.
    ///
    /// The route leaves `start` out and ends with `goal`; it is empty where
    /// the two are the same passable tile. `None` where no walk leads from
    /// `start` to `goal`, in particular where either is outside the grid or
    /// blocked.
    pub fn find_shortest_route(&self, start: TilePosition, goal: TilePosition) -> (r: Option<
        Vec<TilePosition>,
    >)
        requires
            self.wf(),
        ensures
            r.is_some() <==> route_exists(self, start, goal),
            r matches Some(route) ==> is_shortest_route(self, start, goal, route@)
                && follows_search_order(self, start, route@),
    {
        if !self.is_passable(start.x as i64, start.y as i64) {
            proof {
                assert forall|k: nat| !reach(self, start, goal.x as int, goal.y as int, k) by {
                    lemma_blocked_start(self, start, goal.x as int, goal.y as int, k);
                }
            }
            return None;
        }
        let w = self.width();
        let h = self.height();
        let mut dist: Vec<Vec<Option<usize>>> = Vec::new();
        let mut y: u32 = 0;
        while y < h
            invariant
                w == self.width_spec(),
                h == self.height_spec(),
                y <= h,
                dist@.len() == y,
                forall|r: int| 0 <= r < y ==> #[trigger] dist@[r]@.len() == w,
                forall|cx: int, cy: int| #[trigger]
                    cell(dist@, cx, cy) == if cx == start.x && cy == start.y {
                        Some(0usize)
                    } else {
                        None
                    } || !(0 <= cx < w && 0 <= cy < y),
                forall|cx: int, cy: int|
                    !(0 <= cx < w && 0 <= cy < y) ==> #[trigger] cell(dist@, cx, cy) == None::<
                        usize,
                    >,
            decreases h - y,
        {
            let mut row: Vec<Option<usize>> = Vec::new();
            let mut x: u32 = 0;
            let ghost before = dist@;
            while x < w
                invariant
                    w == self.width_spec(),
                    y < h,
                    x <= w,
                    row@.len() == x,
                    forall|cx: int|
                        0 <= cx < x ==> #[trigger] row@[cx] == if cx == start.x && y == start.y {
                            Some(0usize)
                        } else {
                            None
                        },
                decreases w - x,
            {
                if x == start.x && y == start.y {
                    row.push(Some(0));
                } else {
                    row.push(None);
                }
                x = x + 1;
            }
            dist.push(row);
            proof {
                assert forall|cx: int, cy: int| #[trigger]
                    cell(dist@, cx, cy) == if cx == start.x && cy == start.y {
                        Some(0usize)
                    } else {
                        None
                    } || !(0 <= cx < w && 0 <= cy < y + 1) by {
                    if 0 <= cy < y {
                        assert(dist@[cy] == before[cy]);
                        assert(cell(before, cx, cy) == cell(dist@, cx, cy));
                    }
                }
                assert forall|cx: int, cy: int|
                    !(0 <= cx < w && 0 <= cy < y + 1) implies #[trigger] cell(dist@, cx, cy)
                    == None::<usize> by {
                    if 0 <= cy < y {
                        assert(dist@[cy] == before[cy]);
                        assert(cell(before, cx, cy) == cell(dist@, cx, cy));
                    }
                }
            }
            y = y + 1;
        }
        proof {
            assert(cell(dist@, start.x as int, start.y as int) == Some(0usize));
            lemma_level_count_positive(dist@, start.x as int, start.y as int);
            assert forall|cx: int, cy: int| #[trigger]
                reach(self, start, cx, cy, 0) implies cell(dist@, cx, cy).is_some() by {}
            assert forall|cx: int, cy: int| #[trigger]
                cell(dist@, cx, cy).is_some() implies cell(dist@, cx, cy).unwrap() <= 0 && shortest(
                self,
                start,
                cx,
                cy,
                0,
            ) by {}
        }
        let mut k: usize = 0;
        loop
            invariant
                self.wf(),
                w == self.width_spec(),
                h == self.height_spec(),
                levels_complete(self, start, dist@, k as nat),
                k < level_count(dist@),
            ensures
                self.wf(),
                w == self.width_spec(),
                h == self.height_spec(),
                levels_complete(self, start, dist@, k as nat),
                cell(dist@, goal.x as int, goal.y as int).is_some(),
            decreases self.width_spec() * self.height_spec() - level_count(dist@),
        {
            proof {
                lemma_level_count_bound(dist@, w as int);
                assert(h * w == w * h) by (nonlinear_arith);
            }
            if level_at(&dist, goal.x as i64, goal.y as i64).is_some() {
                break;
            }
            let (nd, changed) = self.next_round(&dist, k);
            proof {
                lemma_round(self, start, dist@, nd@, k as nat);
            }
            if !changed {
                proof {
                    lemma_unreachable_when_stable(self, start, goal, dist@, nd@, k as nat);
                }
                return None;
            }
            proof {
                lemma_round_grows(self, dist@, nd@, k as nat);
                lemma_level_count_bound(nd@, w as int);
                assert(h * w == w * h) by (nonlinear_arith);
            }
            dist = nd;
            k = k + 1;
        }
        let dg = level_at(&dist, goal.x as i64, goal.y as i64).unwrap();
        proof {
            assert(shortest(self, start, goal.x as int, goal.y as int, dg as nat));
        }
        let mut route: Vec<TilePosition> = Vec::new();
        let mut i: usize = 0;
        while i < dg
            invariant
                i <= dg,
                route@.len() == i,
                forall|m: int| 0 <= m < i ==> #[trigger] route@[m] == goal,
            decreases dg - i,
        {
            route.push(goal);
            i = i + 1;
        }
        let mut cx: u32 = goal.x;
        let mut cy: u32 = goal.y;
        let mut j: usize = dg;
        while j > 0
            invariant
                self.wf(),
                w == self.width_spec(),
                h == self.height_spec(),
                levels_complete(self, start, dist@, k as nat),
                j <= dg,
                route@.len() == dg,
                cell(dist@, cx as int, cy as int) == Some(j),
                j == dg ==> cx == goal.x && cy == goal.y,
                dg > 0 ==> route@[dg - 1] == goal,
                forall|m: int|
                    j <= m < dg ==> g_passable(self, #[trigger] route@[m]),
                forall|m: int| j <= m < dg - 1 ==> adjacent(#[trigger] route@[m], route@[m + 1]),
                j < dg ==> adjacent(TilePosition { x: cx, y: cy }, route@[j as int]),
                forall|m: int|
                    j < m < dg ==> (#[trigger] route@[m - 1].x as int, route@[m - 1].y as int)
                        == first_predecessor(
                        self,
                        start,
                        route@[m].x as int,
                        route@[m].y as int,
                        (m + 1) as nat,
                    ),
                j < dg ==> (cx as int, cy as int) == first_predecessor(
                    self,
                    start,
                    route@[j as int].x as int,
                    route@[j as int].y as int,
                    (j + 1) as nat,
                ),
            decreases j,
        {
            let ghost before = route@;
            proof {
                lemma_reach_passable(self, start, cx as int, cy as int, j as nat);
                lemma_predecessor(self, start, dist@, k as nat, cx as int, cy as int, j);
                lemma_level_iff_shortest(self, start, dist@, k as nat, cx as int, cy - 1, (j - 1) as usize);
                lemma_level_iff_shortest(self, start, dist@, k as nat, cx as int, cy + 1, (j - 1) as usize);
                lemma_level_iff_shortest(self, start, dist@, k as nat, cx - 1, cy as int, (j - 1) as usize);
                lemma_level_iff_shortest(self, start, dist@, k as nat, cx + 1, cy as int, (j - 1) as usize);
            }
            let ghost (ox, oy) = (cx as int, cy as int);
            route.set(j - 1, TilePosition { x: cx, y: cy });
            let xi = cx as i64;
            let yi = cy as i64;
            if is_level(&dist, xi, yi - 1, j - 1) {
                cy = cy - 1;
            } else if is_level(&dist, xi, yi + 1, j - 1) {
                cy = cy + 1;
            } else if is_level(&dist, xi - 1, yi, j - 1) {
                cx = cx - 1;
            } else {
                cx = cx + 1;
            }
            j = j - 1;
            proof {
                assert forall|m: int| j + 1 <= m < dg implies #[trigger] route@[m] == before[m] by {}
                assert(route@[j as int] == TilePosition { x: ox as u32, y: oy as u32 });
                assert((cx as int, cy as int) == first_predecessor(self, start, ox, oy, (j + 1) as nat));
            }
        }
        proof {
            assert(shortest(self, start, cx as int, cy as int, 0));
            assert(cx == start.x && cy == start.y);
            assert forall|m: int| 0 <= m < route@.len() implies {
                &&& self.passable(#[trigger] route@[m].x as int, route@[m].y as int)
                &&& adjacent(step_from(start, route@, m), route@[m])
            } by {
                assert(g_passable(self, route@[m]));
                if m > 0 {
                    assert(adjacent(route@[m - 1], route@[m]));
                }
            }
            assert forall|m: int| 0 <= m < route@.len() implies {
                let p = step_from(start, route@, m);
                (p.x as int, p.y as int) == first_predecessor(
                    self,
                    start,
                    #[trigger] route@[m].x as int,
                    route@[m].y as int,
                    (m + 1) as nat,
                )
            } by {}
            assert forall|kk: nat| kk < route@.len() implies !reach(
                self,
                start,
                goal.x as int,
                goal.y as int,
                kk,
            ) by {
                if reach(self, start, goal.x as int, goal.y as int, kk) {
                    lemma_reach_mono(
                        self,
                        start,
                        goal.x as int,
                        goal.y as int,
                        kk,
                        (dg - 1) as nat,
                    );
                }
            }
        }
        Some(route)
    }
}

pub open spec fn g_passable(g: &TileGrid, t: TilePosition) -> bool {
    g.passable(t.x as int, t.y as int)
}

/// The number of steps between `a` and `(x, y)` when no tile is in the way.
pub open spec fn manhattan(a: TilePosition, x: int, y: int) -> int {
    (if a.x >= x {
        a.x - x
    } else {
        x - a.x
    }) + (if a.y >= y {
        a.y - y
    } else {
        y - a.y
    })
}

/// Every tile of the grid is passable.
pub open spec fn is_open(g: &TileGrid) -> bool {
    forall|x: int, y: int| g.in_bounds(x, y) ==> #[trigger] g.passable(x, y)
}

proof fn lemma_open_reach(g: &TileGrid, start: TilePosition, x: int, y: int, k: nat)
    requires
        is_open(g),
        g.in_bounds(start.x as int, start.y as int),
    ensures
        reach(g, start, x, y, k) <==> g.in_bounds(x, y) && manhattan(start, x, y) <= k,
    decreases k,
{
    if k > 0 {
        let p = (k - 1) as nat;
        lemma_open_reach(g, start, x, y, p);
        lemma_open_reach(g, start, x, y - 1, p);
        lemma_open_reach(g, start, x, y + 1, p);
        lemma_open_reach(g, start, x - 1, y, p);
        lemma_open_reach(g, start, x + 1, y, p);
        if g.in_bounds(x, y) {
            assert(g.passable(x, y));
        }
    }
}

proof fn lemma_route_prefix_reaches(
    g: &TileGrid,
    start: TilePosition,
    goal: TilePosition,
    route: Seq<TilePosition>,
    i: int,
)
    requires
        is_route(g, start, goal, route),
        0 <= i < route.len(),
    ensures
        reach(g, start, route[i].x as int, route[i].y as int, (i + 1) as nat),
    decreases i,
{
    let c = route[i];
    let p = step_from(start, route, i);
    assert(g.passable(c.x as int, c.y as int));
    assert(adjacent(p, c));
    if i == 0 {
        assert(reach(g, start, p.x as int, p.y as int, 0));
    } else {
        lemma_route_prefix_reaches(g, start, goal, route, i - 1);
    }
    assert(reach(g, start, p.x as int, p.y as int, i as nat));
}

/// A walk of `n` steps from `start` to `goal` means that `goal` is within
/// `n` steps of `start`: `reach` counts exactly the walks that `is_route`
/// describes.
pub proof fn lemma_route_reaches(
    g: &TileGrid,
    start: TilePosition,
    goal: TilePosition,
    route: Seq<TilePosition>,
)
    requires
        is_route(g, start, goal, route),
    ensures
        reach(g, start, goal.x as int, goal.y as int, route.len()),
{
    if route.len() == 0 {
    } else {
        lemma_route_prefix_reaches(g, start, goal, route, route.len() - 1);
    }
}

/// On a grid without blocked tiles a shortest route between two tiles of the
/// grid exists and takes as many steps as the Manhattan distance between
/// them, since no diagonal move is allowed.
pub proof fn lemma_open_grid_route_length(
    g: &TileGrid,
    start: TilePosition,
    goal: TilePosition,
    route: Seq<TilePosition>,
)
    requires
        g.wf(),
        is_open(g),
        g.in_bounds(start.x as int, start.y as int),
        g.in_bounds(goal.x as int, goal.y as int),
    ensures
        route_exists(g, start, goal),
        is_shortest_route(g, start, goal, route) ==> route.len() == manhattan(
            start,
            goal.x as int,
            goal.y as int,
        ),
{
    let m = manhattan(start, goal.x as int, goal.y as int) as nat;
    lemma_open_reach(g, start, goal.x as int, goal.y as int, m);
    assert(reach(g, start, goal.x as int, goal.y as int, m));
    if is_shortest_route(g, start, goal, route) {
        lemma_route_reaches(g, start, goal, route);
        lemma_open_reach(g, start, goal.x as int, goal.y as int, route.len());
        if route.len() > m {
            assert(!reach(g, start, goal.x as int, goal.y as int, m));
        }
    }
}

} // verus!
