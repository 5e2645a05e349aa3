use suzu::geometry::{Point, Rect, Vector2};
use suzu::tile_grid::{map_to_display, TileGrid, TilePosition};

fn camera() -> Rect {
    Rect::new(0, 0, 640, 480)
}

fn open_grid(w: u32, h: u32) -> TileGrid {
    TileGrid::build_collision_map(w, h, 32, vec![false; (w * h) as usize], camera()).unwrap()
}

fn grid_with_blocks(w: u32, h: u32, blocked: &[(u32, u32)]) -> TileGrid {
    let mut flags = vec![false; (w * h) as usize];
    for &(x, y) in blocked {
        flags[(y * w + x) as usize] = true;
    }
    TileGrid::build_collision_map(w, h, 32, flags, camera()).unwrap()
}

#[test]
fn tile_map_round_trip_on_every_tile() {
    let g = open_grid(5, 4);
    for y in 0..4 {
        for x in 0..5 {
            let t = TilePosition::new(x, y);
            let p = g.tile_position_to_map_position(t);
            assert_eq!(p, Point::new((x * 32) as i32, (y * 32) as i32));
            assert_eq!(g.map_position_to_tile_position(p), Some(t));
        }
    }
}

#[test]
fn map_position_inside_a_tile_maps_to_that_tile() {
    let g = open_grid(5, 4);
    assert_eq!(g.map_position_to_tile_position(Point::new(95, 33)), Some(TilePosition::new(2, 1)));
    assert_eq!(g.map_position_to_tile_position(Point::new(159, 127)), Some(TilePosition::new(4, 3)));
}

#[test]
fn map_position_outside_the_grid_has_no_tile() {
    let g = open_grid(5, 4);
    assert_eq!(g.map_position_to_tile_position(Point::new(-1, 0)), None);
    assert_eq!(g.map_position_to_tile_position(Point::new(0, -1)), None);
    assert_eq!(g.map_position_to_tile_position(Point::new(160, 0)), None);
    assert_eq!(g.map_position_to_tile_position(Point::new(0, 128)), None);
}

#[test]
fn build_collision_map_rejects_bad_input() {
    assert!(TileGrid::build_collision_map(3, 3, 32, vec![false; 8], camera()).is_none());
    assert!(TileGrid::build_collision_map(3, 3, 0, vec![false; 9], camera()).is_none());
    assert!(TileGrid::build_collision_map(2, 1, 1_073_741_824, vec![false; 2], camera()).is_none());
    assert!(TileGrid::build_collision_map(3, 3, 32, vec![false; 9], camera()).is_some());
    assert!(TileGrid::build_collision_map(0, 0, 32, vec![], camera()).is_some());
}

#[test]
fn map_to_display_subtracts_camera_origin() {
    let cam = Rect::new(100, 50, 640, 480);
    let d = map_to_display(&Point::new(130, 40), &cam);
    assert_eq!(d, Vector2 { x: 30, y: -10 });
}

#[test]
fn move_camera_shifts_without_clamping() {
    let mut g = open_grid(3, 3);
    g.move_camera(Vector2 { x: -500, y: 20 });
    assert_eq!(g.camera(), Rect::new(-500, 20, 640, 480));
}

#[test]
fn is_passable_reports_blocked_and_outside_tiles() {
    let g = grid_with_blocks(3, 3, &[(1, 1)]);
    assert!(g.is_passable(0, 0));
    assert!(!g.is_passable(1, 1));
    assert!(!g.is_passable(-1, 0));
    assert!(!g.is_passable(3, 0));
}

fn check_route(g: &TileGrid, start: TilePosition, goal: TilePosition, route: &[TilePosition]) {
    let mut prev = start;
    for t in route {
        assert!(g.is_passable(t.x as i64, t.y as i64));
        let d = (prev.x as i64 - t.x as i64).abs() + (prev.y as i64 - t.y as i64).abs();
        assert_eq!(d, 1);
        prev = *t;
    }
    assert_eq!(prev, goal);
}

#[test]
fn open_grid_route_has_manhattan_length() {
    let g = open_grid(6, 4);
    let pairs = [((0, 0), (5, 3)), ((5, 3), (0, 0)), ((2, 1), (2, 3)), ((4, 0), (1, 2)), ((3, 3), (3, 3))];
    for ((sx, sy), (gx, gy)) in pairs {
        let s = TilePosition::new(sx, sy);
        let t = TilePosition::new(gx, gy);
        let route = g.find_shortest_route(s, t).unwrap();
        let manhattan = (sx as i64 - gx as i64).abs() + (sy as i64 - gy as i64).abs();
        assert_eq!(route.len() as i64, manhattan);
        check_route(&g, s, t, &route);
    }
}

#[test]
fn route_detours_around_blocked_center() {
    let g = grid_with_blocks(5, 5, &[(2, 2)]);
    let s = TilePosition::new(0, 2);
    let t = TilePosition::new(4, 2);
    let route = g.find_shortest_route(s, t).unwrap();
    assert_eq!(route.len(), 6);
    assert!(!route.contains(&TilePosition::new(2, 2)));
    check_route(&g, s, t, &route);
}

#[test]
fn route_excludes_start_and_ends_with_goal() {
    let g = open_grid(4, 1);
    let route = g.find_shortest_route(TilePosition::new(0, 0), TilePosition::new(3, 0)).unwrap();
    assert_eq!(route, vec![TilePosition::new(1, 0), TilePosition::new(2, 0), TilePosition::new(3, 0)]);
}

#[test]
fn route_to_start_itself_is_empty() {
    let g = open_grid(3, 3);
    let route = g.find_shortest_route(TilePosition::new(1, 1), TilePosition::new(1, 1)).unwrap();
    assert!(route.is_empty());
}

#[test]
fn walled_goal_has_no_route() {
    let g = grid_with_blocks(5, 5, &[(3, 3), (4, 2), (4, 4)]);
    assert!(g.find_shortest_route(TilePosition::new(0, 0), TilePosition::new(4, 3)).is_none());
}

#[test]
fn blocked_or_outside_endpoints_have_no_route() {
    let g = grid_with_blocks(4, 4, &[(1, 1)]);
    assert!(g.find_shortest_route(TilePosition::new(1, 1), TilePosition::new(0, 0)).is_none());
    assert!(g.find_shortest_route(TilePosition::new(0, 0), TilePosition::new(1, 1)).is_none());
    assert!(g.find_shortest_route(TilePosition::new(0, 0), TilePosition::new(9, 0)).is_none());
    assert!(g.find_shortest_route(TilePosition::new(7, 0), TilePosition::new(0, 0)).is_none());
}

#[test]
fn route_through_a_corridor_follows_it() {
    // a wall with one gap at (2, 3)
    let g = grid_with_blocks(5, 5, &[(2, 0), (2, 1), (2, 2), (2, 4)]);
    let s = TilePosition::new(0, 0);
    let t = TilePosition::new(4, 0);
    let route = g.find_shortest_route(s, t).unwrap();
    assert_eq!(route.len(), 10);
    assert!(route.contains(&TilePosition::new(2, 3)));
    check_route(&g, s, t, &route);
}
