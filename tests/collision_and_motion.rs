use suzu::geometry::{
    check_overlap, resolve_horizontal, resolve_vertical, CollisionError, CollisionInfo, Point,
    Rect, Vector2,
};
use suzu::map_object::{
    animation_mode_from_heading, CollisionCrop, MapObject, TwoStepPoint, MODE_DOWN, MODE_LEFT,
    MODE_RIGHT, MODE_UP,
};
use suzu::move_fn::{gravity_move, halt};
use suzu::player::PlayableCharacter;
use suzu::speed::{SpeedBorder, TextureSpeedInfo};
use suzu::tile_grid::TileGrid;

fn border(limit: i32) -> SpeedBorder {
    SpeedBorder { positive_x: limit, negative_x: -limit, positive_y: limit, negative_y: -limit }
}

fn speed_info() -> TextureSpeedInfo {
    TextureSpeedInfo::new(0, 0, Vector2 { x: 0, y: 0 }, border(8))
}

fn actor_at(x: i32, y: i32) -> MapObject {
    let crop = CollisionCrop { left: 10, top: 10, right: 90, bottom: 90 };
    MapObject::new(40, 40, MODE_DOWN, speed_info(), Point::new(x, y), crop)
}

fn spans_overlap(a: i64, alen: i64, b: i64, blen: i64) -> bool {
    a < b + blen && b < a + alen
}

#[test]
fn cropped_collision_box_of_an_actor() {
    let a = actor_at(100, 100);
    assert_eq!(a.get_collision_area(), Rect::new(104, 104, 32, 32));
    assert_eq!(a.get_collision_size(), Vector2 { x: 32, y: 32 });
    assert_eq!(a.get_collision_top_offset(), Vector2 { x: 4, y: 4 });
    assert_eq!(a.get_map_position_with_collision_top_offset(), Point::new(104, 104));
}

#[test]
fn left_edge_correction_makes_boxes_adjacent() {
    let a = actor_at(100, 100);
    let box1 = a.get_collision_area();
    let blocker = Rect::new(110, 104, 32, 32);
    let info = check_overlap(&box1, &blocker);
    assert!(info.collision);
    assert!(info.center_diff.x > 0);
    let dx = a.fix_collision_horizon(&info).unwrap();
    assert_eq!(dx, -26);
    assert_eq!(box1.x + dx + box1.w, blocker.x);
    assert!(!spans_overlap(box1.x + dx, box1.w, blocker.x, blocker.w));
}

#[test]
fn vertical_correction_separates_on_y() {
    let mover = Rect::new(0, 10, 20, 20);
    let above = Rect::new(5, 0, 20, 15);
    let info = check_overlap(&mover, &above);
    assert!(info.center_diff.y < 0);
    let dy = resolve_vertical(&info).unwrap();
    assert_eq!(dy, 5);
    assert!(!spans_overlap(mover.y + dy, mover.h, above.y, above.h));

    let below = Rect::new(5, 25, 20, 15);
    let info = check_overlap(&mover, &below);
    assert!(info.center_diff.y > 0);
    let dy = resolve_vertical(&info).unwrap();
    assert_eq!(dy, -5);
    assert!(!spans_overlap(mover.y + dy, mover.h, below.y, below.h));
}

#[test]
fn horizontal_correction_pushes_right_when_other_is_left() {
    let mover = Rect::new(10, 0, 20, 20);
    let left = Rect::new(0, 0, 15, 20);
    let info = check_overlap(&mover, &left);
    assert!(info.center_diff.x < 0);
    let dx = resolve_horizontal(&info).unwrap();
    assert_eq!(dx, 5);
    assert!(!spans_overlap(mover.x + dx, mover.w, left.x, left.w));
}

#[test]
fn level_centres_give_no_correction() {
    let a = Rect::new(0, 0, 10, 10);
    let info = check_overlap(&a, &a);
    assert!(info.collision);
    assert_eq!(resolve_vertical(&info), Ok(0));
    assert_eq!(resolve_horizontal(&info), Ok(0));
}

#[test]
fn correction_of_a_non_collision_is_an_error() {
    let info = check_overlap(&Rect::new(0, 0, 10, 10), &Rect::new(10, 0, 10, 10));
    assert!(!info.collision);
    assert_eq!(info, CollisionInfo::new_not_collision());
    assert_eq!(resolve_vertical(&info), Err(CollisionError::InvalidState));
    assert_eq!(resolve_horizontal(&info), Err(CollisionError::InvalidState));
    let a = actor_at(0, 0);
    assert_eq!(a.fix_collision_vertical(&info), Err(CollisionError::InvalidState));
}

#[test]
fn overlap_is_half_open() {
    let a = Rect::new(0, 0, 10, 10);
    assert!(!a.overlaps(&Rect::new(10, 0, 5, 5)));
    assert!(!a.overlaps(&Rect::new(0, 10, 5, 5)));
    assert!(a.overlaps(&Rect::new(9, 9, 5, 5)));
}

#[test]
fn center_diff_is_in_half_pixels() {
    let info = check_overlap(&Rect::new(0, 0, 10, 10), &Rect::new(3, -2, 10, 10));
    assert_eq!(info.center_diff, Vector2 { x: 6, y: -4 });
}

#[test]
fn actor_collision_with_actor() {
    let a = actor_at(100, 100);
    let b = actor_at(120, 100);
    let info = a.check_collision_with_character(&b);
    assert!(info.collision);
    assert_eq!(info.object1_area, Rect::new(104, 104, 32, 32));
    assert_eq!(info.object2_area, Rect::new(124, 104, 32, 32));
    let c = actor_at(200, 100);
    assert!(!a.check_collision_with_character(&c).collision);
}

#[test]
fn actor_collision_with_blocked_tile() {
    let mut flags = vec![false; 25];
    flags[2 * 5 + 3] = true;
    let g = TileGrid::build_collision_map(5, 5, 32, flags, Rect::new(0, 0, 640, 480)).unwrap();
    let near = actor_at(70, 60);
    let info = g.check_character_collision(&near);
    assert!(info.collision);
    assert_eq!(info.object2_area, Rect::new(96, 64, 32, 32));
    let dx = near.fix_collision_horizon(&info).unwrap();
    assert_eq!(dx, 96 - (74 + 32));
    let far = actor_at(0, 0);
    assert!(!g.check_character_collision(&far).collision);
}

#[test]
fn speed_is_clamped_on_every_write() {
    let mut s = TextureSpeedInfo::new(0, 0, Vector2 { x: 100, y: -100 }, border(8));
    assert_eq!(s.get_speed(), Vector2 { x: 8, y: -8 });
    s.set_speed(Vector2 { x: -3, y: 50 });
    assert_eq!(s.get_speed(), Vector2 { x: -3, y: 8 });
    s.set_speed_x(-20);
    assert_eq!(s.get_speed(), Vector2 { x: -8, y: 8 });
    s.set_speed_y(5);
    assert_eq!(s.get_speed(), Vector2 { x: -8, y: 5 });
}

#[test]
fn repeated_add_speed_stays_within_border() {
    let b = SpeedBorder { positive_x: 5, negative_x: -3, positive_y: 7, negative_y: -2 };
    let mut s = TextureSpeedInfo::new(0, 0, Vector2 { x: 0, y: 0 }, b);
    for i in 0..100 {
        s.add_speed(Vector2 { x: if i % 3 == 0 { -4 } else { 3 }, y: i64::MAX });
        let v = s.get_speed();
        assert!(-3 <= v.x && v.x <= 5);
        assert!(-2 <= v.y && v.y <= 7);
    }
    s.add_speed(Vector2 { x: i64::MIN, y: i64::MIN });
    assert_eq!(s.get_speed(), Vector2 { x: -3, y: -2 });
}

#[test]
fn round_speed_clamps_each_axis() {
    let b = SpeedBorder { positive_x: 5, negative_x: -3, positive_y: 7, negative_y: -2 };
    assert_eq!(b.round_speed_x(9), 5);
    assert_eq!(b.round_speed_x(-9), -3);
    assert_eq!(b.round_speed_x(4), 4);
    assert_eq!(b.round_speed_y(8), 7);
    assert_eq!(b.round_speed_y(-3), -2);
}

#[test]
fn resistance_applies_gravity_and_decays_x() {
    let mut s = TextureSpeedInfo::new(2, 3, Vector2 { x: 7, y: 0 }, border(100));
    s.fall_start(10);
    s.apply_resistance(14);
    assert_eq!(s.get_speed(), Vector2 { x: 4, y: 8 });
    s.apply_resistance(14);
    assert_eq!(s.get_speed(), Vector2 { x: 1, y: 16 });
    s.apply_resistance(14);
    assert_eq!(s.get_speed(), Vector2 { x: 0, y: 24 });
    s.set_speed_x(-5);
    s.apply_resistance(10);
    assert_eq!(s.get_speed(), Vector2 { x: -2, y: 24 });
    s.apply_resistance(1000);
    assert_eq!(s.get_speed(), Vector2 { x: 0, y: 100 });
}

#[test]
fn heading_maps_to_four_sectors() {
    assert_eq!(animation_mode_from_heading(1, 0), MODE_RIGHT);
    assert_eq!(animation_mode_from_heading(0, 0), MODE_RIGHT);
    assert_eq!(animation_mode_from_heading(1, 1), MODE_UP);
    assert_eq!(animation_mode_from_heading(0, 5), MODE_UP);
    assert_eq!(animation_mode_from_heading(-1, 1), MODE_LEFT);
    assert_eq!(animation_mode_from_heading(-5, 0), MODE_LEFT);
    assert_eq!(animation_mode_from_heading(-1, -1), MODE_DOWN);
    assert_eq!(animation_mode_from_heading(0, -5), MODE_DOWN);
    assert_eq!(animation_mode_from_heading(1, -1), MODE_RIGHT);
    assert_eq!(animation_mode_from_heading(3, -2), MODE_RIGHT);
    assert_eq!(animation_mode_from_heading(2, 3), MODE_UP);
    assert_eq!(animation_mode_from_heading(-3, 2), MODE_LEFT);
}

#[test]
fn two_step_point_tracks_last_move() {
    let mut p = TwoStepPoint { previous: Point::new(0, 0), current: Point::new(5, 5) };
    p.move_diff(&Vector2 { x: 3, y: -2 });
    assert_eq!(p.previous, Point::new(5, 5));
    assert_eq!(p.current, Point::new(8, 3));
    assert_eq!(p.diff(), Vector2 { x: 3, y: -2 });
    p.update(Point::new(1, 1));
    assert_eq!(p.diff(), Vector2 { x: -7, y: -2 });
}

#[test]
fn move_then_undo_restores_position() {
    let mut a = actor_at(10, 20);
    a.move_map(Vector2 { x: 4, y: -6 });
    assert_eq!(a.get_map_position(), Point::new(14, 14));
    assert_eq!(a.get_last_map_move_distance(), Vector2 { x: 4, y: -6 });
    a.undo_move();
    assert_eq!(a.get_map_position(), Point::new(10, 20));
}

#[test]
fn setting_position_by_collision_corner() {
    let mut a = actor_at(0, 0);
    a.set_map_position_with_collision_top_offset(Point::new(64, 32));
    assert_eq!(a.get_map_position(), Point::new(60, 28));
    assert_eq!(a.get_map_position_with_collision_top_offset(), Point::new(64, 32));
}

#[test]
fn display_position_follows_camera() {
    let mut a = actor_at(300, 200);
    a.update_display_position(&Rect::new(100, 150, 640, 480));
    assert_eq!(a.get_display_position(), Vector2 { x: 200, y: 50 });
}

#[test]
fn player_step_stops_at_border() {
    let mut p = PlayableCharacter::new(actor_at(95, 0));
    p.set_speed(Vector2 { x: 8, y: 8 });
    p.move_map_current_speed_x(100);
    assert_eq!(p.get_map_position(), Point::new(100, 0));
    p.move_map_current_speed_x(1000);
    assert_eq!(p.get_map_position(), Point::new(108, 0));
    p.move_map_current_speed_y(4);
    assert_eq!(p.get_map_position(), Point::new(108, 4));
    p.reset_speed();
    assert_eq!(p.get_speed(), Vector2 { x: 0, y: 0 });
}

#[test]
fn gravity_move_accelerates_up_to_cap_and_border() {
    assert_eq!(gravity_move(Point::new(3, 10), 2, 1, 100, 1000, 4), Point::new(3, 19));
    assert_eq!(gravity_move(Point::new(3, 10), 50, 1, 20, 1000, 4), Point::new(3, 30));
    assert_eq!(gravity_move(Point::new(3, 990), 50, 1, 20, 1000, 4), Point::new(3, 1000));
    assert_eq!(halt(Point::new(7, 7), Point::new(0, 0), 99), Point::new(7, 7));
}
