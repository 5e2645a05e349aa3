use suzu::customer::{CustomerCharacter, CustomerCharacterStatus, CustomerDestPoint, CustomerMoveQueue};
use suzu::event::{DelayEvent, DelayEventList};
use suzu::game_system::{DayWorkType, GoingOutEvent};
use suzu::geometry::{Point, Rect, Vector2};
use suzu::map_object::{CollisionCrop, MapObject, MODE_DOWN, MODE_RIGHT};
use suzu::scene::{NullScene, SceneID, SceneTransition};
use suzu::speed::{SpeedBorder, TextureSpeedInfo};
use suzu::tile_grid::{TileGrid, TilePosition};

#[test]
fn flush_runs_due_events_last_added_first() {
    let mut list: DelayEventList<u32> = DelayEventList::new();
    list.add_event(1, 5);
    list.add_event(2, 3);
    list.add_event(3, 7);
    assert_eq!(list.flush(10), vec![3, 2, 1]);
    assert!(list.is_empty());
    assert_eq!(list.flush(100), Vec::<u32>::new());
}

#[test]
fn flush_stops_at_first_event_not_yet_due() {
    let mut list: DelayEventList<u32> = DelayEventList::new();
    list.add_event(1, 5);
    list.add_event(2, 3);
    list.add_event(3, 10);
    // event 2 is due at 4, but event 3 is taken first and is not
    assert_eq!(list.flush(4), Vec::<u32>::new());
    assert_eq!(list.len(), 3);
    assert_eq!(list.flush(10), vec![3, 2, 1]);
}

#[test]
fn flush_runs_each_event_once_and_never_early() {
    let mut list: DelayEventList<u32> = DelayEventList::new();
    list.add_event(1, 1);
    list.add_event(2, 9);
    list.add_event(3, 2);
    assert_eq!(list.flush(0), Vec::<u32>::new());
    assert_eq!(list.flush(5), vec![3]);
    assert_eq!(list.len(), 2);
    assert_eq!(list.flush(8), Vec::<u32>::new());
    assert_eq!(list.flush(9), vec![2, 1]);
    assert_eq!(list.flush(9), Vec::<u32>::new());
    list.add(DelayEvent::new(4, 9));
    assert_eq!(list.flush(9), vec![4]);
}

#[test]
fn move_top_takes_last_added() {
    let mut list: DelayEventList<u32> = DelayEventList::new();
    assert!(list.move_top().is_none());
    list.add_event(1, 5);
    list.add_event(2, 6);
    let e = list.move_top().unwrap();
    assert_eq!(e.action, 2);
    assert_eq!(e.run_time, 6);
    assert_eq!(list.len(), 1);
}

#[test]
fn move_queue_is_fifo() {
    let mut q = CustomerMoveQueue::new();
    assert!(q.empty());
    q.enqueue(vec![Point::new(1, 1), Point::new(2, 2)]);
    q.enqueue(vec![Point::new(3, 3)]);
    assert_eq!(q.len(), 3);
    assert_eq!(q.dequeue(), Some(Point::new(1, 1)));
    assert_eq!(q.dequeue(), Some(Point::new(2, 2)));
    q.clear();
    assert_eq!(q.dequeue(), None);
}

#[test]
fn destination_selection() {
    let cands = vec![TilePosition::new(1, 1), TilePosition::new(2, 2), TilePosition::new(3, 3)];
    let d = CustomerDestPoint::new(cands.clone());
    assert_eq!(d.select(7), TilePosition::new(2, 2));
    assert_eq!(d.select(3), TilePosition::new(1, 1));
    for _ in 0..50 {
        assert!(cands.contains(&d.random_select()));
    }
    let single = CustomerDestPoint::new(vec![TilePosition::new(4, 0)]);
    assert_eq!(single.random_select(), TilePosition::new(4, 0));
}

fn body_at(x: i32, y: i32) -> MapObject {
    let border = SpeedBorder { positive_x: 4, negative_x: -4, positive_y: 4, negative_y: -4 };
    let speed = TextureSpeedInfo::new(0, 0, Vector2 { x: 0, y: 0 }, border);
    let crop = CollisionCrop { left: 0, top: 0, right: 100, bottom: 100 };
    MapObject::new(32, 32, MODE_DOWN, speed, Point::new(x, y), crop)
}

fn grid(w: u32, h: u32, blocked: &[(u32, u32)]) -> TileGrid {
    let mut flags = vec![false; (w * h) as usize];
    for &(x, y) in blocked {
        flags[(y * w + x) as usize] = true;
    }
    TileGrid::build_collision_map(w, h, 32, flags, Rect::new(0, 0, 640, 480)).unwrap()
}

#[test]
fn customer_with_unreachable_destination_keeps_waiting() {
    let map = grid(12, 6, &[(10, 2), (10, 4), (9, 3), (11, 3)]);
    let dest = CustomerDestPoint::new(vec![TilePosition::new(10, 3)]);
    let mut c = CustomerCharacter::new(body_at(32, 32), dest);
    assert_eq!(c.get_status(), CustomerCharacterStatus::Ready);
    for t in 0..1000u64 {
        c.try_update_move_effect(&map, TilePosition::new(0, 0), t);
        assert_eq!(c.get_status(), CustomerCharacterStatus::WaitOnBookShelf);
        assert_eq!(c.queued_waypoints(), 0);
    }
    assert_eq!(c.pending_events(), 0);
    assert_eq!(c.get_map_position(), Point::new(32, 32));
}

#[test]
fn customer_walks_its_route_and_waits_at_counter() {
    let map = grid(5, 5, &[]);
    let counter = TilePosition::new(2, 0);
    let dest = CustomerDestPoint::new(vec![TilePosition::new(2, 0)]);
    let mut c = CustomerCharacter::new(body_at(0, 0), dest);

    c.try_update_move_effect_to(&map, counter, TilePosition::new(2, 0), 0);
    assert_eq!(c.get_status(), CustomerCharacterStatus::WaitOnBookShelf);
    assert_eq!(c.pending_events(), 1);

    c.try_update_move_effect_to(&map, counter, TilePosition::new(2, 0), 99);
    assert_eq!(c.get_status(), CustomerCharacterStatus::WaitOnBookShelf);

    c.try_update_move_effect_to(&map, counter, TilePosition::new(2, 0), 100);
    assert_eq!(c.get_status(), CustomerCharacterStatus::Moving);
    assert_eq!(c.get_current_goal(), Point::new(32, 0));
    assert_eq!(c.queued_waypoints(), 1);
    assert_eq!(c.get_character_object().speed_info().get_speed(), Vector2 { x: 1, y: 0 });
    assert_eq!(c.get_character_object().get_animation_mode(), MODE_RIGHT);

    let mut t = 101u64;
    let mut reached_first = false;
    while t < 400 && !c.is_wait_on_clerk() {
        if c.get_status() == CustomerCharacterStatus::Moving {
            c.move_map_current_speed_x();
            c.move_map_current_speed_y();
        }
        c.try_update_move_effect_to(&map, counter, TilePosition::new(2, 0), t);
        if c.get_map_position() == Point::new(32, 0) && c.get_status() == CustomerCharacterStatus::Ready {
            reached_first = true;
        }
        t += 1;
    }
    assert!(reached_first);
    assert!(c.is_wait_on_clerk());
    assert_eq!(c.get_map_position(), Point::new(64, 0));
    assert_eq!(c.get_character_object().speed_info().get_speed(), Vector2 { x: 0, y: 0 });
    for later in t..t + 50 {
        c.try_update_move_effect_to(&map, counter, TilePosition::new(4, 4), later);
        assert_eq!(c.get_status(), CustomerCharacterStatus::WaitOnClerk);
    }
}

#[test]
fn forced_destination_queues_route_at_once() {
    let map = grid(5, 5, &[(1, 0)]);
    let dest = CustomerDestPoint::new(vec![TilePosition::new(0, 0)]);
    let mut c = CustomerCharacter::new(body_at(0, 0), dest);
    c.set_destination_forced(&map, TilePosition::new(2, 0));
    assert_eq!(c.get_status(), CustomerCharacterStatus::Ready);
    assert_eq!(c.queued_waypoints(), 4);
    let route = c.update_current_destination(&map, TilePosition::new(2, 0));
    assert!(route.is_none());
}

#[test]
fn route_request_gives_map_positions() {
    let map = grid(5, 5, &[]);
    let dest = CustomerDestPoint::new(vec![TilePosition::new(0, 0)]);
    let c = CustomerCharacter::new(body_at(40, 70), dest);
    let route = c.update_current_destination(&map, TilePosition::new(1, 4)).unwrap();
    assert_eq!(route, vec![Point::new(32, 96), Point::new(32, 128)]);
    let outside = CustomerCharacter::new(body_at(-40, 0), CustomerDestPoint::new(vec![TilePosition::new(0, 0)]));
    assert!(outside.update_current_destination(&map, TilePosition::new(1, 4)).is_none());
}

#[test]
fn day_work_labels() {
    assert_eq!(DayWorkType::ShopWork.to_string_jp(), "店番");
    assert_eq!(DayWorkType::GoingOut(GoingOutEvent::AkyuTei).to_string_jp(), "外出（阿求亭）");
    assert_eq!(DayWorkType::GoingOut(GoingOutEvent::Dangoya).to_string_jp(), "外出（団子屋）");
    assert_eq!(DayWorkType::GoingOut(GoingOutEvent::Terakoya).to_string_jp(), "外出（寺子屋）");
    assert_eq!(DayWorkType::TakingRest.to_string_jp(), "休憩");
}

#[test]
fn null_scene_stays_put() {
    let s = NullScene::new();
    assert_eq!(s.post_process(), SceneTransition::Keep);
    assert_eq!(s.transition(), SceneID::Null);
    assert_eq!(s.get_current_clock(), 0);
}
