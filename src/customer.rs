use vstd::prelude::*;

use crate::event::{
    actions_of, flushed_events, lemma_flush_exactly_once, remaining_events, Clock, DelayEvent,
    DelayEventList,
};
use crate::geometry::{Point, Vector2};
use crate::map_object::{heading_mode, animation_mode_from_heading, MapObject, SPRITE_LIMIT};
use crate::route::{is_shortest_route, route_exists};
use crate::tile_grid::{TileGrid, TilePosition, MAP_PIXEL_LIMIT};

verus! {

/// Relies on `rand::random`: a value drawn from the thread-local generator,
/// of which nothing is known.
pub assume_specification<T>[ rand::random::<T> ]() -> (r: T)
    where
        rand::distributions::Standard: rand::distributions::Distribution<T>,
;

/// The ticks between asking for a route and setting off along it.
pub const ROUTE_DELAY: Clock = 100;

/// The most a customer moves along one axis per tick, in pixels.
pub const CUSTOMER_STEP: i64 = 1;

/// A map position that a route can lead to: inside the largest map.
pub open spec fn waypoint_ok(p: Point) -> bool {
    0 <= p.x <= MAP_PIXEL_LIMIT && 0 <= p.y <= MAP_PIXEL_LIMIT
}

pub open spec fn waypoints_ok(ps: Seq<Point>) -> bool {
    forall|i: int| 0 <= i < ps.len() ==> waypoint_ok(#[trigger] ps[i])
}

/// The tiles that a customer may pick as a destination.
pub struct CustomerDestPoint {
    candidates: Vec<TilePosition>,
}

impl CustomerDestPoint {
    pub closed spec fn candidates_spec(&self) -> Seq<TilePosition> {
        self.candidates@
    }

    pub fn new(candidates: Vec<TilePosition>) -> (r: CustomerDestPoint)
        ensures
            r.candidates_spec() == candidates@,
    {
        CustomerDestPoint { candidates }
    }

    /// The candidate that the draw `roll` picks.
    pub fn select(&self, roll: usize) -> (r: TilePosition)
        requires
            self.candidates_spec().len() > 0,
        ensures
            r == self.candidates_spec()[roll as int % self.candidates_spec().len() as int],
    {
        self.candidates[roll % self.candidates.len()]
    }

    /// A candidate picked at random.
    pub fn random_select(&self) -> (r: TilePosition)
        requires
            self.candidates_spec().len() > 0,
        ensures
            self.candidates_spec().contains(r),
    {
        let roll: usize = rand::random::<usize>();
        let r = self.select(roll);
        proof {
            let i = roll as int % self.candidates_spec().len() as int;
            assert(self.candidates_spec()[i] == r);
        }
        r
    }
}

/// The waypoints that a customer is still to walk, first to last.
pub struct CustomerMoveQueue {
    queue: Vec<Point>,
}

impl CustomerMoveQueue {
    pub closed spec fn view_seq(&self) -> Seq<Point> {
        self.queue@
    }

    pub fn new() -> (r: CustomerMoveQueue)
        ensures
            r.view_seq() == Seq::<Point>::empty(),
    {
        CustomerMoveQueue { queue: Vec::new() }
    }

    /// Adds `points` behind the waypoints already queued.
    pub fn enqueue(&mut self, points: Vec<Point>)
        ensures
            final(self).view_seq() == old(self).view_seq() + points@,
    {
        let mut points = points;
        self.queue.append(&mut points);
    }

    /// Takes the first waypoint.
    pub fn dequeue(&mut self) -> (r: Option<Point>)
        ensures
            old(self).view_seq().len() == 0 ==> r.is_none(),
            old(self).view_seq().len() == 0 ==> final(self).view_seq() == old(self).view_seq(),
            old(self).view_seq().len() > 0 ==> r == Some(old(self).view_seq()[0]),
            old(self).view_seq().len() > 0 ==> final(self).view_seq() == old(
                self,
            ).view_seq().drop_first(),
    {
        if self.queue.len() == 0 {
            return None;
        }
        let p = self.queue.remove(0);
        assert(self.queue@ =~= old(self).view_seq().drop_first());
        Some(p)
    }

    pub fn len(&self) -> (r: usize)
        ensures
            r == self.view_seq().len(),
    {
        self.queue.len()
    }

    pub fn empty(&self) -> (r: bool)
        ensures
            r == (self.view_seq().len() == 0),
    {
        self.queue.len() == 0
    }

    pub fn clear(&mut self)
        ensures
            final(self).view_seq() == Seq::<Point>::empty(),
    {
        self.queue.clear();
    }
}

/// What a customer is doing.
#[derive(Clone, Copy, Debug, PartialEq, Eq, Structural)]
pub enum CustomerCharacterStatus {
    /// Free to pick its next waypoint or destination.
    Ready,
    /// Walking toward its current goal.
    Moving,
    /// Standing at the counter, waiting for the clerk.
    WaitOnClerk,
    /// Waiting for the route it asked for.
    WaitOnBookShelf,
}

/// A deferred step of a customer's behaviour.
pub enum CustomerCommand {
    /// Queue the route, if one was found, and become ready to walk it.
    EnqueueRoute(Option<Vec<Point>>),
}

/// The waypoints and status after running `c`.
pub open spec fn apply_command(
    q: Seq<Point>,
    st: CustomerCharacterStatus,
    c: CustomerCommand,
) -> (Seq<Point>, CustomerCharacterStatus) {
    match c {
        CustomerCommand::EnqueueRoute(Some(route)) => (q + route@, CustomerCharacterStatus::Ready),
        CustomerCommand::EnqueueRoute(None) => (q, st),
    }
}

/// The waypoints and status after running `cs` in order.
pub open spec fn apply_commands(
    q: Seq<Point>,
    st: CustomerCharacterStatus,
    cs: Seq<CustomerCommand>,
) -> (Seq<Point>, CustomerCharacterStatus)
    decreases cs.len(),
{
    if cs.len() == 0 {
        (q, st)
    } else {
        let (q1, s1) = apply_commands(q, st, cs.drop_last());
        apply_command(q1, s1, cs.last())
    }
}

pub open spec fn command_ok(c: CustomerCommand) -> bool {
    match c {
        CustomerCommand::EnqueueRoute(Some(route)) => waypoints_ok(route@),
        CustomerCommand::EnqueueRoute(None) => true,
    }
}

/// Every route that `events` carry leads to valid waypoints.
pub open spec fn events_ok(events: Seq<DelayEvent<CustomerCommand>>) -> bool {
    forall|i: int| 0 <= i < events.len() ==> command_ok(#[trigger] events[i].action)
}

/// A flush keeps the routes that events carry valid, both those it runs and
/// those it leaves.
proof fn lemma_flush_keeps_ok(events: Seq<DelayEvent<CustomerCommand>>, t: Clock)
    requires
        events_ok(events),
    ensures
        events_ok(remaining_events(events, t)),
        forall|j: int|
            0 <= j < actions_of(flushed_events(events, t)).len() ==> command_ok(
                #[trigger] actions_of(flushed_events(events, t))[j],
            ),
{
    lemma_flush_exactly_once(events, t);
    let rem = remaining_events(events, t);
    let fl = flushed_events(events, t);
    assert forall|j: int| 0 <= j < rem.len() implies command_ok(#[trigger] rem[j].action) by {
        assert(rem[j] == (rem + fl.reverse())[j]);
    }
    assert forall|j: int|
        0 <= j < actions_of(fl).len() implies command_ok(#[trigger] actions_of(fl)[j]) by {
        let k = rem.len() + fl.len() - 1 - j;
        assert(fl.reverse()[fl.len() - 1 - j] == fl[j]);
        assert((rem + fl.reverse())[k] == fl[j]);
        assert(events[k] == fl[j]);
    }
}

/// `points` are the map positions of the tiles of a shortest route from
/// `start` to `dest`.
pub open spec fn is_route_waypoints(
    map: &TileGrid,
    start: TilePosition,
    dest: TilePosition,
    points: Seq<Point>,
) -> bool {
    exists|route: Seq<TilePosition>|
        is_shortest_route(map, start, dest, route) && points.len() == route.len() && forall|i: int|
            0 <= i < route.len() ==> #[trigger] points[i] == map.tile_to_map_spec(route[i])
}

/// `v` brought into `[-CUSTOMER_STEP, CUSTOMER_STEP]`.
pub open spec fn step_toward(v: int) -> int {
    if v > CUSTOMER_STEP {
        CUSTOMER_STEP as int
    } else if v < -CUSTOMER_STEP {
        -CUSTOMER_STEP
    } else {
        v
    }
}

/// The tick at which a route asked for at `t` is queued.
pub open spec fn delay_tick(t: Clock) -> Clock {
    if t > u64::MAX - ROUTE_DELAY {
        u64::MAX
    } else {
        (t + ROUTE_DELAY) as Clock
    }
}

/// `a` lies closer to `b` than one and a half pixels.
pub open spec fn near(a: Point, b: Point) -> bool {
    let dx = a.x - b.x;
    let dy = a.y - b.y;
    4 * (dx * dx + dy * dy) < 9
}

/// What one tick does to a customer that was `o` and is now `n`, when
/// `dest` is the destination it would ask a route for.
pub open spec fn tick_spec(
    o: &CustomerCharacter,
    n: &CustomerCharacter,
    map: &TileGrid,
    counter: TilePosition,
    dest: TilePosition,
    t: Clock,
) -> bool {
    let (q1, s1) = apply_commands(
        o.queue_spec(),
        o.status_spec(),
        actions_of(flushed_events(o.events_spec(), t)),
    );
    let ev1 = remaining_events(o.events_spec(), t);
    &&& n.candidates_spec() == o.candidates_spec()
    &&& match s1 {
        CustomerCharacterStatus::Ready => if q1.len() == 0 {
            &&& n.status_spec() == CustomerCharacterStatus::WaitOnBookShelf
            &&& n.queue_spec() == q1
            &&& n.events_spec().len() == ev1.len() + 1
            &&& n.events_spec().drop_last() == ev1
            &&& n.events_spec().last().run_time == delay_tick(t)
            &&& o.route_command_ok(map, dest, n.events_spec().last().action)
            &&& n.character_spec() == o.character_spec()
            &&& n.goal_spec() == o.goal_spec()
            &&& n.shopping_done_spec() == o.shopping_done_spec()
        } else {
            &&& n.status_spec() == CustomerCharacterStatus::Moving
            &&& n.queue_spec() == q1.drop_first()
            &&& n.goal_spec() == q1[0]
            &&& n.events_spec() == ev1
            &&& n.character_spec().speed_info_spec().speed_spec() == o.heading_speed(q1[0])
            &&& n.same_body(o)
            &&& n.shopping_done_spec() == o.shopping_done_spec()
        },
        CustomerCharacterStatus::Moving => if near(o.position_spec(), o.goal_spec()) {
            let at_counter = !o.shopping_done_spec() && map.map_to_tile_spec(o.goal_spec()) == Some(
                counter,
            );
            &&& n.position_spec() == o.goal_spec()
            &&& n.character_spec().speed_info_spec().speed_spec()
                == o.character_spec().speed_info_spec().border_spec().round_spec(0, 0)
            &&& n.status_spec() == if at_counter {
                CustomerCharacterStatus::WaitOnClerk
            } else {
                CustomerCharacterStatus::Ready
            }
            &&& n.shopping_done_spec() == (o.shopping_done_spec() || at_counter)
            &&& n.queue_spec() == q1
            &&& n.events_spec() == ev1
            &&& n.goal_spec() == o.goal_spec()
        } else {
            &&& n.status_spec() == CustomerCharacterStatus::Moving
            &&& n.queue_spec() == q1
            &&& n.events_spec() == ev1
            &&& n.character_spec() == o.character_spec()
            &&& n.goal_spec() == o.goal_spec()
            &&& n.shopping_done_spec() == o.shopping_done_spec()
        },
        _ => {
            &&& n.status_spec() == s1
            &&& n.queue_spec() == q1
            &&& n.events_spec() == ev1
            &&& n.character_spec() == o.character_spec()
            &&& n.goal_spec() == o.goal_spec()
            &&& n.shopping_done_spec() == o.shopping_done_spec()
        },
    }
}

/// A customer of the shop: an actor that walks to destinations over the
/// tile grid, and waits at the counter once it reaches it.
pub struct CustomerCharacter {
    event_list: DelayEventList<CustomerCommand>,
    character: MapObject,
    move_data: CustomerDestPoint,
    move_queue: CustomerMoveQueue,
    customer_status: CustomerCharacterStatus,
    shopping_is_done: bool,
    current_goal: Point,
}

impl CustomerCharacter {
    pub closed spec fn events_spec(&self) -> Seq<DelayEvent<CustomerCommand>> {
        self.event_list.events()
    }

    pub closed spec fn character_spec(&self) -> &MapObject {
        &self.character
    }

    pub closed spec fn candidates_spec(&self) -> Seq<TilePosition> {
        self.move_data.candidates_spec()
    }

    pub closed spec fn queue_spec(&self) -> Seq<Point> {
        self.move_queue.view_seq()
    }

    pub closed spec fn status_spec(&self) -> CustomerCharacterStatus {
        self.customer_status
    }

    pub closed spec fn shopping_done_spec(&self) -> bool {
        self.shopping_is_done
    }

    pub closed spec fn goal_spec(&self) -> Point {
        self.current_goal
    }

    pub open spec fn wf(&self) -> bool {
        &&& self.character_spec().wf()
        &&& self.candidates_spec().len() > 0
        &&& waypoints_ok(self.queue_spec())
        &&& waypoint_ok(self.goal_spec())
        &&& events_ok(self.events_spec())
    }

    /// A new customer, ready, with nothing queued and nothing scheduled.
    pub fn new(character: MapObject, move_data: CustomerDestPoint) -> (r: CustomerCharacter)
        requires
            character.wf(),
            move_data.candidates_spec().len() > 0,
        ensures
            r.wf(),
            r.character_spec() == character,
            r.candidates_spec() == move_data.candidates_spec(),
            r.queue_spec() == Seq::<Point>::empty(),
            r.events_spec() == Seq::<DelayEvent<CustomerCommand>>::empty(),
            r.status_spec() == CustomerCharacterStatus::Ready,
            !r.shopping_done_spec(),
            r.goal_spec() == (Point { x: 0, y: 0 }),
    {
        CustomerCharacter {
            event_list: DelayEventList::new(),
            character,
            move_data,
            move_queue: CustomerMoveQueue::new(),
            customer_status: CustomerCharacterStatus::Ready,
            shopping_is_done: false,
            current_goal: Point { x: 0, y: 0 },
        }
    }

    /// The tile under the customer's collidable box on `map`.
    pub open spec fn start_tile(&self, map: &TileGrid) -> Option<TilePosition> {
        map.map_to_tile_spec(self.character_spec().collision_position_spec())
    }

    /// Asks `map` for a route to `dest` from the tile under the customer and
    /// gives its waypoints as map positions. `None` while waypoints are still
    /// queued, where the customer stands outside the grid, or where no route
    /// leads to `dest`.
    pub fn update_current_destination(&self, map: &TileGrid, dest: TilePosition) -> (r: Option<
        Vec<Point>,
    >)
        requires
            self.wf(),
            map.wf(),
        ensures
            r.is_some() <==> (self.queue_spec().len() == 0 && self.start_tile(map).is_some()
                && route_exists(map, self.start_tile(map).unwrap(), dest)),
            r matches Some(points) ==> is_route_waypoints(
                map,
                self.start_tile(map).unwrap(),
                dest,
                points@,
            ) && waypoints_ok(points@),
    {
        if !self.move_queue.empty() {
            return None;
        }
        let pos = self.character.get_map_position_with_collision_top_offset();
        let start = match map.map_position_to_tile_position(pos) {
            Some(s) => s,
            None => {
                return None;
            },
        };
        let route = match map.find_shortest_route(start, dest) {
            Some(route) => route,
            None => {
                return None;
            },
        };
        let mut points: Vec<Point> = Vec::new();
        let mut i: usize = 0;
        while i < route.len()
            invariant
                map.wf(),
                is_shortest_route(map, start, dest, route@),
                i <= route@.len(),
                points@.len() == i,
                forall|j: int|
                    0 <= j < i ==> #[trigger] points@[j] == map.tile_to_map_spec(route@[j]),
                waypoints_ok(points@),
            decreases route@.len() - i,
        {
            let t = route[i];
            assert(map.passable(route@[i as int].x as int, route@[i as int].y as int));
            let p = map.tile_position_to_map_position(t);
            proof {
                let ts = map.tile_size_spec();
                assert(t.x * ts <= map.width_spec() * ts) by (nonlinear_arith)
                    requires
                        t.x < map.width_spec(),
                        ts > 0,
                ;
                assert(t.y * ts <= map.height_spec() * ts) by (nonlinear_arith)
                    requires
                        t.y < map.height_spec(),
                        ts > 0,
                ;
                assert(t.x * ts >= 0 && t.y * ts >= 0) by (nonlinear_arith)
                    requires
                        t.x >= 0,
                        t.y >= 0,
                        ts > 0,
                ;
            }
            points.push(p);
            i = i + 1;
        }
        Some(points)
    }

    /// The map position of the customer's collidable box.
    pub open spec fn position_spec(&self) -> Point {
        self.character_spec().collision_position_spec()
    }

    /// The speed that heads the customer from where it stands toward `goal`,
    /// at most `CUSTOMER_STEP` per axis, clamped against its speed border.
    pub open spec fn heading_speed(&self, goal: Point) -> Vector2 {
        self.character_spec().speed_info_spec().border_spec().round_spec(
            step_toward(goal.x - self.position_spec().x),
            step_toward(goal.y - self.position_spec().y),
        )
    }

    /// The customer's body is where and as it was, its speed and animation
    /// aside.
    pub open spec fn same_body(&self, o: &CustomerCharacter) -> bool {
        &&& self.character_spec().position_spec() == o.character_spec().position_spec()
        &&& self.character_spec().crop_spec() == o.character_spec().crop_spec()
        &&& self.character_spec().width_spec() == o.character_spec().width_spec()
        &&& self.character_spec().height_spec() == o.character_spec().height_spec()
        &&& self.character_spec().speed_info_spec().border_spec() == o.character_spec().speed_info_spec().border_spec()
    }

    /// The command scheduled when a route to `dest` was asked for with no
    /// waypoint queued: it carries the answer that
    /// `update_current_destination` gives.
    pub open spec fn route_command_ok(
        &self,
        map: &TileGrid,
        dest: TilePosition,
        c: CustomerCommand,
    ) -> bool {
        match c {
            CustomerCommand::EnqueueRoute(r) => {
                &&& r.is_some() <==> (self.start_tile(map).is_some() && route_exists(
                    map,
                    self.start_tile(map).unwrap(),
                    dest,
                ))
                &&& r matches Some(points) ==> is_route_waypoints(
                    map,
                    self.start_tile(map).unwrap(),
                    dest,
                    points@,
                ) && waypoints_ok(points@)
            },
        }
    }

    /// Sets the customer off toward `goal_point`: it heads there at most
    /// `CUSTOMER_STEP` per axis and, unless it stands on the goal already,
    /// faces the heading.
    pub fn override_move_effect(&mut self, goal_point: Point)
        requires
            old(self).wf(),
        ensures
            final(self).wf(),
            final(self).character_spec().speed_info_spec().speed_spec() == old(self).heading_speed(goal_point),
            final(self).position_spec() != goal_point ==> final(self).character_spec().mode_spec()
                == heading_mode(
                goal_point.x - old(self).position_spec().x,
                goal_point.y - old(self).position_spec().y,
            ),
            final(self).position_spec() == goal_point ==> final(self).character_spec().mode_spec()
                == old(self).character_spec().mode_spec(),
            final(self).same_body(old(self)),
            final(self).events_spec() == old(self).events_spec(),
            final(self).candidates_spec() == old(self).candidates_spec(),
            final(self).queue_spec() == old(self).queue_spec(),
            final(self).status_spec() == old(self).status_spec(),
            final(self).shopping_done_spec() == old(self).shopping_done_spec(),
            final(self).goal_spec() == old(self).goal_spec(),
    {
        let current = self.character.get_map_position_with_collision_top_offset();
        let dx: i64 = (goal_point.x as i64) - (current.x as i64);
        let dy: i64 = (goal_point.y as i64) - (current.y as i64);
        let sx: i64 = if dx > CUSTOMER_STEP {
            CUSTOMER_STEP
        } else if dx < -CUSTOMER_STEP {
            -CUSTOMER_STEP
        } else {
            dx
        };
        let sy: i64 = if dy > CUSTOMER_STEP {
            CUSTOMER_STEP
        } else if dy < -CUSTOMER_STEP {
            -CUSTOMER_STEP
        } else {
            dy
        };
        if dx != 0 || dy != 0 {
            let mode = animation_mode_from_heading(dx, dy);
            self.character.change_animation_mode(mode);
        }
        self.character.set_speed(Vector2 { x: sx, y: sy });
    }

    /// Sets the speed to zero, or to the nearest speed that the border allows.
    pub fn reset_speed(&mut self)
        requires
            old(self).wf(),
        ensures
            final(self).wf(),
            final(self).character_spec().speed_info_spec().speed_spec() == old(
                self,
            ).character_spec().speed_info_spec().border_spec().round_spec(0, 0),
            final(self).character_spec().mode_spec() == old(self).character_spec().mode_spec(),
            final(self).same_body(old(self)),
            final(self).events_spec() == old(self).events_spec(),
            final(self).candidates_spec() == old(self).candidates_spec(),
            final(self).queue_spec() == old(self).queue_spec(),
            final(self).status_spec() == old(self).status_spec(),
            final(self).shopping_done_spec() == old(self).shopping_done_spec(),
            final(self).goal_spec() == old(self).goal_spec(),
    {
        self.character.set_speed(Vector2 { x: 0, y: 0 });
    }

    /// Runs the deferred commands that are due at tick `t`, in the order
    /// in which the list hands them out, and keeps the others.
    pub fn flush_delay_event(&mut self, t: Clock)
        requires
            old(self).wf(),
        ensures
            final(self).wf(),
            (final(self).queue_spec(), final(self).status_spec()) == apply_commands(
                old(self).queue_spec(),
                old(self).status_spec(),
                actions_of(flushed_events(old(self).events_spec(), t)),
            ),
            final(self).events_spec() == remaining_events(old(self).events_spec(), t),
            final(self).character_spec() == old(self).character_spec(),
            final(self).candidates_spec() == old(self).candidates_spec(),
            final(self).shopping_done_spec() == old(self).shopping_done_spec(),
            final(self).goal_spec() == old(self).goal_spec(),
    {
        proof {
            lemma_flush_keeps_ok(self.event_list.events(), t);
        }
        let mut cmds = self.event_list.flush(t);
        let ghost all = cmds@;
        let ghost q0 = self.move_queue.view_seq();
        let ghost s0 = self.customer_status;
        let ghost mut i: int = 0;
        while cmds.len() > 0
            invariant
                0 <= i <= all.len(),
                cmds@ == all.subrange(i, all.len() as int),
                forall|j: int| 0 <= j < all.len() ==> command_ok(#[trigger] all[j]),
                (self.move_queue.view_seq(), self.customer_status) == apply_commands(
                    q0,
                    s0,
                    all.take(i),
                ),
                waypoints_ok(self.move_queue.view_seq()),
                self.event_list.events() == remaining_events(old(self).events_spec(), t),
                events_ok(self.event_list.events()),
                self.character == old(self).character,
                self.move_data == old(self).move_data,
                self.shopping_is_done == old(self).shopping_is_done,
                self.current_goal == old(self).current_goal,
            decreases all.len() - i,
        {
            let c = cmds.remove(0);
            assert(c == all[i]);
            assert(all.take(i + 1).drop_last() =~= all.take(i));
            assert(all.take(i + 1).last() == all[i]);
            match c {
                CustomerCommand::EnqueueRoute(Some(route)) => {
                    let ghost before = self.move_queue.view_seq();
                    let ghost r = route@;
                    self.move_queue.enqueue(route);
                    self.customer_status = CustomerCharacterStatus::Ready;
                    proof {
                        assert(waypoints_ok(r));
                        assert forall|j: int|
                            0 <= j < self.move_queue.view_seq().len() implies waypoint_ok(
                            #[trigger] self.move_queue.view_seq()[j],
                        ) by {
                            if j >= before.len() {
                                assert(self.move_queue.view_seq()[j] == r[j - before.len()]);
                            }
                        }
                    }
                },
                CustomerCommand::EnqueueRoute(None) => {},
            }
            proof {
                i = i + 1;
                assert(cmds@ =~= all.subrange(i, all.len() as int));
            }
        }
        proof {
            assert(all.take(i) =~= all);
        }
    }

    /// The step of a ready customer, with `dest` as the destination to ask a
    /// route for. With no waypoint queued it asks for the route, schedules
    /// the command that queues it `ROUTE_DELAY` ticks later, and waits;
    /// otherwise it takes the next waypoint as its goal and sets off.
    pub fn update_move_effect(&mut self, map: &TileGrid, dest: TilePosition, t: Clock)
        requires
            old(self).wf(),
            map.wf(),
        ensures
            final(self).wf(),
            old(self).queue_spec().len() == 0 ==> {
                &&& final(self).status_spec() == CustomerCharacterStatus::WaitOnBookShelf
                &&& final(self).queue_spec() == old(self).queue_spec()
                &&& final(self).events_spec().len() == old(self).events_spec().len() + 1
                &&& final(self).events_spec().drop_last() == old(self).events_spec()
                &&& final(self).events_spec().last().run_time == delay_tick(t)
                &&& old(self).route_command_ok(map, dest, final(self).events_spec().last().action)
                &&& final(self).character_spec() == old(self).character_spec()
                &&& final(self).goal_spec() == old(self).goal_spec()
            },
            old(self).queue_spec().len() > 0 ==> {
                &&& final(self).status_spec() == CustomerCharacterStatus::Moving
                &&& final(self).queue_spec() == old(self).queue_spec().drop_first()
                &&& final(self).goal_spec() == old(self).queue_spec()[0]
                &&& final(self).events_spec() == old(self).events_spec()
                &&& final(self).character_spec().speed_info_spec().speed_spec() == old(
                    self,
                ).heading_speed(old(self).queue_spec()[0])
                &&& final(self).same_body(old(self))
            },
            final(self).candidates_spec() == old(self).candidates_spec(),
            final(self).shopping_done_spec() == old(self).shopping_done_spec(),
    {
        if self.move_queue.empty() {
            let next_route = self.update_current_destination(map, dest);
            let ghost before = self.event_list.events();
            self.event_list.add_event(
                CustomerCommand::EnqueueRoute(next_route),
                if t > u64::MAX - ROUTE_DELAY {
                    u64::MAX
                } else {
                    t + ROUTE_DELAY
                },
            );
            self.customer_status = CustomerCharacterStatus::WaitOnBookShelf;
            proof {
                let ev = self.event_list.events();
                assert(ev.drop_last() =~= before);
                assert forall|i: int| 0 <= i < ev.len() implies command_ok(
                    #[trigger] ev[i].action,
                ) by {
                    if i < before.len() {
                        assert(ev[i] == before[i]);
                    }
                }
            }
            return;
        }
        let next = self.move_queue.dequeue();
        match next {
            Some(next_position) => {
                proof {
                    assert(waypoint_ok(old(self).queue_spec()[0]));
                    assert forall|i: int| 0 <= i < self.move_queue.view_seq().len() implies waypoint_ok(
                        #[trigger] self.move_queue.view_seq()[i],
                    ) by {
                        assert(self.move_queue.view_seq()[i] == old(self).queue_spec()[i + 1]);
                    }
                }
                self.override_move_effect(next_position);
                self.current_goal = next_position;
                self.customer_status = CustomerCharacterStatus::Moving;
            },
            None => {},
        }
    }

    /// Whether the customer stands within one and a half pixels of its goal.
    pub fn is_goal_now(&self) -> (r: bool)
        requires
            self.wf(),
        ensures
            r == near(self.position_spec(), self.goal_spec()),
    {
        let current = self.character.get_map_position_with_collision_top_offset();
        let dx = (current.x as i128) - (self.current_goal.x as i128);
        let dy = (current.y as i128) - (self.current_goal.y as i128);
        proof {
            assert(0 <= dx * dx <= 0x1_0000_0000_0000_0000) by (nonlinear_arith)
                requires
                    -0x1_0000_0000 <= dx <= 0x1_0000_0000,
            ;
            assert(0 <= dy * dy <= 0x1_0000_0000_0000_0000) by (nonlinear_arith)
                requires
                    -0x1_0000_0000 <= dy <= 0x1_0000_0000,
            ;
        }
        4 * (dx * dx + dy * dy) < 9
    }

    /// The step of a moving customer: once within one and a half pixels of
    /// its goal it stands exactly on it, stops, and is ready again; where
    /// the goal lies on the `counter` tile and it has not shopped yet, it
    /// waits for the clerk instead. Short of the goal nothing changes.
    pub fn check_arrival(&mut self, map: &TileGrid, counter: TilePosition)
        requires
            old(self).wf(),
            map.wf(),
        ensures
            final(self).wf(),
            !near(old(self).position_spec(), old(self).goal_spec()) ==> *final(self) == *old(self),
            near(old(self).position_spec(), old(self).goal_spec()) ==> {
                let at_counter = !old(self).shopping_done_spec() && map.map_to_tile_spec(
                    old(self).goal_spec(),
                ) == Some(counter);
                &&& final(self).position_spec() == old(self).goal_spec()
                &&& final(self).character_spec().speed_info_spec().speed_spec() == old(
                    self,
                ).character_spec().speed_info_spec().border_spec().round_spec(0, 0)
                &&& final(self).status_spec() == if at_counter {
                    CustomerCharacterStatus::WaitOnClerk
                } else {
                    CustomerCharacterStatus::Ready
                }
                &&& final(self).shopping_done_spec() == (old(self).shopping_done_spec()
                    || at_counter)
                &&& final(self).queue_spec() == old(self).queue_spec()
                &&& final(self).events_spec() == old(self).events_spec()
                &&& final(self).goal_spec() == old(self).goal_spec()
            },
            final(self).candidates_spec() == old(self).candidates_spec(),
    {
        if !self.is_goal_now() {
            return;
        }
        let goal = self.current_goal;
        proof {
            self.character.lemma_crop_bounds();
        }
        self.character.set_map_position_with_collision_top_offset(goal);
        self.customer_status = CustomerCharacterStatus::Ready;
        self.reset_speed();
        if !self.shopping_is_done {
            match map.map_position_to_tile_position(goal) {
                Some(tile) => {
                    if tile == counter {
                        self.customer_status = CustomerCharacterStatus::WaitOnClerk;
                        self.shopping_is_done = true;
                    }
                },
                None => {},
            }
        }
    }

    /// One tick of the customer at tick `t`, with `dest` as the destination
    /// it asks a route for if it needs one: the due commands run first, then
    /// a ready customer takes its step and a moving one checks whether it
    /// has arrived. A waiting customer only runs its commands.
    pub fn try_update_move_effect_to(
        &mut self,
        map: &TileGrid,
        counter: TilePosition,
        dest: TilePosition,
        t: Clock,
    )
        requires
            old(self).wf(),
            map.wf(),
        ensures
            final(self).wf(),
            tick_spec(old(self), final(self), map, counter, dest, t),
    {
        self.flush_delay_event(t);
        match self.customer_status {
            CustomerCharacterStatus::Ready => {
                self.update_move_effect(map, dest, t);
            },
            CustomerCharacterStatus::Moving => {
                self.check_arrival(map, counter);
            },
            _ => {},
        }
    }

    /// One tick of the customer at tick `t`, drawing at random the
    /// destination it asks a route for if it needs one.
    pub fn try_update_move_effect(&mut self, map: &TileGrid, counter: TilePosition, t: Clock)
        requires
            old(self).wf(),
            map.wf(),
        ensures
            final(self).wf(),
            exists|dest: TilePosition|
                old(self).candidates_spec().contains(dest) && tick_spec(
                    old(self),
                    final(self),
                    map,
                    counter,
                    dest,
                    t,
                ),
    {
        let dest = self.move_data.random_select();
        self.try_update_move_effect_to(map, counter, dest, t);
    }

    /// Drops the queued waypoints and queues a route to `dest` at once, if
    /// one is found; the customer is then ready to walk it.
    pub fn set_destination_forced(&mut self, map: &TileGrid, dest: TilePosition)
        requires
            old(self).wf(),
            map.wf(),
        ensures
            final(self).wf(),
            old(self).start_tile(map).is_some() && route_exists(
                map,
                old(self).start_tile(map).unwrap(),
                dest,
            ) ==> final(self).status_spec() == CustomerCharacterStatus::Ready && is_route_waypoints(
                map,
                old(self).start_tile(map).unwrap(),
                dest,
                final(self).queue_spec(),
            ),
            !(old(self).start_tile(map).is_some() && route_exists(
                map,
                old(self).start_tile(map).unwrap(),
                dest,
            )) ==> final(self).status_spec() == old(self).status_spec() && final(self).queue_spec()
                == Seq::<Point>::empty(),
            final(self).character_spec() == old(self).character_spec(),
            final(self).events_spec() == old(self).events_spec(),
            final(self).candidates_spec() == old(self).candidates_spec(),
            final(self).goal_spec() == old(self).goal_spec(),
            final(self).shopping_done_spec() == old(self).shopping_done_spec(),
    {
        self.move_queue.clear();
        let next_route = self.update_current_destination(map, dest);
        match next_route {
            Some(route) => {
                proof {
                    assert(Seq::<Point>::empty() + route@ =~= route@);
                }
                self.move_queue.enqueue(route);
                self.customer_status = CustomerCharacterStatus::Ready;
            },
            None => {},
        }
    }

    pub fn get_status(&self) -> (r: CustomerCharacterStatus)
        ensures
            r == self.status_spec(),
    {
        self.customer_status
    }

    /// Whether the customer waits at the counter for the clerk.
    pub fn is_wait_on_clerk(&self) -> (r: bool)
        ensures
            r == (self.status_spec() == CustomerCharacterStatus::WaitOnClerk),
    {
        self.customer_status == CustomerCharacterStatus::WaitOnClerk
    }

    pub fn get_current_goal(&self) -> (r: Point)
        ensures
            r == self.goal_spec(),
    {
        self.current_goal
    }

    pub fn queued_waypoints(&self) -> (r: usize)
        ensures
            r == self.queue_spec().len(),
    {
        self.move_queue.len()
    }

    pub fn pending_events(&self) -> (r: usize)
        ensures
            r == self.events_spec().len(),
    {
        self.event_list.len()
    }

    /// The top-left corner of the customer's sprite on the map.
    pub fn get_map_position(&self) -> (r: Point)
        ensures
            r == self.character_spec().position_spec().current,
    {
        self.character.get_map_position()
    }

    pub fn get_character_object(&self) -> (r: &MapObject)
        ensures
            r == self.character_spec(),
    {
        &self.character
    }

    /// Steps along X at the current speed.
    pub fn move_map_current_speed_x(&mut self)
        requires
            old(self).wf(),
            i32::MIN <= old(self).character_spec().position_spec().current.x + old(
                self,
            ).character_spec().speed_info_spec().speed_spec().x,
            old(self).character_spec().position_spec().current.x + old(
                self,
            ).character_spec().speed_info_spec().speed_spec().x + old(
                self,
            ).character_spec().width_spec() <= i32::MAX,
        ensures
            final(self).wf(),
            final(self).character_spec().position_spec().previous == old(
                self,
            ).character_spec().position_spec().current,
            final(self).character_spec().position_spec().current.x == old(
                self,
            ).character_spec().position_spec().current.x + old(
                self,
            ).character_spec().speed_info_spec().speed_spec().x,
            final(self).character_spec().position_spec().current.y == old(
                self,
            ).character_spec().position_spec().current.y,
            final(self).character_spec().same_but_position(old(self).character_spec()),
            final(self).events_spec() == old(self).events_spec(),
            final(self).queue_spec() == old(self).queue_spec(),
            final(self).status_spec() == old(self).status_spec(),
            final(self).goal_spec() == old(self).goal_spec(),
            final(self).candidates_spec() == old(self).candidates_spec(),
            final(self).shopping_done_spec() == old(self).shopping_done_spec(),
    {
        let x_speed = self.character.speed_info().get_speed().x;
        self.character.move_map(Vector2 { x: x_speed, y: 0 });
    }

    /// Steps along Y at the current speed.
    pub fn move_map_current_speed_y(&mut self)
        requires
            old(self).wf(),
            i32::MIN <= old(self).character_spec().position_spec().current.y + old(
                self,
            ).character_spec().speed_info_spec().speed_spec().y,
            old(self).character_spec().position_spec().current.y + old(
                self,
            ).character_spec().speed_info_spec().speed_spec().y + old(
                self,
            ).character_spec().height_spec() <= i32::MAX,
        ensures
            final(self).wf(),
            final(self).character_spec().position_spec().previous == old(
                self,
            ).character_spec().position_spec().current,
            final(self).character_spec().position_spec().current.x == old(
                self,
            ).character_spec().position_spec().current.x,
            final(self).character_spec().position_spec().current.y == old(
                self,
            ).character_spec().position_spec().current.y + old(
                self,
            ).character_spec().speed_info_spec().speed_spec().y,
            final(self).character_spec().same_but_position(old(self).character_spec()),
            final(self).events_spec() == old(self).events_spec(),
            final(self).queue_spec() == old(self).queue_spec(),
            final(self).status_spec() == old(self).status_spec(),
            final(self).goal_spec() == old(self).goal_spec(),
            final(self).candidates_spec() == old(self).candidates_spec(),
            final(self).shopping_done_spec() == old(self).shopping_done_spec(),
    {
        let y_speed = self.character.speed_info().get_speed().y;
        self.character.move_map(Vector2 { x: 0, y: y_speed });
    }

    /// Shifts the customer by `offset`, as a collision correction does.
    pub fn move_map(&mut self, offset: Vector2)
        requires
            old(self).wf(),
            i32::MIN <= old(self).character_spec().position_spec().current.x + offset.x,
            i32::MIN <= old(self).character_spec().position_spec().current.y + offset.y,
            old(self).character_spec().position_spec().current.x + offset.x + old(
                self,
            ).character_spec().width_spec() <= i32::MAX,
            old(self).character_spec().position_spec().current.y + offset.y + old(
                self,
            ).character_spec().height_spec() <= i32::MAX,
        ensures
            final(self).wf(),
            final(self).character_spec().position_spec().previous == old(
                self,
            ).character_spec().position_spec().current,
            final(self).character_spec().position_spec().current.x == old(
                self,
            ).character_spec().position_spec().current.x + offset.x,
            final(self).character_spec().position_spec().current.y == old(
                self,
            ).character_spec().position_spec().current.y + offset.y,
            final(self).character_spec().same_but_position(old(self).character_spec()),
            final(self).events_spec() == old(self).events_spec(),
            final(self).queue_spec() == old(self).queue_spec(),
            final(self).status_spec() == old(self).status_spec(),
            final(self).goal_spec() == old(self).goal_spec(),
            final(self).candidates_spec() == old(self).candidates_spec(),
            final(self).shopping_done_spec() == old(self).shopping_done_spec(),
    {
        self.character.move_map(offset);
    }

    /// Places the customer's sprite with its top-left corner at `position`.
    pub fn set_map_position(&mut self, position: Point)
        requires
            old(self).wf(),
            old(self).character_spec().fits(position),
        ensures
            final(self).wf(),
            final(self).character_spec().position_spec().previous == old(
                self,
            ).character_spec().position_spec().current,
            final(self).character_spec().position_spec().current == position,
            final(self).character_spec().same_but_position(old(self).character_spec()),
            final(self).events_spec() == old(self).events_spec(),
            final(self).queue_spec() == old(self).queue_spec(),
            final(self).status_spec() == old(self).status_spec(),
            final(self).goal_spec() == old(self).goal_spec(),
            final(self).candidates_spec() == old(self).candidates_spec(),
            final(self).shopping_done_spec() == old(self).shopping_done_spec(),
    {
        self.character.set_map_position(position);
    }
}

} // verus!
