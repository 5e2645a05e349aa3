use vstd::prelude::*;

verus! {

/// The tick counter that drives the simulation.
pub type Clock = u64;

/// An action of type `C` that is due at tick `run_time`.
pub struct DelayEvent<C> {
    pub run_time: Clock,
    pub action: C,
}

impl<C> DelayEvent<C> {
    pub fn new(action: C, run_time: Clock) -> (r: DelayEvent<C>)
        ensures
            r.run_time == run_time,
            r.action == action,
    {
        DelayEvent { run_time, action }
    }
}

/// The events that a flush at tick `t` takes, last added first: it takes
/// events from the end of the list for as long as they are due, and stops at
/// the first that is not.
pub open spec fn flushed_events<C>(events: Seq<DelayEvent<C>>, t: Clock) -> Seq<DelayEvent<C>>
    decreases events.len(),
{
    if events.len() == 0 || events.last().run_time > t {
        Seq::empty()
    } else {
        seq![events.last()] + flushed_events(events.drop_last(), t)
    }
}

/// The events that a flush at tick `t` leaves in place.
pub open spec fn remaining_events<C>(events: Seq<DelayEvent<C>>, t: Clock) -> Seq<DelayEvent<C>>
    decreases events.len(),
{
    if events.len() == 0 || events.last().run_time > t {
        events
    } else {
        remaining_events(events.drop_last(), t)
    }
}

pub open spec fn actions_of<C>(events: Seq<DelayEvent<C>>) -> Seq<C> {
    events.map_values(|e: DelayEvent<C>| e.action)
}

/// The deferred actions of one owner, each bound to the tick from which it
/// may run.
pub struct DelayEventList<C> {
    list: Vec<DelayEvent<C>>,
}

impl<C> DelayEventList<C> {
    /// The pending events, in the order in which they were added.
    pub closed spec fn events(&self) -> Seq<DelayEvent<C>> {
        self.list@
    }

    pub fn new() -> (r: DelayEventList<C>)
        ensures
            r.events() == Seq::<DelayEvent<C>>::empty(),
    {
        DelayEventList { list: Vec::new() }
    }

    /// Adds an event at the end of the list.
    pub fn add(&mut self, event: DelayEvent<C>)
        ensures
            final(self).events() == old(self).events().push(event),
    {
        self.list.push(event);
    }

    /// Schedules `action` to run at tick `run_time` or later.
    pub fn add_event(&mut self, action: C, run_time: Clock)
        ensures
            final(self).events() == old(self).events().push(
                DelayEvent { run_time, action },
            ),
    {
        self.list.push(DelayEvent { run_time, action });
    }

    /// Takes the last added event out of the list.
    pub fn move_top(&mut self) -> (r: Option<DelayEvent<C>>)
        ensures
            old(self).events().len() == 0 ==> r.is_none(),
            old(self).events().len() == 0 ==> final(self).events() == old(self).events(),
            old(self).events().len() > 0 ==> r == Some(old(self).events().last()),
            old(self).events().len() > 0 ==> final(self).events() == old(self).events().drop_last(),
    {
        self.list.pop()
    }

    pub fn len(&self) -> (r: usize)
        ensures
            r == self.events().len(),
    {
        self.list.len()
    }

    pub fn is_empty(&self) -> (r: bool)
        ensures
            r == (self.events().len() == 0),
    {
        self.list.len() == 0
    }

    /// Takes out the actions that are due at tick `t` and hands them back in
    /// the order in which they are to run. Events are taken from the end of
    /// the list; the first one found that is not yet due stays, and so do
    /// all before it, due or not.
    pub fn flush(&mut self, t: Clock) -> (r: Vec<C>)
        ensures
            r@ == actions_of(flushed_events(old(self).events(), t)),
            final(self).events() == remaining_events(old(self).events(), t),
    {
        let ghost start = self.list@;
        let mut out: Vec<C> = Vec::new();
        loop
            invariant
                out@ + actions_of(flushed_events(self.list@, t)) == actions_of(
                    flushed_events(start, t),
                ),
                remaining_events(self.list@, t) == remaining_events(start, t),
            ensures
                out@ == actions_of(flushed_events(start, t)),
                self.list@ == remaining_events(start, t),
            decreases self.list@.len(),
        {
            let ghost before = self.list@;
            match self.list.pop() {
                Some(e) => {
                    if e.run_time > t {
                        self.list.push(e);
                        assert(self.list@ == before);
                        assert(flushed_events(before, t) == Seq::<DelayEvent<C>>::empty());
                        assert(actions_of(flushed_events(before, t)) =~= Seq::<C>::empty());
                        assert(out@ =~= out@ + Seq::<C>::empty());
                        break;
                    }
                    let ghost out_before = out@;
                    out.push(e.action);
                    proof {
                        let f = flushed_events(self.list@, t);
                        assert(flushed_events(before, t) == seq![e] + f);
                        assert(actions_of(seq![e] + f) =~= seq![e.action] + actions_of(f));
                        assert(out@ + actions_of(f) =~= out_before + actions_of(seq![e] + f));
                    }
                },
                None => {
                    assert(actions_of(flushed_events(before, t)) =~= Seq::<C>::empty());
                    assert(out@ =~= out@ + Seq::<C>::empty());
                    break;
                },
            }
        }
        out
    }
}

/// A flush at tick `t` runs each event at most once and none before it is
/// due: every pending event either stays in the list or is run, exactly one
/// of the two, and each event run is due at `t`. Once every pending event is
/// due, a flush runs them all.
pub proof fn lemma_flush_exactly_once<C>(events: Seq<DelayEvent<C>>, t: Clock)
    ensures
        remaining_events(events, t) + flushed_events(events, t).reverse() == events,
        forall|i: int|
            0 <= i < flushed_events(events, t).len() ==> (#[trigger] flushed_events(
                events,
                t,
            )[i]).run_time <= t,
        (forall|i: int| 0 <= i < events.len() ==> (#[trigger] events[i]).run_time <= t)
            ==> remaining_events(events, t).len() == 0,
    decreases events.len(),
{
    if events.len() > 0 && events.last().run_time <= t {
        let p = events.drop_last();
        lemma_flush_exactly_once(p, t);
        let f = flushed_events(p, t);
        assert((seq![events.last()] + f).reverse() =~= f.reverse().push(events.last()));
        assert(remaining_events(p, t) + f.reverse().push(events.last()) =~= (remaining_events(p, t)
            + f.reverse()).push(events.last()));
        assert(p.push(events.last()) =~= events);
        assert forall|i: int|
            0 <= i < flushed_events(events, t).len() implies (#[trigger] flushed_events(
            events,
            t,
        )[i]).run_time <= t by {
            if i > 0 {
                assert(flushed_events(events, t)[i] == f[i - 1]);
            }
        }
        if forall|i: int| 0 <= i < events.len() ==> (#[trigger] events[i]).run_time <= t {
            assert forall|i: int| 0 <= i < p.len() implies (#[trigger] p[i]).run_time <= t by {
                assert(p[i] == events[i]);
            }
        }
    } else if events.len() > 0 {
        assert(Seq::<DelayEvent<C>>::empty().reverse() =~= Seq::<DelayEvent<C>>::empty());
        assert(events + Seq::<DelayEvent<C>>::empty() =~= events);
        if forall|i: int| 0 <= i < events.len() ==> (#[trigger] events[i]).run_time <= t {
            assert(events[events.len() - 1].run_time <= t);
        }
    } else {
        assert(Seq::<DelayEvent<C>>::empty().reverse() =~= Seq::<DelayEvent<C>>::empty());
        assert(events + Seq::<DelayEvent<C>>::empty() =~= events);
    }
}

} // verus!
