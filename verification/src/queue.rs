//! The queue on which the server actor puts the events for the host.

use std::collections::VecDeque;
use vstd::prelude::*;

use crate::event::{Event, EventModel};

verus! {

/// The events that wait for the host, oldest first.
pub struct EventQueue {
    queue: VecDeque<Event>,
}

impl View for EventQueue {
    type V = Seq<EventModel>;

    closed spec fn view(&self) -> Seq<EventModel> {
        self.queue@.map_values(|e: Event| e@)
    }
}

/// The mathematical value of a list of events.
pub open spec fn events_of(events: Seq<Event>) -> Seq<EventModel> {
    events.map_values(|e: Event| e@)
}

/// What a drain hands over of a queue in which `waiting` waits: all of it, in
/// order.
pub open spec fn drained(waiting: Seq<EventModel>) -> Seq<EventModel> {
    waiting
}

/// What a drain leaves of a queue in which `waiting` waits: nothing.
pub open spec fn left(waiting: Seq<EventModel>) -> Seq<EventModel> {
    Seq::empty()
}

/// A drain that follows a drain, with nothing put on the queue between the
/// two, hands over nothing.
pub proof fn lemma_second_drain_is_empty(waiting: Seq<EventModel>)
    ensures
        drained(left(waiting)) == Seq::<EventModel>::empty(),
        left(left(waiting)) == Seq::<EventModel>::empty(),
{
}

impl Default for EventQueue {
    fn default() -> (q: Self)
        ensures
            q@ == Seq::<EventModel>::empty(),
    {
        EventQueue { queue: VecDeque::new() }
    }
}

impl EventQueue {
    /// Puts `event` behind every event that already waits.
    pub fn push(&mut self, event: Event)
        ensures
            final(self)@ == old(self)@.push(event@),
    {
        self.queue.push_back(event);
        assert(self.queue@.map_values(|e: Event| e@) =~= old(self).queue@.map_values(
            |e: Event| e@,
        ).push(event@));
    }

    /// Hands over every waiting event, oldest first, and leaves the queue empty.
    pub fn pop_all(&mut self) -> (events: Vec<Event>)
        ensures
            events_of(events@) == drained(old(self)@),
            events@.len() == old(self)@.len(),
            final(self)@ == left(old(self)@),
    {
        let mut events: Vec<Event> = Vec::new();
        loop
            invariant
                events_of(events@) + self@ == old(self)@,
            ensures
                self.queue@.len() == 0,
            decreases self.queue@.len(),
        {
            match self.queue.pop_front() {
                Some(event) => {
                    let ghost before = events@;
                    events.push(event);
                    assert(events_of(events@) =~= events_of(before).push(event@));
                    assert(events_of(events@) + self@ =~= old(self)@);
                },
                None => {
                    break ;
                },
            }
        }
        assert(events_of(events@) =~= old(self)@);
        assert(self@ =~= Seq::<EventModel>::empty());
        events
    }

    /// How many events wait.
    pub fn len(&self) -> (n: usize)
        ensures
            n == self@.len(),
    {
        self.queue.len()
    }
}

} // verus!
