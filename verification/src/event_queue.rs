//! A bounded queue of the most recent events.

use std::collections::VecDeque;

use vstd::prelude::*;

use crate::models::BluetoothEvent;

verus! {

/// The most recent events, oldest first, at most `max_size` of them (one
/// when `max_size` is zero).
pub struct EventQueue {
    events: VecDeque<BluetoothEvent>,
    max_size: usize,
}

/// The queue after `e` arrives: when it is full, the oldest event leaves.
pub open spec fn after_push(q: Seq<BluetoothEvent>, max_size: usize, e: BluetoothEvent) -> Seq<BluetoothEvent> {
    if q.len() >= max_size && q.len() > 0 {
        q.drop_first().push(e)
    } else {
        q.push(e)
    }
}

impl View for EventQueue {
    type V = Seq<BluetoothEvent>;

    closed spec fn view(&self) -> Seq<BluetoothEvent> {
        self.events@
    }
}

impl EventQueue {
    /// The bound the queue was made with.
    pub closed spec fn max_size(&self) -> usize {
        self.max_size
    }

    /// An empty queue keeping at most `max_size` events.
    pub fn new(max_size: usize) -> (r: Self)
        ensures
            r@ == Seq::<BluetoothEvent>::empty(),
            r.max_size() == max_size,
    {
        EventQueue { events: VecDeque::new(), max_size }
    }

    /// Adds an event, dropping the oldest when the queue is full.
    pub fn push(&mut self, event: BluetoothEvent)
        ensures
            final(self)@ == after_push(old(self)@, old(self).max_size(), event),
            final(self).max_size() == old(self).max_size(),
    {
        if self.events.len() >= self.max_size {
            let _ = self.events.pop_front();
        }
        self.events.push_back(event);
        proof {
            let q = old(self)@;
            if q.len() >= self.max_size && q.len() > 0 {
                assert(q.subrange(1, q.len() as int) =~= q.drop_first());
            }
        }
    }

    /// The queued events, oldest first.
    pub fn recent(&self) -> (r: &VecDeque<BluetoothEvent>)
        ensures
            r@ == self@,
    {
        &self.events
    }
}

/// The largest number of events a queue made with `max_size` holds.
pub open spec fn queue_bound(max_size: usize) -> nat {
    if max_size == 0 {
        1
    } else {
        max_size as nat
    }
}

/// The queue stays within its bound and holds the most recent events: the
/// new event is last and the queue is a suffix of the old one followed by
/// the new event.
pub proof fn queue_keeps_most_recent(q: Seq<BluetoothEvent>, max_size: usize, e: BluetoothEvent)
    requires
        q.len() <= queue_bound(max_size),
    ensures
        after_push(q, max_size, e).len() <= queue_bound(max_size),
        after_push(q, max_size, e).last() == e,
        after_push(q, max_size, e).is_suffix_of(q.push(e)),
{
    let r = after_push(q, max_size, e);
    let full = q.push(e);
    assert(r =~= full.subrange(full.len() - r.len(), full.len() as int));
}

} // verus!
