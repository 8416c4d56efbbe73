//! The broadcast bus: a multi-producer, multi-consumer event channel with
//! one global publish order. Every subscriber holds a private cursor and
//! observes the events published after its subscription point, in that
//! order. Each cursor tolerates a bounded lag: when a subscriber falls
//! more than `capacity` events behind, the oldest unread events are
//! dropped for that subscriber alone (lossy-but-live), and publishing
//! never blocks.
use vstd::prelude::*;
use crate::event::Event;

verus! {

/// The shared event log and the per-subscriber lag bound.
pub struct Bus {
    log: Vec<Event>,
    capacity: usize,
}

/// A private subscription cursor; no session may read another's.
pub struct Cursor {
    next: usize,
}

impl Cursor {
    /// The log position this cursor will read next.
    pub closed spec fn pos(&self) -> int {
        self.next as int
    }
}

impl View for Bus {
    type V = Seq<Event>;

    closed spec fn view(&self) -> Seq<Event> {
        self.log@
    }
}

impl Bus {
    /// The per-subscriber bound on not-yet-consumed events.
    pub closed spec fn spec_capacity(&self) -> int {
        self.capacity as int
    }

    /// The bus invariant: the lag bound is positive.
    pub open spec fn wf(&self) -> bool {
        self.spec_capacity() >= 1
    }

    /// An empty bus with the given lag bound.
    pub fn new(capacity: usize) -> (b: Bus)
        requires
            capacity >= 1,
        ensures
            b@ == Seq::<Event>::empty(),
            b.spec_capacity() == capacity,
            b.wf(),
    {
        Bus { log: Vec::new(), capacity }
    }

    /// Appends an event to the global order. Never blocks the publisher
    /// and reports no per-subscriber delivery outcome.
    pub fn publish(&mut self, e: Event)
        ensures
            final(self)@ == old(self)@.push(e),
            final(self).spec_capacity() == old(self).spec_capacity(),
    {
        self.log.push(e);
    }

    /// A cursor that will observe every event published from this point
    /// forward, and nothing retroactively.
    pub fn subscribe(&self) -> (c: Cursor)
        ensures
            c.pos() == self@.len(),
    {
        Cursor { next: self.log.len() }
    }

    /// Returns the next unread event and advances the cursor, or `None`
    /// when the cursor is at the end of the log (the session's idle
    /// point). A cursor lagging beyond the bound first skips the dropped
    /// oldest events, silently: lag loses events for this subscriber only
    /// and never closes the connection.
    pub fn poll(&self, c: &mut Cursor) -> (r: Option<Event>)
        requires
            self.wf(),
            0 <= old(c).pos() <= self@.len(),
        ensures
            final(c).pos() <= self@.len(),
            old(c).pos() == self@.len() ==> r is None && *final(c) == *old(c),
            old(c).pos() < self@.len() ==> ({
                let start = if self@.len() - old(c).pos() > self.spec_capacity() {
                    self@.len() - self.spec_capacity()
                } else {
                    old(c).pos()
                };
                &&& old(c).pos() <= start < self@.len()
                &&& r == Some(self@[start])
                &&& final(c).pos() == start + 1
            }),
    {
        let len = self.log.len();
        if c.next == len {
            None
        } else {
            let start = if len - c.next > self.capacity {
                len - self.capacity
            } else {
                c.next
            };
            let e = self.log[start].duplicate();
            c.next = start + 1;
            Some(e)
        }
    }
}

/// Every subscriber observes its subset of events in the single global
/// publish order: what `poll` delivers next never lies before the cursor,
/// and the cursor then moves just past it, so delivered log positions
/// strictly increase from the subscription point onward.
pub proof fn lemma_delivery_in_order(len: int, cap: int, pos: int)
    requires
        1 <= cap,
        0 <= pos < len,
    ensures
        ({
            let start = if len - pos > cap { len - cap } else { pos };
            pos <= start < len
        }),
{
}

} // verus!
