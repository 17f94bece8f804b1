//! The result bus: a bounded broadcast queue. Publishing never waits; a
//! subscriber that falls more than the capacity behind is told how many
//! messages it missed and goes on from the oldest one still held.

use vstd::prelude::*;

verus! {

/// A bounded broadcast queue of messages numbered from 0 in publish order.
pub struct Bus<T> {
    capacity: usize,
    /// The number of the oldest message still held.
    first: u64,
    /// The messages still held, oldest first.
    held: Vec<T>,
    /// Whether producers may still publish.
    open: bool,
}

/// Where a subscriber stands: the number of the next message it receives.
#[derive(Clone, Copy, Debug, PartialEq, Eq, Structural)]
pub struct Cursor {
    pub next: u64,
}

/// What a receive gives.
#[derive(Debug, PartialEq, Eq)]
pub enum Received<'a, T> {
    /// The next message.
    Message(&'a T),
    /// This many messages were dropped before the subscriber read them.
    Lagged(u64),
    /// Nothing was published since the last receive.
    Empty,
    /// The bus is closed and everything on it was received.
    Closed,
}

impl<T> Bus<T> {
    pub closed spec fn capacity_spec(&self) -> nat {
        self.capacity as nat
    }

    /// The number of the oldest message held.
    pub closed spec fn first_spec(&self) -> nat {
        self.first as nat
    }

    /// The messages held, oldest first.
    pub closed spec fn held_spec(&self) -> Seq<T> {
        self.held@
    }

    /// Whether producers may still publish.
    pub closed spec fn open_spec(&self) -> bool {
        self.open
    }

    /// The number that the next published message gets.
    pub open spec fn end_spec(&self) -> nat {
        self.first_spec() + self.held_spec().len()
    }

    pub closed spec fn wf(&self) -> bool {
        &&& self.capacity > 0
        &&& self.held@.len() <= self.capacity
        &&& self.first + self.held@.len() <= u64::MAX
        &&& self.first > 0 ==> self.held@.len() == self.capacity
    }

    /// `after` is `before` with `msg` published.
    pub open spec fn published(before: &Bus<T>, after: &Bus<T>, msg: T) -> bool {
        &&& after.capacity_spec() == before.capacity_spec()
        &&& after.end_spec() == before.end_spec() + 1
        &&& before.held_spec().len() < before.capacity_spec() ==> after.first_spec()
            == before.first_spec() && after.held_spec() == before.held_spec().push(msg)
        &&& before.held_spec().len() == before.capacity_spec() ==> after.first_spec()
            == before.first_spec() + 1 && after.held_spec() == before.held_spec().push(
            msg,
        ).drop_first()
    }

    /// What a subscriber at `c` receives next.
    pub open spec fn delivery(&self, c: Cursor) -> Option<T> {
        if c.next < self.first_spec() || c.next >= self.end_spec() {
            None
        } else {
            Some(self.held_spec()[c.next - self.first_spec()])
        }
    }

    /// An empty bus that holds up to `capacity` messages.
    pub fn new(capacity: usize) -> (r: Bus<T>)
        requires
            capacity > 0,
        ensures
            r.wf(),
            r.capacity_spec() == capacity,
            r.first_spec() == 0,
            r.held_spec().len() == 0,
            r.open_spec(),
    {
        Bus { capacity, first: 0, held: Vec::new(), open: true }
    }

    /// Whether producers may still publish.
    pub fn is_open(&self) -> (r: bool)
        ensures
            r == self.open_spec(),
    {
        self.open
    }

    /// Closes the bus: nothing more is published, and subscribers that have
    /// received everything are told so.
    pub fn close(&mut self)
        requires
            old(self).wf(),
        ensures
            final(self).wf(),
            !final(self).open_spec(),
            final(self).capacity_spec() == old(self).capacity_spec(),
            final(self).first_spec() == old(self).first_spec(),
            final(self).held_spec() == old(self).held_spec(),
    {
        self.open = false;
    }

    /// A subscriber that receives every message published from now on.
    pub fn subscribe(&self) -> (r: Cursor)
        requires
            self.wf(),
        ensures
            r.next == self.end_spec(),
    {
        Cursor { next: self.first + self.held.len() as u64 }
    }

    /// Publishes `msg` whatever the subscribers have read; where the bus is
    /// full, the oldest message is dropped.
    pub fn publish(&mut self, msg: T)
        requires
            old(self).wf(),
            old(self).open_spec(),
            old(self).end_spec() < u64::MAX,
        ensures
            final(self).wf(),
            final(self).open_spec(),
            Bus::published(old(self), final(self), msg),
    {
        self.held.push(msg);
        if self.held.len() > self.capacity {
            self.held.remove(0);
            self.first = self.first + 1;
        }
    }

    /// The next message for the subscriber at `c`, or how many messages it
    /// missed, or nothing when it has read everything.
    pub fn recv<'a>(&'a self, c: &mut Cursor) -> (r: Received<'a, T>)
        requires
            self.wf(),
            old(c).next <= self.end_spec(),
        ensures
            old(c).next < self.first_spec() ==> r == Received::<'a, T>::Lagged(
                (self.first_spec() - old(c).next) as u64,
            ) && final(c).next == self.first_spec(),
            self.first_spec() <= old(c).next < self.end_spec() ==> r == Received::Message(
                &self.held_spec()[old(c).next - self.first_spec()],
            ) && final(c).next == old(c).next + 1,
            old(c).next == self.end_spec() && self.open_spec() ==> r == Received::<'a, T>::Empty
                && final(c).next == old(c).next,
            old(c).next == self.end_spec() && !self.open_spec() ==> r == Received::<'a, T>::Closed
                && final(c).next == old(c).next,
    {
        if c.next < self.first {
            let missed = self.first - c.next;
            c.next = self.first;
            Received::Lagged(missed)
        } else if c.next < self.first + self.held.len() as u64 {
            let i = (c.next - self.first) as usize;
            c.next = c.next + 1;
            Received::Message(&self.held[i])
        } else if self.open {
            Received::Empty
        } else {
            Received::Closed
        }
    }
}

/// A message reaches every subscriber: after `msg` is published, each
/// subscriber that stood at the end of the bus receives `msg` itself next.
pub proof fn lemma_fan_out<T>(before: &Bus<T>, after: &Bus<T>, msg: T, c: Cursor)
    requires
        before.wf(),
        after.wf(),
        Bus::published(before, after, msg),
        c.next == before.end_spec(),
    ensures
        after.delivery(c) == Some(msg),
{
    if before.held_spec().len() == before.capacity_spec() {
        let s = before.held_spec().push(msg);
        assert(s.drop_first()[c.next - after.first_spec()] == s[c.next - before.first_spec()]);
    }
}

/// A subscriber that fell behind is told how many messages it missed, the
/// ones that were dropped unread, and then receives the oldest message still
/// held.
pub proof fn lemma_lag_then_resume<T>(bus: &Bus<T>, c: Cursor)
    requires
        bus.wf(),
        c.next < bus.first_spec(),
    ensures
        bus.held_spec().len() > 0,
        bus.delivery(Cursor { next: bus.first_spec() as u64 }) == Some(bus.held_spec()[0]),
{
}

} // verus!
