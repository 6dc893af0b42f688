//! An adapter that turns entity-change notifications into a consumable
//! event queue. Each notification enqueues one unit event over an unbounded
//! channel; the enqueue is a non-blocking try-push, and once the consuming
//! end is dropped every further notification is silently discarded.

use vstd::prelude::*;

verus! {

/// The notification adapter: how many unit events are queued for the
/// consumer, and whether the consuming end still exists.
pub struct Observer {
    pending: u64,
    receiver_open: bool,
}

impl Observer {
    /// How many notifications are queued and not yet consumed.
    pub closed spec fn pending(self) -> u64 {
        self.pending
    }

    /// Whether the consuming end of the channel still exists.
    pub closed spec fn receiver_open(self) -> bool {
        self.receiver_open
    }

    /// A fresh observer with an empty queue and a live consumer.
    pub fn new() -> (o: Observer)
        ensures
            o.pending() == 0,
            o.receiver_open(),
    {
        Observer { pending: 0, receiver_open: true }
    }

    /// One change notification: enqueue a unit event for the consumer, or
    /// silently discard it if the consuming end was dropped.
    pub fn notify(&mut self)
        requires
            old(self).pending() < u64::MAX,
        ensures
            old(self).receiver_open() ==> final(self).pending() == old(self).pending() + 1,
            !old(self).receiver_open() ==> final(self).pending() == old(self).pending(),
            final(self).receiver_open() == old(self).receiver_open(),
    {
        if self.receiver_open {
            self.pending = self.pending + 1;
        }
    }

    /// Consume one queued notification, if any.
    pub fn try_recv(&mut self) -> (got: bool)
        requires
            old(self).receiver_open(),
        ensures
            got == (old(self).pending() > 0),
            got ==> final(self).pending() == old(self).pending() - 1,
            !got ==> final(self).pending() == old(self).pending(),
            final(self).receiver_open(),
    {
        if self.pending > 0 {
            self.pending = self.pending - 1;
            true
        } else {
            false
        }
    }

    /// Drop the consuming end: all queued events vanish and later
    /// notifications are discarded.
    pub fn drop_receiver(&mut self)
        ensures
            !final(self).receiver_open(),
            final(self).pending() == 0,
    {
        self.receiver_open = false;
        self.pending = 0;
    }
}

} // verus!
