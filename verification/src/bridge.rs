//! The capture bridge: a bounded single-producer/single-consumer queue
//! that carries per-block audio summaries from the capture side to the
//! render side.
//!
//! The producer never blocks: a send into a full bridge drops the item
//! and reports failure. Items are delivered in production order, each
//! exactly once. Closing the producer side lets the consumer drain what
//! is queued and then observe end-of-stream.

use vstd::prelude::*;

verus! {

/// What one poll of the consumer side yields.
pub enum Recv<T> {
    /// The oldest queued item.
    Item(T),
    /// Nothing queued yet; the producer side is still open, so a blocking
    /// consumer would wait and poll again.
    Pending,
    /// The producer side is closed and the queue is drained: end of
    /// stream.
    Closed,
}

/// A bounded queue with drop-newest-on-full backpressure.
pub struct Bridge<T> {
    /// The fixed number of items the bridge can hold.
    pub capacity: usize,
    /// The queued items, oldest first.
    pub items: Vec<T>,
    /// Whether the producer side has been torn down.
    pub closed: bool,
}

impl<T> Bridge<T> {
    /// The queue never holds more than its capacity.
    pub open spec fn wf(&self) -> bool {
        self.items@.len() <= self.capacity
    }

    /// An open, empty bridge of the given capacity.
    pub fn new(capacity: usize) -> (bridge: Bridge<T>)
        ensures
            bridge.wf(),
            bridge.capacity == capacity,
            bridge.items@.len() == 0,
            !bridge.closed,
    {
        Bridge { capacity, items: Vec::new(), closed: false }
    }

    /// Producer side: queues the item if there is room; otherwise the
    /// item is dropped and the call reports failure. Never blocks, never
    /// reorders what is already queued.
    pub fn try_send(&mut self, item: T) -> (sent: bool)
        requires
            old(self).wf(),
        ensures
            final(self).wf(),
            final(self).capacity == old(self).capacity,
            final(self).closed == old(self).closed,
            sent <==> (!old(self).closed && old(self).items@.len() < old(self).capacity),
            sent ==> final(self).items@ == old(self).items@.push(item),
            !sent ==> final(self).items@ == old(self).items@,
    {
        if self.closed || self.items.len() >= self.capacity {
            false
        } else {
            self.items.push(item);
            true
        }
    }

    /// Consumer side: takes the oldest queued item; with nothing queued,
    /// reports end-of-stream once the producer side is closed, and
    /// "poll again" while it is open.
    pub fn recv(&mut self) -> (received: Recv<T>)
        requires
            old(self).wf(),
        ensures
            final(self).wf(),
            final(self).capacity == old(self).capacity,
            final(self).closed == old(self).closed,
            old(self).items@.len() > 0 ==> (received matches Recv::Item(item)
                && item == old(self).items@[0]
                && final(self).items@ == old(self).items@.drop_first()),
            old(self).items@.len() == 0 ==> final(self).items@ == old(self).items@
                && (received matches Recv::Closed <==> old(self).closed)
                && (received matches Recv::Pending <==> !old(self).closed),
    {
        if self.items.len() > 0 {
            let item = self.items.remove(0);
            proof {
                assert(self.items@ == old(self).items@.drop_first());
            }
            Recv::Item(item)
        } else if self.closed {
            Recv::Closed
        } else {
            Recv::Pending
        }
    }

    /// Tears down the producer side. Already-queued items stay for the
    /// consumer to drain.
    pub fn close(&mut self)
        requires
            old(self).wf(),
        ensures
            final(self).wf(),
            final(self).capacity == old(self).capacity,
            final(self).items@ == old(self).items@,
            final(self).closed,
    {
        self.closed = true;
    }
}

} // verus!
