//! The unbounded producer side of the write-behind path.
//!
//! `enqueue` never blocks the caller on store availability and never fails
//! due to backlog size. Until the batch processor has been started the queue
//! is inactive and an enqueue is a warned no-op; after the producer side is
//! closed, further enqueues are no-ops as well.

use vstd::prelude::*;
use crate::reading::Reading;

verus! {

/// Outcome of handing one reading to the queue, for the caller's log line;
/// none of these is a caller-visible error.
#[derive(Clone, Copy, PartialEq, Eq, Structural, Debug)]
pub enum EnqueueOutcome {
    /// The reading now sits in the backlog.
    Accepted,
    /// The batch processor was never started; the reading was discarded.
    NotStarted,
    /// The producer side is closed; the reading was discarded.
    Closed,
}

/// Pending inserts on their way to the durable store, in arrival order,
/// decoupling the hot ingestion path from the store's latency.
pub struct BatchQueue {
    /// Whether the consuming processor has been started.
    started: bool,
    /// Whether the producer side has been closed.
    closed: bool,
    /// The backlog, oldest first.
    items: Vec<Reading>,
}

impl BatchQueue {
    /// The backlog, oldest first.
    pub closed spec fn backlog(&self) -> Seq<Reading> {
        self.items@
    }

    /// Whether enqueued readings are currently accepted into the backlog.
    pub open spec fn is_accepting(&self) -> bool {
        self.is_started() && !self.is_closed()
    }

    /// Whether the consuming processor has been started.
    pub closed spec fn is_started(&self) -> bool {
        self.started
    }

    /// Whether the producer side has been closed.
    pub closed spec fn is_closed(&self) -> bool {
        self.closed
    }

    /// A queue with no processor yet: not started, empty.
    pub fn new() -> (q: BatchQueue)
        ensures
            !q.is_started(),
            !q.is_closed(),
            q.backlog() == Seq::<Reading>::empty(),
    {
        BatchQueue { started: false, closed: false, items: Vec::new() }
    }

    /// Marks the processor as started; from here on enqueues are accepted.
    pub fn start(&mut self)
        ensures
            final(self).is_started(),
            final(self).is_closed() == old(self).is_closed(),
            final(self).backlog() == old(self).backlog(),
    {
        self.started = true;
    }

    /// Closes the producer side; the backlog stays for the final drain.
    pub fn close(&mut self)
        ensures
            final(self).is_closed(),
            final(self).is_started() == old(self).is_started(),
            final(self).backlog() == old(self).backlog(),
    {
        self.closed = true;
    }

    /// Accepts one reading for persistence. Never blocks and never fails
    /// due to backlog size; before the processor is started, and after the
    /// producer side is closed, the operation is a no-op.
    pub fn enqueue(&mut self, r: Reading) -> (outcome: EnqueueOutcome)
        ensures
            old(self).is_accepting() ==> {
                &&& final(self).backlog() == old(self).backlog().push(r)
                &&& outcome == EnqueueOutcome::Accepted
            },
            !old(self).is_accepting() ==> {
                &&& final(self).backlog() == old(self).backlog()
                &&& (outcome == EnqueueOutcome::NotStarted || outcome
                    == EnqueueOutcome::Closed)
                &&& (outcome == EnqueueOutcome::Closed <==> old(self).is_closed())
            },
            final(self).is_started() == old(self).is_started(),
            final(self).is_closed() == old(self).is_closed(),
    {
        if self.closed {
            EnqueueOutcome::Closed
        } else if !self.started {
            EnqueueOutcome::NotStarted
        } else {
            self.items.push(r);
            EnqueueOutcome::Accepted
        }
    }

    /// Hands the oldest pending reading to the processor, if any.
    pub fn dequeue(&mut self) -> (r: Option<Reading>)
        ensures
            old(self).backlog().len() == 0 ==> {
                &&& r is None
                &&& final(self).backlog() == old(self).backlog()
            },
            old(self).backlog().len() > 0 ==> {
                &&& r == Some(old(self).backlog()[0])
                &&& final(self).backlog() == old(self).backlog().drop_first()
            },
            final(self).is_started() == old(self).is_started(),
            final(self).is_closed() == old(self).is_closed(),
    {
        if self.items.len() == 0 {
            None
        } else {
            let first = self.items.remove(0);
            assert(self.items@ =~= old(self).backlog().drop_first());
            Some(first)
        }
    }

    /// Whether the producer side has been closed, for the consuming task's
    /// shutdown path.
    pub fn is_producer_closed(&self) -> (b: bool)
        ensures
            b == self.is_closed(),
    {
        self.closed
    }

    /// How many readings wait in the backlog.
    pub fn backlog_len(&self) -> (n: usize)
        ensures
            n == self.backlog().len(),
    {
        self.items.len()
    }

    /// Observability tap: backlog length, and whether the queue accepts
    /// readings.
    pub fn status(&self) -> (s: (usize, bool))
        ensures
            s.0 == self.backlog().len(),
            s.1 == self.is_accepting(),
    {
        (self.items.len(), self.started && !self.closed)
    }
}

} // verus!
