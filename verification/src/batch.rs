//! The single background worker of the write-behind path.
//!
//! The processor accumulates pending inserts into a batch and flushes under
//! three competing triggers, first-to-fire-wins: a size threshold, a
//! low-traffic timer that avoids near-empty flushes, and a max-wait timer
//! that bounds worst-case persistence latency. The surrounding task feeds it
//! one event at a time and performs the store round trip it decides on; the
//! outcome of that round trip is handed back so the batch can be cleared or
//! retained.
//!
//! Bookkeeping of where every received reading went is carried in ghost
//! history fields, so that conservation — persisted once, or dropped on a
//! statement failure, or still pending — is a verified invariant.

use vstd::prelude::*;
use vstd::seq_lib::lemma_multiset_commutative;
use crate::reading::{Reading, BATCH_SIZE_TRIGGER, BATCH_TIMER_MIN};
use crate::sql::{bulk_insert_sql, build_bulk_insert, single_insert_statement};

verus! {

broadcast use vstd::seq_lib::group_to_multiset_ensures;

/// One wake-up of the processor's select loop.
#[derive(Clone, Copy, PartialEq, Eq, Structural, Debug)]
pub enum BatchEvent {
    /// A pending insert arrived from the queue.
    Received(Reading),
    /// The low-traffic timer ticked.
    LowTrafficTick,
    /// The max-wait timer ticked.
    MaxWaitTick,
    /// The producer side of the queue closed; no more readings will come.
    Closed,
}

/// What the processor asks its surrounding task to do next.
#[derive(Clone, Copy, PartialEq, Eq, Structural, Debug)]
pub enum BatchCommand {
    /// Keep waiting for the next event.
    Wait,
    /// Perform one store round trip for the current batch.
    Flush,
    /// Perform one final store round trip, then terminate the task.
    FlushAndStop,
    /// Terminate the task; nothing is pending.
    Stop,
}

/// How one attempted store round trip ended.
#[derive(Clone, Copy, PartialEq, Eq, Structural, Debug)]
pub enum FlushOutcome {
    /// The statement executed; every row of the batch is durable.
    Written,
    /// The statement failed (malformed data, constraint violation); a retry
    /// would reproduce the same failure, so the batch is dropped.
    StatementFailed,
    /// No store connection could be acquired; nothing was sent, so the batch
    /// is retained for the next trigger.
    ConnectionFailed,
}

/// The batching worker's state: the accumulating batch, plus ghost histories
/// of everything it ever received and where each reading ended up.
pub struct BatchProcessor {
    /// Pending inserts accumulated since the last successful or dropped
    /// flush, in arrival order.
    batch: Vec<Reading>,
    /// Every reading ever handed to the processor, in arrival order.
    received: Ghost<Seq<Reading>>,
    /// Every reading confirmed durable, in flush order.
    persisted: Ghost<Seq<Reading>>,
    /// Every reading dropped on a statement failure, in flush order.
    dropped: Ghost<Seq<Reading>>,
}

impl BatchProcessor {
    /// The batch accumulated so far, in arrival order.
    pub closed spec fn pending(&self) -> Seq<Reading> {
        self.batch@
    }

    /// Every reading ever handed to the processor, in arrival order.
    pub closed spec fn received(&self) -> Seq<Reading> {
        self.received@
    }

    /// Every reading confirmed durable, in flush order.
    pub closed spec fn persisted(&self) -> Seq<Reading> {
        self.persisted@
    }

    /// Every reading dropped on a statement failure, in flush order.
    pub closed spec fn dropped(&self) -> Seq<Reading> {
        self.dropped@
    }

    /// Conservation: everything received is persisted, dropped, or still
    /// pending — nothing is lost and nothing is duplicated.
    pub open spec fn conserves(&self) -> bool {
        self.received().to_multiset() == self.persisted().to_multiset().add(
            self.dropped().to_multiset(),
        ).add(self.pending().to_multiset())
    }

    /// A fresh processor: nothing received, nothing pending.
    pub fn new() -> (p: BatchProcessor)
        ensures
            p.pending() == Seq::<Reading>::empty(),
            p.received() == Seq::<Reading>::empty(),
            p.persisted() == Seq::<Reading>::empty(),
            p.dropped() == Seq::<Reading>::empty(),
            p.conserves(),
    {
        let p = BatchProcessor {
            batch: Vec::new(),
            received: Ghost(Seq::empty()),
            persisted: Ghost(Seq::empty()),
            dropped: Ghost(Seq::empty()),
        };
        proof {
            assert(p.received().to_multiset() =~= p.persisted().to_multiset().add(
                p.dropped().to_multiset(),
            ).add(p.pending().to_multiset()));
        }
        p
    }

    /// Reacts to one wake-up of the select loop. A received reading joins the
    /// batch, and the batch reaching the size threshold flushes immediately;
    /// the low-traffic tick flushes only a batch of at least the minimum
    /// size; the max-wait tick flushes any non-empty batch; closure asks for
    /// one final flush of whatever remains, exactly once.
    pub fn on_event(&mut self, ev: BatchEvent) -> (cmd: BatchCommand)
        requires
            old(self).conserves(),
        ensures
            final(self).conserves(),
            final(self).persisted() == old(self).persisted(),
            final(self).dropped() == old(self).dropped(),
            ev matches BatchEvent::Received(r) ==> {
                &&& final(self).pending() == old(self).pending().push(r)
                &&& final(self).received() == old(self).received().push(r)
                &&& cmd == (if final(self).pending().len() >= BATCH_SIZE_TRIGGER as int {
                    BatchCommand::Flush
                } else {
                    BatchCommand::Wait
                })
            },
            !(ev matches BatchEvent::Received(_)) ==> {
                &&& final(self).pending() == old(self).pending()
                &&& final(self).received() == old(self).received()
            },
            ev == BatchEvent::LowTrafficTick ==> cmd == (if old(self).pending().len()
                >= BATCH_TIMER_MIN as int {
                BatchCommand::Flush
            } else {
                BatchCommand::Wait
            }),
            ev == BatchEvent::MaxWaitTick ==> cmd == (if old(self).pending().len() > 0 {
                BatchCommand::Flush
            } else {
                BatchCommand::Wait
            }),
            ev == BatchEvent::Closed ==> cmd == (if old(self).pending().len() > 0 {
                BatchCommand::FlushAndStop
            } else {
                BatchCommand::Stop
            }),
    {
        match ev {
            BatchEvent::Received(r) => {
                self.batch.push(r);
                proof {
                    self.received@ = self.received@.push(r);
                    assert(self.received().to_multiset() =~= self.persisted().to_multiset().add(
                        self.dropped().to_multiset(),
                    ).add(self.pending().to_multiset()));
                }
                if self.batch.len() >= BATCH_SIZE_TRIGGER {
                    BatchCommand::Flush
                } else {
                    BatchCommand::Wait
                }
            },
            BatchEvent::LowTrafficTick => {
                if self.batch.len() >= BATCH_TIMER_MIN {
                    BatchCommand::Flush
                } else {
                    BatchCommand::Wait
                }
            },
            BatchEvent::MaxWaitTick => {
                if self.batch.len() > 0 {
                    BatchCommand::Flush
                } else {
                    BatchCommand::Wait
                }
            },
            BatchEvent::Closed => {
                if self.batch.len() > 0 {
                    BatchCommand::FlushAndStop
                } else {
                    BatchCommand::Stop
                }
            },
        }
    }

    /// An independent copy of the batch, for binding the rows of one store
    /// round trip in accumulation order.
    pub fn flush_rows(&self) -> (rows: Vec<Reading>)
        ensures
            rows@ == self.pending(),
    {
        let mut rows: Vec<Reading> = Vec::new();
        let mut i: usize = 0;
        while i < self.batch.len()
            invariant
                i <= self.batch.len(),
                rows@ == self.batch@.subrange(0, i as int),
            decreases self.batch.len() - i,
        {
            rows.push(self.batch[i]);
            assert(rows@ =~= self.batch@.subrange(0, i + 1 as int));
            i = i + 1;
        }
        assert(rows@ =~= self.batch@);
        rows
    }

    /// The statement for one store round trip over the current batch: a
    /// single-row insert for a batch of one (skipping the group-by-group
    /// build), a multi-row bulk insert binding all rows otherwise.
    pub fn flush_statement(&self) -> (stmt: String)
        requires
            self.pending().len() > 0,
            3 * self.pending().len() + 3 <= u64::MAX,
        ensures
            stmt@ == bulk_insert_sql(self.pending().len() as nat),
    {
        if self.batch.len() == 1 {
            single_insert_statement()
        } else {
            build_bulk_insert(self.batch.len())
        }
    }

    /// How many rows the next flush would send.
    pub fn batch_len(&self) -> (n: usize)
        ensures
            n == self.pending().len(),
    {
        self.batch.len()
    }

    /// Records how one attempted flush of the current batch ended. On a
    /// write the whole batch became durable exactly once; on a statement
    /// failure it is dropped rather than retried; on a connection failure
    /// nothing was sent, so the batch is retained untouched for the next
    /// trigger.
    pub fn apply_flush_outcome(&mut self, outcome: FlushOutcome)
        requires
            old(self).conserves(),
            old(self).pending().len() > 0,
        ensures
            final(self).conserves(),
            final(self).received() == old(self).received(),
            outcome == FlushOutcome::Written ==> {
                &&& final(self).persisted() == old(self).persisted() + old(self).pending()
                &&& final(self).dropped() == old(self).dropped()
                &&& final(self).pending() == Seq::<Reading>::empty()
            },
            outcome == FlushOutcome::StatementFailed ==> {
                &&& final(self).persisted() == old(self).persisted()
                &&& final(self).dropped() == old(self).dropped() + old(self).pending()
                &&& final(self).pending() == Seq::<Reading>::empty()
            },
            outcome == FlushOutcome::ConnectionFailed ==> {
                &&& final(self).persisted() == old(self).persisted()
                &&& final(self).dropped() == old(self).dropped()
                &&& final(self).pending() == old(self).pending()
            },
    {
        match outcome {
            FlushOutcome::Written => {
                proof {
                    lemma_multiset_commutative(self.persisted@, self.batch@);
                    self.persisted@ = self.persisted@ + self.batch@;
                }
                self.batch.clear();
                proof {
                    assert(self.received().to_multiset() =~= self.persisted().to_multiset().add(
                        self.dropped().to_multiset(),
                    ).add(self.pending().to_multiset()));
                }
            },
            FlushOutcome::StatementFailed => {
                proof {
                    lemma_multiset_commutative(self.dropped@, self.batch@);
                    self.dropped@ = self.dropped@ + self.batch@;
                }
                self.batch.clear();
                proof {
                    assert(self.received().to_multiset() =~= self.persisted().to_multiset().add(
                        self.dropped().to_multiset(),
                    ).add(self.pending().to_multiset()));
                }
            },
            FlushOutcome::ConnectionFailed => {},
        }
    }
}

/// Law: under conservation, any one reading is accounted for exactly once
/// across the persisted, dropped and pending histories — never persisted
/// twice, never silently lost.
pub proof fn lemma_reading_accounted(p: &BatchProcessor, r: Reading)
    requires
        p.conserves(),
    ensures
        p.received().to_multiset().count(r) == p.persisted().to_multiset().count(r)
            + p.dropped().to_multiset().count(r) + p.pending().to_multiset().count(r),
{
}

} // verus!
