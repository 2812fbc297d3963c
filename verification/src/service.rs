//! The ingestion service object: the cache, the coalescer and the queue,
//! constructed once at startup and passed by handle to every component.
//!
//! `record` is the single entry point of the hot path: one inbound reading
//! fans out to a cache insert, a coalescer stage and a queue enqueue — three
//! independent forks, each taking its own copy. Ingestion is always accepted
//! from the caller's perspective; no failure of the persistence or broadcast
//! side ever propagates out of it.

use vstd::prelude::*;
use crate::reading::{Reading, FRESHNESS_HORIZON_MS, EVICTION_HORIZON_MS};
use crate::cache::{ActiveDeviceCache, ActiveDevice, is_snapshot_of};
use crate::coalesce::UpdateCoalescer;
use crate::queue::{BatchQueue, EnqueueOutcome};
use crate::batch::BatchProcessor;

verus! {

/// The pipeline's shared state: the last-known-state cache, the staged
/// broadcast window, and the write-behind queue.
pub struct MonitorService {
    /// Last known state per device, with time-based expiry.
    pub cache: ActiveDeviceCache,
    /// The staged window of pending broadcast updates.
    pub coalescer: UpdateCoalescer,
    /// The backlog of pending inserts for the batch processor.
    pub queue: BatchQueue,
}

impl MonitorService {
    /// Every component in its well-formed state.
    pub open spec fn wf(&self) -> bool {
        self.cache.wf() && self.coalescer.wf()
    }

    /// A fresh service: empty cache, empty window, inactive queue.
    pub fn new() -> (s: MonitorService)
        ensures
            s.wf(),
            s.cache.entries() == Map::<i32, crate::cache::DeviceEntry>::empty(),
            s.coalescer.staged() == Map::<i32, Reading>::empty(),
            s.queue.backlog() == Seq::<Reading>::empty(),
            !s.queue.is_started(),
            !s.queue.is_closed(),
    {
        MonitorService {
            cache: ActiveDeviceCache::new(),
            coalescer: UpdateCoalescer::new(),
            queue: BatchQueue::new(),
        }
    }

    /// Marks the queue's consuming side as started and hands back the fresh
    /// batch processor that will own it; enqueues before this call are
    /// warned no-ops.
    pub fn init_batch_processor(&mut self) -> (p: BatchProcessor)
        ensures
            final(self).cache == old(self).cache,
            final(self).coalescer == old(self).coalescer,
            final(self).queue.is_started(),
            final(self).queue.is_closed() == old(self).queue.is_closed(),
            final(self).queue.backlog() == old(self).queue.backlog(),
            p.pending() == Seq::<Reading>::empty(),
            p.received() == Seq::<Reading>::empty(),
            p.conserves(),
    {
        self.queue.start();
        BatchProcessor::new()
    }

    /// Records one inbound reading: upserts the cache, stages the update for
    /// broadcast, and enqueues the pending insert. Always accepted; the
    /// outcome only reports the queue's state for the caller's log line.
    pub fn record(&mut self, device_id: i32, decibels_tenths: i64, timestamp_ms: u64) -> (outcome:
        EnqueueOutcome)
        requires
            old(self).wf(),
        ensures
            final(self).wf(),
            final(self).cache.entries() == old(self).cache.entries().insert(
                device_id,
                (decibels_tenths, timestamp_ms),
            ),
            final(self).coalescer.staged() == old(self).coalescer.staged().insert(
                device_id,
                Reading { device_id, decibels_tenths, timestamp_ms },
            ),
            old(self).queue.is_accepting() ==> {
                &&& final(self).queue.backlog() == old(self).queue.backlog().push(
                    Reading { device_id, decibels_tenths, timestamp_ms },
                )
                &&& outcome == EnqueueOutcome::Accepted
            },
            !old(self).queue.is_accepting() ==> final(self).queue.backlog() == old(
                self,
            ).queue.backlog(),
            outcome == EnqueueOutcome::Accepted <==> old(self).queue.is_accepting(),
            final(self).queue.is_started() == old(self).queue.is_started(),
            final(self).queue.is_closed() == old(self).queue.is_closed(),
    {
        let r = Reading { device_id, decibels_tenths, timestamp_ms };
        self.cache.insert(r);
        self.coalescer.stage(r);
        self.queue.enqueue(r)
    }

    /// Upserts the cache entry for one device, and nothing else.
    pub fn update_device_reading(&mut self, device_id: i32, decibels_tenths: i64,
        timestamp_ms: u64)
        requires
            old(self).wf(),
        ensures
            final(self).wf(),
            final(self).cache.entries() == old(self).cache.entries().insert(
                device_id,
                (decibels_tenths, timestamp_ms),
            ),
            final(self).coalescer == old(self).coalescer,
            final(self).queue == old(self).queue,
    {
        self.cache.insert(Reading { device_id, decibels_tenths, timestamp_ms });
    }

    /// Stages one update for the broadcast path, and nothing else.
    pub fn broadcast_reading_update(&mut self, device_id: i32, decibels_tenths: i64,
        timestamp_ms: u64)
        requires
            old(self).wf(),
        ensures
            final(self).wf(),
            final(self).coalescer.staged() == old(self).coalescer.staged().insert(
                device_id,
                Reading { device_id, decibels_tenths, timestamp_ms },
            ),
            final(self).cache == old(self).cache,
            final(self).queue == old(self).queue,
    {
        self.coalescer.stage(Reading { device_id, decibels_tenths, timestamp_ms });
    }

    /// Hands one pending insert to the queue, and nothing else.
    pub fn queue_insert(&mut self, device_id: i32, decibels_tenths: i64, timestamp_ms: u64) -> (
        outcome: EnqueueOutcome)
        ensures
            final(self).cache == old(self).cache,
            final(self).coalescer == old(self).coalescer,
            old(self).queue.is_accepting() ==> {
                &&& final(self).queue.backlog() == old(self).queue.backlog().push(
                    Reading { device_id, decibels_tenths, timestamp_ms },
                )
                &&& outcome == EnqueueOutcome::Accepted
            },
            !old(self).queue.is_accepting() ==> final(self).queue.backlog() == old(
                self,
            ).queue.backlog(),
            outcome == EnqueueOutcome::Accepted <==> old(self).queue.is_accepting(),
            final(self).queue.is_started() == old(self).queue.is_started(),
            final(self).queue.is_closed() == old(self).queue.is_closed(),
    {
        self.queue.enqueue(Reading { device_id, decibels_tenths, timestamp_ms })
    }

    /// Every device with a reading within the freshness horizon, as an
    /// independent copy, each with its age in whole seconds.
    pub fn get_active_devices(&self, now_ms: u64) -> (snap: Vec<ActiveDevice>)
        requires
            self.wf(),
        ensures
            is_snapshot_of(snap@, self.cache.entries(), now_ms, FRESHNESS_HORIZON_MS),
    {
        self.cache.snapshot(now_ms, FRESHNESS_HORIZON_MS)
    }

    /// Removes every cache entry older than the eviction horizon.
    pub fn cleanup_old_entries(&mut self, now_ms: u64)
        requires
            old(self).wf(),
        ensures
            final(self).wf(),
            final(self).cache.entries() == crate::cache::restrict_within(
                old(self).cache.entries(),
                now_ms,
                EVICTION_HORIZON_MS,
            ),
            final(self).coalescer == old(self).coalescer,
            final(self).queue == old(self).queue,
    {
        self.cache.sweep(now_ms, EVICTION_HORIZON_MS);
    }

    /// Current cache entry count, for observability.
    pub fn cache_size(&self) -> (n: usize)
        requires
            self.wf(),
        ensures
            n == self.cache.entries().dom().len(),
    {
        self.cache.size()
    }

    /// Observability tap: the queue's backlog length and whether it accepts
    /// readings.
    pub fn is_queue_active(&self) -> (s: (usize, bool))
        ensures
            s.0 == self.queue.backlog().len(),
            s.1 == self.queue.is_accepting(),
    {
        self.queue.status()
    }
}

} // verus!
