//! The atomic unit of data flowing through the pipeline, and the timing
//! constants that govern the pipeline's triggers and horizons.
//!
//! A measurement is carried as a whole number of tenths of a decibel, and an
//! instant as milliseconds since the epoch, so that every rule of the
//! pipeline is stated over plain integers.

use vstd::prelude::*;

verus! {

/// One timestamped measurement from one device.
///
/// Immutable once constructed; every fork of the pipeline takes its own copy.
#[derive(Clone, Copy, PartialEq, Eq, Structural, Debug)]
pub struct Reading {
    /// Identity of the reporting device.
    pub device_id: i32,
    /// Measured level, in tenths of a decibel.
    pub decibels_tenths: i64,
    /// Arrival instant, in milliseconds since the epoch.
    pub timestamp_ms: u64,
}

/// A reading on its way to the durable store. Structurally a reading; the
/// name only makes its destination explicit.
pub type PendingInsert = Reading;

/// A device's latest reading as the cache's callers speak of it.
pub type DeviceReading = Reading;

/// Batch size at which the processor flushes immediately, even mid-tick.
pub const BATCH_SIZE_TRIGGER: usize = 200;

/// Minimum batch size for a flush on the low-traffic timer.
pub const BATCH_TIMER_MIN: usize = 10;

/// Period of the low-traffic flush timer, in milliseconds.
pub const LOW_TRAFFIC_TICK_MS: u64 = 50;

/// Period of the max-wait flush timer, in milliseconds.
pub const MAX_WAIT_TICK_MS: u64 = 200;

/// Max age for a cache entry to count as "active" in a query, in milliseconds.
pub const FRESHNESS_HORIZON_MS: u64 = 60_000;

/// Max age before a cache entry is removed by the sweep, in milliseconds.
pub const EVICTION_HORIZON_MS: u64 = 300_000;

/// Length of one coalescing window, in milliseconds.
pub const COALESCE_WINDOW_MS: u64 = 100;

/// Age of an entry stamped `ts` at instant `now`; an entry stamped in the
/// future has age zero.
pub open spec fn age_ms(ts: u64, now: u64) -> int {
    if now >= ts {
        now - ts
    } else {
        0
    }
}

/// Whether an entry stamped `ts` still counts at instant `now` under the
/// horizon `h`: its age is at most `h`.
pub open spec fn within_horizon(ts: u64, now: u64, h: u64) -> bool {
    age_ms(ts, now) <= h
}

impl Reading {
    /// Makes a reading from its three plain parts.
    pub fn new(device_id: i32, decibels_tenths: i64, timestamp_ms: u64) -> (r: Reading)
        ensures
            r == (Reading { device_id, decibels_tenths, timestamp_ms }),
    {
        Reading { device_id, decibels_tenths, timestamp_ms }
    }

    /// Whether this reading still counts at instant `now` under horizon `h`.
    pub fn is_within_horizon(&self, now: u64, h: u64) -> (fresh: bool)
        ensures
            fresh == within_horizon(self.timestamp_ms, now, h),
    {
        now <= self.timestamp_ms || now - self.timestamp_ms <= h
    }
}

} // verus!
