//! The concurrent cache of the last known state per device.
//!
//! A concurrent map keyed by device identity holds, per device, the latest
//! value (in tenths of a decibel) and its timestamp. A newer reading always
//! replaces the prior entry; snapshots exclude entries older than the
//! freshness horizon; a periodic sweep removes entries older than the
//! (longer) eviction horizon, so an entry can be present but stale before it
//! is swept.
//!
//! The map itself is `dashmap::DashMap`, taken on trust behind the wrappers
//! below; everything around those calls — filtering, ages, the horizons'
//! interplay — is verified against the named contents of the map.

use vstd::prelude::*;
use dashmap::DashMap;
use crate::reading::{Reading, age_ms, within_horizon};

verus! {

/// One cached value: (tenths of a decibel, timestamp in milliseconds).
pub type DeviceEntry = (i64, u64);

/// One cached key-value pair: a device identity with its entry.
pub type DeviceKV = (i32, DeviceEntry);

/// The concurrent map from device identity to its cached entry.
pub type DeviceMap = DashMap<i32, DeviceEntry>;

/// The concurrent map type of the `dashmap` crate.
#[verifier::external_type_specification]
#[verifier::external_body]
#[verifier::reject_recursive_types(K)]
#[verifier::reject_recursive_types(V)]
#[verifier::reject_recursive_types(S)]
pub struct ExDashMap<K, V, S>(DashMap<K, V, S>);

/// The entries a concurrent device map holds: device identity to
/// (tenths of a decibel, timestamp in milliseconds).
pub uninterp spec fn dash_contents(m: DeviceMap) -> Map<i32, DeviceEntry>;

/// A device map with no entries.
pub open spec fn empty_device_map() -> Map<i32, DeviceEntry> {
    Map::empty()
}

/// Relies on dashmap::DashMap::new: a fresh map holds no entries.
#[verifier::external_body]
fn dash_new() -> (m: DeviceMap)
    ensures
        dash_contents(m) == empty_device_map(),
        dash_contents(m).dom().finite(),
{
    DashMap::new()
}

/// Relies on dashmap::DashMap::insert: upserts the entry under the key,
/// replacing any old value.
#[verifier::external_body]
fn dash_insert(m: &mut DeviceMap, k: i32, v: (i64, u64))
    ensures
        dash_contents(*final(m)) == dash_contents(*old(m)).insert(k, v),
        dash_contents(*final(m)).dom().finite(),
{
    let _ = m.insert(k, v);
}

/// Relies on dashmap::DashMap::len: the total number of key-value pairs.
#[verifier::external_body]
fn dash_len(m: &DeviceMap) -> (n: usize)
    ensures
        n == dash_contents(*m).dom().len(),
{
    m.len()
}

/// The entries kept by a sweep at instant `now` under horizon `h`: exactly
/// those whose age is at most `h`.
pub open spec fn restrict_within(m: Map<i32, DeviceEntry>, now: u64, h: u64) -> Map<i32, DeviceEntry> {
    Map::new(|k: i32| m.dom().contains(k) && within_horizon(m[k].1, now, h), |k: i32| m[k])
}

/// Whether the entry's timestamp is within horizon `h` of instant `now`.
fn entry_within_horizon(v: &DeviceEntry, now: u64, h: u64) -> (b: bool)
    ensures
        b == within_horizon(v.1, now, h),
{
    now <= v.1 || now - v.1 <= h
}

/// Relies on dashmap::DashMap::retain: keeps exactly the entries on which
/// the predicate returns true — here, those within the horizon.
#[verifier::external_body]
fn dash_retain_within(m: &mut DeviceMap, now: u64, h: u64)
    ensures
        dash_contents(*final(m)) == restrict_within(dash_contents(*old(m)), now, h),
        dash_contents(*final(m)).dom().finite(),
{
    m.retain(|_, v| entry_within_horizon(v, now, h));
}

/// Relies on dashmap::DashMap::iter: visits every entry exactly once, in no
/// particular order.
#[verifier::external_body]
fn dash_entries(m: &DeviceMap) -> (entries: Vec<DeviceKV>)
    ensures
        entries@.len() == dash_contents(*m).dom().len(),
        forall|i: int|
            0 <= i < entries@.len() ==> #[trigger] dash_contents(*m).contains_pair(
                entries@[i].0,
                entries@[i].1,
            ),
        forall|i: int, j: int| 0 <= i < j < entries@.len() ==> entries@[i].0 != entries@[j].0,
        forall|k: i32|
            dash_contents(*m).dom().contains(k) ==> exists|i: int|
                0 <= i < entries@.len() && entries@[i].0 == k,
{
    m.iter().map(|e| (*e.key(), *e.value())).collect()
}

/// One line of an activity snapshot: a device, its latest value and
/// timestamp, and how many whole seconds ago that was.
#[derive(Clone, Copy, PartialEq, Eq, Structural, Debug)]
pub struct ActiveDevice {
    /// Identity of the device.
    pub device_id: i32,
    /// Its latest value, in tenths of a decibel.
    pub decibels_tenths: i64,
    /// The instant of that value, in milliseconds since the epoch.
    pub timestamp_ms: u64,
    /// Whole seconds elapsed since that instant.
    pub seconds_since: u64,
}

/// What a snapshot of entries `m` taken at instant `now` under freshness
/// horizon `f` holds: every entry within the horizon, each exactly once,
/// with its age in whole seconds; order unspecified.
pub open spec fn is_snapshot_of(
    snap: Seq<ActiveDevice>,
    m: Map<i32, DeviceEntry>,
    now: u64,
    f: u64,
) -> bool {
    &&& forall|i: int, j: int| 0 <= i < j < snap.len() ==> snap[i].device_id != snap[j].device_id
    &&& forall|i: int|
        0 <= i < snap.len() ==> {
            &&& #[trigger] m.contains_pair(
                snap[i].device_id,
                (snap[i].decibels_tenths, snap[i].timestamp_ms),
            )
            &&& within_horizon(snap[i].timestamp_ms, now, f)
            &&& snap[i].seconds_since == age_ms(snap[i].timestamp_ms, now) / 1000
        }
    &&& forall|k: i32|
        m.dom().contains(k) && within_horizon(m[k].1, now, f) ==> exists|i: int|
            0 <= i < snap.len() && snap[i].device_id == k
}

/// The concurrent map from device identity to its most recent reading.
pub struct ActiveDeviceCache {
    map: DeviceMap,
}

impl ActiveDeviceCache {
    /// The cached entries: device identity to (value, timestamp).
    pub closed spec fn entries(&self) -> Map<i32, DeviceEntry> {
        dash_contents(self.map)
    }

    /// The cache holds finitely many entries.
    pub closed spec fn wf(&self) -> bool {
        self.entries().dom().finite()
    }

    /// An empty cache.
    pub fn new() -> (c: ActiveDeviceCache)
        ensures
            c.wf(),
            c.entries() == Map::<i32, DeviceEntry>::empty(),
    {
        ActiveDeviceCache { map: dash_new() }
    }

    /// Upserts the entry for the reading's device: the latest reading always
    /// replaces the prior entry, by arrival order. No I/O.
    pub fn insert(&mut self, r: Reading)
        requires
            old(self).wf(),
        ensures
            final(self).wf(),
            final(self).entries() == old(self).entries().insert(
                r.device_id,
                (r.decibels_tenths, r.timestamp_ms),
            ),
    {
        dash_insert(&mut self.map, r.device_id, (r.decibels_tenths, r.timestamp_ms));
    }

    /// Current entry count, for observability; swept-but-not-yet-removed
    /// staleness does not reduce it.
    pub fn size(&self) -> (n: usize)
        requires
            self.wf(),
        ensures
            n == self.entries().dom().len(),
    {
        dash_len(&self.map)
    }

    /// Removes every entry whose age exceeds the eviction horizon. Run on a
    /// fixed period by a background task owned by the surrounding service.
    pub fn sweep(&mut self, now: u64, eviction_horizon: u64)
        requires
            old(self).wf(),
        ensures
            final(self).wf(),
            final(self).entries() == restrict_within(old(self).entries(), now, eviction_horizon),
    {
        dash_retain_within(&mut self.map, now, eviction_horizon);
    }

    /// An independent copy of every entry within the freshness horizon, each
    /// with its age in whole seconds; order unspecified by the cache itself.
    pub fn snapshot(&self, now: u64, freshness_horizon: u64) -> (snap: Vec<ActiveDevice>)
        requires
            self.wf(),
        ensures
            is_snapshot_of(snap@, self.entries(), now, freshness_horizon),
    {
        let entries = dash_entries(&self.map);
        let mut snap: Vec<ActiveDevice> = Vec::new();
        let mut i: usize = 0;
        while i < entries.len()
            invariant
                i <= entries@.len(),
                entries@.len() == self.entries().dom().len(),
                forall|a: int, b: int|
                    0 <= a < b < entries@.len() ==> entries@[a].0 != entries@[b].0,
                forall|a: int|
                    0 <= a < entries@.len() ==> #[trigger] self.entries().contains_pair(
                        entries@[a].0,
                        entries@[a].1,
                    ),
                forall|l: int|
                    0 <= l < snap@.len() ==> exists|a: int|
                        0 <= a < i && entries@[a].0 == (#[trigger] snap@[l]).device_id,
                forall|l: int, l2: int|
                    0 <= l < l2 < snap@.len() ==> snap@[l].device_id != snap@[l2].device_id,
                forall|l: int|
                    0 <= l < snap@.len() ==> {
                        &&& #[trigger] self.entries().contains_pair(
                            snap@[l].device_id,
                            (snap@[l].decibels_tenths, snap@[l].timestamp_ms),
                        )
                        &&& within_horizon(snap@[l].timestamp_ms, now, freshness_horizon)
                        &&& snap@[l].seconds_since == age_ms(snap@[l].timestamp_ms, now) / 1000
                    },
                forall|a: int|
                    0 <= a < i && within_horizon(entries@[a].1.1, now, freshness_horizon)
                        ==> exists|l: int|
                        0 <= l < snap@.len() && (#[trigger] entries@[a]).0 == snap@[l].device_id,
            decreases entries@.len() - i,
        {
            let (k, v) = entries[i];
            if entry_within_horizon(&v, now, freshness_horizon) {
                let seconds_since: u64 = if now <= v.1 {
                    0
                } else {
                    (now - v.1) / 1000
                };
                let ghost snap0 = snap@;
                proof {
                    assert forall|l: int| 0 <= l < snap0.len() implies snap0[l].device_id != k by {
                        let a = choose|a: int| 0 <= a < i && entries@[a].0 == snap0[l].device_id;
                        assert(entries@[a].0 != entries@[i as int].0);
                    }
                }
                snap.push(
                    ActiveDevice {
                        device_id: k,
                        decibels_tenths: v.0,
                        timestamp_ms: v.1,
                        seconds_since,
                    },
                );
                proof {
                    assert forall|a: int|
                        0 <= a < i + 1 && within_horizon(
                            entries@[a].1.1,
                            now,
                            freshness_horizon,
                        ) implies exists|l: int|
                        0 <= l < snap@.len() && (#[trigger] entries@[a]).0
                            == snap@[l].device_id by {
                        if a == i {
                            assert(snap@[snap@.len() - 1].device_id == entries@[a].0);
                        } else {
                            let l = choose|l: int|
                                0 <= l < snap0.len() && entries@[a].0 == snap0[l].device_id;
                            assert(snap@[l] == snap0[l]);
                        }
                    }
                }
            }
            i = i + 1;
        }
        proof {
            assert forall|k: i32|
                self.entries().dom().contains(k) && within_horizon(
                    self.entries()[k].1,
                    now,
                    freshness_horizon,
                ) implies exists|l: int|
                0 <= l < snap@.len() && snap@[l].device_id == k by {
                let a = choose|a: int| 0 <= a < entries@.len() && entries@[a].0 == k;
                assert(self.entries().contains_pair(entries@[a].0, entries@[a].1));
                assert(entries@[a].1 == self.entries()[k]);
                assert(within_horizon(entries@[a].1.1, now, freshness_horizon));
            }
        }
        snap
    }
}

/// The cached entries after a sequence of readings is inserted in arrival
/// order.
pub open spec fn cache_after(m: Map<i32, DeviceEntry>, rs: Seq<Reading>) -> Map<i32, DeviceEntry>
    decreases rs.len(),
{
    if rs.len() == 0 {
        m
    } else {
        cache_after(m, rs.drop_last()).insert(
            rs.last().device_id,
            (rs.last().decibels_tenths, rs.last().timestamp_ms),
        )
    }
}

/// Law: after any sequence of readings from one device, the cache reflects
/// exactly the last-inserted reading for that device — no lost updates.
pub proof fn lemma_last_write_wins(m: Map<i32, DeviceEntry>, rs: Seq<Reading>, d: i32)
    requires
        rs.len() > 0,
        forall|i: int| 0 <= i < rs.len() ==> #[trigger] rs[i].device_id == d,
    ensures
        cache_after(m, rs) == m.insert(
            d,
            (rs.last().decibels_tenths, rs.last().timestamp_ms),
        ),
    decreases rs.len(),
{
    assert(rs.last() == rs[rs.len() - 1]);
    assert(rs.last().device_id == d);
    if rs.len() == 1 {
        assert(rs.drop_last().len() == 0);
        assert(cache_after(m, rs.drop_last()) == m);
        assert(cache_after(m, rs) =~= m.insert(
            d,
            (rs.last().decibels_tenths, rs.last().timestamp_ms),
        ));
    } else {
        assert(forall|i: int|
            0 <= i < rs.drop_last().len() ==> #[trigger] rs.drop_last()[i].device_id == d) by {
            assert(forall|i: int| 0 <= i < rs.len() - 1 ==> rs.drop_last()[i] == rs[i]);
        }
        let t = rs.drop_last();
        lemma_last_write_wins(m, t, d);
        let x = (t.last().decibels_tenths, t.last().timestamp_ms);
        let y = (rs.last().decibels_tenths, rs.last().timestamp_ms);
        assert(cache_after(m, rs) == cache_after(m, t).insert(d, y));
        assert(cache_after(m, t) == m.insert(d, x));
        assert(m.insert(d, x).insert(d, y) =~= m.insert(d, y));
        assert(cache_after(m, rs) == m.insert(d, y));
    }
}

/// Law: once the freshness horizon `f` has elapsed since a device's last
/// reading, the device no longer appears in any snapshot taken under `f`,
/// yet — the eviction horizon `e` not having elapsed — a sweep under `e`
/// keeps its entry, so it still counts toward the cache's size.
pub proof fn lemma_stale_entry_hidden_but_counted(
    snap: Seq<ActiveDevice>,
    m: Map<i32, DeviceEntry>,
    d: i32,
    now: u64,
    f: u64,
    e: u64,
)
    requires
        m.dom().contains(d),
        f < e,
        !within_horizon(m[d].1, now, f),
        within_horizon(m[d].1, now, e),
        is_snapshot_of(snap, m, now, f),
    ensures
        forall|i: int| 0 <= i < snap.len() ==> (#[trigger] snap[i]).device_id != d,
        restrict_within(m, now, e).dom().contains(d),
        restrict_within(m, now, e)[d] == m[d],
{
    assert forall|i: int| 0 <= i < snap.len() implies (#[trigger] snap[i]).device_id != d by {
        if snap[i].device_id == d {
            assert(m.contains_pair(d, (snap[i].decibels_tenths, snap[i].timestamp_ms)));
            assert(m[d].1 == snap[i].timestamp_ms);
            assert(within_horizon(m[d].1, now, f));
        }
    }
}

} // verus!
