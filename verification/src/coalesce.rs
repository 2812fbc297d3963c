//! Per-device update coalescing for the broadcast path.
//!
//! Between drains the coalescer keeps at most one staged reading per device:
//! staging a reading for a device already staged in the current window
//! overwrites it, so any number of readings from one device within one
//! window collapse to exactly one outbound update carrying the latest value.
//! A fixed-period ticker drains the whole staged map at once.

use vstd::prelude::*;
use crate::reading::Reading;

verus! {

/// Whether no two entries of `s` belong to the same device.
pub open spec fn distinct_devices(s: Seq<Reading>) -> bool {
    forall|i: int, j: int|
        0 <= i < j < s.len() ==> s[i].device_id != s[j].device_id
}

/// The per-device map described by a sequence of stagings applied in order:
/// a later staging for a device overwrites an earlier one.
pub open spec fn staged_after(m: Map<i32, Reading>, rs: Seq<Reading>) -> Map<i32, Reading>
    decreases rs.len(),
{
    if rs.len() == 0 {
        m
    } else {
        staged_after(m, rs.drop_last()).insert(rs.last().device_id, rs.last())
    }
}

/// The staged map described by a sequence of stagings applied to an empty
/// window.
pub open spec fn staged_map(rs: Seq<Reading>) -> Map<i32, Reading> {
    staged_after(Map::empty(), rs)
}

/// Every entry of a duplicate-free entry sequence is the staged value of its
/// device, and the staged devices are exactly the entries' devices.
proof fn lemma_staged_map_enumerates(s: Seq<Reading>)
    requires
        distinct_devices(s),
    ensures
        forall|i: int|
            0 <= i < s.len() ==> #[trigger] staged_map(s).contains_pair(s[i].device_id, s[i]),
        forall|d: i32|
            staged_map(s).dom().contains(d) ==> exists|i: int|
                0 <= i < s.len() && s[i].device_id == d,
    decreases s.len(),
{
    if s.len() > 0 {
        let t = s.drop_last();
        assert(forall|i: int| 0 <= i < t.len() ==> t[i] == s[i]);
        assert(distinct_devices(t));
        lemma_staged_map_enumerates(t);
        let last = s.last();
        assert(forall|i: int| 0 <= i < t.len() ==> s[i].device_id != last.device_id);
        assert forall|i: int|
            0 <= i < s.len() implies #[trigger] staged_map(s).contains_pair(
            s[i].device_id,
            s[i],
        ) by {
            if i < s.len() - 1 {
                assert(staged_map(t).contains_pair(s[i].device_id, s[i]));
                assert(s[i].device_id != last.device_id);
            } else {
                assert(s[i] == last);
            }
        }
        assert forall|d: i32| staged_map(s).dom().contains(d) implies exists|i: int|
            0 <= i < s.len() && s[i].device_id == d by {
            if d == last.device_id {
                assert(s[s.len() - 1].device_id == d);
            } else {
                assert(staged_map(t).dom().contains(d));
                let i = choose|i: int| 0 <= i < t.len() && t[i].device_id == d;
                assert(s[i].device_id == d);
            }
        }
    }
}

/// Overwriting the one entry of a device in place describes the same staged
/// map as inserting the new reading.
proof fn lemma_staged_map_update(s: Seq<Reading>, i: int, r: Reading)
    requires
        distinct_devices(s),
        0 <= i < s.len(),
        s[i].device_id == r.device_id,
    ensures
        staged_map(s.update(i, r)) == staged_map(s).insert(r.device_id, r),
    decreases s.len(),
{
    let t = s.update(i, r);
    if i == s.len() - 1 {
        assert(t.drop_last() =~= s.drop_last());
        assert(staged_map(t) =~= staged_map(s).insert(r.device_id, r));
    } else {
        assert(distinct_devices(s.drop_last())) by {
            assert(forall|k: int, j: int|
                0 <= k < j < s.drop_last().len() ==> s.drop_last()[k] == s[k] && s.drop_last()[j]
                    == s[j]);
        }
        lemma_staged_map_update(s.drop_last(), i, r);
        assert(t.drop_last() =~= s.drop_last().update(i, r));
        assert(s.last().device_id != r.device_id);
        assert(staged_map(t) == staged_map(t.drop_last()).insert(s.last().device_id, s.last()));
        assert(staged_map(t) =~= staged_map(s).insert(r.device_id, r));
    }
}

/// A time-windowed map from device identity to its latest pending reading.
pub struct UpdateCoalescer {
    /// The readings staged in the current window, one per device, in
    /// first-staging order.
    entries: Vec<Reading>,
}

impl UpdateCoalescer {
    /// At most one staged entry per device.
    pub closed spec fn wf(&self) -> bool {
        distinct_devices(self.entries@)
    }

    /// The staged map of the current window.
    pub closed spec fn staged(&self) -> Map<i32, Reading> {
        staged_map(self.entries@)
    }

    /// An empty window.
    pub fn new() -> (c: UpdateCoalescer)
        ensures
            c.wf(),
            c.staged() == Map::<i32, Reading>::empty(),
    {
        UpdateCoalescer { entries: Vec::new() }
    }

    /// Stages one reading for broadcast: overwrites any not-yet-drained
    /// entry for that device. Non-blocking, no I/O.
    #[verifier::loop_isolation(false)]
    pub fn stage(&mut self, r: Reading)
        requires
            old(self).wf(),
        ensures
            final(self).wf(),
            final(self).staged() == old(self).staged().insert(r.device_id, r),
    {
        let ghost s0 = self.entries@;
        let mut i: usize = 0;
        while i < self.entries.len()
            invariant
                self.entries@ == s0,
                distinct_devices(s0),
                i <= s0.len(),
                forall|k: int| 0 <= k < i ==> s0[k].device_id != r.device_id,
            decreases self.entries.len() - i,
        {
            if self.entries[i].device_id == r.device_id {
                self.entries.set(i, r);
                proof {
                    lemma_staged_map_update(s0, i as int, r);
                    assert(distinct_devices(self.entries@)) by {
                        assert(forall|k: int|
                            0 <= k < s0.len() && k != i ==> self.entries@[k] == s0[k]);
                    }
                }
                return ;
            }
            i = i + 1;
        }
        self.entries.push(r);
        proof {
            assert(self.entries@.drop_last() =~= s0);
            assert(distinct_devices(self.entries@));
        }
    }

    /// Atomically swaps the staged window for an empty one and hands out the
    /// swapped-out contents: one reading per staged device — the latest one —
    /// in first-staging order.
    pub fn drain(&mut self) -> (drained: Vec<Reading>)
        requires
            old(self).wf(),
        ensures
            final(self).wf(),
            final(self).staged() == Map::<i32, Reading>::empty(),
            distinct_devices(drained@),
            forall|i: int|
                0 <= i < drained@.len() ==> #[trigger] old(self).staged().contains_pair(
                    drained@[i].device_id,
                    drained@[i],
                ),
            forall|d: i32|
                old(self).staged().dom().contains(d) ==> exists|i: int|
                    0 <= i < drained@.len() && drained@[i].device_id == d,
    {
        let ghost s0 = self.entries@;
        let mut drained: Vec<Reading> = Vec::new();
        let mut i: usize = 0;
        while i < self.entries.len()
            invariant
                self.entries@ == s0,
                i <= s0.len(),
                drained@ == s0.subrange(0, i as int),
            decreases self.entries.len() - i,
        {
            drained.push(self.entries[i]);
            assert(drained@ =~= s0.subrange(0, i + 1 as int));
            i = i + 1;
        }
        self.entries.clear();
        proof {
            assert(drained@ =~= s0);
            lemma_staged_map_enumerates(s0);
        }
        drained
    }

    /// How many devices have a staged update in the current window.
    pub fn staged_len(&self) -> (n: usize)
        requires
            self.wf(),
        ensures
            n == self.staged().dom().len(),
    {
        proof {
            lemma_staged_len(self.entries@);
        }
        self.entries.len()
    }
}

/// The staged devices of a duplicate-free entry sequence are as many as the
/// entries.
proof fn lemma_staged_len(s: Seq<Reading>)
    requires
        distinct_devices(s),
    ensures
        staged_map(s).dom().finite(),
        staged_map(s).dom().len() == s.len(),
    decreases s.len(),
{
    if s.len() > 0 {
        assert(distinct_devices(s.drop_last())) by {
            assert(forall|i: int, j: int|
                0 <= i < j < s.drop_last().len() ==> s.drop_last()[i] == s[i] && s.drop_last()[j]
                    == s[j]);
        }
        lemma_staged_len(s.drop_last());
        lemma_staged_map_enumerates(s.drop_last());
        assert(forall|i: int| 0 <= i < s.len() - 1 ==> s.drop_last()[i] == s[i]);
        assert(!staged_map(s.drop_last()).dom().contains(s.last().device_id));
        assert(staged_map(s).dom() =~= staged_map(s.drop_last()).dom().insert(
            s.last().device_id,
        ));
    } else {
        assert(staged_map(s).dom() =~= Set::<i32>::empty());
    }
}

/// Law: any number of readings from one device within one coalescing window
/// collapse to exactly one staged entry, carrying the last of them.
pub proof fn lemma_window_coalesces(m: Map<i32, Reading>, rs: Seq<Reading>, d: i32)
    requires
        rs.len() > 0,
        forall|i: int| 0 <= i < rs.len() ==> #[trigger] rs[i].device_id == d,
    ensures
        staged_after(m, rs) == m.insert(d, rs.last()),
    decreases rs.len(),
{
    assert(rs.last() == rs[rs.len() - 1]);
    assert(rs.last().device_id == d);
    if rs.len() == 1 {
        assert(rs.drop_last().len() == 0);
        assert(staged_after(m, rs.drop_last()) == m);
        assert(staged_after(m, rs) =~= m.insert(d, rs.last()));
    } else {
        assert(forall|i: int|
            0 <= i < rs.drop_last().len() ==> #[trigger] rs.drop_last()[i].device_id == d) by {
            assert(forall|i: int| 0 <= i < rs.len() - 1 ==> rs.drop_last()[i] == rs[i]);
        }
        lemma_window_coalesces(m, rs.drop_last(), d);
        assert(staged_after(m, rs) =~= m.insert(d, rs.last()));
    }
}

} // verus!
