//! The drain side of the broadcast path: on each tick of its own clock, the
//! broadcaster takes the coalescer's staged window — one latest reading per
//! device — turns every reading into an observer-facing payload, and
//! publishes each payload to the fan-out hub.

use vstd::prelude::*;
use crate::reading::Reading;
use crate::coalesce::UpdateCoalescer;
use crate::hub::{Payload, PubSubHub, payload_of, push_bounded};

verus! {

/// A delivery buffer after a sequence of payloads lands in it, in order,
/// each under the bounded overflow policy.
pub open spec fn deliver_all(buf: Seq<Payload>, ps: Seq<Payload>, cap: int) -> Seq<Payload>
    decreases ps.len(),
{
    if ps.len() == 0 {
        buf
    } else {
        push_bounded(deliver_all(buf, ps.drop_last(), cap), ps.last(), cap)
    }
}

/// How many payloads of `ps` are about device `d`.
pub open spec fn payload_count_for(ps: Seq<Payload>, d: i32) -> int
    decreases ps.len(),
{
    if ps.len() == 0 {
        0
    } else {
        payload_count_for(ps.drop_last(), d) + if ps.last().device_id == d {
            1int
        } else {
            0int
        }
    }
}

/// Law: a broadcast whose payloads carry no device twice publishes exactly
/// one payload per device that has one at all, and none for any other.
pub proof fn lemma_one_payload_per_device(ps: Seq<Payload>, d: i32)
    requires
        forall|i: int, k: int| 0 <= i < k < ps.len() ==> ps[i].device_id != ps[k].device_id,
    ensures
        (exists|i: int| 0 <= i < ps.len() && ps[i].device_id == d) ==> payload_count_for(ps, d)
            == 1,
        !(exists|i: int| 0 <= i < ps.len() && ps[i].device_id == d) ==> payload_count_for(ps, d)
            == 0,
    decreases ps.len(),
{
    if ps.len() > 0 {
        let t = ps.drop_last();
        assert(forall|i: int| 0 <= i < t.len() ==> t[i] == ps[i]);
        lemma_one_payload_per_device(t, d);
        if ps.last().device_id == d {
            assert(ps[ps.len() - 1].device_id == d);
            assert(!(exists|i: int| 0 <= i < t.len() && t[i].device_id == d)) by {
                if exists|i: int| 0 <= i < t.len() && t[i].device_id == d {
                    let i = choose|i: int| 0 <= i < t.len() && t[i].device_id == d;
                    assert(ps[i].device_id != ps[ps.len() - 1].device_id);
                }
            }
        } else {
            if exists|i: int| 0 <= i < ps.len() && ps[i].device_id == d {
                let i = choose|i: int| 0 <= i < ps.len() && ps[i].device_id == d;
                assert(0 <= i < t.len() && t[i].device_id == d);
            }
        }
    }
}

/// The payloads of the drained readings, in drain order.
pub fn payloads_of(readings: &Vec<Reading>) -> (ps: Vec<Payload>)
    ensures
        ps@ == readings@.map_values(|r: Reading| payload_of(r)),
{
    let mut ps: Vec<Payload> = Vec::new();
    let mut i: usize = 0;
    while i < readings.len()
        invariant
            i <= readings@.len(),
            ps@ == readings@.subrange(0, i as int).map_values(|r: Reading| payload_of(r)),
        decreases readings@.len() - i,
    {
        let r = readings[i];
        ps.push(Payload {
            device_id: r.device_id,
            decibels_tenths: r.decibels_tenths,
            timestamp_ms: r.timestamp_ms,
        });
        assert(ps@ =~= readings@.subrange(0, i + 1 as int).map_values(
            |r: Reading| payload_of(r),
        ));
        i = i + 1;
    }
    assert(ps@ =~= readings@.map_values(|r: Reading| payload_of(r)));
    ps
}

/// Publishes every payload to the hub, in order. Every subscriber's buffer
/// receives the whole sequence under the bounded overflow policy; a hub
/// without subscribers is left untouched.
pub fn publish_all(hub: &mut PubSubHub, ps: &Vec<Payload>)
    requires
        old(hub).wf(),
    ensures
        final(hub).wf(),
        final(hub).capacity() == old(hub).capacity(),
        final(hub).channels().len() == old(hub).channels().len(),
        forall|j: int|
            0 <= j < old(hub).channels().len() ==> (#[trigger] final(hub).channels()[j]) == (
            old(hub).channels()[j].0,
            deliver_all(old(hub).channels()[j].1, ps@, old(hub).capacity()),
            ),
        old(hub).channels().len() == 0 ==> final(hub).channels() == old(hub).channels(),
    {
        let mut i: usize = 0;
        while i < ps.len()
            invariant
                old(hub).wf(),
                hub.wf(),
                i <= ps@.len(),
                hub.capacity() == old(hub).capacity(),
                hub.channels().len() == old(hub).channels().len(),
                forall|j: int|
                    0 <= j < old(hub).channels().len() ==> (#[trigger] hub.channels()[j]) == (
                    old(hub).channels()[j].0,
                    deliver_all(old(hub).channels()[j].1, ps@.subrange(0, i as int), old(
                        hub,
                    ).capacity()),
                    ),
            decreases ps@.len() - i,
        {
            let ghost pre = hub.channels();
            hub.publish(ps[i]);
            proof {
                assert forall|j: int|
                    0 <= j < old(hub).channels().len() implies (#[trigger] hub.channels()[j]) == (
                    old(hub).channels()[j].0,
                    deliver_all(old(hub).channels()[j].1, ps@.subrange(0, i + 1 as int), old(
                        hub,
                    ).capacity()),
                    ) by {
                    assert(hub.channels()[j] == (pre[j].0, push_bounded(
                        pre[j].1,
                        ps@[i as int],
                        old(hub).capacity(),
                    )));
                    assert(ps@.subrange(0, i + 1 as int).drop_last() =~= ps@.subrange(0, i as int));
                    assert(ps@.subrange(0, i + 1 as int).last() == ps@[i as int]);
                }
            }
            i = i + 1;
        }
        proof {
            assert(ps@.subrange(0, ps@.len() as int) =~= ps@);
            if old(hub).channels().len() == 0 {
                assert(final(hub).channels() =~= old(hub).channels());
            }
        }
    }

/// One tick of the broadcaster: atomically swaps the coalescer's staged map
/// for an empty one, converts the swapped-out readings into payloads, and
/// publishes each to the hub — exactly one payload per device staged in the
/// closed window, carrying that device's latest value.
pub fn broadcast_window(coalescer: &mut UpdateCoalescer, hub: &mut PubSubHub) -> (ps: Vec<
    Payload,
>)
    requires
        old(coalescer).wf(),
        old(hub).wf(),
    ensures
        final(coalescer).wf(),
        final(coalescer).staged() == Map::<i32, Reading>::empty(),
        final(hub).wf(),
        final(hub).capacity() == old(hub).capacity(),
        final(hub).channels().len() == old(hub).channels().len(),
        forall|j: int|
            0 <= j < old(hub).channels().len() ==> (#[trigger] final(hub).channels()[j]) == (
            old(hub).channels()[j].0,
            deliver_all(old(hub).channels()[j].1, ps@, old(hub).capacity()),
            ),
        forall|i: int, k: int|
            0 <= i < k < ps@.len() ==> ps@[i].device_id != ps@[k].device_id,
        forall|i: int|
            0 <= i < ps@.len() ==> #[trigger] old(coalescer).staged().contains_pair(
                ps@[i].device_id,
                Reading {
                    device_id: ps@[i].device_id,
                    decibels_tenths: ps@[i].decibels_tenths,
                    timestamp_ms: ps@[i].timestamp_ms,
                },
            ),
        forall|d: i32|
            old(coalescer).staged().dom().contains(d) ==> exists|i: int|
                0 <= i < ps@.len() && ps@[i].device_id == d,
{
    let drained = coalescer.drain();
    let ps = payloads_of(&drained);
    proof {
        assert forall|i: int|
            0 <= i < ps@.len() implies #[trigger] old(coalescer).staged().contains_pair(
            ps@[i].device_id,
            Reading {
                device_id: ps@[i].device_id,
                decibels_tenths: ps@[i].decibels_tenths,
                timestamp_ms: ps@[i].timestamp_ms,
            },
        ) by {
            assert(ps@[i] == payload_of(drained@[i]));
            assert(old(coalescer).staged().contains_pair(drained@[i].device_id, drained@[i]));
        }
        assert forall|d: i32|
            old(coalescer).staged().dom().contains(d) implies exists|i: int|
            0 <= i < ps@.len() && ps@[i].device_id == d by {
            let i = choose|i: int| 0 <= i < drained@.len() && drained@[i].device_id == d;
            assert(ps@[i] == payload_of(drained@[i]));
            assert(ps@[i].device_id == d);
        }
    }
    publish_all(hub, &ps);
    ps
}

} // verus!
