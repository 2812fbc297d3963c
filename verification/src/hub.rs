//! Fan-out of outbound notification payloads to observers.
//!
//! Any number of observers subscribe and receive every payload published
//! after they joined; publishers never block on subscriber presence or
//! speed. Each subscriber owns a capacity-bounded delivery buffer with an
//! explicit overflow policy: when a buffer is full, the oldest undelivered
//! payload is dropped — the publisher is never blocked and never fails.

use vstd::prelude::*;
use crate::reading::Reading;

verus! {

/// The observer-facing payload built from one drained reading: device
/// identity, value, timestamp.
#[derive(Clone, Copy, PartialEq, Eq, Structural, Debug)]
pub struct Payload {
    /// Identity of the device the update is about.
    pub device_id: i32,
    /// Latest level of that device, in tenths of a decibel.
    pub decibels_tenths: i64,
    /// Instant of that reading, in milliseconds since the epoch.
    pub timestamp_ms: u64,
}

/// The payload carrying the identity, value and timestamp of one reading.
pub open spec fn payload_of(r: Reading) -> Payload {
    Payload {
        device_id: r.device_id,
        decibels_tenths: r.decibels_tenths,
        timestamp_ms: r.timestamp_ms,
    }
}

/// A delivery buffer after one payload lands in it: appended when there is
/// room, otherwise the oldest undelivered payload gives way.
pub open spec fn push_bounded(buf: Seq<Payload>, p: Payload, cap: int) -> Seq<Payload> {
    if buf.len() < cap {
        buf.push(p)
    } else {
        buf.drop_first().push(p)
    }
}

/// What one poll of a subscription yields.
#[derive(Clone, Copy, PartialEq, Eq, Structural, Debug)]
pub enum PollResult {
    /// The oldest undelivered payload.
    Ready(Payload),
    /// Nothing undelivered yet; the subscription is still live.
    Pending,
    /// No subscription under this handle.
    Closed,
}

/// One observer's subscription: its handle and its bounded delivery buffer,
/// oldest payload first.
struct Subscriber {
    id: u64,
    buffer: Vec<Payload>,
}

/// A fan-out channel with per-subscriber bounded buffers.
pub struct PubSubHub {
    /// Bound on every subscriber's delivery buffer.
    capacity: usize,
    /// Next never-used subscription handle.
    next_id: u64,
    /// Live subscriptions, in subscription order.
    subs: Vec<Subscriber>,
}

impl PubSubHub {
    /// The live subscriptions: each handle with its buffered payloads,
    /// oldest first.
    pub closed spec fn channels(&self) -> Seq<(u64, Seq<Payload>)> {
        self.subs@.map_values(|s: Subscriber| (s.id, s.buffer@))
    }

    /// The bound on every delivery buffer.
    pub closed spec fn capacity(&self) -> int {
        self.capacity as int
    }

    /// Whether a subscription is live under handle `id`.
    pub open spec fn has_subscriber(&self, id: u64) -> bool {
        exists|j: int| 0 <= j < self.channels().len() && (#[trigger] self.channels()[j]).0 == id
    }

    /// Whether the handle space is spent: no further subscription can be
    /// opened (unreachable in practice).
    pub closed spec fn handles_spent(&self) -> bool {
        self.next_id == u64::MAX
    }

    /// Positive capacity, every buffer within it, no handle issued twice,
    /// and no live handle at or above the next one.
    pub closed spec fn wf(&self) -> bool {
        &&& self.capacity >= 1
        &&& forall|j: int|
            0 <= j < self.subs@.len() ==> (#[trigger] self.subs@[j]).buffer@.len()
                <= self.capacity
        &&& forall|j: int|
            0 <= j < self.subs@.len() ==> (#[trigger] self.subs@[j]).id < self.next_id
        &&& forall|i: int, j: int|
            0 <= i < j < self.subs@.len() ==> self.subs@[i].id != self.subs@[j].id
    }

    /// A hub with no subscribers and the given buffer bound.
    pub fn new(capacity: usize) -> (hub: PubSubHub)
        requires
            capacity >= 1,
        ensures
            hub.wf(),
            hub.capacity() == capacity,
            hub.channels() == Seq::<(u64, Seq<Payload>)>::empty(),
            !hub.handles_spent(),
    {
        let hub = PubSubHub { capacity, next_id: 0, subs: Vec::new() };
        proof {
            assert(hub.channels() =~= Seq::<(u64, Seq<Payload>)>::empty());
        }
        hub
    }

    /// Opens a subscription that will receive all subsequently published
    /// payloads; yields its handle, or nothing in the unreachable case that
    /// the handle space is spent.
    pub fn subscribe(&mut self) -> (handle: Option<u64>)
        requires
            old(self).wf(),
        ensures
            final(self).wf(),
            final(self).capacity() == old(self).capacity(),
            handle matches Some(id) ==> {
                &&& final(self).channels() == old(self).channels().push(
                    (id, Seq::<Payload>::empty()),
                )
                &&& !old(self).has_subscriber(id)
            },
            handle is None <==> old(self).handles_spent(),
            handle is None ==> final(self).channels() == old(self).channels(),
    {
        if self.next_id == u64::MAX {
            return None;
        }
        let id = self.next_id;
        self.next_id = self.next_id + 1;
        self.subs.push(Subscriber { id, buffer: Vec::new() });
        proof {
            assert(final(self).channels() =~= old(self).channels().push(
                (id, Seq::<Payload>::empty()),
            ));
        }
        Some(id)
    }

    /// Delivers one payload to every live subscription, dropping the oldest
    /// undelivered payload of any full buffer. Never blocks, never fails,
    /// and leaves a hub without subscribers untouched.
    pub fn publish(&mut self, p: Payload)
        requires
            old(self).wf(),
        ensures
            final(self).wf(),
            final(self).capacity() == old(self).capacity(),
            final(self).channels().len() == old(self).channels().len(),
            forall|j: int|
                0 <= j < old(self).channels().len() ==> (#[trigger] final(self).channels()[j])
                    == (
                old(self).channels()[j].0,
                push_bounded(old(self).channels()[j].1, p, old(self).capacity()),
                ),
            old(self).channels().len() == 0 ==> final(self).channels() == old(self).channels(),
    {
        let n = self.subs.len();
        let mut j: usize = 0;
        while j < n
            invariant
                old(self).wf(),
                n == old(self).subs@.len(),
                j <= n,
                self.subs@.len() == n,
                self.capacity == old(self).capacity,
                self.next_id == old(self).next_id,
                forall|k: int| j <= k < n ==> #[trigger] self.subs@[k] == old(self).subs@[k],
                forall|k: int|
                    0 <= k < j ==> (#[trigger] self.subs@[k]).id == old(self).subs@[k].id
                        && self.subs@[k].buffer@ == push_bounded(
                        old(self).subs@[k].buffer@,
                        p,
                        old(self).capacity as int,
                    ),
                forall|k: int|
                    0 <= k < j ==> (#[trigger] self.subs@[k]).buffer@.len() <= self.capacity,
            decreases n - j,
        {
            let mut sub = self.subs.remove(j);
            if sub.buffer.len() >= self.capacity {
                sub.buffer.remove(0);
            }
            sub.buffer.push(p);
            self.subs.insert(j, sub);
            proof {
                assert(self.subs@[j as int].buffer@ == push_bounded(
                    old(self).subs@[j as int].buffer@,
                    p,
                    old(self).capacity as int,
                ));
            }
            j = j + 1;
        }
        proof {
            assert forall|k: int|
                0 <= k < old(self).channels().len() implies (#[trigger] final(self).channels()[k]) == (
            old(self).channels()[k].0,
            push_bounded(old(self).channels()[k].1, p, old(self).capacity()),
            ) by {
                assert(final(self).subs@[k].id == old(self).subs@[k].id);
            }
            if old(self).channels().len() == 0 {
                assert(final(self).channels() =~= old(self).channels());
            }
        }
    }

    /// Polls the subscription under `id`: yields its oldest undelivered
    /// payload, or reports an empty live buffer or a spent handle.
    pub fn next_payload(&mut self, id: u64) -> (r: PollResult)
        requires
            old(self).wf(),
        ensures
            final(self).wf(),
            final(self).capacity() == old(self).capacity(),
            final(self).channels().len() == old(self).channels().len(),
            forall|j: int|
                0 <= j < old(self).channels().len() && (#[trigger] old(self).channels()[j]).0
                    != id ==> final(self).channels()[j] == old(self).channels()[j],
            !old(self).has_subscriber(id) ==> {
                &&& r == PollResult::Closed
                &&& final(self).channels() == old(self).channels()
            },
            forall|j: int|
                0 <= j < old(self).channels().len() && (#[trigger] old(self).channels()[j]).0
                    == id ==> {
                    let buf = old(self).channels()[j].1;
                    if buf.len() == 0 {
                        r == PollResult::Pending && final(self).channels()[j] == old(self).channels()[j]
                    } else {
                        r == PollResult::Ready(buf[0]) && final(self).channels()[j] == (
                        id,
                        buf.drop_first(),
                        )
                    }
                },
    {
        let n = self.subs.len();
        let mut j: usize = 0;
        while j < n
            invariant
                old(self).wf(),
                n == old(self).subs@.len(),
                j <= n,
                self == old(self),
                forall|k: int| 0 <= k < j ==> (#[trigger] self.subs@[k]).id != id,
            decreases n - j,
        {
            if self.subs[j].id == id {
                if self.subs[j].buffer.len() == 0 {
                    return PollResult::Pending;
                }
                let mut sub = self.subs.remove(j);
                let p = sub.buffer.remove(0);
                self.subs.insert(j, sub);
                proof {
                    assert(final(self).channels()[j as int] == (
                    id,
                    old(self).channels()[j as int].1.drop_first(),
                    ));
                    assert forall|k: int|
                        0 <= k < old(self).channels().len() && (#[trigger] old(self).channels()[k]).0 != id implies final(self).channels()[k] == old(self).channels()[k] by {
                        assert(final(self).subs@[k] == old(self).subs@[k]);
                    }
                }
                return PollResult::Ready(p);
            }
            j = j + 1;
        }
        PollResult::Closed
    }

    /// Closes the subscription under `id`, if it is live.
    pub fn unsubscribe(&mut self, id: u64)
        requires
            old(self).wf(),
        ensures
            final(self).wf(),
            final(self).capacity() == old(self).capacity(),
            !old(self).has_subscriber(id) ==> final(self).channels() == old(self).channels(),
            old(self).has_subscriber(id) ==> exists|j: int|
                0 <= j < old(self).channels().len() && (#[trigger] old(self).channels()[j]).0
                    == id && final(self).channels() == old(self).channels().remove(j),
            !final(self).has_subscriber(id),
    {
        let n = self.subs.len();
        let mut j: usize = 0;
        while j < n
            invariant
                old(self).wf(),
                n == old(self).subs@.len(),
                j <= n,
                self == old(self),
                forall|k: int| 0 <= k < j ==> (#[trigger] self.subs@[k]).id != id,
            decreases n - j,
        {
            if self.subs[j].id == id {
                self.subs.remove(j);
                proof {
                    assert(old(self).channels()[j as int].0 == id);
                    assert(old(self).has_subscriber(id));
                    assert(final(self).channels() =~= old(self).channels().remove(j as int));
                    assert forall|k: int|
                        0 <= k < final(self).channels().len() implies (#[trigger] final(self).channels()[k]).0 != id by {
                        if k < j {
                            assert(final(self).subs@[k] == old(self).subs@[k]);
                        } else {
                            assert(final(self).subs@[k] == old(self).subs@[k + 1]);
                        }
                    }
                }
                return ;
            }
            j = j + 1;
        }
    }

    /// How many observers are currently subscribed.
    pub fn subscriber_count(&self) -> (n: usize)
        ensures
            n == self.channels().len(),
    {
        self.subs.len()
    }
}

/// What an observer connection hears back from its transport while it pumps
/// payloads out.
#[derive(Clone, Copy, PartialEq, Eq, Structural, Debug)]
pub enum ObserverInbound {
    /// An inbound text frame; observers send nothing meaningful, so it is
    /// ignored.
    Text,
    /// The observer closed the connection.
    Close,
    /// Any other frame; ignored.
    Other,
}

/// Whether the observer's pump keeps running after hearing one inbound
/// message: only a close ends it.
pub fn observer_continues(msg: ObserverInbound) -> (keep_going: bool)
    ensures
        keep_going == !(msg is Close),
{
    match msg {
        ObserverInbound::Close => false,
        ObserverInbound::Text => true,
        ObserverInbound::Other => true,
    }
}

} // verus!
