//! The inflight window of a session: the messages sent to the client and
//! not yet fully acknowledged, in the order in which they were sent.

use vstd::prelude::*;
use crate::types::{Origin, PacketId, Publish, TimestampMillis};

verus! {

/// How far the acknowledgement of a message has come.
#[derive(Clone, Copy, Debug, PartialEq, Eq, Structural)]
pub enum MomentStatus {
    /// Sent at least once; the single acknowledgement is awaited.
    UnAck,
    /// Sent exactly once; the receipt is awaited.
    UnReceived,
    /// Received; the completion is awaited.
    UnComplete,
}

/// A message in the window.
#[derive(Debug, PartialEq, Eq)]
pub struct InflightMessage {
    pub packet_id: PacketId,
    pub from: Origin,
    pub publish: Publish,
    pub status: MomentStatus,
    pub update_time: TimestampMillis,
}

impl InflightMessage {
    pub fn new(
        packet_id: PacketId,
        status: MomentStatus,
        from: Origin,
        publish: Publish,
        now: TimestampMillis,
    ) -> (r: InflightMessage)
        ensures
            r == (InflightMessage { packet_id, from, publish, status, update_time: now }),
    {
        InflightMessage { packet_id, from, publish, status, update_time: now }
    }

    /// Whether the message has waited for its acknowledgement as long as
    /// the window allows, and is due to be sent again.
    pub open spec fn spec_timeout(&self, interval_millis: u64, now: TimestampMillis) -> bool {
        now - self.update_time >= interval_millis
    }

    pub fn timeout(&self, interval_millis: u64, now: TimestampMillis) -> (r: bool)
        ensures
            r == self.spec_timeout(interval_millis, now),
    {
        now as i128 - self.update_time as i128 >= interval_millis as i128
    }
}

/// The window: at most `cap` messages, no packet id twice, oldest first.
#[derive(Debug, PartialEq, Eq)]
pub struct InflightWindow {
    cap: usize,
    interval_millis: u64,
    queue: Vec<InflightMessage>,
}

/// Position of a packet id among some messages, or -1.
pub open spec fn position(queue: Seq<InflightMessage>, packet_id: PacketId) -> int {
    if exists|i: int| 0 <= i < queue.len() && (#[trigger] queue[i]).packet_id == packet_id {
        choose|i: int| 0 <= i < queue.len() && (#[trigger] queue[i]).packet_id == packet_id
    } else {
        -1
    }
}

/// Whether a packet id is in use.
pub open spec fn in_use(queue: Seq<InflightMessage>, packet_id: PacketId) -> bool {
    exists|i: int| 0 <= i < queue.len() && (#[trigger] queue[i]).packet_id == packet_id
}

/// No packet id occurs twice.
pub open spec fn distinct_ids(queue: Seq<InflightMessage>) -> bool {
    forall|i: int, j: int|
        0 <= i < j < queue.len() ==> (#[trigger] queue[i]).packet_id != (#[trigger] queue[j]).packet_id
}

impl View for InflightWindow {
    type V = Seq<InflightMessage>;

    /// The messages in the window, oldest first.
    closed spec fn view(&self) -> Seq<InflightMessage> {
        self.queue@
    }
}

impl InflightWindow {
    /// The most messages the window holds.
    pub closed spec fn cap(&self) -> usize {
        self.cap
    }

    /// How long a message waits before it is sent again.
    pub closed spec fn interval(&self) -> u64 {
        self.interval_millis
    }

    /// The invariant of the window: never more messages than its capacity,
    /// and no packet id twice.
    pub open spec fn wf(&self) -> bool {
        self@.len() <= self.cap() && distinct_ids(self@)
    }

    /// An empty window for a session with the negotiated limit.
    pub fn new(cap: usize, retry_interval_millis: u64) -> (r: InflightWindow)
        ensures
            r.wf(),
            r@ == Seq::<InflightMessage>::empty(),
            r.cap() == cap,
            r.interval() == retry_interval_millis,
    {
        InflightWindow { cap, interval_millis: retry_interval_millis, queue: Vec::new() }
    }

    pub fn len(&self) -> (r: usize)
        ensures
            r == self@.len(),
    {
        self.queue.len()
    }

    pub fn is_empty(&self) -> (r: bool)
        ensures
            r == (self@.len() == 0),
    {
        self.queue.len() == 0
    }

    /// Whether one more message may be sent.
    pub fn has_credit(&self) -> (r: bool)
        ensures
            r == (self@.len() < self.cap()),
    {
        self.queue.len() < self.cap
    }

    fn find(&self, packet_id: PacketId) -> (r: Option<usize>)
        ensures
            match r {
                Some(i) => i < self@.len() && self@[i as int].packet_id == packet_id && in_use(
                    self@,
                    packet_id,
                ) && forall|j: int| 0 <= j < i ==> self@[j].packet_id != packet_id,
                None => !in_use(self@, packet_id),
            },
    {
        let mut i: usize = 0;
        while i < self.queue.len()
            invariant
                i <= self.queue@.len(),
                forall|j: int| 0 <= j < i ==> (#[trigger] self.queue@[j]).packet_id != packet_id,
            decreases self.queue@.len() - i,
        {
            if self.queue[i].packet_id == packet_id {
                return Some(i);
            }
            i = i + 1;
        }
        None
    }

    /// Whether a packet id is in use.
    pub fn exist(&self, packet_id: PacketId) -> (r: bool)
        ensures
            r == in_use(self@, packet_id),
    {
        self.find(packet_id).is_some()
    }

    /// Puts a message at the end of the window. Where the window is full,
    /// or the packet id is in use, the window stays as it is and the
    /// message comes back: it waits in the session's queue for credit.
    pub fn push_back(&mut self, m: InflightMessage) -> (r: Result<(), InflightMessage>)
        requires
            old(self).wf(),
        ensures
            final(self).wf(),
            final(self).cap() == old(self).cap(),
            final(self).interval() == old(self).interval(),
            match r {
                Ok(_) => old(self)@.len() < old(self).cap() && !in_use(old(self)@, m.packet_id)
                    && final(self)@ == old(self)@.push(m),
                Err(back) => back == m && final(self)@ == old(self)@ && (old(self)@.len()
                    >= old(self).cap() || in_use(old(self)@, m.packet_id)),
            },
    {
        if self.queue.len() >= self.cap || self.exist(m.packet_id) {
            return Err(m);
        }
        self.queue.push(m);
        Ok(())
    }

    /// The oldest message.
    pub fn front(&self) -> (r: Option<&InflightMessage>)
        ensures
            match r {
                Some(m) => self@.len() > 0 && *m == self@[0],
                None => self@.len() == 0,
            },
    {
        if self.queue.len() > 0 {
            Some(&self.queue[0])
        } else {
            None
        }
    }

    /// Takes out the oldest message.
    pub fn pop_front(&mut self) -> (r: Option<InflightMessage>)
        requires
            old(self).wf(),
        ensures
            final(self).wf(),
            final(self).cap() == old(self).cap(),
            final(self).interval() == old(self).interval(),
            match r {
                Some(m) => old(self)@.len() > 0 && m == old(self)@[0] && final(self)@ == old(self)@.skip(1),
                None => old(self)@.len() == 0 && final(self)@ == old(self)@,
            },
    {
        if self.queue.len() > 0 {
            let ghost before = self.queue@;
            let m = self.queue.remove(0);
            proof {
                assert(self.queue@ =~= before.skip(1));
                assert forall|i: int, j: int| 0 <= i < j < self.queue@.len() implies (
                #[trigger] self.queue@[i]).packet_id != (#[trigger] self.queue@[j]).packet_id by {
                    assert(before[i + 1].packet_id != before[j + 1].packet_id);
                }
            }
            Some(m)
        } else {
            None
        }
    }

    /// Takes out the oldest message if it is due to be sent again.
    pub fn pop_front_timeout(&mut self, now: TimestampMillis) -> (r: Option<InflightMessage>)
        requires
            old(self).wf(),
        ensures
            final(self).wf(),
            final(self).cap() == old(self).cap(),
            final(self).interval() == old(self).interval(),
            match r {
                Some(m) => old(self)@.len() > 0 && m == old(self)@[0] && m.spec_timeout(
                    old(self).interval(),
                    now,
                ) && final(self)@ == old(self)@.skip(1),
                None => final(self)@ == old(self)@ && (old(self)@.len() == 0 || !old(self)@[0].spec_timeout(old(self).interval(), now)),
            },
    {
        let due = match self.front() {
            Some(m) => m.timeout(self.interval_millis, now),
            None => false,
        };
        if due {
            self.pop_front()
        } else {
            None
        }
    }

    /// Retires the message with a packet id: the acknowledgement that ends
    /// its delivery has come. The other messages keep their order.
    pub fn remove(&mut self, packet_id: PacketId) -> (r: Option<InflightMessage>)
        requires
            old(self).wf(),
        ensures
            final(self).wf(),
            final(self).cap() == old(self).cap(),
            final(self).interval() == old(self).interval(),
            match r {
                Some(m) => in_use(old(self)@, packet_id) && m.packet_id == packet_id && m == old(self)@[position(old(self)@, packet_id)] && final(self)@ == old(self)@.remove(
                    position(old(self)@, packet_id),
                ),
                None => !in_use(old(self)@, packet_id) && final(self)@ == old(self)@,
            },
            !in_use(final(self)@, packet_id),
            forall|other: PacketId|
                other != packet_id ==> in_use(final(self)@, other) == in_use(old(self)@, other),
    {
        let ghost before = self.queue@;
        match self.find(packet_id) {
            Some(i) => {
                proof {
                    let p = position(before, packet_id);
                    assert(before[p].packet_id == packet_id);
                    if p < i {
                    } else if i < p {
                        assert(before[i as int].packet_id != before[p].packet_id);
                    }
                    assert(p == i);
                }
                let m = self.queue.remove(i);
                proof {
                    let after = self.queue@;
                    assert forall|a: int| 0 <= a < after.len() implies #[trigger] after[a]
                        == before[if a < i {
                        a
                    } else {
                        a + 1
                    }] by {}
                    assert forall|a: int, b: int| 0 <= a < b < after.len() implies (
                    #[trigger] after[a]).packet_id != (#[trigger] after[b]).packet_id by {
                        let a0 = if a < i { a } else { a + 1 };
                        let b0 = if b < i { b } else { b + 1 };
                        assert(before[a0].packet_id != before[b0].packet_id);
                    }
                    assert(!in_use(after, packet_id)) by {
                        if in_use(after, packet_id) {
                            let a = choose|a: int|
                                0 <= a < after.len() && (#[trigger] after[a]).packet_id
                                    == packet_id;
                            let a0 = if a < i { a } else { a + 1 };
                            assert(before[a0].packet_id == packet_id);
                            if a0 < i {
                                assert(before[a0].packet_id != before[i as int].packet_id);
                            } else {
                                assert(before[i as int].packet_id != before[a0].packet_id);
                            }
                        }
                    }
                    assert forall|other: PacketId| other != packet_id implies in_use(after, other)
                        == in_use(before, other) by {
                        if in_use(before, other) {
                            let b = choose|b: int|
                                0 <= b < before.len() && (#[trigger] before[b]).packet_id == other;
                            let b1 = if b < i { b } else { b - 1 };
                            assert(after[b1].packet_id == other);
                        }
                        if in_use(after, other) {
                            let a = choose|a: int|
                                0 <= a < after.len() && (#[trigger] after[a]).packet_id == other;
                            let a0 = if a < i { a } else { a + 1 };
                            assert(before[a0].packet_id == other);
                        }
                    }
                }
                Some(m)
            },
            None => None,
        }
    }

    /// Notes how far the acknowledgement of a message has come, and when.
    /// Returns whether the packet id is in use.
    pub fn update_status(&mut self, packet_id: PacketId, status: MomentStatus, now: TimestampMillis) -> (r:
        bool)
        requires
            old(self).wf(),
        ensures
            final(self).wf(),
            final(self).cap() == old(self).cap(),
            final(self).interval() == old(self).interval(),
            r == in_use(old(self)@, packet_id),
            final(self)@.len() == old(self)@.len(),
            forall|i: int|
                0 <= i < old(self)@.len() ==> #[trigger] final(self)@[i] == if old(self)@[i].packet_id == packet_id {
                    InflightMessage { status, update_time: now, ..old(self)@[i] }
                } else {
                    old(self)@[i]
                },
    {
        let ghost before = self.queue@;
        match self.find(packet_id) {
            Some(i) => {
                let m = self.queue.remove(i);
                let updated = InflightMessage {
                    packet_id: m.packet_id,
                    from: m.from,
                    publish: m.publish,
                    status,
                    update_time: now,
                };
                self.queue.insert(i, updated);
                proof {
                    let after = self.queue@;
                    assert(after =~= before.update(i as int, updated));
                    assert forall|a: int, b: int| 0 <= a < b < after.len() implies (
                    #[trigger] after[a]).packet_id != (#[trigger] after[b]).packet_id by {
                        assert(before[a].packet_id != before[b].packet_id);
                    }
                    assert forall|a: int| 0 <= a < before.len() implies #[trigger] after[a]
                        == if before[a].packet_id == packet_id {
                        InflightMessage { status, update_time: now, ..before[a] }
                    } else {
                        before[a]
                    } by {
                        if a != i {
                            if a < i {
                                assert(before[a].packet_id != before[i as int].packet_id);
                            } else {
                                assert(before[i as int].packet_id != before[a].packet_id);
                            }
                        }
                    }
                }
                true
            },
            None => {
                proof {
                    assert forall|a: int| 0 <= a < before.len() implies before[a].packet_id
                        != packet_id by {
                        if before[a].packet_id == packet_id {
                            assert(in_use(before, packet_id));
                        }
                    }
                }
                false
            },
        }
    }
}

/// The window of a session never holds more messages than the session's
/// limit, whatever was done to it.
pub proof fn law_window_is_bounded(w: InflightWindow)
    requires
        w.wf(),
    ensures
        w@.len() <= w.cap(),
{
}

/// The packet id that is `k` steps after `after`, going round through the
/// ids from 1 to 65535.
pub open spec fn id_after(after: PacketId, k: int) -> int {
    (after + k) % 65535 + 1
}

/// Whether `id` is the first packet id after `after`, going round, that
/// is not in use.
pub open spec fn first_free(queue: Seq<InflightMessage>, after: PacketId, id: PacketId) -> bool {
    &&& id != 0
    &&& !in_use(queue, id)
    &&& exists|k: int|
        0 <= k < 65535 && id == #[trigger] id_after(after, k) && forall|j: int|
            0 <= j < k ==> in_use(queue, #[trigger] id_after(after, j) as PacketId)
}

/// Whether some packet id is not in use.
pub open spec fn has_free_id(queue: Seq<InflightMessage>) -> bool {
    exists|id: PacketId| id != 0 && !#[trigger] in_use(queue, id)
}

impl InflightWindow {
    /// The message with a packet id.
    pub fn get(&self, packet_id: PacketId) -> (r: Option<&InflightMessage>)
        requires
            self.wf(),
        ensures
            match r {
                Some(m) => in_use(self@, packet_id) && *m == self@[position(self@, packet_id)]
                    && m.packet_id == packet_id,
                None => !in_use(self@, packet_id),
            },
    {
        match self.find(packet_id) {
            Some(i) => {
                proof {
                    let p = position(self@, packet_id);
                    assert(self@[p].packet_id == packet_id);
                    if i < p {
                        assert(self@[i as int].packet_id != self@[p].packet_id);
                    }
                }
                Some(&self.queue[i])
            },
            None => None,
        }
    }

    /// A packet id that is not in use: the first one after `after`, going
    /// round. `None` says that every packet id is in use.
    pub fn free_id(&self, after: PacketId) -> (r: Option<PacketId>)
        ensures
            match r {
                Some(id) => first_free(self@, after, id) && has_free_id(self@),
                None => !has_free_id(self@),
            },
    {
        let mut k: u32 = 0;
        while k < 65535
            invariant
                k <= 65535,
                forall|j: int| 0 <= j < k ==> in_use(self@, #[trigger] id_after(after, j) as PacketId),
            decreases 65535 - k,
        {
            let id = ((after as u32 + k) % 65535 + 1) as u16;
            assert(id == id_after(after, k as int));
            if !self.exist(id) {
                return Some(id);
            }
            k = k + 1;
        }
        proof {
            assert forall|id: PacketId| id != 0 implies in_use(self@, id) by {
                let j = (id - 1 - after) % 65535;
                assert(0 <= j < 65535);
                assert(id_after(after, j) == id) by {
                    assert((after + j) % 65535 == id - 1) by (nonlinear_arith)
                        requires
                            j == (id - 1 - after) % 65535,
                            1 <= id <= 65535,
                            0 <= after <= 65535,
                    ;
                }
                assert(in_use(self@, id_after(after, j) as PacketId));
            }
        }
        None
    }

    /// Sends the oldest message again if it is due: it goes to the end of
    /// the window, marked as a duplicate, and waits anew from `now`.
    /// Returns its packet id.
    pub fn retry_front(&mut self, now: TimestampMillis) -> (r: Option<PacketId>)
        requires
            old(self).wf(),
        ensures
            final(self).wf(),
            final(self).cap() == old(self).cap(),
            final(self).interval() == old(self).interval(),
            match r {
                Some(id) => {
                    let m = old(self)@[0];
                    &&& old(self)@.len() > 0
                    &&& m.spec_timeout(old(self).interval(), now)
                    &&& id == m.packet_id
                    &&& final(self)@ == old(self)@.skip(1).push(
                        InflightMessage {
                            update_time: now,
                            publish: Publish { dup: true, ..m.publish },
                            ..m
                        },
                    )
                },
                None => final(self)@ == old(self)@ && (old(self)@.len() == 0 || !old(self)@[0].spec_timeout(old(self).interval(), now)),
            },
    {
        let ghost before = self.queue@;
        match self.pop_front_timeout(now) {
            Some(m) => {
                let id = m.packet_id;
                let again = InflightMessage {
                    packet_id: m.packet_id,
                    from: m.from,
                    publish: Publish {
                        dup: true,
                        retain: m.publish.retain,
                        qos: m.publish.qos,
                        topic: m.publish.topic,
                        packet_id: m.publish.packet_id,
                        payload: m.publish.payload,
                        properties: m.publish.properties,
                        create_time: m.publish.create_time,
                    },
                    status: m.status,
                    update_time: now,
                };
                self.queue.push(again);
                proof {
                    let after = self.queue@;
                    let n = after.len() as int;
                    assert forall|i: int, j: int| 0 <= i < j < after.len() implies (
                    #[trigger] after[i]).packet_id != (#[trigger] after[j]).packet_id by {
                        if j < n - 1 {
                            assert(before[i + 1].packet_id != before[j + 1].packet_id);
                        } else {
                            assert(before[0].packet_id != before[i + 1].packet_id);
                        }
                    }
                }
                Some(id)
            },
            None => None,
        }
    }
}

/// What a publish-related packet from the client asks of the window.
#[derive(Clone, Copy, Debug, PartialEq, Eq, Structural)]
pub enum PublishMessage {
    /// A message to publish.
    Publish,
    /// The single acknowledgement of a message sent at least once.
    PublishAck(PacketId),
    /// The receipt of a message sent exactly once.
    PublishReceived(PacketId),
    /// The completion of a message sent exactly once.
    PublishComplete(PacketId),
}

/// What follows from a publish-related packet.
#[derive(Debug, PartialEq, Eq)]
pub enum PublishOutcome {
    /// Hand the message to the session for delivery.
    Deliver,
    /// A message was retired: tell the hooks that it was acknowledged.
    Acked(InflightMessage),
    /// Nothing more.
    Nothing,
}

/// Serves a publish-related packet from the client. An acknowledgement or
/// completion retires the message with its packet id, if there is one; a
/// receipt moves it on to await completion.
pub fn publish(window: &mut InflightWindow, msg: PublishMessage, now: TimestampMillis) -> (r:
    PublishOutcome)
    requires
        old(window).wf(),
    ensures
        final(window).wf(),
        final(window).cap() == old(window).cap(),
        final(window).interval() == old(window).interval(),
        match msg {
            PublishMessage::Publish => r is Deliver && final(window)@ == old(window)@,
            PublishMessage::PublishAck(id) | PublishMessage::PublishComplete(id) => if in_use(
                old(window)@,
                id,
            ) {
                r == PublishOutcome::Acked(old(window)@[position(old(window)@, id)]) && final(window)@ == old(window)@.remove(position(old(window)@, id))
            } else {
                r is Nothing && final(window)@ == old(window)@
            },
            PublishMessage::PublishReceived(id) => r is Nothing && final(window)@.len() == old(window)@.len() && forall|i: int|
                0 <= i < old(window)@.len() ==> #[trigger] final(window)@[i] == if old(window)@[i].packet_id == id {
                    InflightMessage {
                        status: MomentStatus::UnComplete,
                        update_time: now,
                        ..old(window)@[i]
                    }
                } else {
                    old(window)@[i]
                },
        },
{
    match msg {
        PublishMessage::Publish => PublishOutcome::Deliver,
        PublishMessage::PublishAck(id) => match window.remove(id) {
            Some(m) => PublishOutcome::Acked(m),
            None => PublishOutcome::Nothing,
        },
        PublishMessage::PublishReceived(id) => {
            window.update_status(id, MomentStatus::UnComplete, now);
            PublishOutcome::Nothing
        },
        PublishMessage::PublishComplete(id) => match window.remove(id) {
            Some(m) => PublishOutcome::Acked(m),
            None => PublishOutcome::Nothing,
        },
    }
}

} // verus!
