//! Sessions, and what is known of the connection that holds one.

use vstd::prelude::*;
use crate::broker::error::MqttError;
use crate::broker::inflight::{
    first_free, has_free_id, InflightMessage, InflightWindow, MomentStatus,
};
use crate::types::{
    ClientId, Id, NodeId, Origin, PacketId, Publish, QoS, Reason, SessionOfflineInfo,
    SubsSearchResult, Subscription, TimestampMillis, TopicFilter,
    clone_opt_addr, clone_opt_string,
};

verus! {

/// What a client sent to open its connection.
#[derive(Debug, PartialEq, Eq)]
pub struct ConnectInfo {
    pub id: Id,
    pub clean_start: bool,
    pub keep_alive: u16,
    pub password: Option<Vec<u8>>,
    /// The method of an extended authentication, if the client asks for one.
    pub auth_method: Option<String>,
    pub session_expiry_interval_secs: Option<u32>,
    pub receive_max: Option<u16>,
    pub max_packet_size: Option<u32>,
}

impl ConnectInfo {
    pub fn id(&self) -> (r: &Id)
        ensures
            *r == self.id,
    {
        &self.id
    }

    pub fn client_id(&self) -> (r: &ClientId)
        ensures
            *r == self.id.client_id,
    {
        &self.id.client_id
    }
}

/// What is known of a connection.
#[derive(Debug, PartialEq, Eq)]
pub struct ClientInfo {
    pub connect_info: ConnectInfo,
    pub session_present: bool,
    pub connected_at: TimestampMillis,
    pub disconnected_reasons: Vec<Reason>,
}

impl ClientInfo {
    pub fn new(connect_info: ConnectInfo, session_present: bool, connected_at: TimestampMillis) -> (r:
        ClientInfo)
        ensures
            r.connect_info == connect_info,
            r.session_present == session_present,
            r.connected_at == connected_at,
            r.disconnected_reasons@ == Seq::<Reason>::empty(),
    {
        ClientInfo { connect_info, session_present, connected_at, disconnected_reasons: Vec::new() }
    }

    /// Keeps a reason for the end of the connection, for diagnosis.
    pub fn add_disconnected_reason(&mut self, reason: Reason)
        ensures
            final(self).disconnected_reasons@ == old(self).disconnected_reasons@.push(reason),
            final(self).connect_info == old(self).connect_info,
            final(self).session_present == old(self).session_present,
            final(self).connected_at == old(self).connected_at,
    {
        self.disconnected_reasons.push(reason);
    }
}

/// A session: the state the broker keeps for a client beyond the packet
/// at hand.
#[derive(Debug, PartialEq, Eq)]
pub struct Session {
    pub id: Id,
    pub subscriptions: Vec<Subscription>,
    pub created_at: TimestampMillis,
    pub max_mqueue_len: usize,
    pub max_inflight: usize,
    pub max_subscriptions: usize,
    pub inflight_win: InflightWindow,
    /// The messages that wait for room in the window, oldest first.
    pub deliver_queue: Vec<(Origin, Publish)>,
    /// The packet id that was given out last.
    pub last_packet_id: PacketId,
}

/// What becomes of a message that is bound for the client of a session.
#[derive(Debug, PartialEq, Eq)]
pub enum Delivery {
    /// It is sent, and no acknowledgement is awaited.
    Send(Origin, Publish),
    /// It is sent under this packet id, and waits in the window for its
    /// acknowledgement.
    Inflight(PacketId),
    /// It waits in the queue of the session for room in the window.
    Queued,
    /// It is dropped: the queue is full.
    Dropped(Origin, Publish, Reason),
}

/// How far the acknowledgement of a message has come when it is sent.
pub open spec fn status_when_sent(qos: QoS) -> MomentStatus {
    match qos {
        QoS::ExactlyOnce => MomentStatus::UnReceived,
        _ => MomentStatus::UnAck,
    }
}

/// A message as it enters the window.
pub open spec fn inflight_message(
    id: PacketId,
    from: Origin,
    publish: Publish,
    now: TimestampMillis,
) -> InflightMessage {
    InflightMessage {
        packet_id: id,
        from,
        publish: Publish { packet_id: Some(id), ..publish },
        status: status_when_sent(publish.qos),
        update_time: now,
    }
}

impl Clone for Subscription {
    fn clone(&self) -> (r: Subscription)
        ensures
            r == *self,
    {
        Subscription {
            topic_filter: self.topic_filter.clone(),
            qos: self.qos,
            shared_group: clone_opt_string(&self.shared_group),
        }
    }
}

/// A copy of a list of subscriptions.
pub fn clone_subscriptions(subs: &Vec<Subscription>) -> (r: Vec<Subscription>)
    ensures
        r@ == subs@,
{
    let mut out: Vec<Subscription> = Vec::new();
    let mut i: usize = 0;
    while i < subs.len()
        invariant
            i <= subs@.len(),
            out@ == subs@.take(i as int),
        decreases subs@.len() - i,
    {
        out.push(subs[i].clone());
        i = i + 1;
    }
    out
}

/// The position of the subscription with a filter, or -1.
pub open spec fn subscription_index(subs: Seq<Subscription>, filter: Seq<char>) -> int {
    if exists|i: int| 0 <= i < subs.len() && (#[trigger] subs[i]).topic_filter@ == filter {
        choose|i: int| 0 <= i < subs.len() && (#[trigger] subs[i]).topic_filter@ == filter
    } else {
        -1
    }
}

/// Whether a session has subscribed with a filter.
pub open spec fn subscribed(subs: Seq<Subscription>, filter: Seq<char>) -> bool {
    exists|i: int| 0 <= i < subs.len() && (#[trigger] subs[i]).topic_filter@ == filter
}

/// No filter occurs twice.
pub open spec fn distinct_filters(subs: Seq<Subscription>) -> bool {
    forall|i: int, j: int|
        0 <= i < j < subs.len() ==> (#[trigger] subs[i]).topic_filter@ != (
        #[trigger] subs[j]).topic_filter@
}

/// A list of subscriptions with one more: in the place of the one with
/// its filter, or behind the others where none has that filter.
pub open spec fn with_subscription(subs: Seq<Subscription>, sub: Subscription) -> Seq<
    Subscription,
> {
    if subscribed(subs, sub.topic_filter@) {
        subs.update(subscription_index(subs, sub.topic_filter@), sub)
    } else {
        subs.push(sub)
    }
}

/// What a session with the subscriptions `own` has once it took over the
/// first `n` subscriptions of a snapshot: each in its turn, a later one in
/// the place of an earlier one with the same filter.
pub open spec fn taken_over(own: Seq<Subscription>, left: Seq<Subscription>, n: int) -> Seq<
    Subscription,
>
    decreases n,
{
    if n <= 0 {
        own
    } else {
        with_subscription(taken_over(own, left, n - 1), left[n - 1])
    }
}

/// A session without subscriptions takes over as it is a snapshot in
/// which no filter occurs twice.
pub proof fn lemma_taken_over_as_it_is(left: Seq<Subscription>, n: int)
    requires
        distinct_filters(left),
        0 <= n <= left.len(),
    ensures
        taken_over(Seq::empty(), left, n) == left.take(n),
    decreases n,
{
    if n > 0 {
        lemma_taken_over_as_it_is(left, n - 1);
        let before = left.take(n - 1);
        if subscribed(before, left[n - 1].topic_filter@) {
            let i = choose|i: int|
                0 <= i < before.len() && (#[trigger] before[i]).topic_filter@ == left[n
                    - 1].topic_filter@;
            assert(before[i] == left[i]);
            assert(left[i].topic_filter@ != left[n - 1].topic_filter@);
        }
        assert(before.push(left[n - 1]) =~= left.take(n));
    } else {
        assert(left.take(0) =~= Seq::<Subscription>::empty());
    }
}

impl Session {
    /// The invariant of a session: its window is sound and holds no more
    /// than the session's limit, and no filter is subscribed twice.
    pub open spec fn wf(&self) -> bool {
        &&& self.inflight_win.wf()
        &&& self.inflight_win.cap() == self.max_inflight
        &&& distinct_filters(self.subscriptions@)
    }

    /// A new session with the limits negotiated for it and nothing else.
    pub fn new(
        id: Id,
        max_mqueue_len: usize,
        max_inflight: usize,
        max_subscriptions: usize,
        message_retry_interval_millis: u64,
        created_at: TimestampMillis,
    ) -> (r: Session)
        ensures
            r.wf(),
            r.id == id,
            r.subscriptions@ == Seq::<Subscription>::empty(),
            r.created_at == created_at,
            r.max_mqueue_len == max_mqueue_len,
            r.max_inflight == max_inflight,
            r.max_subscriptions == max_subscriptions,
            r.inflight_win@ == Seq::<crate::broker::inflight::InflightMessage>::empty(),
            r.inflight_win.interval() == message_retry_interval_millis,
            r.deliver_queue@ == Seq::<(Origin, Publish)>::empty(),
            r.last_packet_id == 0,
    {
        Session {
            id,
            subscriptions: Vec::new(),
            created_at,
            max_mqueue_len,
            max_inflight,
            max_subscriptions,
            inflight_win: InflightWindow::new(max_inflight, message_retry_interval_millis),
            deliver_queue: Vec::new(),
            last_packet_id: 0,
        }
    }

    fn find_subscription(&self, filter: &TopicFilter) -> (r: Option<usize>)
        ensures
            match r {
                Some(i) => i < self.subscriptions@.len() && self.subscriptions@[i as int].topic_filter@
                    == filter@,
                None => !subscribed(self.subscriptions@, filter@),
            },
    {
        let mut i: usize = 0;
        while i < self.subscriptions.len()
            invariant
                i <= self.subscriptions@.len(),
                forall|j: int|
                    0 <= j < i ==> (#[trigger] self.subscriptions@[j]).topic_filter@ != filter@,
            decreases self.subscriptions@.len() - i,
        {
            if self.subscriptions[i].topic_filter == *filter {
                return Some(i);
            }
            i = i + 1;
        }
        None
    }

    /// Subscribes with a filter, in place of an earlier subscription with
    /// the same filter. A session at its limit takes no new filter; zero
    /// is no limit.
    pub fn subscribe(&mut self, sub: Subscription) -> (r: Result<QoS, MqttError>)
        requires
            old(self).wf(),
        ensures
            final(self).wf(),
            *final(self) == (Session { subscriptions: final(self).subscriptions, ..*old(self) }),
            ({
                let before = old(self).subscriptions@;
                let known = subscribed(before, sub.topic_filter@);
                let full = old(self).max_subscriptions > 0 && before.len() >= old(
                    self).max_subscriptions;
                if known {
                    &&& r == Ok::<QoS, MqttError>(sub.qos)
                    &&& final(self).subscriptions@ == before.update(
                        subscription_index(before, sub.topic_filter@),
                        sub,
                    )
                } else if full {
                    &&& r == Err::<QoS, MqttError>(MqttError::TooManySubscriptions)
                    &&& final(self).subscriptions@ == before
                } else {
                    &&& r == Ok::<QoS, MqttError>(sub.qos)
                    &&& final(self).subscriptions@ == before.push(sub)
                }
            }),
    {
        let ghost before = self.subscriptions@;
        let qos = sub.qos;
        match self.find_subscription(&sub.topic_filter) {
            Some(i) => {
                proof {
                    let p = subscription_index(before, sub.topic_filter@);
                    assert(before[p].topic_filter@ == sub.topic_filter@);
                    if p < i {
                        assert(before[p].topic_filter@ != before[i as int].topic_filter@);
                    } else if i < p {
                        assert(before[i as int].topic_filter@ != before[p].topic_filter@);
                    }
                }
                self.subscriptions.set(i, sub);
                proof {
                    let after = self.subscriptions@;
                    assert forall|a: int, b: int| 0 <= a < b < after.len() implies (
                    #[trigger] after[a]).topic_filter@ != (#[trigger] after[b]).topic_filter@ by {
                        assert(before[a].topic_filter@ != before[b].topic_filter@);
                    }
                }
                Ok(qos)
            },
            None => {
                if self.max_subscriptions > 0 && self.subscriptions.len() >= self.max_subscriptions {
                    return Err(MqttError::TooManySubscriptions);
                }
                self.subscriptions.push(sub);
                proof {
                    let after = self.subscriptions@;
                    let n = before.len() as int;
                    assert forall|a: int, b: int| 0 <= a < b < after.len() implies (
                    #[trigger] after[a]).topic_filter@ != (#[trigger] after[b]).topic_filter@ by {
                        if b < n {
                            assert(before[a].topic_filter@ != before[b].topic_filter@);
                        } else {
                            assert(before[a].topic_filter@ != sub.topic_filter@);
                        }
                    }
                }
                Ok(qos)
            },
        }
    }

    /// Ends the subscription with a filter. Returns whether there was one.
    pub fn unsubscribe(&mut self, filter: &TopicFilter) -> (r: bool)
        requires
            old(self).wf(),
        ensures
            final(self).wf(),
            *final(self) == (Session { subscriptions: final(self).subscriptions, ..*old(self) }),
            r == subscribed(old(self).subscriptions@, filter@),
            !subscribed(final(self).subscriptions@, filter@),
            final(self).subscriptions@ == if r {
                old(self).subscriptions@.remove(subscription_index(old(self).subscriptions@, filter@))
            } else {
                old(self).subscriptions@
            },
    {
        let ghost before = self.subscriptions@;
        match self.find_subscription(filter) {
            Some(i) => {
                proof {
                    let p = subscription_index(before, filter@);
                    assert(before[p].topic_filter@ == filter@);
                    if p < i {
                        assert(before[p].topic_filter@ != before[i as int].topic_filter@);
                    } else if i < p {
                        assert(before[i as int].topic_filter@ != before[p].topic_filter@);
                    }
                }
                self.subscriptions.remove(i);
                proof {
                    let after = self.subscriptions@;
                    assert forall|a: int| 0 <= a < after.len() implies #[trigger] after[a]
                        == before[if a < i {
                        a
                    } else {
                        a + 1
                    }] by {}
                    assert forall|a: int, b: int| 0 <= a < b < after.len() implies (
                    #[trigger] after[a]).topic_filter@ != (#[trigger] after[b]).topic_filter@ by {
                        let a0 = if a < i { a } else { a + 1 };
                        let b0 = if b < i { b } else { b + 1 };
                        assert(before[a0].topic_filter@ != before[b0].topic_filter@);
                    }
                    if subscribed(after, filter@) {
                        let a = choose|a: int|
                            0 <= a < after.len() && (#[trigger] after[a]).topic_filter@ == filter@;
                        let a0 = if a < i { a } else { a + 1 };
                        if a0 < i {
                            assert(before[a0].topic_filter@ != before[i as int].topic_filter@);
                        } else {
                            assert(before[i as int].topic_filter@ != before[a0].topic_filter@);
                        }
                    }
                }
                true
            },
            None => false,
        }
    }

    /// The snapshot that outlives the session when it is evicted: its
    /// identity, its time of creation, and its subscriptions unless they
    /// are to be cleared.
    pub fn to_offline_info(&self, clear_subscriptions: bool) -> (r: SessionOfflineInfo)
        ensures
            r.id == self.id,
            r.created_at == self.created_at,
            r.subscriptions@ == if clear_subscriptions {
                Seq::<Subscription>::empty()
            } else {
                self.subscriptions@
            },
    {
        let subscriptions = if clear_subscriptions {
            Vec::new()
        } else {
            clone_subscriptions(&self.subscriptions)
        };
        SessionOfflineInfo { id: self.id.clone(), subscriptions, created_at: self.created_at }
    }

    /// Puts a subscription in the place of the one with its filter, or
    /// behind the others where no subscription has that filter.
    fn put_subscription(&mut self, sub: Subscription)
        requires
            old(self).wf(),
        ensures
            final(self).wf(),
            *final(self) == (Session { subscriptions: final(self).subscriptions, ..*old(self) }),
            final(self).subscriptions@ == with_subscription(old(self).subscriptions@, sub),
    {
        let ghost before = self.subscriptions@;
        match self.find_subscription(&sub.topic_filter) {
            Some(i) => {
                proof {
                    let p = subscription_index(before, sub.topic_filter@);
                    assert(before[p].topic_filter@ == sub.topic_filter@);
                    if p < i {
                        assert(before[p].topic_filter@ != before[i as int].topic_filter@);
                    } else if i < p {
                        assert(before[i as int].topic_filter@ != before[p].topic_filter@);
                    }
                }
                self.subscriptions.set(i, sub);
                proof {
                    let after = self.subscriptions@;
                    assert forall|a: int, b: int| 0 <= a < b < after.len() implies (
                    #[trigger] after[a]).topic_filter@ != (#[trigger] after[b]).topic_filter@ by {
                        assert(before[a].topic_filter@ != before[b].topic_filter@);
                    }
                }
            },
            None => {
                self.subscriptions.push(sub);
                proof {
                    let after = self.subscriptions@;
                    let n = before.len() as int;
                    assert forall|a: int, b: int| 0 <= a < b < after.len() implies (
                    #[trigger] after[a]).topic_filter@ != (#[trigger] after[b]).topic_filter@ by {
                        if b < n {
                            assert(before[a].topic_filter@ != before[b].topic_filter@);
                        } else {
                            assert(before[a].topic_filter@ != sub.topic_filter@);
                        }
                    }
                }
            },
        }
    }

    /// Takes over what an evicted session left: its subscriptions, unless
    /// the client asked for a clean start. Of two subscriptions with one
    /// filter, in the snapshot or in the session, the later one stays.
    pub fn transfer_session_state(&mut self, clean_start: bool, offline_info: SessionOfflineInfo)
        requires
            old(self).wf(),
        ensures
            final(self).wf(),
            *final(self) == (Session { subscriptions: final(self).subscriptions, ..*old(self) }),
            final(self).subscriptions@ == if clean_start {
                old(self).subscriptions@
            } else {
                taken_over(
                    old(self).subscriptions@,
                    offline_info.subscriptions@,
                    offline_info.subscriptions@.len() as int,
                )
            },
    {
        if clean_start {
            return ;
        }
        let left = offline_info.subscriptions;
        let mut k: usize = 0;
        while k < left.len()
            invariant
                k <= left.len(),
                self.wf(),
                *self == (Session { subscriptions: self.subscriptions, ..*old(self) }),
                self.subscriptions@ == taken_over(old(self).subscriptions@, left@, k as int),
            decreases left.len() - k,
        {
            self.put_subscription(left[k].clone());
            k = k + 1;
        }
    }

    /// The subscriptions of the session as a search reports them.
    pub fn subscriptions(&self, node_id: NodeId) -> (r: Vec<SubsSearchResult>)
        ensures
            r@.len() == self.subscriptions@.len(),
            forall|i: int|
                0 <= i < r@.len() ==> {
                    &&& (#[trigger] r@[i]).node_id == node_id
                    &&& r@[i].clientid == self.id.client_id
                    &&& r@[i].client_addr == self.id.remote_addr
                    &&& r@[i].topic == self.subscriptions@[i].topic_filter
                    &&& r@[i].qos as int == self.subscriptions@[i].qos.level()
                    &&& r@[i].share == self.subscriptions@[i].shared_group
                },
    {
        let mut out: Vec<SubsSearchResult> = Vec::new();
        let mut i: usize = 0;
        while i < self.subscriptions.len()
            invariant
                i <= self.subscriptions@.len(),
                out@.len() == i,
                forall|j: int|
                    0 <= j < i ==> {
                        &&& (#[trigger] out@[j]).node_id == node_id
                        &&& out@[j].clientid == self.id.client_id
                        &&& out@[j].client_addr == self.id.remote_addr
                        &&& out@[j].topic == self.subscriptions@[j].topic_filter
                        &&& out@[j].qos as int == self.subscriptions@[j].qos.level()
                        &&& out@[j].share == self.subscriptions@[j].shared_group
                    },
            decreases self.subscriptions@.len() - i,
        {
            let s = &self.subscriptions[i];
            out.push(
                SubsSearchResult {
                    node_id,
                    clientid: self.id.client_id.clone(),
                    client_addr: clone_opt_addr(&self.id.remote_addr),
                    topic: s.topic_filter.clone(),
                    qos: s.qos.value(),
                    share: clone_opt_string(&s.shared_group),
                },
            );
            i = i + 1;
        }
        out
    }
}

impl Session {
    /// Whether a message may enter the window now: the window has room and
    /// a packet id is free.
    pub open spec fn has_credit(&self) -> bool {
        self.inflight_win@.len() < self.inflight_win.cap() && has_free_id(self.inflight_win@)
    }

    /// What a session is after a message was sent under a packet id.
    pub open spec fn sent_as(
        &self,
        before: Session,
        id: PacketId,
        from: Origin,
        publish: Publish,
        now: TimestampMillis,
    ) -> bool {
        &&& first_free(before.inflight_win@, before.last_packet_id, id)
        &&& self.inflight_win@ == before.inflight_win@.push(inflight_message(id, from, publish, now))
        &&& self.inflight_win.cap() == before.inflight_win.cap()
        &&& self.inflight_win.interval() == before.inflight_win.interval()
        &&& self.last_packet_id == id
    }

    /// Puts a message into the window under the next free packet id, if the
    /// window has room and an id is free. Else the message comes back.
    fn put_inflight(&mut self, from: Origin, publish: Publish, now: TimestampMillis) -> (r: Result<
        PacketId,
        (Origin, Publish),
    >)
        requires
            old(self).wf(),
        ensures
            final(self).wf(),
            final(self).id == old(self).id,
            final(self).subscriptions == old(self).subscriptions,
            final(self).created_at == old(self).created_at,
            final(self).max_mqueue_len == old(self).max_mqueue_len,
            final(self).max_inflight == old(self).max_inflight,
            final(self).max_subscriptions == old(self).max_subscriptions,
            final(self).deliver_queue == old(self).deliver_queue,
            match r {
                Ok(id) => old(self).has_credit() && final(self).sent_as(
                    *old(self),
                    id,
                    from,
                    publish,
                    now,
                ),
                Err(back) => !old(self).has_credit() && back == (from, publish) && final(self).inflight_win == old(self).inflight_win && final(self).last_packet_id == old(self).last_packet_id,
            },
    {
        if !self.inflight_win.has_credit() {
            return Err((from, publish));
        }
        match self.inflight_win.free_id(self.last_packet_id) {
            None => Err((from, publish)),
            Some(id) => {
                let status = match publish.qos {
                    QoS::ExactlyOnce => MomentStatus::UnReceived,
                    _ => MomentStatus::UnAck,
                };
                let message = InflightMessage {
                    packet_id: id,
                    from,
                    publish: Publish {
                        dup: publish.dup,
                        retain: publish.retain,
                        qos: publish.qos,
                        topic: publish.topic,
                        packet_id: Some(id),
                        payload: publish.payload,
                        properties: publish.properties,
                        create_time: publish.create_time,
                    },
                    status,
                    update_time: now,
                };
                let pushed = self.inflight_win.push_back(message);
                assert(pushed is Ok);
                self.last_packet_id = id;
                Ok(id)
            },
        }
    }

    /// Takes a message that is bound for the client. A message that waits
    /// for no acknowledgement is sent at once; another is sent if the
    /// window has room for it, under the next free packet id. Behind
    /// messages that wait in the queue every message waits its turn; and
    /// a message for which the queue has no room is dropped. No message in
    /// the window is dropped or overwritten for a new one.
    pub fn deliver(&mut self, from: Origin, publish: Publish, now: TimestampMillis) -> (r: Delivery)
        requires
            old(self).wf(),
        ensures
            final(self).wf(),
            final(self).id == old(self).id,
            final(self).subscriptions == old(self).subscriptions,
            final(self).created_at == old(self).created_at,
            final(self).max_mqueue_len == old(self).max_mqueue_len,
            final(self).max_inflight == old(self).max_inflight,
            final(self).max_subscriptions == old(self).max_subscriptions,
            ({
                let idle = old(self).deliver_queue@.len() == 0;
                if idle && publish.qos == QoS::AtMostOnce {
                    &&& r == Delivery::Send(from, publish)
                    &&& *final(self) == *old(self)
                } else if idle && old(self).has_credit() {
                    &&& r matches Delivery::Inflight(id)
                    &&& final(self).sent_as(*old(self), id, from, publish, now)
                    &&& final(self).deliver_queue == old(self).deliver_queue
                } else if old(self).deliver_queue@.len() < old(self).max_mqueue_len {
                    &&& r == Delivery::Queued
                    &&& final(self).deliver_queue@ == old(self).deliver_queue@.push(
                        (from, publish),
                    )
                    &&& final(self).inflight_win == old(self).inflight_win
                    &&& final(self).last_packet_id == old(self).last_packet_id
                } else {
                    &&& r matches Delivery::Dropped(f, p, reason)
                    &&& f == from
                    &&& p == publish
                    &&& reason@ == "queue is full"@
                    &&& *final(self) == *old(self)
                }
            }),
    {
        let idle = self.deliver_queue.len() == 0;
        if idle {
            match publish.qos {
                QoS::AtMostOnce => {
                    return Delivery::Send(from, publish);
                },
                _ => {},
            }
            match self.put_inflight(from, publish, now) {
                Ok(id) => Delivery::Inflight(id),
                Err(back) => self.enqueue(back.0, back.1),
            }
        } else {
            self.enqueue(from, publish)
        }
    }

    /// Lets a message wait in the queue, if the queue has room.
    fn enqueue(&mut self, from: Origin, publish: Publish) -> (r: Delivery)
        requires
            old(self).wf(),
        ensures
            final(self).wf(),
            if old(self).deliver_queue@.len() < old(self).max_mqueue_len {
                &&& r == Delivery::Queued
                &&& *final(self) == (Session {
                    deliver_queue: final(self).deliver_queue,
                    ..*old(self)
                })
                &&& final(self).deliver_queue@ == old(self).deliver_queue@.push((from, publish))
            } else {
                &&& r matches Delivery::Dropped(f, p, reason)
                &&& f == from
                &&& p == publish
                &&& reason@ == "queue is full"@
                &&& *final(self) == *old(self)
            },
    {
        if self.deliver_queue.len() < self.max_mqueue_len {
            self.deliver_queue.push((from, publish));
            Delivery::Queued
        } else {
            Delivery::Dropped(from, publish, String::from_str("queue is full"))
        }
    }

    /// Sends the oldest message of the queue, if it may be sent now: one
    /// that waits for no acknowledgement always may, another if the window
    /// has room. `None` says that nothing is sent, and nothing is changed.
    pub fn on_credit(&mut self, now: TimestampMillis) -> (r: Option<Delivery>)
        requires
            old(self).wf(),
        ensures
            final(self).wf(),
            final(self).id == old(self).id,
            final(self).subscriptions == old(self).subscriptions,
            final(self).created_at == old(self).created_at,
            final(self).max_mqueue_len == old(self).max_mqueue_len,
            final(self).max_inflight == old(self).max_inflight,
            final(self).max_subscriptions == old(self).max_subscriptions,
            ({
                let queue = old(self).deliver_queue@;
                if queue.len() == 0 {
                    r is None && *final(self) == *old(self)
                } else if queue[0].1.qos == QoS::AtMostOnce {
                    &&& r == Some(Delivery::Send(queue[0].0, queue[0].1))
                    &&& final(self).deliver_queue@ == queue.skip(1)
                    &&& final(self).inflight_win == old(self).inflight_win
                    &&& final(self).last_packet_id == old(self).last_packet_id
                } else if old(self).has_credit() {
                    &&& r matches Some(Delivery::Inflight(id))
                    &&& final(self).sent_as(*old(self), id, queue[0].0, queue[0].1, now)
                    &&& final(self).deliver_queue@ == queue.skip(1)
                } else {
                    r is None && *final(self) == *old(self)
                }
            }),
    {
        if self.deliver_queue.len() == 0 {
            return None;
        }
        let send = match self.deliver_queue[0].1.qos {
            QoS::AtMostOnce => true,
            _ => false,
        };
        if send {
            let ghost before = self.deliver_queue@;
            let (from, publish) = self.deliver_queue.remove(0);
            proof {
                assert(self.deliver_queue@ =~= before.skip(1));
            }
            return Some(Delivery::Send(from, publish));
        }
        if !self.inflight_win.has_credit() {
            return None;
        }
        match self.inflight_win.free_id(self.last_packet_id) {
            None => None,
            Some(_) => {
                let ghost before = self.deliver_queue@;
                let (from, publish) = self.deliver_queue.remove(0);
                proof {
                    assert(self.deliver_queue@ =~= before.skip(1));
                }
                match self.put_inflight(from, publish, now) {
                    Ok(id) => Some(Delivery::Inflight(id)),
                    Err(_) => {
                        proof {
                            assert(false);
                        }
                        None
                    },
                }
            },
        }
    }
}

} // verus!
