//! The session registry of one node: for each client id a slot that a
//! connecting client locks, then fills with its session.
//!
//! A slot goes from unlocked to locked, when a connection takes it; to
//! occupied, when that connection installs its session; and back, when the
//! session is removed. The registry is keyed by client id, so no client id
//! has two sessions on a node at any time.

use vstd::prelude::*;
use crate::broker::error::MqttError;
use crate::broker::inflight::{
    in_use, position, InflightMessage, MomentStatus, PublishMessage, PublishOutcome,
};
use crate::broker::v5::Message;
use crate::broker::session::{
    subscribed, subscription_index, taken_over, ClientInfo, Delivery, Session,
};
use crate::collections::StrMap;
use crate::types::{
    ClientId, Id, IsAdmin, NodeId, Origin, Publish, QoS, Reason, SessionOfflineInfo,
    SubsSearchResult, Subscription, TimestampMillis, TopicFilter,
};

verus! {

/// What a slot holds once it is occupied.
#[derive(Debug, PartialEq, Eq)]
pub struct EntryItem {
    pub session: Session,
    pub client: ClientInfo,
}

/// The registry.
#[derive(Debug, PartialEq, Eq)]
pub struct SessionRegistry {
    node_id: NodeId,
    peers: StrMap<EntryItem>,
    lockers: StrMap<Id>,
}

/// A handle to the slot of one identity. To hold a handle is not to hold
/// the slot's lock.
#[derive(Debug, PartialEq, Eq)]
pub struct Entry {
    id: Id,
}

/// The state of a slot.
#[derive(Clone, Copy, Debug, PartialEq, Eq, Structural)]
pub enum SlotState {
    /// No connection holds the lock and no session is installed.
    Unlocked,
    /// A connection holds the lock; no session is installed.
    Locked,
    /// A session is installed.
    Occupied,
}

impl Entry {
    pub closed spec fn id(&self) -> Id {
        self.id
    }

    /// The identity the handle stands for.
    pub fn get_id(&self) -> (r: &Id)
        ensures
            *r == self.id(),
    {
        &self.id
    }

    /// Whether the handle stands for the identity `id`.
    pub fn id_same(&self, id: &Id) -> (r: bool)
        ensures
            r == self.id().same(*id),
    {
        self.id.is_same(id)
    }
}

impl SessionRegistry {
    /// The sessions installed, by client id.
    pub closed spec fn peers(&self) -> Map<Seq<char>, EntryItem> {
        self.peers@
    }

    /// The identities that hold a lock, by client id.
    pub closed spec fn lockers(&self) -> Map<Seq<char>, Id> {
        self.lockers@
    }

    /// Number of sessions installed.
    pub closed spec fn count(&self) -> nat {
        self.peers.count()
    }

    pub closed spec fn node(&self) -> NodeId {
        self.node_id
    }

    /// The invariant of the registry: every session is installed under its
    /// own client id, and is sound.
    pub closed spec fn wf(&self) -> bool {
        &&& self.peers.wf()
        &&& self.lockers.wf()
        &&& forall|c: Seq<char>| #[trigger]
            self.peers@.contains_key(c) ==> self.peers@[c].session.id.client_id@ == c
                && self.peers@[c].session.wf()
    }

    /// Every session is installed under its own client id: a client id
    /// has one session on the node, or none.
    pub proof fn law_one_session_per_client(&self, a: Seq<char>, b: Seq<char>)
        requires
            self.wf(),
            self.peers().contains_key(a),
            self.peers().contains_key(b),
            self.peers()[a].session.id.client_id@ == self.peers()[b].session.id.client_id@,
        ensures
            a == b,
    {
    }

    /// A session in a slot is sound, and is the session of the slot's
    /// client id.
    pub proof fn lemma_session_in_slot(&self, c: Seq<char>)
        requires
            self.wf(),
            self.peers().contains_key(c),
        ensures
            self.peers()[c].session.wf(),
            self.peers()[c].session.id.client_id@ == c,
    {
    }

    /// The state of the slot of a client id.
    pub open spec fn slot(&self, client_id: Seq<char>) -> SlotState {
        if self.peers().contains_key(client_id) {
            SlotState::Occupied
        } else if self.lockers().contains_key(client_id) {
            SlotState::Locked
        } else {
            SlotState::Unlocked
        }
    }

    /// Whether the identity of a handle holds the lock of its slot.
    pub open spec fn holds_lock(&self, entry: Entry) -> bool {
        self.lockers().contains_key(entry.id().client_id@) && self.lockers()[entry.id().client_id@].same(
            entry.id(),
        )
    }

    pub fn new(node_id: NodeId) -> (r: SessionRegistry)
        ensures
            r.wf(),
            r.node() == node_id,
            r.peers() =~= Map::<Seq<char>, EntryItem>::empty(),
            r.lockers() =~= Map::<Seq<char>, Id>::empty(),
            r.count() == 0,
    {
        SessionRegistry { node_id, peers: StrMap::new(), lockers: StrMap::new() }
    }

    /// A handle to the slot of an identity. It locks nothing.
    pub fn entry(&self, id: Id) -> (r: Entry)
        ensures
            r.id() == id,
    {
        Entry { id }
    }

    /// Whether a session is installed for a client id.
    pub fn exist(&self, client_id: &ClientId) -> (r: bool)
        requires
            self.wf(),
        ensures
            r == self.peers().contains_key(client_id@),
    {
        self.peers.contains_key(client_id)
    }

    /// The state of the slot of a client id.
    pub fn slot_state(&self, client_id: &ClientId) -> (r: SlotState)
        requires
            self.wf(),
        ensures
            r == self.slot(client_id@),
    {
        if self.peers.contains_key(client_id) {
            SlotState::Occupied
        } else if self.lockers.contains_key(client_id) {
            SlotState::Locked
        } else {
            SlotState::Unlocked
        }
    }

    /// Number of sessions installed.
    pub fn sessions_count(&self) -> (r: usize)
        ensures
            r == self.count(),
    {
        self.peers.len()
    }

    /// Takes the lock of the slot for the identity of the handle. It does
    /// not wait: where another connection holds the lock, it fails.
    pub fn try_lock(&mut self, entry: &Entry) -> (r: Result<(), MqttError>)
        requires
            old(self).wf(),
        ensures
            final(self).wf(),
            final(self).node() == old(self).node(),
            final(self).peers() == old(self).peers(),
            final(self).count() == old(self).count(),
            match r {
                Ok(_) => !old(self).lockers().contains_key(entry.id().client_id@) && final(self).lockers() == old(self).lockers().insert(entry.id().client_id@, entry.id())
                    && final(self).holds_lock(*entry),
                Err(e) => old(self).lockers().contains_key(entry.id().client_id@) && e
                    == MqttError::ServiceUnavailable && final(self).lockers() == old(self).lockers(),
            },
    {
        if self.lockers.contains_key(&entry.id.client_id) {
            return Err(MqttError::ServiceUnavailable);
        }
        self.lockers.insert(entry.id.client_id.clone(), entry.id.clone());
        Ok(())
    }

    /// Gives the lock back, if the identity of the handle holds it.
    pub fn unlock(&mut self, entry: &Entry)
        requires
            old(self).wf(),
        ensures
            final(self).wf(),
            final(self).node() == old(self).node(),
            final(self).peers() == old(self).peers(),
            final(self).count() == old(self).count(),
            final(self).lockers() == if old(self).holds_lock(*entry) {
                old(self).lockers().remove(entry.id().client_id@)
            } else {
                old(self).lockers()
            },
    {
        let held = match self.lockers.get(&entry.id.client_id) {
            Some(holder) => holder.is_same(&entry.id),
            None => false,
        };
        if held {
            self.lockers.remove(&entry.id.client_id);
        }
    }

    /// Installs a session in the slot. Only the connection that holds the
    /// lock installs: another has lost the race and fails.
    pub fn set(&mut self, entry: &Entry, session: Session, client: ClientInfo) -> (r: Result<
        (),
        MqttError,
    >)
        requires
            old(self).wf(),
            session.wf(),
            session.id.client_id@ == entry.id().client_id@,
        ensures
            final(self).wf(),
            final(self).node() == old(self).node(),
            final(self).lockers() == old(self).lockers(),
            match r {
                Ok(_) => old(self).holds_lock(*entry) && final(self).peers() == old(self).peers().insert(entry.id().client_id@, EntryItem { session, client }) && final(self).slot(entry.id().client_id@) == SlotState::Occupied,
                Err(e) => !old(self).holds_lock(*entry) && e == MqttError::ServiceUnavailable
                    && final(self).peers() == old(self).peers(),
            },
    {
        let held = match self.lockers.get(&entry.id.client_id) {
            Some(holder) => holder.is_same(&entry.id),
            None => false,
        };
        if !held {
            return Err(MqttError::ServiceUnavailable);
        }
        self.peers.insert(entry.id.client_id.clone(), EntryItem { session, client });
        Ok(())
    }

    /// Takes the session out of the slot, whoever installed it.
    pub fn remove(&mut self, entry: &Entry) -> (r: Option<EntryItem>)
        requires
            old(self).wf(),
        ensures
            final(self).wf(),
            final(self).node() == old(self).node(),
            final(self).lockers() == old(self).lockers(),
            final(self).peers() == old(self).peers().remove(entry.id().client_id@),
            r == if old(self).peers().contains_key(entry.id().client_id@) {
                Some(old(self).peers()[entry.id().client_id@])
            } else {
                None
            },
    {
        self.peers.remove(&entry.id.client_id)
    }

    /// Takes the session out of the slot if it is the session of `id`.
    pub fn remove_with(&mut self, entry: &Entry, id: &Id) -> (r: Option<EntryItem>)
        requires
            old(self).wf(),
        ensures
            final(self).wf(),
            final(self).node() == old(self).node(),
            final(self).lockers() == old(self).lockers(),
            ({
                let c = entry.id().client_id@;
                let before = old(self).peers();
                if before.contains_key(c) && before[c].session.id.same(*id) {
                    r == Some(before[c]) && final(self).peers() == before.remove(c)
                } else {
                    r is None && final(self).peers() == before
                }
            }),
    {
        let matches = match self.peers.get(&entry.id.client_id) {
            Some(item) => item.session.id.is_same(id),
            None => false,
        };
        if matches {
            self.peers.remove(&entry.id.client_id)
        } else {
            None
        }
    }

    /// Evicts the session in the slot, if there is one, and returns the
    /// snapshot it leaves behind: its subscriptions are kept unless they
    /// are to be cleared. `None` says that the slot held no session.
    pub fn kick(&mut self, entry: &Entry, clear_subscriptions: bool, is_admin: IsAdmin) -> (r:
        Result<Option<SessionOfflineInfo>, MqttError>)
        requires
            old(self).wf(),
        ensures
            final(self).wf(),
            final(self).node() == old(self).node(),
            final(self).lockers() == old(self).lockers(),
            final(self).peers() == old(self).peers().remove(entry.id().client_id@),
            ({
                let c = entry.id().client_id@;
                let before = old(self).peers();
                if before.contains_key(c) {
                    &&& r matches Ok(Some(info))
                    &&& info.id == before[c].session.id
                    &&& info.created_at == before[c].session.created_at
                    &&& info.subscriptions@ == if clear_subscriptions {
                        Seq::<Subscription>::empty()
                    } else {
                        before[c].session.subscriptions@
                    }
                } else {
                    r == Ok::<Option<SessionOfflineInfo>, MqttError>(None)
                }
            }),
    {
        match self.peers.remove(&entry.id.client_id) {
            Some(item) => Ok(Some(item.session.to_offline_info(clear_subscriptions))),
            None => Ok(None),
        }
    }

    /// Whether a session is installed in the slot of the handle.
    pub fn is_connected(&self, entry: &Entry) -> (r: bool)
        requires
            self.wf(),
        ensures
            r == self.peers().contains_key(entry.id().client_id@),
    {
        self.peers.contains_key(&entry.id.client_id)
    }

    /// The session in the slot.
    pub fn session(&self, entry: &Entry) -> (r: Option<&Session>)
        requires
            self.wf(),
        ensures
            r.is_some() == self.peers().contains_key(entry.id().client_id@),
            r matches Some(s) ==> *s == self.peers()[entry.id().client_id@].session && s.wf(),
    {
        match self.peers.get(&entry.id.client_id) {
            Some(item) => {
                assert(self.peers@.contains_key(entry.id.client_id@));
                Some(&item.session)
            },
            None => None,
        }
    }

    /// The connection that holds the session in the slot.
    pub fn client(&self, entry: &Entry) -> (r: Option<&ClientInfo>)
        requires
            self.wf(),
        ensures
            r.is_some() == self.peers().contains_key(entry.id().client_id@),
            r matches Some(c) ==> *c == self.peers()[entry.id().client_id@].client,
    {
        match self.peers.get(&entry.id.client_id) {
            Some(item) => Some(&item.client),
            None => None,
        }
    }

    /// The subscriptions of the session in the slot; `None` where the slot
    /// holds no session.
    pub fn subscriptions(&self, entry: &Entry) -> (r: Option<Vec<SubsSearchResult>>)
        requires
            self.wf(),
        ensures
            r.is_some() == self.peers().contains_key(entry.id().client_id@),
            r matches Some(list) ==> {
                let s = self.peers()[entry.id().client_id@].session;
                &&& list@.len() == s.subscriptions@.len()
                &&& forall|i: int|
                    0 <= i < list@.len() ==> {
                        &&& (#[trigger] list@[i]).node_id == self.node()
                        &&& list@[i].clientid == s.id.client_id
                        &&& list@[i].topic == s.subscriptions@[i].topic_filter
                        &&& list@[i].qos as int == s.subscriptions@[i].qos.level()
                        &&& list@[i].share == s.subscriptions@[i].shared_group
                    }
            },
    {
        match self.peers.get(&entry.id.client_id) {
            Some(item) => Some(item.session.subscriptions(self.node_id)),
            None => None,
        }
    }

    /// Subscribes the session in the slot. Without a session nothing is
    /// subscribed.
    pub fn subscribe(&mut self, entry: &Entry, sub: Subscription) -> (r: Result<QoS, MqttError>)
        requires
            old(self).wf(),
        ensures
            final(self).wf(),
            final(self).node() == old(self).node(),
            final(self).lockers() == old(self).lockers(),
            final(self).peers().dom() == old(self).peers().dom(),
            forall|other: Seq<char>|
                other != entry.id().client_id@ && old(self).peers().contains_key(other) ==> final(self).peers()[other] == old(self).peers()[other],
            !old(self).peers().contains_key(entry.id().client_id@) ==> r == Err::<QoS, MqttError>(
                MqttError::ServiceUnavailable,
            ) && final(self).peers() == old(self).peers(),
            old(self).peers().contains_key(entry.id().client_id@) ==> {
                let c = entry.id().client_id@;
                let before = old(self).peers()[c].session.subscriptions@;
                let after = final(self).peers()[c].session.subscriptions@;
                let known = subscribed(before, sub.topic_filter@);
                let full = old(self).peers()[c].session.max_subscriptions > 0 && before.len()
                    >= old(self).peers()[c].session.max_subscriptions;
                &&& final(self).peers()[c].client == old(self).peers()[c].client
                &&& final(self).peers()[c].session == (Session {
                    subscriptions: final(self).peers()[c].session.subscriptions,
                    ..old(self).peers()[c].session
                })
                &&& if known {
                    r == Ok::<QoS, MqttError>(sub.qos) && after == before.update(
                        subscription_index(before, sub.topic_filter@),
                        sub,
                    )
                } else if full {
                    r == Err::<QoS, MqttError>(MqttError::TooManySubscriptions) && after == before
                } else {
                    r == Ok::<QoS, MqttError>(sub.qos) && after == before.push(sub)
                }
            },
    {
        match self.peers.remove(&entry.id.client_id) {
            Some(item) => {
                let mut item = item;
                let r = item.session.subscribe(sub);
                self.peers.insert(entry.id.client_id.clone(), item);
                proof {
                    assert(self.peers@.dom() =~= old(self).peers@.dom());
                }
                r
            },
            None => {
                proof {
                    assert(self.peers@ =~= old(self).peers@);
                }
                Err(MqttError::ServiceUnavailable)
            },
        }
    }

    /// Ends a subscription of the session in the slot. Returns whether
    /// there was one.
    pub fn unsubscribe(&mut self, entry: &Entry, filter: &TopicFilter) -> (r: bool)
        requires
            old(self).wf(),
        ensures
            final(self).wf(),
            final(self).node() == old(self).node(),
            final(self).lockers() == old(self).lockers(),
            final(self).peers().dom() == old(self).peers().dom(),
            forall|other: Seq<char>|
                other != entry.id().client_id@ && old(self).peers().contains_key(other) ==> final(self).peers()[other] == old(self).peers()[other],
            r == (old(self).peers().contains_key(entry.id().client_id@) && subscribed(
                old(self).peers()[entry.id().client_id@].session.subscriptions@,
                filter@,
            )),
            old(self).peers().contains_key(entry.id().client_id@) ==> {
                let c = entry.id().client_id@;
                let before = old(self).peers()[c].session.subscriptions@;
                &&& final(self).peers()[c].client == old(self).peers()[c].client
                &&& final(self).peers()[c].session == (Session {
                    subscriptions: final(self).peers()[c].session.subscriptions,
                    ..old(self).peers()[c].session
                })
                &&& final(self).peers()[c].session.subscriptions@ == if r {
                    before.remove(subscription_index(before, filter@))
                } else {
                    before
                }
            },
    {
        match self.peers.remove(&entry.id.client_id) {
            Some(item) => {
                let mut item = item;
                let r = item.session.unsubscribe(filter);
                self.peers.insert(entry.id.client_id.clone(), item);
                proof {
                    assert(self.peers@.dom() =~= old(self).peers@.dom());
                }
                r
            },
            None => {
                proof {
                    assert(self.peers@ =~= old(self).peers@);
                }
                false
            },
        }
    }
}

impl SessionRegistry {
    /// Hands a message to the session in the slot, which sends it, lets it
    /// wait or drops it as [`Session::deliver`] says. Without a session in
    /// the slot the message comes back.
    pub fn publish(&mut self, entry: &Entry, from: Origin, publish: Publish, now: TimestampMillis) -> (r:
        Result<Delivery, (Origin, Publish, Reason)>)
        requires
            old(self).wf(),
        ensures
            final(self).wf(),
            final(self).node() == old(self).node(),
            final(self).lockers() == old(self).lockers(),
            final(self).peers().dom() == old(self).peers().dom(),
            forall|other: Seq<char>|
                other != entry.id().client_id@ && old(self).peers().contains_key(other) ==> final(self).peers()[other] == old(self).peers()[other],
            match r {
                Err(back) => {
                    &&& !old(self).peers().contains_key(entry.id().client_id@)
                    &&& back.0 == from
                    &&& back.1 == publish
                    &&& back.2@ == "no session"@
                    &&& final(self).peers() == old(self).peers()
                },
                Ok(delivery) => {
                    let c = entry.id().client_id@;
                    let before = old(self).peers()[c].session;
                    let after = final(self).peers()[c].session;
                    let idle = before.deliver_queue@.len() == 0;
                    &&& old(self).peers().contains_key(c)
                    &&& final(self).peers()[c].client == old(self).peers()[c].client
                    &&& after.subscriptions == before.subscriptions
                    &&& after.id == before.id
                    &&& if idle && publish.qos == QoS::AtMostOnce {
                        delivery == Delivery::Send(from, publish) && after == before
                    } else if idle && before.has_credit() {
                        &&& delivery matches Delivery::Inflight(id)
                        &&& after.sent_as(before, id, from, publish, now)
                        &&& after.deliver_queue == before.deliver_queue
                    } else if before.deliver_queue@.len() < before.max_mqueue_len {
                        &&& delivery == Delivery::Queued
                        &&& after.deliver_queue@ == before.deliver_queue@.push((from, publish))
                        &&& after.inflight_win == before.inflight_win
                    } else {
                        &&& delivery matches Delivery::Dropped(f, p, reason)
                        &&& f == from
                        &&& p == publish
                        &&& reason@ == "queue is full"@
                        &&& after == before
                    }
                },
            },
    {
        match self.peers.remove(&entry.id.client_id) {
            Some(item) => {
                let mut item = item;
                let delivery = item.session.deliver(from, publish, now);
                self.peers.insert(entry.id.client_id.clone(), item);
                proof {
                    assert(self.peers@.dom() =~= old(self).peers@.dom());
                }
                Ok(delivery)
            },
            None => {
                proof {
                    assert(self.peers@ =~= old(self).peers@);
                }
                Err((from, publish, String::from_str("no session")))
            },
        }
    }

    /// Serves a publish-related packet from the client of the session in
    /// the slot, on that session's window, as [`crate::broker::v5::publish`]
    /// says: the client is alive, an acknowledgement or completion retires
    /// the message with its packet id, a receipt moves it on. Without a
    /// session in the slot nothing is done.
    pub fn acknowledge(&mut self, entry: &Entry, msg: PublishMessage, now: TimestampMillis) -> (r:
        Option<(Message, PublishOutcome)>)
        requires
            old(self).wf(),
        ensures
            final(self).wf(),
            final(self).node() == old(self).node(),
            final(self).lockers() == old(self).lockers(),
            final(self).peers().dom() == old(self).peers().dom(),
            forall|other: Seq<char>|
                other != entry.id().client_id@ && old(self).peers().contains_key(other) ==> final(self).peers()[other] == old(self).peers()[other],
            match r {
                None => {
                    &&& !old(self).peers().contains_key(entry.id().client_id@)
                    &&& final(self).peers() == old(self).peers()
                },
                Some(served) => {
                    let c = entry.id().client_id@;
                    let before = old(self).peers()[c];
                    let after = final(self).peers()[c];
                    let was = before.session.inflight_win;
                    let is = after.session.inflight_win;
                    &&& old(self).peers().contains_key(c)
                    &&& served.0 is Keepalive
                    &&& after.client == before.client
                    &&& after.session == (Session { inflight_win: is, ..before.session })
                    &&& is.cap() == was.cap()
                    &&& is.interval() == was.interval()
                    &&& match msg {
                        PublishMessage::Publish => served.1 is Deliver && is@ == was@,
                        PublishMessage::PublishAck(id) | PublishMessage::PublishComplete(id) =>
                            if in_use(was@, id) {
                                &&& served.1 == PublishOutcome::Acked(was@[position(was@, id)])
                                &&& is@ == was@.remove(position(was@, id))
                            } else {
                                served.1 is Nothing && is@ == was@
                            },
                        PublishMessage::PublishReceived(id) => {
                            &&& served.1 is Nothing
                            &&& is@.len() == was@.len()
                            &&& forall|i: int|
                                0 <= i < was@.len() ==> #[trigger] is@[i] == if was@[i].packet_id
                                    == id {
                                    InflightMessage {
                                        status: MomentStatus::UnComplete,
                                        update_time: now,
                                        ..was@[i]
                                    }
                                } else {
                                    was@[i]
                                }
                        },
                    }
                },
            },
    {
        match self.peers.remove(&entry.id.client_id) {
            Some(item) => {
                let mut item = item;
                let served = crate::broker::v5::publish(&mut item.session.inflight_win, msg, now);
                self.peers.insert(entry.id.client_id.clone(), item);
                proof {
                    assert(self.peers@.dom() =~= old(self).peers@.dom());
                }
                Some(served)
            },
            None => {
                proof {
                    assert(self.peers@ =~= old(self).peers@);
                }
                None
            },
        }
    }

    /// Hands what an evicted session left behind to the session in the
    /// slot, as [`Session::transfer_session_state`] says. Without a
    /// session in the slot nothing is done.
    pub fn transfer_session_state(
        &mut self,
        entry: &Entry,
        clean_start: bool,
        offline_info: SessionOfflineInfo,
    )
        requires
            old(self).wf(),
        ensures
            final(self).wf(),
            final(self).node() == old(self).node(),
            final(self).lockers() == old(self).lockers(),
            final(self).peers().dom() == old(self).peers().dom(),
            forall|c: Seq<char>|
                c != entry.id().client_id@ && old(self).peers().contains_key(c) ==> final(self).peers()[c] == old(self).peers()[c],
            old(self).peers().contains_key(entry.id().client_id@) ==> {
                let c = entry.id().client_id@;
                let before = old(self).peers()[c];
                let after = final(self).peers()[c];
                &&& after.client == before.client
                &&& after.session == (Session {
                    subscriptions: after.session.subscriptions,
                    ..before.session
                })
                &&& after.session.subscriptions@ == if clean_start {
                    before.session.subscriptions@
                } else {
                    taken_over(
                        before.session.subscriptions@,
                        offline_info.subscriptions@,
                        offline_info.subscriptions@.len() as int,
                    )
                }
            },
    {
        match self.peers.remove(&entry.id.client_id) {
            Some(item) => {
                let mut item = item;
                item.session.transfer_session_state(clean_start, offline_info);
                self.peers.insert(entry.id.client_id.clone(), item);
                proof {
                    assert(self.peers@.dom() =~= old(self).peers@.dom());
                }
            },
            None => {
                proof {
                    assert(self.peers@ =~= old(self).peers@);
                }
            },
        }
    }
}

/// Of two connections that ask for the lock of one client id, one after
/// the other and with none giving it back between them, the first that is
/// granted it keeps the second out.
pub proof fn law_lock_is_exclusive(
    before: SessionRegistry,
    between: SessionRegistry,
    first: Entry,
    second: Entry,
)
    requires
        first.id().client_id@ == second.id().client_id@,
        !before.lockers().contains_key(first.id().client_id@),
        between.lockers() == before.lockers().insert(first.id().client_id@, first.id()),
    ensures
        between.lockers().contains_key(second.id().client_id@),
        between.slot(second.id().client_id@) != SlotState::Unlocked,
{
}

} // verus!
