//! Ownership of client identities across the cluster, seen from one node:
//! what a connecting client's entry proposes to the consensus log, whom it
//! asks to evict an earlier session, and where a publish goes.

use vstd::prelude::*;
use crate::broker::error::MqttError;
use crate::broker::registry::SessionRegistry;
use crate::broker::router::{distinct_nodes, grouped, Router};
use crate::cluster::message::Message as RaftMessage;
use crate::cluster::message::MessageReply as RaftMessageReply;
use crate::cluster::router::ClientStatus;
use crate::grpc::{GrpcClients, Message, MessageReply, MessageSender, MessageType, NodeGrpcClient};
use crate::text::{decimal, join2, u64_to_string};
use crate::topic::Topic;
use crate::types::{
    Id, IsAdmin, NodeId, Origin, Publish, Reason, SessionOfflineInfo, SessionStatus,
    SubRelation, SubRelations, SubRelationsMap, SubsSearchResult, TimestampMillis, To,
};

verus! {

/// How often a publish forwarded to another node is tried again.
pub const FORWARD_MAX_RETRIES: usize = 1;

/// What this node knows of the cluster: its own id, the channels to its
/// peers, and the tag under which the cluster's requests travel.
#[derive(Debug, PartialEq, Eq)]
pub struct ClusterShared {
    pub node_id: NodeId,
    pub grpc_clients: GrpcClients,
    pub message_type: MessageType,
    pub try_lock_timeout_millis: u64,
}

impl ClusterShared {
    pub fn new(
        node_id: NodeId,
        grpc_clients: GrpcClients,
        message_type: MessageType,
        try_lock_timeout_millis: u64,
    ) -> (r: ClusterShared)
        ensures
            r == (ClusterShared { node_id, grpc_clients, message_type, try_lock_timeout_millis }),
    {
        ClusterShared { node_id, grpc_clients, message_type, try_lock_timeout_millis }
    }

    /// The channel to a node, if this node has one.
    pub fn grpc_client(&self, node_id: NodeId) -> (r: Option<NodeGrpcClient>)
        requires
            self.grpc_clients.wf(),
        ensures
            r.is_some() == self.grpc_clients.has(node_id),
            r matches Some(c) ==> c == self.grpc_clients.of(node_id),
    {
        match self.grpc_clients.get(node_id) {
            Some(c) => Some(c.clone()),
            None => None,
        }
    }

    /// The entry through which a connection with this identity asks for
    /// ownership. Nothing is known yet of an earlier owner.
    pub fn entry(&self, id: Id) -> (r: ClusterLockEntry)
        ensures
            r.id() == id,
            r.prev_node_id() == None::<NodeId>,
    {
        ClusterLockEntry::new(id, None)
    }

    /// What a query for a client's status answers: what the ownership
    /// table holds, with a handshake counted as under way only while the
    /// time allowed for one has not run out.
    pub fn session_status(&self, status: Option<ClientStatus>, now: TimestampMillis) -> (r: Option<
        SessionStatus,
    >)
        ensures
            match status {
                None => r is None,
                Some(s) => r == Some(
                    SessionStatus {
                        handshaking: s.spec_handshaking(self.try_lock_timeout_millis, now),
                        id: s.id,
                        online: s.online,
                    },
                ),
            },
    {
        match status {
            None => None,
            Some(s) => {
                let handshaking = s.handshaking(self.try_lock_timeout_millis, now);
                Some(SessionStatus { handshaking, id: s.id, online: s.online })
            },
        }
    }
}

/// The entry of one connecting client: its identity, and the node that the
/// consensus log named as the owner before, once it was asked.
#[derive(Debug, PartialEq, Eq)]
pub struct ClusterLockEntry {
    id: Id,
    prev_node_id: Option<NodeId>,
}

/// How an earlier session is evicted.
#[derive(Debug, PartialEq, Eq)]
pub enum KickPlan {
    /// This node holds it: evict it here.
    Local { clear_subscriptions: bool, is_admin: IsAdmin },
    /// Another node holds it: send that node this request.
    Remote(MessageSender),
    /// Another node holds it and this node has no channel to that node.
    NoClient(MqttError),
}

/// Where the subscriptions of a client are to be had.
#[derive(Debug, PartialEq, Eq)]
pub enum SubscriptionsPlan {
    /// Nowhere: no node owns the client id, or none that can be reached.
    Nothing,
    /// From the session on this node.
    Local,
    /// From the node that owns the client id, by this request.
    Remote(MessageSender),
}

impl ClusterLockEntry {
    pub fn new(id: Id, prev_node_id: Option<NodeId>) -> (r: ClusterLockEntry)
        ensures
            r.id() == id,
            r.prev_node_id() == prev_node_id,
    {
        ClusterLockEntry { id, prev_node_id }
    }

    pub closed spec fn id(&self) -> Id {
        self.id
    }

    pub closed spec fn prev_node_id(&self) -> Option<NodeId> {
        self.prev_node_id
    }

    /// The identity the entry stands for.
    pub fn get_id(&self) -> (r: &Id)
        ensures
            *r == self.id(),
    {
        &self.id
    }

    /// The node the log named as the earlier owner, if it named one.
    pub fn get_prev_node_id(&self) -> (r: Option<NodeId>)
        ensures
            r == self.prev_node_id(),
    {
        self.prev_node_id
    }

    /// The fact to commit before the local lock is taken.
    pub fn try_lock_request(&self) -> (r: RaftMessage)
        ensures
            r == (RaftMessage::HandshakeTryLock { id: self.id() }),
    {
        RaftMessage::HandshakeTryLock { id: self.id.clone() }
    }

    /// What follows the attempt to lock the slot on this node: the request
    /// to the log where the slot is locked, the refusal where it is not.
    /// The log is asked only on behalf of a connection that holds the lock
    /// of its own node.
    pub fn try_lock_next(&self, local: Result<(), MqttError>) -> (r: Result<RaftMessage, MqttError>)
        ensures
            match local {
                Ok(_) => r == Ok::<RaftMessage, MqttError>(
                    RaftMessage::HandshakeTryLock { id: self.id() },
                ),
                Err(e) => r == Err::<RaftMessage, MqttError>(e),
            },
    {
        match local {
            Ok(_) => Ok(self.try_lock_request()),
            Err(e) => Err(e),
        }
    }

    /// What the log's answer to the lock request means: the node that
    /// owned the client id before, or the log's refusal.
    pub fn try_lock_reply(reply: Option<RaftMessageReply>) -> (r: Result<Option<NodeId>, MqttError>)
        ensures
            match reply {
                None => r == Ok::<Option<NodeId>, MqttError>(None),
                Some(RaftMessageReply::Error(e)) => r == Err::<Option<NodeId>, MqttError>(
                    MqttError::Msg(e),
                ),
                Some(RaftMessageReply::HandshakeTryLock(None)) => r == Ok::<
                    Option<NodeId>,
                    MqttError,
                >(None),
                Some(RaftMessageReply::HandshakeTryLock(Some(prev))) => r == Ok::<
                    Option<NodeId>,
                    MqttError,
                >(Some(prev.node_id)),
            },
    {
        match reply {
            None => Ok(None),
            Some(RaftMessageReply::Error(e)) => Err(MqttError::Msg(e)),
            Some(RaftMessageReply::HandshakeTryLock(prev)) => match prev {
                Some(id) => Ok(Some(id.node_id)),
                None => Ok(None),
            },
        }
    }

    /// The entry that holds the lock: the same identity, and the earlier
    /// owner that the log named.
    pub fn locked(self, prev_node_id: Option<NodeId>) -> (r: ClusterLockEntry)
        ensures
            r.id() == self.id(),
            r.prev_node_id() == prev_node_id,
    {
        ClusterLockEntry { id: self.id, prev_node_id }
    }

    /// Whether the identity of this entry holds the lock of its slot in a
    /// registry.
    pub open spec fn holds_local_lock(&self, registry: SessionRegistry) -> bool {
        registry.lockers().contains_key(self.id().client_id@) && registry.lockers()[self.id().client_id@].same(
            self.id(),
        )
    }

    /// Settles the lock once the log has answered, or could not be asked
    /// (`answer` is then the failure). Where the log grants the lock, the
    /// entry holds it, with the earlier owner that the log named, and the
    /// registry is left as it is. Where the log refuses or could not be
    /// reached, the lock taken on this node is given back, and the error
    /// is returned. The lock is given back exactly when the result is an
    /// error.
    pub fn try_lock_settled(
        self,
        registry: &mut SessionRegistry,
        answer: Result<Option<RaftMessageReply>, MqttError>,
    ) -> (r: Result<ClusterLockEntry, MqttError>)
        requires
            old(registry).wf(),
        ensures
            final(registry).wf(),
            final(registry).node() == old(registry).node(),
            final(registry).peers() == old(registry).peers(),
            match r {
                Ok(locked) => {
                    &&& locked.id() == self.id()
                    &&& final(registry).lockers() == old(registry).lockers()
                    &&& match answer {
                        Ok(None) => locked.prev_node_id() is None,
                        Ok(Some(RaftMessageReply::HandshakeTryLock(None))) => locked.prev_node_id() is None,
                        Ok(Some(RaftMessageReply::HandshakeTryLock(Some(prev)))) =>
                            locked.prev_node_id() == Some(prev.node_id),
                        _ => false,
                    }
                },
                Err(e) => {
                    &&& match answer {
                        Err(failure) => e == failure,
                        Ok(Some(RaftMessageReply::Error(text))) => e == MqttError::Msg(text),
                        _ => false,
                    }
                    &&& final(registry).lockers() == if self.holds_local_lock(*old(registry)) {
                        old(registry).lockers().remove(self.id().client_id@)
                    } else {
                        old(registry).lockers()
                    }
                    &&& !self.holds_local_lock(*final(registry))
                },
            },
    {
        let settled = match answer {
            Err(failure) => Err(failure),
            Ok(reply) => Self::try_lock_reply(reply),
        };
        match settled {
            Ok(prev_node_id) => Ok(self.locked(prev_node_id)),
            Err(e) => {
                let local = registry.entry(self.id.clone());
                registry.unlock(&local);
                Err(e)
            },
        }
    }

    /// The fact to commit before a session is installed.
    pub fn set_request(session_id: Id) -> (r: RaftMessage)
        ensures
            r == (RaftMessage::Connected { id: session_id }),
    {
        RaftMessage::Connected { id: session_id }
    }

    /// What the commit of the `Connected` fact means for the handshake.
    /// `commit` is `Err` where the log could not be reached within the
    /// time allowed for retries, else the log's answer. The handshake goes
    /// on only where the log took the fact without a word; where the log
    /// refuses the handshake is refused with the log's reason, and where
    /// the log cannot be reached or answers what was not asked, it is
    /// refused as unavailable.
    pub fn set_reply<E>(commit: Result<Option<RaftMessageReply>, E>) -> (r: Result<(), MqttError>)
        ensures
            match commit {
                Err(_) => r == Err::<(), MqttError>(MqttError::ServiceUnavailable),
                Ok(None) => r == Ok::<(), MqttError>(()),
                Ok(Some(RaftMessageReply::Error(e))) => r == Err::<(), MqttError>(MqttError::Msg(e)),
                Ok(Some(RaftMessageReply::HandshakeTryLock(_))) => r == Err::<(), MqttError>(
                    MqttError::ServiceUnavailable,
                ),
            },
    {
        match commit {
            Err(_) => Err(MqttError::ServiceUnavailable),
            Ok(None) => Ok(()),
            Ok(Some(RaftMessageReply::Error(e))) => Err(MqttError::Msg(e)),
            Ok(Some(RaftMessageReply::HandshakeTryLock(_))) => Err(MqttError::ServiceUnavailable),
        }
    }

    /// Whether the log has to be asked who owns the client id before a
    /// kick: an administrator's kick does not rely on the entry's hint.
    pub fn kick_asks_log(is_admin: IsAdmin) -> (r: bool)
        ensures
            r == is_admin,
    {
        is_admin
    }

    /// The node taken to own the client id when a kick begins: for an
    /// administrator's kick the node that the log names now, else the node
    /// the log named when the lock was taken; and this node where the log
    /// names none.
    pub open spec fn spec_prev_owner(&self, is_admin: IsAdmin, looked_up: Option<NodeId>) -> NodeId {
        let hint = if is_admin {
            looked_up
        } else {
            self.prev_node_id()
        };
        match hint {
            Some(n) => n,
            None => self.id().node_id,
        }
    }

    /// The node taken to own the client id when a kick begins.
    pub fn prev_owner(&self, is_admin: IsAdmin, looked_up: Option<NodeId>) -> (r: NodeId)
        ensures
            r == self.spec_prev_owner(is_admin, looked_up),
    {
        let hint = if is_admin {
            looked_up
        } else {
            self.prev_node_id
        };
        match hint {
            Some(n) => n,
            None => self.id.node_id,
        }
    }

    /// What the refusal says where no channel leads to the earlier owner.
    pub open spec fn no_client_text(prev_node_id: NodeId) -> Seq<char> {
        "kick error, grpc_client is not exist, prev_node_id: "@ + decimal(prev_node_id as nat)
    }

    /// How the earlier session is evicted. An earlier owner other than
    /// this node is asked over its channel, once and without a second try;
    /// the request carries what the caller asked for, unchanged.
    pub fn kick_plan(
        &self,
        shared: &ClusterShared,
        clear_subscriptions: bool,
        is_admin: IsAdmin,
        looked_up: Option<NodeId>,
    ) -> (r: KickPlan)
        requires
            shared.grpc_clients.wf(),
        ensures
            ({
                let prev = self.spec_prev_owner(is_admin, looked_up);
                if prev == self.id().node_id {
                    r == (KickPlan::Local { clear_subscriptions, is_admin })
                } else if shared.grpc_clients.has(prev) {
                    r == KickPlan::Remote(
                        MessageSender {
                            client: shared.grpc_clients.of(prev),
                            msg_type: shared.message_type,
                            msg: Message::Kick(self.id(), clear_subscriptions, is_admin),
                            max_retries: 0,
                            retry_interval_millis: 500,
                        },
                    )
                } else {
                    r matches KickPlan::NoClient(MqttError::Msg(text)) && text@
                        == Self::no_client_text(prev)
                }
            }),
    {
        let prev = self.prev_owner(is_admin, looked_up);
        if prev == self.id.node_id {
            KickPlan::Local { clear_subscriptions, is_admin }
        } else {
            match shared.grpc_client(prev) {
                Some(client) => KickPlan::Remote(
                    MessageSender {
                        client,
                        msg_type: shared.message_type,
                        msg: Message::Kick(self.id.clone(), clear_subscriptions, is_admin),
                        max_retries: 0,
                        retry_interval_millis: 500,
                    },
                ),
                None => {
                    let number = u64_to_string(prev);
                    let text = join2(
                        "kick error, grpc_client is not exist, prev_node_id: ",
                        number.as_str(),
                    );
                    KickPlan::NoClient(MqttError::Msg(text))
                },
            }
        }
    }

    /// What the answer of the earlier owner means. Whatever went wrong on
    /// the way counts as "already gone": a node that cannot be reached
    /// never keeps a new connection from going on.
    pub fn kick_remote_reply<E>(reply: Result<MessageReply, E>) -> (r: Result<
        Option<SessionOfflineInfo>,
        MqttError,
    >)
        ensures
            r is Ok,
            match reply {
                Ok(MessageReply::Kick(Some(kicked))) => r == Ok::<
                    Option<SessionOfflineInfo>,
                    MqttError,
                >(Some(kicked)),
                _ => r == Ok::<Option<SessionOfflineInfo>, MqttError>(None),
            },
    {
        match reply {
            Ok(MessageReply::Kick(Some(kicked))) => Ok(Some(kicked)),
            _ => Ok(None),
        }
    }

    /// Where the subscriptions of the entry's client are to be had.
    /// `owner` is the identity that the ownership table holds for the
    /// client id.
    pub fn subscriptions_plan(&self, shared: &ClusterShared, owner: Option<Id>) -> (r:
        SubscriptionsPlan)
        requires
            shared.grpc_clients.wf(),
        ensures
            match owner {
                None => r == SubscriptionsPlan::Nothing,
                Some(id) => if id.node_id == shared.node_id {
                    r == SubscriptionsPlan::Local
                } else if shared.grpc_clients.has(id.node_id) {
                    r == SubscriptionsPlan::Remote(
                        MessageSender {
                            client: shared.grpc_clients.of(id.node_id),
                            msg_type: shared.message_type,
                            msg: Message::SubscriptionsGet(id.client_id),
                            max_retries: 0,
                            retry_interval_millis: 500,
                        },
                    )
                } else {
                    r == SubscriptionsPlan::Nothing
                },
            },
    {
        match owner {
            None => SubscriptionsPlan::Nothing,
            Some(id) => {
                if id.node_id == shared.node_id {
                    SubscriptionsPlan::Local
                } else {
                    match shared.grpc_client(id.node_id) {
                        Some(client) => SubscriptionsPlan::Remote(
                            MessageSender {
                                client,
                                msg_type: shared.message_type,
                                msg: Message::SubscriptionsGet(id.client_id),
                                max_retries: 0,
                                retry_interval_millis: 500,
                            },
                        ),
                        None => SubscriptionsPlan::Nothing,
                    }
                }
            },
        }
    }

    /// What the owner's answer to the query means: its list, and nothing
    /// where the query failed or the answer is of another kind.
    pub fn subscriptions_remote_reply<E>(reply: Result<MessageReply, E>) -> (r: Option<
        Vec<SubsSearchResult>,
    >)
        ensures
            match reply {
                Ok(MessageReply::SubscriptionsGet(subs)) => r == subs,
                _ => r is None,
            },
    {
        match reply {
            Ok(MessageReply::SubscriptionsGet(subs)) => subs,
            _ => None,
        }
    }
}

/// Where the subscribers of one publish are: those on this node, and for
/// each other node its subscribers with the channel to it, or without one
/// where this node has none.
#[derive(Debug, PartialEq, Eq)]
pub struct ForwardsPlan {
    pub local: Option<SubRelations>,
    pub remote: Vec<ForwardTarget>,
    pub unreachable: Vec<(NodeId, SubRelations)>,
}

/// The subscribers of a publish on one other node, and the channel there.
#[derive(Debug, PartialEq, Eq)]
pub struct ForwardTarget {
    pub client: NodeGrpcClient,
    pub relations: SubRelations,
}

/// A publish that did not reach a subscriber, and why.
pub type Dropped = (To, Origin, Publish, Reason);

/// The relations of the nodes other than `this_node`, in their order.
pub open spec fn others(map: Seq<(NodeId, SubRelations)>, this_node: NodeId) -> Seq<
    (NodeId, SubRelations),
> {
    map.filter(not_node(this_node))
}

/// The entries of a node other than `this_node`.
pub open spec fn not_node(this_node: NodeId) -> spec_fn((NodeId, SubRelations)) -> bool {
    |e: (NodeId, SubRelations)| e.0 != this_node
}

/// The entries of the nodes that have a channel, or of those that have none.
pub open spec fn channel_is(clients: GrpcClients, reachable: bool) -> spec_fn(
    (NodeId, SubRelations),
) -> bool {
    |e: (NodeId, SubRelations)| clients.has(e.0) == reachable
}

/// The relations of `this_node`: those of its first entry.
pub open spec fn local_of(map: Seq<(NodeId, SubRelations)>, this_node: NodeId) -> Option<
    SubRelations,
>
    decreases map.len(),
{
    if map.len() == 0 {
        None
    } else if map[0].0 == this_node {
        Some(map[0].1)
    } else {
        local_of(map.skip(1), this_node)
    }
}

/// The entries of a map that have a channel (`reachable`) or have none.
pub open spec fn with_channel(
    map: Seq<(NodeId, SubRelations)>,
    clients: GrpcClients,
    reachable: bool,
) -> Seq<(NodeId, SubRelations)> {
    map.filter(channel_is(clients, reachable))
}

impl ClusterShared {
    /// Splits the subscribers of a publish by the node that owns them.
    pub fn forwards_plan(&self, relations_map: SubRelationsMap) -> (r: ForwardsPlan)
        requires
            self.grpc_clients.wf(),
            distinct_nodes(relations_map@),
        ensures
            r.local == local_of(relations_map@, self.node_id),
            r.unreachable@ == with_channel(
                others(relations_map@, self.node_id),
                self.grpc_clients,
                false,
            ),
            r.remote@.len() == with_channel(
                others(relations_map@, self.node_id),
                self.grpc_clients,
                true,
            ).len(),
            forall|i: int|
                0 <= i < r.remote@.len() ==> {
                    let e = with_channel(
                        others(relations_map@, self.node_id),
                        self.grpc_clients,
                        true,
                    )[i];
                    &&& (#[trigger] r.remote@[i]).client == self.grpc_clients.of(e.0)
                    &&& r.remote@[i].relations == e.1
                },
    {
        let ghost all = relations_map@;
        let ghost me = self.node_id;
        let ghost clients = self.grpc_clients;
        let mut rest = relations_map;
        let mut local: Option<SubRelations> = None;
        let mut remote: Vec<ForwardTarget> = Vec::new();
        let mut unreachable: Vec<(NodeId, SubRelations)> = Vec::new();
        let ghost mut done: Seq<(NodeId, SubRelations)> = Seq::empty();
        proof {
            assert(all.skip(0) =~= all);
            lemma_filter_empty(me, clients);
        }
        while rest.len() > 0
            invariant
                self.grpc_clients.wf(),
                me == self.node_id,
                clients == self.grpc_clients,
                distinct_nodes(all),
                rest@.len() <= all.len(),
                done == all.take(all.len() - rest@.len()),
                rest@ == all.skip(all.len() - rest@.len()),
                local == local_of(done, me),
                local is Some ==> local_of(all, me) == local,
                local is None ==> local_of(all, me) == local_of(rest@, me),
                unreachable@ == with_channel(others(done, me), clients, false),
                remote@.len() == with_channel(others(done, me), clients, true).len(),
                forall|i: int|
                    0 <= i < remote@.len() ==> {
                        let e = with_channel(others(done, me), clients, true)[i];
                        &&& (#[trigger] remote@[i]).client == clients.of(e.0)
                        &&& remote@[i].relations == e.1
                    },
            decreases rest@.len(),
        {
            let ghost k = all.len() - rest@.len();
            let ghost prev_rest = rest@;
            let entry = rest.remove(0);
            proof {
                assert(entry == all[k]);
                assert(rest@ =~= all.skip(k + 1));
                assert(prev_rest.skip(1) =~= rest@);
                let next = all.take(k + 1);
                assert(next =~= done.push(entry));
                lemma_filter_push(done, entry, me, clients);
                lemma_local_of_push(done, entry, me);
            }
            let ghost e = entry;
            let (node_id, relations) = entry;
            if node_id == self.node_id {
                if local.is_none() {
                    local = Some(relations);
                }
            } else {
                match self.grpc_client(node_id) {
                    Some(client) => {
                        remote.push(ForwardTarget { client, relations });
                    },
                    None => {
                        unreachable.push((node_id, relations));
                    },
                }
            }
            proof {
                done = done.push(e);
            }
        }
        proof {
            assert(done =~= all);
        }
        ForwardsPlan { local, remote, unreachable }
    }

    /// Where a publish on `topic` goes: the subscribers that the router
    /// finds for it, split by the node that owns them.
    pub fn route(&self, router: &Router, topic: &Topic) -> (r: ForwardsPlan)
        requires
            self.grpc_clients.wf(),
        ensures
            exists|matched: Seq<(NodeId, SubRelations)>|
                {
                    &&& #[trigger] grouped(matched, router@, *topic)
                    &&& r.local == local_of(matched, self.node_id)
                    &&& r.unreachable@ == with_channel(
                        others(matched, self.node_id),
                        self.grpc_clients,
                        false,
                    )
                    &&& r.remote@.len() == with_channel(
                        others(matched, self.node_id),
                        self.grpc_clients,
                        true,
                    ).len()
                    &&& forall|i: int|
                        0 <= i < r.remote@.len() ==> {
                            let e = with_channel(
                                others(matched, self.node_id),
                                self.grpc_clients,
                                true,
                            )[i];
                            &&& (#[trigger] r.remote@[i]).client == self.grpc_clients.of(e.0)
                            &&& r.remote@[i].relations == e.1
                        }
                },
    {
        let matched = router.matches(topic);
        let ghost m = matched@;
        let plan = self.forwards_plan(matched);
        proof {
            assert(grouped(m, router@, *topic));
        }
        plan
    }

    /// The request that carries a publish to the subscribers on one node.
    /// It is tried again once.
    pub fn forwards_to_sender(
        &self,
        target: ForwardTarget,
        from: Origin,
        publish: Publish,
    ) -> (r: MessageSender)
        ensures
            r == (MessageSender {
                client: target.client,
                msg_type: self.message_type,
                msg: Message::ForwardsTo(from, publish, target.relations),
                max_retries: 1,
                retry_interval_millis: 500,
            }),
    {
        MessageSender {
            client: target.client,
            msg_type: self.message_type,
            msg: Message::ForwardsTo(from, publish, target.relations),
            max_retries: FORWARD_MAX_RETRIES,
            retry_interval_millis: 500,
        }
    }

    /// The outcome of a publish: done where nothing was dropped, else the
    /// list of what was dropped, on this node first, then on the others.
    /// One node that cannot be reached fails no publish to the others.
    pub fn forwards_result(local_dropped: Vec<Dropped>, remote_dropped: Vec<Dropped>) -> (r: Result<
        (),
        Vec<Dropped>,
    >)
        ensures
            match r {
                Ok(_) => local_dropped@.len() == 0 && remote_dropped@.len() == 0,
                Err(errs) => errs@ == local_dropped@ + remote_dropped@ && errs@.len() > 0,
            },
    {
        let mut errs = local_dropped;
        let mut more = remote_dropped;
        errs.append(&mut more);
        if errs.len() == 0 {
            Ok(())
        } else {
            Err(errs)
        }
    }
}

/// A node that a publish did not reach, with its subscribers and the
/// reason.
#[derive(Debug, PartialEq, Eq)]
pub struct LostNode {
    pub node_id: NodeId,
    pub relations: SubRelations,
    pub reason: Reason,
}

/// Whether `d` records that a publish did not reach the subscriber of a
/// relation on a node: it names that subscriber by node and client id,
/// and carries the origin, the publish, field by field, and the reason.
pub open spec fn is_drop_of(
    d: Dropped,
    node_id: NodeId,
    relation: SubRelation,
    from: Origin,
    publish: Publish,
    reason: Reason,
) -> bool {
    &&& d.0 == (Id {
        node_id,
        local_addr: None,
        remote_addr: None,
        client_id: relation.client_id,
        username: None,
    })
    &&& d.1 == from
    &&& publish.same(d.2)
    &&& d.3 == reason
}

/// Number of subscribers on the first `n` of the nodes.
pub open spec fn lost_upto(failed: Seq<LostNode>, n: int) -> int
    decreases n,
{
    if n <= 0 {
        0
    } else {
        lost_upto(failed, n - 1) + failed[n - 1].relations@.len()
    }
}

/// Whether a list names the deliveries lost on the given nodes: one
/// record for each subscriber of each node, node by node and within a
/// node in the order of its subscribers.
pub open spec fn names_losses(
    drops: Seq<Dropped>,
    failed: Seq<LostNode>,
    from: Origin,
    publish: Publish,
) -> bool {
    &&& drops.len() == lost_upto(failed, failed.len() as int)
    &&& forall|k: int, i: int|
        0 <= k < failed.len() && 0 <= i < failed[k].relations@.len() ==> is_drop_of(
            #[trigger] drops[lost_upto(failed, k) + i],
            failed[k].node_id,
            #[trigger] failed[k].relations@[i],
            from,
            publish,
            failed[k].reason,
        )
}

proof fn lemma_lost_upto_grows(failed: Seq<LostNode>, a: int, b: int)
    requires
        0 <= a <= b,
    ensures
        0 <= lost_upto(failed, a) <= lost_upto(failed, b),
    decreases b,
{
    if a < b {
        lemma_lost_upto_grows(failed, a, b - 1);
    } else if a > 0 {
        lemma_lost_upto_grows(failed, a - 1, a - 1);
    }
}

/// What a node that a publish did not reach loses: one record for each
/// of its subscribers, in their order.
pub fn dropped_on(
    node_id: NodeId,
    relations: &SubRelations,
    from: &Origin,
    publish: &Publish,
    reason: &Reason,
) -> (r: Vec<Dropped>)
    ensures
        r@.len() == relations@.len(),
        forall|i: int|
            0 <= i < r@.len() ==> is_drop_of(
                #[trigger] r@[i],
                node_id,
                relations@[i],
                *from,
                *publish,
                *reason,
            ),
{
    let mut out: Vec<Dropped> = Vec::new();
    let mut i: usize = 0;
    while i < relations.len()
        invariant
            i <= relations.len(),
            out@.len() == i,
            forall|j: int|
                0 <= j < i ==> is_drop_of(
                    #[trigger] out@[j],
                    node_id,
                    relations@[j],
                    *from,
                    *publish,
                    *reason,
                ),
        decreases relations.len() - i,
    {
        let to = Id::from(node_id, relations[i].client_id.clone());
        out.push((to, from.clone(), publish.clone(), reason.clone()));
        i = i + 1;
    }
    out
}

/// What the nodes that a publish did not reach lose, node by node.
pub fn dropped_on_all(failed: &Vec<LostNode>, from: &Origin, publish: &Publish) -> (r: Vec<Dropped>)
    ensures
        names_losses(r@, failed@, *from, *publish),
{
    let mut out: Vec<Dropped> = Vec::new();
    let mut k: usize = 0;
    while k < failed.len()
        invariant
            k <= failed.len(),
            out@.len() == lost_upto(failed@, k as int),
            forall|n: int, i: int|
                0 <= n < k && 0 <= i < failed@[n].relations@.len() ==> is_drop_of(
                    #[trigger] out@[lost_upto(failed@, n) + i],
                    failed@[n].node_id,
                    #[trigger] failed@[n].relations@[i],
                    *from,
                    *publish,
                    failed@[n].reason,
                ),
        decreases failed.len() - k,
    {
        let node = &failed[k];
        let ghost before = out@;
        let mut more = dropped_on(node.node_id, &node.relations, from, publish, &node.reason);
        let ghost added = more@;
        out.append(&mut more);
        proof {
            assert(out@ == before + added);
            assert forall|n: int, i: int|
                0 <= n < k + 1 && 0 <= i < failed@[n].relations@.len() implies is_drop_of(
                #[trigger] out@[lost_upto(failed@, n) + i],
                failed@[n].node_id,
                #[trigger] failed@[n].relations@[i],
                *from,
                *publish,
                failed@[n].reason,
            ) by {
                if n < k {
                    lemma_lost_upto_grows(failed@, 0, n);
                    lemma_lost_upto_grows(failed@, n + 1, k as int);
                    assert(lost_upto(failed@, n + 1) == lost_upto(failed@, n)
                        + failed@[n].relations@.len());
                    assert(before.len() == lost_upto(failed@, k as int));
                    assert(0 <= lost_upto(failed@, n) + i < before.len());
                    assert(out@[lost_upto(failed@, n) + i] == before[lost_upto(failed@, n) + i]);
                } else {
                    lemma_lost_upto_grows(failed@, 0, k as int);
                    assert(out@[lost_upto(failed@, n) + i] == added[i]);
                }
            }
        }
        k = k + 1;
    }
    out
}

impl ClusterShared {
    /// The outcome of a publish, given what this node dropped and the
    /// nodes that the publish did not reach: done where neither lost
    /// anything, else the list of what was lost, on this node first, then
    /// on each of those nodes. The nodes that were reached got their
    /// deliveries: one node that fails aborts nothing.
    pub fn forwards_outcome(
        local_dropped: Vec<Dropped>,
        failed: &Vec<LostNode>,
        from: &Origin,
        publish: &Publish,
    ) -> (r: Result<(), Vec<Dropped>>)
        ensures
            match r {
                Ok(_) => local_dropped@.len() == 0 && lost_upto(failed@, failed@.len() as int)
                    == 0,
                Err(errs) => {
                    &&& errs@.len() > 0
                    &&& errs@.len() >= local_dropped@.len()
                    &&& errs@.take(local_dropped@.len() as int) == local_dropped@
                    &&& names_losses(
                        errs@.skip(local_dropped@.len() as int),
                        failed@,
                        *from,
                        *publish,
                    )
                },
            },
    {
        let remote_dropped = dropped_on_all(failed, from, publish);
        let ghost remote = remote_dropped@;
        let r = Self::forwards_result(local_dropped, remote_dropped);
        proof {
            if r is Err {
                let errs = r->Err_0;
                assert(errs@.take(local_dropped@.len() as int) =~= local_dropped@);
                assert(errs@.skip(local_dropped@.len() as int) =~= remote);
            }
        }
        r
    }
}

proof fn lemma_filter_empty(me: NodeId, clients: GrpcClients)
    ensures
        others(Seq::<(NodeId, SubRelations)>::empty(), me) == Seq::<(NodeId, SubRelations)>::empty(),
        with_channel(Seq::<(NodeId, SubRelations)>::empty(), clients, true) == Seq::<
            (NodeId, SubRelations),
        >::empty(),
        with_channel(Seq::<(NodeId, SubRelations)>::empty(), clients, false) == Seq::<
            (NodeId, SubRelations),
        >::empty(),
        local_of(Seq::<(NodeId, SubRelations)>::empty(), me) == None::<SubRelations>,
{
    reveal(Seq::filter);
}

/// How the split of a map goes on with one more entry.
proof fn lemma_filter_push(
    done: Seq<(NodeId, SubRelations)>,
    entry: (NodeId, SubRelations),
    me: NodeId,
    clients: GrpcClients,
)
    ensures
        others(done.push(entry), me) == if entry.0 != me {
            others(done, me).push(entry)
        } else {
            others(done, me)
        },
        with_channel(others(done.push(entry), me), clients, true) == if entry.0 != me
            && clients.has(entry.0) {
            with_channel(others(done, me), clients, true).push(entry)
        } else {
            with_channel(others(done, me), clients, true)
        },
        with_channel(others(done.push(entry), me), clients, false) == if entry.0 != me
            && !clients.has(entry.0) {
            with_channel(others(done, me), clients, false).push(entry)
        } else {
            with_channel(others(done, me), clients, false)
        },
{
    let keep = not_node(me);
    let yes = channel_is(clients, true);
    let no = channel_is(clients, false);
    done.lemma_filter_push(entry, keep);
    others(done, me).lemma_filter_push(entry, yes);
    others(done, me).lemma_filter_push(entry, no);
}

/// The relations of a node in a map with one more entry.
proof fn lemma_local_of_push(
    done: Seq<(NodeId, SubRelations)>,
    entry: (NodeId, SubRelations),
    me: NodeId,
)
    ensures
        local_of(done.push(entry), me) == if local_of(done, me) is Some {
            local_of(done, me)
        } else if entry.0 == me {
            Some(entry.1)
        } else {
            None
        },
    decreases done.len(),
{
    let next = done.push(entry);
    if done.len() == 0 {
        assert(next.skip(1) =~= Seq::<(NodeId, SubRelations)>::empty());
        assert(local_of(next.skip(1), me) is None);
    } else {
        assert(next[0] == done[0]);
        assert(next.skip(1) =~= done.skip(1).push(entry));
        if done[0].0 != me {
            lemma_local_of_push(done.skip(1), entry, me);
        }
    }
}

} // verus!
