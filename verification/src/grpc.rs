//! The commands that broker nodes exchange over the peer-to-peer RPC
//! channel, and the plans by which one command is sent to one peer or to
//! all of them.

use vstd::prelude::*;
use crate::broker::error::MqttError;
use crate::types::{
    Addr, ClearSubscriptions, ClientId, Id, IsAdmin, NodeId, Origin, Publish, Retain, Route,
    SessionOfflineInfo, SessionStatus, SubRelations, SubRelationsMap, SubsSearchParams,
    SubsSearchResult, TopicFilter, TopicName,
};

verus! {

/// Tag that lets several logical services share one channel.
/// Values below 1000 are reserved.
pub type MessageType = u64;

/// A request from one node to another.
#[derive(Debug, PartialEq, Eq)]
pub enum Message {
    Forwards(Origin, Publish),
    ForwardsTo(Origin, Publish, SubRelations),
    Kick(Id, ClearSubscriptions, IsAdmin),
    GetRetains(TopicFilter),
    SubscriptionsSearch(SubsSearchParams),
    SubscriptionsGet(ClientId),
    RoutesGet(usize),
    RoutesGetBy(TopicFilter),
    NumberOfClients,
    NumberOfSessions,
    Online(ClientId),
    SessionStatus(ClientId),
    Data(Vec<u8>),
}

/// The answer to a [`Message`], one kind per request kind.
#[derive(Debug, PartialEq, Eq)]
pub enum MessageReply {
    Success,
    Forwards(SubRelationsMap),
    Error(String),
    Kick(Option<SessionOfflineInfo>),
    GetRetains(Vec<(TopicName, Retain)>),
    SubscriptionsSearch(Vec<SubsSearchResult>),
    SubscriptionsGet(Option<Vec<SubsSearchResult>>),
    RoutesGet(Vec<Route>),
    RoutesGetBy(Vec<Route>),
    NumberOfClients(usize),
    NumberOfSessions(usize),
    Online(bool),
    SessionStatus(Option<SessionStatus>),
    Data(Vec<u8>),
}

/// The peer a request goes to: its node id and the address of its RPC
/// endpoint. The transport keeps the connection that belongs to it.
#[derive(Debug, PartialEq, Eq)]
pub struct NodeGrpcClient {
    pub node_id: NodeId,
    pub addr: Addr,
}

impl Clone for NodeGrpcClient {
    fn clone(&self) -> (r: NodeGrpcClient)
        ensures
            r == *self,
    {
        NodeGrpcClient { node_id: self.node_id, addr: self.addr.clone() }
    }
}

/// One request bound for one peer, with the budget the transport may spend
/// on it: how often to try again, and how long to wait between tries.
#[derive(Debug, PartialEq, Eq)]
pub struct MessageSender {
    pub client: NodeGrpcClient,
    pub msg_type: MessageType,
    pub msg: Message,
    pub max_retries: usize,
    pub retry_interval_millis: u64,
}

/// Pause between two tries of a request, in milliseconds.
pub const RETRY_INTERVAL_MILLIS: u64 = 500;

impl MessageSender {
    /// A request that is tried once.
    pub fn new(client: NodeGrpcClient, msg_type: MessageType, msg: Message) -> (r: MessageSender)
        ensures
            r == (MessageSender {
                client,
                msg_type,
                msg,
                max_retries: 0,
                retry_interval_millis: RETRY_INTERVAL_MILLIS,
            }),
    {
        MessageSender { client, msg_type, msg, max_retries: 0, retry_interval_millis: RETRY_INTERVAL_MILLIS }
    }

    /// The same request, tried again up to `max_retries` times.
    pub fn with_retries(self, max_retries: usize) -> (r: MessageSender)
        ensures
            r == (MessageSender { max_retries, ..self }),
    {
        MessageSender { max_retries, ..self }
    }

    /// Whether another try is due after `failures` failed ones.
    pub fn may_retry(&self, failures: usize) -> (r: bool)
        ensures
            r == (failures <= self.max_retries),
    {
        failures <= self.max_retries
    }
}

/// The peers of this node, one channel for each: no node id occurs twice.
#[derive(Debug, PartialEq, Eq)]
pub struct GrpcClients {
    peers: Vec<NodeGrpcClient>,
}

impl GrpcClients {
    /// The peers, in the order in which they were added.
    pub closed spec fn view(&self) -> Seq<NodeGrpcClient> {
        self.peers@
    }

    /// No node id occurs twice.
    pub closed spec fn wf(&self) -> bool {
        forall|i: int, j: int|
            0 <= i < j < self.peers@.len() ==> self.peers@[i].node_id != self.peers@[j].node_id
    }

    /// Whether there is a channel to a node.
    pub open spec fn has(&self, node_id: NodeId) -> bool {
        exists|i: int| 0 <= i < self.view().len() && #[trigger] self.view()[i].node_id == node_id
    }

    /// The channel to a node.
    pub open spec fn of(&self, node_id: NodeId) -> NodeGrpcClient {
        let i = choose|i: int| 0 <= i < self.view().len() && #[trigger] self.view()[i].node_id == node_id;
        self.view()[i]
    }

    pub fn new() -> (r: GrpcClients)
        ensures
            r.wf(),
            r.view() == Seq::<NodeGrpcClient>::empty(),
    {
        GrpcClients { peers: Vec::new() }
    }

    pub fn len(&self) -> (r: usize)
        ensures
            r == self.view().len(),
    {
        self.peers.len()
    }

    pub fn is_empty(&self) -> (r: bool)
        ensures
            r == (self.view().len() == 0),
    {
        self.peers.len() == 0
    }

    fn position(&self, node_id: NodeId) -> (r: Option<usize>)
        ensures
            match r {
                Some(i) => i < self.peers@.len() && self.peers@[i as int].node_id == node_id,
                None => forall|j: int|
                    0 <= j < self.peers@.len() ==> self.peers@[j].node_id != node_id,
            },
    {
        let mut i: usize = 0;
        while i < self.peers.len()
            invariant
                i <= self.peers@.len(),
                forall|j: int| 0 <= j < i ==> self.peers@[j].node_id != node_id,
            decreases self.peers@.len() - i,
        {
            if self.peers[i].node_id == node_id {
                return Some(i);
            }
            i = i + 1;
        }
        None
    }

    /// Adds the channel to a node, in place of an earlier one to that node.
    pub fn insert(&mut self, client: NodeGrpcClient)
        requires
            old(self).wf(),
        ensures
            final(self).wf(),
            final(self).has(client.node_id),
            final(self).of(client.node_id) == client,
            forall|n: NodeId|
                n != client.node_id ==> final(self).has(n) == old(self).has(n) && (old(self).has(n)
                    ==> final(self).of(n) == old(self).of(n)),
    {
        let ghost before = *self;
        let ghost id = client.node_id;
        match self.position(client.node_id) {
            Some(i) => {
                self.peers.set(i, client);
                proof {
                    assert(self.peers@[i as int].node_id == id);
                    assert forall|n: NodeId| n != id implies self.has(n) == before.has(n) && (
                    before.has(n) ==> self.of(n) == before.of(n)) by {
                        if before.has(n) {
                            let j = choose|j: int|
                                0 <= j < before.view().len() && #[trigger] before.view()[j].node_id
                                    == n;
                            assert(self.view()[j].node_id == n);
                            let k = choose|k: int|
                                0 <= k < self.view().len() && #[trigger] self.view()[k].node_id
                                    == n;
                            assert(before.view()[k].node_id == n);
                        }
                        if self.has(n) {
                            let j = choose|j: int|
                                0 <= j < self.view().len() && #[trigger] self.view()[j].node_id
                                    == n;
                            assert(before.view()[j].node_id == n);
                        }
                    }
                }
            },
            None => {
                self.peers.push(client);
                proof {
                    let last = before.peers@.len() as int;
                    assert(self.peers@[last].node_id == id);
                    assert forall|n: NodeId| n != id implies self.has(n) == before.has(n) && (
                    before.has(n) ==> self.of(n) == before.of(n)) by {
                        if before.has(n) {
                            let j = choose|j: int|
                                0 <= j < before.view().len() && #[trigger] before.view()[j].node_id
                                    == n;
                            assert(self.view()[j].node_id == n);
                            let k = choose|k: int|
                                0 <= k < self.view().len() && #[trigger] self.view()[k].node_id
                                    == n;
                            assert(before.view()[k].node_id == n);
                        }
                        if self.has(n) {
                            let j = choose|j: int|
                                0 <= j < self.view().len() && #[trigger] self.view()[j].node_id
                                    == n;
                            assert(before.view()[j].node_id == n);
                        }
                    }
                }
            },
        }
    }

    /// The channel to a node, if there is one.
    pub fn get(&self, node_id: NodeId) -> (r: Option<&NodeGrpcClient>)
        requires
            self.wf(),
        ensures
            r.is_some() == self.has(node_id),
            r matches Some(c) ==> *c == self.of(node_id),
    {
        match self.position(node_id) {
            Some(i) => {
                proof {
                    let j = choose|j: int|
                        0 <= j < self.view().len() && #[trigger] self.view()[j].node_id == node_id;
                    assert(j == i);
                }
                Some(&self.peers[i])
            },
            None => None,
        }
    }

    /// All the peers.
    pub fn all(&self) -> (r: &Vec<NodeGrpcClient>)
        ensures
            r@ == self.view(),
    {
        &self.peers
    }
}

/// One request bound for every peer.
#[derive(Debug, PartialEq, Eq)]
pub struct MessageBroadcaster {
    pub grpc_clients: GrpcClients,
    pub msg_type: MessageType,
    pub msg: Message,
}

impl MessageBroadcaster {
    /// A broadcast needs someone to go to.
    pub fn new(grpc_clients: GrpcClients, msg_type: MessageType, msg: Message) -> (r:
        MessageBroadcaster)
        requires
            grpc_clients.view().len() > 0,
        ensures
            r == (MessageBroadcaster { grpc_clients, msg_type, msg }),
    {
        MessageBroadcaster { grpc_clients, msg_type, msg }
    }

    /// The peers that get the request, one send each.
    pub fn targets(&self) -> (r: Vec<NodeGrpcClient>)
        ensures
            r@ == self.grpc_clients.view(),
    {
        let all = self.grpc_clients.all();
        let mut out: Vec<NodeGrpcClient> = Vec::new();
        let mut i: usize = 0;
        while i < all.len()
            invariant
                i <= all@.len(),
                out@ == all@.take(i as int),
            decreases all@.len() - i,
        {
            out.push(all[i].clone());
            i = i + 1;
        }
        out
    }
}

/// The outcome of asking every peer and taking the first good answer: the
/// first success in the order in which the answers came, and where every
/// peer failed, the failure that came last.
pub fn select_ok<R>(results: Vec<Result<R, MqttError>>) -> (r: Result<R, MqttError>)
    requires
        results@.len() > 0,
    ensures
        match r {
            Ok(v) => exists|i: int|
                0 <= i < results@.len() && #[trigger] results@[i] == Ok::<R, MqttError>(v) && forall|
                    j: int,
                | 0 <= j < i ==> results@[j] is Err,
            Err(e) => results@[results@.len() - 1] == Err::<R, MqttError>(e) && forall|j: int|
                0 <= j < results@.len() ==> results@[j] is Err,
        },
{
    let ghost all = results@;
    let mut rest = results;
    let mut last: Option<MqttError> = None;
    while rest.len() > 0
        invariant
            all == results@,
            all.len() > 0,
            rest@.len() <= all.len(),
            rest@ == all.skip(all.len() - rest@.len()),
            forall|j: int| 0 <= j < all.len() - rest@.len() ==> all[j] is Err,
            rest@.len() < all.len() ==> last is Some && all[all.len() - rest@.len() - 1] == Err::<
                R,
                MqttError,
            >(last->0),
        decreases rest@.len(),
    {
        let ghost done = all.len() - rest@.len();
        let x = rest.remove(0);
        proof {
            assert(x == all[done]);
            assert(rest@ =~= all.skip(done + 1));
        }
        match x {
            Ok(v) => {
                proof {
                    assert(all[done] == Ok::<R, MqttError>(v));
                }
                return Ok(v);
            },
            Err(e) => {
                last = Some(e);
            },
        }
    }
    match last {
        Some(e) => Err(e),
        None => {
            proof {
                assert(false);
            }
            Err(MqttError::ServiceUnavailable)
        },
    }
}

} // verus!
