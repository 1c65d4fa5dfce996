//! Plain data shared by the broker's components: identities, publishes,
//! subscription relations and the small enums the protocol negotiates.

use vstd::prelude::*;

verus! {

/// The number of a node of the cluster.
pub type NodeId = u64;

pub type ClientId = String;

pub type UserName = String;

pub type TopicName = String;

pub type TopicFilter = String;

pub type Addr = String;

pub type SharedGroup = String;

pub type Reason = String;

/// A point in time, in milliseconds since the epoch.
pub type TimestampMillis = i64;

/// The identifier of a packet within one connection.
pub type PacketId = u16;

pub type IsAdmin = bool;

pub type ClearSubscriptions = bool;

pub type IsOnline = bool;

/// A network endpoint as the listener reports it: textual address and port.
#[derive(Debug, PartialEq, Eq)]
pub struct SocketAddress {
    pub ip: String,
    pub port: u16,
}

impl Clone for SocketAddress {
    fn clone(&self) -> (r: SocketAddress)
        ensures
            r == *self,
    {
        SocketAddress { ip: self.ip.clone(), port: self.port }
    }
}

/// A copy of an optional text.
pub fn clone_opt_string(s: &Option<String>) -> (r: Option<String>)
    ensures
        r == *s,
{
    match s {
        Some(t) => Some(t.clone()),
        None => None,
    }
}

/// A copy of an optional endpoint.
pub fn clone_opt_addr(a: &Option<SocketAddress>) -> (r: Option<SocketAddress>)
    ensures
        r == *a,
{
    match a {
        Some(t) => Some(t.clone()),
        None => None,
    }
}

/// Delivery guarantee negotiated per publish or subscription.
#[derive(Clone, Copy, Debug, PartialEq, Eq, Structural)]
pub enum QoS {
    AtMostOnce,
    AtLeastOnce,
    ExactlyOnce,
}

impl QoS {
    pub open spec fn level(self) -> int {
        match self {
            QoS::AtMostOnce => 0,
            QoS::AtLeastOnce => 1,
            QoS::ExactlyOnce => 2,
        }
    }

    /// The numeric level, 0 to 2.
    pub fn value(self) -> (r: u8)
        ensures
            r as int == self.level(),
    {
        match self {
            QoS::AtMostOnce => 0,
            QoS::AtLeastOnce => 1,
            QoS::ExactlyOnce => 2,
        }
    }

    /// The guarantee with the given numeric level, if there is one.
    pub fn from_level(level: u8) -> (r: Option<QoS>)
        ensures
            level <= 2 <==> r.is_some(),
            r matches Some(q) ==> q.level() == level as int,
    {
        if level == 0 {
            Some(QoS::AtMostOnce)
        } else if level == 1 {
            Some(QoS::AtLeastOnce)
        } else if level == 2 {
            Some(QoS::ExactlyOnce)
        } else {
            None
        }
    }

    /// The weaker of two guarantees.
    pub fn less_value(self, other: QoS) -> (r: QoS)
        ensures
            r.level() == if self.level() <= other.level() {
                self.level()
            } else {
                other.level()
            },
    {
        if self.value() <= other.value() {
            self
        } else {
            other
        }
    }
}

/// Identity of one live connection. The client id is the cluster-wide
/// ownership key; the node id names the broker node that holds the session.
#[derive(Debug, PartialEq, Eq)]
pub struct Id {
    pub node_id: NodeId,
    pub local_addr: Option<SocketAddress>,
    pub remote_addr: Option<SocketAddress>,
    pub client_id: ClientId,
    pub username: Option<UserName>,
}

impl Clone for Id {
    fn clone(&self) -> (r: Id)
        ensures
            r == *self,
    {
        Id {
            node_id: self.node_id,
            local_addr: clone_opt_addr(&self.local_addr),
            remote_addr: clone_opt_addr(&self.remote_addr),
            client_id: self.client_id.clone(),
            username: clone_opt_string(&self.username),
        }
    }
}

/// Whether two optional texts read the same.
pub open spec fn same_opt_text(a: Option<String>, b: Option<String>) -> bool {
    match (a, b) {
        (Some(x), Some(y)) => x@ == y@,
        (None, None) => true,
        _ => false,
    }
}

/// Whether two optional endpoints are the same.
pub open spec fn same_opt_addr(a: Option<SocketAddress>, b: Option<SocketAddress>) -> bool {
    match (a, b) {
        (Some(x), Some(y)) => x.ip@ == y.ip@ && x.port == y.port,
        (None, None) => true,
        _ => false,
    }
}

fn opt_text_eq(a: &Option<String>, b: &Option<String>) -> (r: bool)
    ensures
        r == same_opt_text(*a, *b),
{
    match (a, b) {
        (Some(x), Some(y)) => *x == *y,
        (None, None) => true,
        _ => false,
    }
}

fn opt_addr_eq(a: &Option<SocketAddress>, b: &Option<SocketAddress>) -> (r: bool)
    ensures
        r == same_opt_addr(*a, *b),
{
    match (a, b) {
        (Some(x), Some(y)) => x.ip == y.ip && x.port == y.port,
        (None, None) => true,
        _ => false,
    }
}

impl Id {
    /// Whether two identities are the same in every part.
    pub open spec fn same(self, other: Id) -> bool {
        &&& self.node_id == other.node_id
        &&& self.client_id@ == other.client_id@
        &&& same_opt_text(self.username, other.username)
        &&& same_opt_addr(self.local_addr, other.local_addr)
        &&& same_opt_addr(self.remote_addr, other.remote_addr)
    }

    /// Whether two identities are the same in every part.
    pub fn is_same(&self, other: &Id) -> (r: bool)
        ensures
            r == self.same(*other),
    {
        self.node_id == other.node_id && self.client_id == other.client_id && opt_text_eq(
            &self.username,
            &other.username,
        ) && opt_addr_eq(&self.local_addr, &other.local_addr) && opt_addr_eq(
            &self.remote_addr,
            &other.remote_addr,
        )
    }

    pub fn new(
        node_id: NodeId,
        local_addr: Option<SocketAddress>,
        remote_addr: Option<SocketAddress>,
        client_id: ClientId,
        username: Option<UserName>,
    ) -> (r: Id)
        ensures
            r == (Id { node_id, local_addr, remote_addr, client_id, username }),
    {
        Id { node_id, local_addr, remote_addr, client_id, username }
    }

    /// An identity known only by node and client id.
    pub fn from(node_id: NodeId, client_id: ClientId) -> (r: Id)
        ensures
            r == (Id { node_id, local_addr: None, remote_addr: None, client_id, username: None }),
    {
        Id { node_id, local_addr: None, remote_addr: None, client_id, username: None }
    }

    pub fn node(&self) -> (r: NodeId)
        ensures
            r == self.node_id,
    {
        self.node_id
    }

    /// Length of the client id in bytes of UTF-8, as the wire format counts it.
    pub open spec fn client_id_bytes(&self) -> usize {
        vstd::utf8::encode_utf8(self.client_id@).len() as usize
    }

    /// Length of the client id in bytes.
    pub fn client_id_len(&self) -> (r: usize)
        ensures
            r == self.client_id_bytes(),
    {
        self.client_id.as_str().len()
    }
}

/// Where a publish came from.
#[derive(Clone, Copy, Debug, PartialEq, Eq, Structural)]
pub enum FromType {
    Custom,
    Admin,
    System,
    LastWill,
    Bridge,
}

/// Origin of a publish: who sent it, and in which role.
#[derive(Debug, PartialEq, Eq)]
pub struct Origin {
    pub typ: FromType,
    pub id: Id,
}

impl Clone for Origin {
    fn clone(&self) -> (r: Origin)
        ensures
            r == *self,
    {
        Origin { typ: self.typ, id: self.id.clone() }
    }
}

impl Origin {
    pub fn from_custom(id: Id) -> (r: Origin)
        ensures
            r == (Origin { typ: FromType::Custom, id }),
    {
        Origin { typ: FromType::Custom, id }
    }

    pub fn from_admin(id: Id) -> (r: Origin)
        ensures
            r == (Origin { typ: FromType::Admin, id }),
    {
        Origin { typ: FromType::Admin, id }
    }

    pub fn from_system(id: Id) -> (r: Origin)
        ensures
            r == (Origin { typ: FromType::System, id }),
    {
        Origin { typ: FromType::System, id }
    }

    pub fn from_lastwill(id: Id) -> (r: Origin)
        ensures
            r == (Origin { typ: FromType::LastWill, id }),
    {
        Origin { typ: FromType::LastWill, id }
    }

    pub fn from_bridge(id: Id) -> (r: Origin)
        ensures
            r == (Origin { typ: FromType::Bridge, id }),
    {
        Origin { typ: FromType::Bridge, id }
    }
}

/// Receiver of a publish.
pub type To = Id;

/// Optional properties a version 5 publish carries.
#[derive(Debug, PartialEq, Eq)]
pub struct PublishProperties {
    pub topic_alias: Option<u16>,
    pub correlation_data: Option<Vec<u8>>,
    pub message_expiry_interval: Option<u32>,
    pub content_type: Option<String>,
    pub user_properties: Vec<(String, String)>,
    pub is_utf8_payload: Option<bool>,
    pub response_topic: Option<String>,
    pub subscription_ids: Option<Vec<u32>>,
}

/// Whether two optional lists hold the same, item by item.
pub open spec fn same_opt_list<T>(a: Option<Vec<T>>, b: Option<Vec<T>>) -> bool {
    match (a, b) {
        (Some(x), Some(y)) => x@ == y@,
        (None, None) => true,
        _ => false,
    }
}

/// A copy of a list of bytes.
pub fn clone_bytes(v: &Vec<u8>) -> (r: Vec<u8>)
    ensures
        r@ == v@,
{
    let mut out: Vec<u8> = Vec::new();
    let mut i: usize = 0;
    while i < v.len()
        invariant
            i <= v.len(),
            out@ == v@.take(i as int),
        decreases v.len() - i,
    {
        out.push(v[i]);
        proof {
            assert(out@ =~= v@.take(i + 1));
        }
        i = i + 1;
    }
    proof {
        assert(v@.take(v.len() as int) =~= v@);
    }
    out
}

fn clone_numbers(v: &Vec<u32>) -> (r: Vec<u32>)
    ensures
        r@ == v@,
{
    let mut out: Vec<u32> = Vec::new();
    let mut i: usize = 0;
    while i < v.len()
        invariant
            i <= v.len(),
            out@ == v@.take(i as int),
        decreases v.len() - i,
    {
        out.push(v[i]);
        proof {
            assert(out@ =~= v@.take(i + 1));
        }
        i = i + 1;
    }
    proof {
        assert(v@.take(v.len() as int) =~= v@);
    }
    out
}

fn clone_pairs(v: &Vec<(String, String)>) -> (r: Vec<(String, String)>)
    ensures
        r@ == v@,
{
    let mut out: Vec<(String, String)> = Vec::new();
    let mut i: usize = 0;
    while i < v.len()
        invariant
            i <= v.len(),
            out@ == v@.take(i as int),
        decreases v.len() - i,
    {
        out.push((v[i].0.clone(), v[i].1.clone()));
        proof {
            assert(out@ =~= v@.take(i + 1));
        }
        i = i + 1;
    }
    proof {
        assert(v@.take(v.len() as int) =~= v@);
    }
    out
}

impl PublishProperties {
    /// Whether two sets of properties hold the same, field by field and,
    /// in a list, item by item.
    pub open spec fn same(self, other: PublishProperties) -> bool {
        &&& self.topic_alias == other.topic_alias
        &&& same_opt_list(self.correlation_data, other.correlation_data)
        &&& self.message_expiry_interval == other.message_expiry_interval
        &&& self.content_type == other.content_type
        &&& self.user_properties@ == other.user_properties@
        &&& self.is_utf8_payload == other.is_utf8_payload
        &&& self.response_topic == other.response_topic
        &&& same_opt_list(self.subscription_ids, other.subscription_ids)
    }
}

impl Clone for PublishProperties {
    fn clone(&self) -> (r: PublishProperties)
        ensures
            self.same(r),
    {
        PublishProperties {
            topic_alias: self.topic_alias,
            correlation_data: match &self.correlation_data {
                Some(data) => Some(clone_bytes(data)),
                None => None,
            },
            message_expiry_interval: self.message_expiry_interval,
            content_type: clone_opt_string(&self.content_type),
            user_properties: clone_pairs(&self.user_properties),
            is_utf8_payload: self.is_utf8_payload,
            response_topic: clone_opt_string(&self.response_topic),
            subscription_ids: match &self.subscription_ids {
                Some(ids) => Some(clone_numbers(ids)),
                None => None,
            },
        }
    }
}

/// An application message on its way through the broker.
#[derive(Debug, PartialEq, Eq)]
pub struct Publish {
    pub dup: bool,
    pub retain: bool,
    pub qos: QoS,
    pub topic: TopicName,
    pub packet_id: Option<PacketId>,
    pub payload: Vec<u8>,
    pub properties: PublishProperties,
    pub create_time: TimestampMillis,
}

impl Publish {
    /// Whether two messages hold the same, field by field and, in a list,
    /// item by item.
    pub open spec fn same(self, other: Publish) -> bool {
        &&& self.dup == other.dup
        &&& self.retain == other.retain
        &&& self.qos == other.qos
        &&& self.topic == other.topic
        &&& self.packet_id == other.packet_id
        &&& self.payload@ == other.payload@
        &&& self.properties.same(other.properties)
        &&& self.create_time == other.create_time
    }
}

impl Clone for Publish {
    fn clone(&self) -> (r: Publish)
        ensures
            self.same(r),
    {
        Publish {
            dup: self.dup,
            retain: self.retain,
            qos: self.qos,
            topic: self.topic.clone(),
            packet_id: self.packet_id,
            payload: clone_bytes(&self.payload),
            properties: self.properties.clone(),
            create_time: self.create_time,
        }
    }
}

/// A retained message: the last publish on a topic, with its origin.
#[derive(Clone, Debug, PartialEq, Eq)]
pub struct Retain {
    pub msg_id: Option<u64>,
    pub from: Origin,
    pub publish: Publish,
}

/// One subscriber that a publish matched: the filter it subscribed with, the
/// subscribing client, the granted guarantee, and its share group if any.
#[derive(Debug, PartialEq, Eq)]
pub struct SubRelation {
    pub topic_filter: TopicFilter,
    pub client_id: ClientId,
    pub qos: QoS,
    pub group: Option<(SharedGroup, IsOnline)>,
}

pub type SubRelations = Vec<SubRelation>;

/// The subscribers of one publish, grouped by the node that owns them.
/// No node id occurs twice.
pub type SubRelationsMap = Vec<(NodeId, SubRelations)>;

/// A route: the node on which some client subscribed with this filter.
#[derive(Debug, PartialEq, Eq)]
pub struct Route {
    pub node_id: NodeId,
    pub topic: TopicFilter,
}

/// What the cluster knows of a client id: its current identity, whether it
/// is online, and whether a handshake for it is under way.
#[derive(Debug, PartialEq, Eq)]
pub struct SessionStatus {
    pub id: Id,
    pub online: IsOnline,
    pub handshaking: bool,
}

/// Query for a search over subscriptions.
#[derive(Debug, PartialEq, Eq)]
pub struct SubsSearchParams {
    pub limit: usize,
    pub clientid: Option<String>,
    pub topic: Option<String>,
    pub qos: Option<u8>,
    pub share: Option<SharedGroup>,
    pub match_topic: Option<String>,
}

/// One subscription found by a search.
#[derive(Debug, PartialEq, Eq)]
pub struct SubsSearchResult {
    pub node_id: NodeId,
    pub clientid: ClientId,
    pub client_addr: Option<SocketAddress>,
    pub topic: TopicFilter,
    pub qos: u8,
    pub share: Option<SharedGroup>,
}

/// One subscription of a session.
#[derive(Debug, PartialEq, Eq)]
pub struct Subscription {
    pub topic_filter: TopicFilter,
    pub qos: QoS,
    pub shared_group: Option<SharedGroup>,
}

/// The detached snapshot of a session that was evicted: what a later
/// connection with `clean_start = false` resumes from.
#[derive(Debug, PartialEq, Eq)]
pub struct SessionOfflineInfo {
    pub id: Id,
    pub subscriptions: Vec<Subscription>,
    pub created_at: TimestampMillis,
}

} // verus!
