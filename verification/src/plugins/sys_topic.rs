//! The broker's reports about itself: the topics under `$SYS` on which
//! they go out, and the publishes that carry them.

use vstd::prelude::*;
use crate::text::{decimal, join2, join3, u64_to_string};
use crate::types::{
    FromType, Id, NodeId, Origin, Publish, PublishProperties, QoS, TimestampMillis,
};

verus! {

/// What a report is about.
#[derive(Clone, Copy, Debug, PartialEq, Eq, Structural)]
pub enum SysEvent {
    SessionCreated,
    SessionTerminated,
    ClientConnected,
    ClientDisconnected,
    SessionSubscribed,
    SessionUnsubscribed,
    MessageDropped,
    Stats,
    Metrics,
}

/// The part of a report's topic that says whom the report is about.
pub open spec fn subject(event: SysEvent) -> Seq<char> {
    match event {
        SysEvent::SessionCreated | SysEvent::SessionTerminated | SysEvent::SessionSubscribed
        | SysEvent::SessionUnsubscribed => "/session/"@,
        SysEvent::ClientConnected | SysEvent::ClientDisconnected => "/clients/"@,
        SysEvent::MessageDropped | SysEvent::Stats | SysEvent::Metrics => ""@,
    }
}

/// The part of a report's topic that says what happened.
pub open spec fn what(event: SysEvent) -> Seq<char> {
    match event {
        SysEvent::SessionCreated => "/created"@,
        SysEvent::SessionTerminated => "/terminated"@,
        SysEvent::ClientConnected => "/connected"@,
        SysEvent::ClientDisconnected => "/disconnected"@,
        SysEvent::SessionSubscribed => "/subscribed"@,
        SysEvent::SessionUnsubscribed => "/unsubscribed"@,
        SysEvent::MessageDropped => "/message/dropped"@,
        SysEvent::Stats => "/stats"@,
        SysEvent::Metrics => "/metrics"@,
    }
}

/// Whether a report is about one client.
pub open spec fn about_client(event: SysEvent) -> bool {
    !(event == SysEvent::MessageDropped || event == SysEvent::Stats || event == SysEvent::Metrics)
}

/// The topic of a report: `$SYS/brokers/`, the node, then for a report
/// about a client its kind and the client id, then what happened.
pub open spec fn spec_topic(nodeid: NodeId, event: SysEvent, client_id: Seq<char>) -> Seq<char> {
    let head = "$SYS/brokers/"@ + decimal(nodeid as nat);
    if about_client(event) {
        head + subject(event) + client_id + what(event)
    } else {
        head + what(event)
    }
}

fn subject_str(event: SysEvent) -> (r: &'static str)
    ensures
        r@ == subject(event),
{
    match event {
        SysEvent::SessionCreated => "/session/",
        SysEvent::SessionTerminated => "/session/",
        SysEvent::SessionSubscribed => "/session/",
        SysEvent::SessionUnsubscribed => "/session/",
        SysEvent::ClientConnected => "/clients/",
        SysEvent::ClientDisconnected => "/clients/",
        SysEvent::MessageDropped => "",
        SysEvent::Stats => "",
        SysEvent::Metrics => "",
    }
}

fn what_str(event: SysEvent) -> (r: &'static str)
    ensures
        r@ == what(event),
{
    match event {
        SysEvent::SessionCreated => "/created",
        SysEvent::SessionTerminated => "/terminated",
        SysEvent::ClientConnected => "/connected",
        SysEvent::ClientDisconnected => "/disconnected",
        SysEvent::SessionSubscribed => "/subscribed",
        SysEvent::SessionUnsubscribed => "/unsubscribed",
        SysEvent::MessageDropped => "/message/dropped",
        SysEvent::Stats => "/stats",
        SysEvent::Metrics => "/metrics",
    }
}

/// The topic on which a report goes out.
pub fn topic(nodeid: NodeId, event: SysEvent, client_id: &str) -> (r: String)
    ensures
        r@ == spec_topic(nodeid, event, client_id@),
{
    let node = u64_to_string(nodeid);
    let head = join2("$SYS/brokers/", node.as_str());
    let about = match event {
        SysEvent::MessageDropped => false,
        SysEvent::Stats => false,
        SysEvent::Metrics => false,
        _ => true,
    };
    if about {
        let mut s = join3(head.as_str(), subject_str(event), client_id);
        s.append(what_str(event));
        s
    } else {
        join2(head.as_str(), what_str(event))
    }
}

/// How long the broker waits between two reports of its counters: as long
/// as the settings say, and a second at least.
pub fn publish_interval(configured_millis: u64) -> (r: u64)
    ensures
        r == if configured_millis < 1000 {
            1000
        } else {
            configured_millis
        },
{
    if configured_millis < 1000 {
        1000
    } else {
        configured_millis
    }
}

/// The publish that carries a report: from the system itself, on the
/// report's topic, neither a duplicate nor retained, without a packet id.
pub fn sys_publish(
    nodeid: NodeId,
    topic: String,
    publish_qos: QoS,
    payload: Vec<u8>,
    now: TimestampMillis,
) -> (r: (Origin, Publish))
    ensures
        r.0.typ == FromType::System,
        r.0.id.node_id == nodeid,
        r.0.id.local_addr is None,
        r.0.id.remote_addr is None,
        r.0.id.client_id@ == "system"@,
        r.0.id.username matches Some(u) && u@ == "system"@,
        !r.1.dup,
        !r.1.retain,
        r.1.qos == publish_qos,
        r.1.topic == topic,
        r.1.packet_id is None,
        r.1.payload == payload,
        r.1.create_time == now,
        r.1.properties.user_properties@.len() == 0,
        r.1.properties.topic_alias is None,
        r.1.properties.correlation_data is None,
        r.1.properties.message_expiry_interval is None,
        r.1.properties.content_type is None,
        r.1.properties.is_utf8_payload is None,
        r.1.properties.response_topic is None,
        r.1.properties.subscription_ids is None,
{
    let from = Origin::from_system(
        Id::new(nodeid, None, None, String::from_str("system"), Some(String::from_str("system"))),
    );
    let p = Publish {
        dup: false,
        retain: false,
        qos: publish_qos,
        topic,
        packet_id: None,
        payload,
        properties: PublishProperties {
            topic_alias: None,
            correlation_data: None,
            message_expiry_interval: None,
            content_type: None,
            user_properties: Vec::new(),
            is_utf8_payload: None,
            response_topic: None,
            subscription_ids: None,
        },
        create_time: now,
    };
    (from, p)
}

} // verus!
