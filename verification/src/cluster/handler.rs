//! What the cluster does when the broker tells it of an event: which facts
//! go to the consensus log, and how a request of another node is served.

use vstd::prelude::*;
use crate::broker::error::MqttError;
use crate::cluster::message::Message as RaftMessage;
use crate::cluster::shared::ClusterShared;
use crate::grpc::{Message, MessageReply, MessageType};
use crate::types::{
    ClearSubscriptions, Id, IsAdmin, Origin, Publish, Retain, SessionOfflineInfo,
    SubRelations, SubsSearchResult, TopicFilter, TopicName,
};

verus! {

/// Whether `needle` occurs in `hay` as a run of characters.
pub open spec fn contains_text(hay: Seq<char>, needle: Seq<char>) -> bool {
    exists|i: int|
        0 <= i <= hay.len() - needle.len() && #[trigger] hay.subrange(i, i + needle.len()) == needle
}

/// `str::contains` with a text as the pattern: whether the pattern
/// matches a part of the text, as the documentation of std has it.
#[verifier::external_body]
fn str_contains(hay: &str, needle: &str) -> (r: bool)
    ensures
        r == contains_text(hay@, needle@),
{
    hay.contains(needle)
}

/// Whether the end of a connection is committed to the log. The end of a
/// connection that was kicked is not: the kick came with a new owner, and
/// the log knows of that one already.
pub fn announces_disconnect(reason: &str) -> (r: bool)
    ensures
        r == !contains_text(reason@, "Kicked"@),
{
    !str_contains(reason, "Kicked")
}

/// The fact that tells the cluster of a closed connection, if one is due.
pub fn disconnected_fact(id: Id, reason: &str) -> (r: Option<RaftMessage>)
    ensures
        r == if contains_text(reason@, "Kicked"@) {
            None
        } else {
            Some(RaftMessage::Disconnected { id })
        },
{
    if announces_disconnect(reason) {
        Some(RaftMessage::Disconnected { id })
    } else {
        None
    }
}

/// The fact that tells the cluster of an ended session.
pub fn session_terminated_fact(id: Id) -> (r: RaftMessage)
    ensures
        r == (RaftMessage::SessionTerminated { id }),
{
    RaftMessage::SessionTerminated { id }
}

/// What the commit of such a fact comes to once the time for retries has
/// run out: the connection is closed by then, so a failure is noted and
/// goes no further.
pub fn notification_outcome<T, E>(commit: Result<T, E>) -> (logged: bool)
    ensures
        logged == commit is Err,
{
    match commit {
        Ok(_) => false,
        Err(_) => true,
    }
}

/// A request of another node that the cluster serves.
#[derive(Debug, PartialEq, Eq)]
pub enum GrpcRequest {
    /// Deliver a publish to subscribers on this node.
    ForwardsTo(Origin, Publish, SubRelations),
    /// Evict the session of an identity from this node.
    Kick(Id, ClearSubscriptions, IsAdmin),
    /// Give the retained messages that a filter matches.
    GetRetains(TopicFilter),
    /// Give the subscriptions of the session with this identity.
    SubscriptionsGet(Id),
}

/// What to do with a request that came in: `Err` hands the request on to
/// the next handler, untouched, where it travels under another tag or is
/// of a kind the cluster does not serve; `Ok` is the request to serve, and
/// no other handler sees it. A query for subscriptions is for the session
/// on this node.
pub fn grpc_received(shared: &ClusterShared, typ: MessageType, msg: Message) -> (r: Result<
    GrpcRequest,
    Message,
>)
    ensures
        r == if shared.message_type != typ {
            Err::<GrpcRequest, Message>(msg)
        } else {
            match msg {
                Message::ForwardsTo(from, publish, rels) => Ok::<GrpcRequest, Message>(
                    GrpcRequest::ForwardsTo(from, publish, rels),
                ),
                Message::Kick(id, clear, is_admin) => Ok::<GrpcRequest, Message>(
                    GrpcRequest::Kick(id, clear, is_admin),
                ),
                Message::GetRetains(filter) => Ok::<GrpcRequest, Message>(
                    GrpcRequest::GetRetains(filter),
                ),
                Message::SubscriptionsGet(client_id) => Ok::<GrpcRequest, Message>(
                    GrpcRequest::SubscriptionsGet(
                        Id {
                            node_id: shared.node_id,
                            local_addr: None,
                            remote_addr: None,
                            client_id,
                            username: None,
                        },
                    ),
                ),
                other => Err::<GrpcRequest, Message>(other),
            }
        },
{
    if shared.message_type != typ {
        return Err(msg);
    }
    match msg {
        Message::ForwardsTo(from, publish, rels) => Ok(GrpcRequest::ForwardsTo(from, publish, rels)),
        Message::Kick(id, clear, is_admin) => Ok(GrpcRequest::Kick(id, clear, is_admin)),
        Message::GetRetains(filter) => Ok(GrpcRequest::GetRetains(filter)),
        Message::SubscriptionsGet(client_id) => Ok(
            GrpcRequest::SubscriptionsGet(Id::from(shared.node_id, client_id)),
        ),
        other => Err(other),
    }
}

/// The answer to a kick that another node asked for, and whether the
/// client id leaves the table of connecting clients at once: it does where
/// nothing was there to evict, and where an administrator evicted.
pub fn kick_reply(
    result: Result<Option<SessionOfflineInfo>, MqttError>,
    is_admin: IsAdmin,
) -> (r: (bool, Result<MessageReply, MqttError>))
    ensures
        match result {
            Ok(Some(o)) => r.0 == is_admin && r.1 == Ok::<MessageReply, MqttError>(
                MessageReply::Kick(Some(o)),
            ),
            Ok(None) => r.0 && r.1 == Ok::<MessageReply, MqttError>(MessageReply::Kick(None)),
            Err(e) => !r.0 && r.1 == Err::<MessageReply, MqttError>(e),
        },
{
    match result {
        Ok(Some(o)) => (is_admin, Ok(MessageReply::Kick(Some(o)))),
        Ok(None) => (true, Ok(MessageReply::Kick(None))),
        Err(e) => (false, Err(e)),
    }
}

/// The answer to a query for retained messages.
pub fn get_retains_reply(result: Result<Vec<(TopicName, Retain)>, MqttError>) -> (r: Result<
    MessageReply,
    MqttError,
>)
    ensures
        match result {
            Ok(retains) => r == Ok::<MessageReply, MqttError>(MessageReply::GetRetains(retains)),
            Err(e) => r == Err::<MessageReply, MqttError>(e),
        },
{
    match result {
        Ok(retains) => Ok(MessageReply::GetRetains(retains)),
        Err(e) => Err(e),
    }
}

/// The answer to a query for subscriptions.
pub fn subscriptions_get_reply(subs: Option<Vec<SubsSearchResult>>) -> (r: Result<
    MessageReply,
    MqttError,
>)
    ensures
        r == Ok::<MessageReply, MqttError>(MessageReply::SubscriptionsGet(subs)),
{
    Ok(MessageReply::SubscriptionsGet(subs))
}

} // verus!
