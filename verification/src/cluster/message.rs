//! The facts that the nodes commit to the consensus log, and the answers
//! the log gives when a fact is applied.

use vstd::prelude::*;
use crate::types::Id;

verus! {

/// A fact proposed to the consensus log.
#[derive(Debug, PartialEq, Eq)]
pub enum Message {
    /// A connection asks for the ownership of its client id.
    HandshakeTryLock { id: Id },
    /// A session was installed: its node owns the client id now.
    Connected { id: Id },
    /// The connection closed; the session may live on.
    Disconnected { id: Id },
    /// The session ended.
    SessionTerminated { id: Id },
}

impl Message {
    /// The identity the fact speaks of.
    pub fn id(&self) -> (r: &Id)
        ensures
            *r == self.spec_id(),
    {
        match self {
            Message::HandshakeTryLock { id } => id,
            Message::Connected { id } => id,
            Message::Disconnected { id } => id,
            Message::SessionTerminated { id } => id,
        }
    }

    pub open spec fn spec_id(&self) -> Id {
        match self {
            Message::HandshakeTryLock { id } => *id,
            Message::Connected { id } => *id,
            Message::Disconnected { id } => *id,
            Message::SessionTerminated { id } => *id,
        }
    }
}

/// What the log answers. A fact that needs no answer gets none.
#[derive(Debug, PartialEq, Eq)]
pub enum MessageReply {
    Error(String),
    /// The identity that owned the client id before, if any did.
    HandshakeTryLock(Option<Id>),
}

/// Whether an answer came with the commit: an empty answer means none.
pub fn has_reply(reply: &Vec<u8>) -> (r: bool)
    ensures
        r == (reply@.len() > 0),
{
    reply.len() > 0
}

} // verus!
