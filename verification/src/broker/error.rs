//! The errors of the broker.

use vstd::prelude::*;
use crate::text::join2;

verus! {

/// What can go wrong in the broker. Causes that come from outside the
/// library are carried by their text.
#[derive(Debug, PartialEq, Eq)]
pub enum MqttError {
    /// The registry, a lock or the consensus layer could not serve.
    ServiceUnavailable,
    /// Reading or writing took longer than the given milliseconds.
    Timeout(u64),
    SendPacketError(String),
    Error(String),
    IoError(String),
    Msg(String),
    Anyhow(String),
    Json(String),
    /// A topic or topic filter is malformed.
    TopicError(String),
    Utf8Error(String),
    TooManySubscriptions,
    ConfigError(String),
    AddrParseError(String),
    ParseIntError(String),
    ListenerConfigError,
    NoneError,
}

impl Default for MqttError {
    fn default() -> (r: MqttError)
        ensures
            r == MqttError::ServiceUnavailable,
    {
        MqttError::ServiceUnavailable
    }
}

impl From<()> for MqttError {
    fn from(e: ()) -> (r: MqttError) {
        MqttError::ServiceUnavailable
    }
}

impl vstd::std_specs::convert::FromSpecImpl<()> for MqttError {
    open spec fn obeys_from_spec() -> bool {
        true
    }

    open spec fn from_spec(e: ()) -> MqttError {
        MqttError::ServiceUnavailable
    }
}

impl From<String> for MqttError {
    fn from(e: String) -> (r: MqttError) {
        MqttError::Msg(e)
    }
}

impl vstd::std_specs::convert::FromSpecImpl<String> for MqttError {
    open spec fn obeys_from_spec() -> bool {
        true
    }

    open spec fn from_spec(e: String) -> MqttError {
        MqttError::Msg(e)
    }
}

impl MqttError {
    /// The error that says `text`.
    pub fn msg(text: &str) -> (r: MqttError)
        ensures
            r matches MqttError::Msg(s) && s@ == text@,
    {
        MqttError::Msg(String::from_str(text))
    }

    /// What the error says, as the log and the peer read it.
    pub open spec fn spec_message(self) -> Seq<char> {
        match self {
            MqttError::ServiceUnavailable => "service unavailable"@,
            MqttError::Timeout(_) => "read/write timeout"@,
            MqttError::SendPacketError(e) => "send packet error, "@ + e@,
            MqttError::Error(e) => e@,
            MqttError::IoError(e) => e@,
            MqttError::Msg(e) => e@,
            MqttError::Anyhow(e) => e@,
            MqttError::Json(e) => e@,
            MqttError::TopicError(e) => "topic error, "@ + e@,
            MqttError::Utf8Error(e) => "utf8 error, "@ + e@,
            MqttError::TooManySubscriptions => "too many subscriptions"@,
            MqttError::ConfigError(e) => e@,
            MqttError::AddrParseError(e) => e@,
            MqttError::ParseIntError(e) => e@,
            MqttError::ListenerConfigError => "listener config is error"@,
            MqttError::NoneError => "None"@,
        }
    }

    /// What the error says.
    pub fn message(&self) -> (r: String)
        ensures
            r@ == self.spec_message(),
    {
        match self {
            MqttError::ServiceUnavailable => String::from_str("service unavailable"),
            MqttError::Timeout(_) => String::from_str("read/write timeout"),
            MqttError::SendPacketError(e) => join2("send packet error, ", e.as_str()),
            MqttError::Error(e) => e.clone(),
            MqttError::IoError(e) => e.clone(),
            MqttError::Msg(e) => e.clone(),
            MqttError::Anyhow(e) => e.clone(),
            MqttError::Json(e) => e.clone(),
            MqttError::TopicError(e) => join2("topic error, ", e.as_str()),
            MqttError::Utf8Error(e) => join2("utf8 error, ", e.as_str()),
            MqttError::TooManySubscriptions => String::from_str("too many subscriptions"),
            MqttError::ConfigError(e) => e.clone(),
            MqttError::AddrParseError(e) => e.clone(),
            MqttError::ParseIntError(e) => e.clone(),
            MqttError::ListenerConfigError => String::from_str("listener config is error"),
            MqttError::NoneError => String::from_str("None"),
        }
    }
}

} // verus!
