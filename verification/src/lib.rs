//! Core of a clustered MQTT broker: the topic-matching trie, the session
//! registry, the inflight window, the handshake and control decisions of a
//! connection, and the decisions by which a cluster arbitrates ownership of
//! client identities.

pub mod broker;
pub mod cluster;
pub mod collections;
pub mod grpc;
pub mod plugins;
pub mod retain;
pub mod settings;
pub mod text;
pub mod topic;
pub mod types;
