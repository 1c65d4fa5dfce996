//! The broker proper: errors, the inflight window, the session registry,
//! and the decisions of a connection's handshake and control flow.

pub mod awaiting_rel;
pub mod error;
pub mod inflight;
pub mod registry;
pub mod router;
pub mod session;
pub mod standalone;
pub mod v5;
