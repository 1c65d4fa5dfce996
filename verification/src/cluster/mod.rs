//! The cluster: how the nodes of a broker agree on which of them owns a
//! client identity, and how they forward publishes, kicks and queries to
//! one another.

pub mod config;
pub mod handler;
pub mod message;
pub mod notify;
pub mod router;
pub mod shared;
