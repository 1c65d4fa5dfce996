//! Settings and decisions of the broker's plugins.

pub mod auth_http;
pub mod bridge_egress_kafka;
pub mod bridge_egress_reductstore;
pub mod registration;
pub mod retainer;
pub mod sys_topic;
