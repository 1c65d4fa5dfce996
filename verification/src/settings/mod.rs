//! Settings of the broker.

pub mod listener;
