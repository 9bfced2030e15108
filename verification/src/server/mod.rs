//! The connection, routing and persistence core of the relay.

pub mod bonzoendpoint;
pub mod channel;
pub mod connection;
pub mod json;
pub mod message;
pub mod persistence;
pub mod queue;
pub mod registry;
