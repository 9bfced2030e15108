//! A relay for collaborative live-coding sessions.
//!
//! Connections are addressed by a room and an optional user. The relay routes
//! each inbound update to the peers that the sender's address may reach, and
//! records updates per room and user.

pub mod server;
