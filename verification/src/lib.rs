//! A verified room/session coordinator for a text broadcast relay.
//!
//! The `lobby` module holds the coordinator: it owns the session and room
//! bookkeeping and decides, for every control or chat message, which
//! connections are owed an outbound text. The `web_socket` module holds the
//! per-connection lifecycle machine with its liveness clock. Both are pure
//! state machines: delivery handles, timers and the transport itself live in
//! the surrounding (unverified) runtime, which feeds events in and carries the
//! returned deliveries out.

pub mod ids;
pub mod laws;
pub mod lobby;
pub mod messages;
pub mod web_socket;
