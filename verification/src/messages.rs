//! The messages exchanged between connection handlers and the coordinator.

use vstd::prelude::*;

verus! {

/// Registers a connection with the coordinator and joins it to a room. The
/// outbound-delivery capability for the connection is held by the runtime
/// that owns the transport, keyed by `self_id`.
pub struct Connect {
    pub self_id: u128,
    pub lobby_id: u128,
}

/// Withdraws a connection from the coordinator and from its room.
pub struct Disconnect {
    pub id: u128,
    pub room_id: u128,
}

/// A chat payload from one connection, to be routed within its room (or, for
/// a whisper, to a single target connection).
pub struct ClientActorMessage {
    pub id: u128,
    pub msg: String,
    pub room_id: u128,
}

/// One outbound text delivery owed to one connection: the runtime pushes
/// `text` to the transport registered for `to`.
pub struct WsMessage {
    pub to: u128,
    pub text: String,
}

} // verus!
