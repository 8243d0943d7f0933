//! The per-connection lifecycle machine.
//!
//! One `WebSocketConnection` stands for one live client connection: its
//! identifier, its room (fixed at creation), its liveness clock, and where it
//! is in its lifecycle. The machine decides; the surrounding runtime performs:
//! it delivers the returned control messages to the coordinator, writes the
//! returned actions to the transport, drives the recurring liveness timer,
//! and feeds every inbound frame through `handle`.

use vstd::prelude::*;

use crate::messages::ClientActorMessage;
use crate::messages::Connect;
use crate::messages::Disconnect;

verus! {

/// Seconds between two liveness-timer ticks.
pub const HEARTBEAT_INTERVAL: u64 = 3;

/// Seconds of peer silence after which a connection is force-closed.
pub const CLIENT_TIMEOUT: u64 = 60;

/// The lifecycle states of one connection handler.
#[derive(PartialEq, Eq, Structural, Clone, Copy, Debug)]
pub enum ConnState {
    /// Created; its registration with the coordinator is still in flight.
    Starting,
    /// Registered; frames and timer ticks are being processed.
    Active,
    /// On the way out; owes the coordinator one Disconnect.
    Stopping,
    /// Terminal; nothing further is processed.
    Stopped,
}

/// One inbound transport frame, as the handler sees it. `ProtocolError`
/// stands for a transport-protocol error on this connection: fatal to the
/// connection alone, never to the process.
pub enum WsFrame {
    Ping(Vec<u8>),
    Pong(Vec<u8>),
    Binary(Vec<u8>),
    Text(String),
    Close,
    Continuation,
    Nop,
    ProtocolError,
}

/// What the handler asks the runtime to do in response to one frame.
pub enum ConnAction {
    /// Answer a liveness probe with these bytes.
    Pong(Vec<u8>),
    /// Echo a binary payload back to the peer unmodified.
    EchoBinary(Vec<u8>),
    /// Hand a chat payload to the coordinator for routing.
    Forward(ClientActorMessage),
    /// Acknowledge the peer's close of the transport.
    CloseTransport,
}

/// How one inbound frame moves the machine from `pre` to `post` and which
/// action (if any) it owes the runtime. Only a probe or a probe answer
/// resets the liveness clock; a chat payload does not.
pub open spec fn frame_step(
    pre: WebSocketConnection,
    frame: WsFrame,
    now: u64,
    post: WebSocketConnection,
    act: Option<ConnAction>,
) -> bool {
    &&& post.id == pre.id
    &&& post.room == pre.room
    &&& match frame {
        WsFrame::Ping(b) => {
            &&& post.heart_beat == now
            &&& post.state == ConnState::Active
            &&& act matches Some(ConnAction::Pong(r)) && r@ == b@
        },
        WsFrame::Pong(_) => {
            &&& post.heart_beat == now
            &&& post.state == ConnState::Active
            &&& act is None
        },
        WsFrame::Binary(b) => {
            &&& post.heart_beat == pre.heart_beat
            &&& post.state == ConnState::Active
            &&& act matches Some(ConnAction::EchoBinary(r)) && r@ == b@
        },
        WsFrame::Text(t) => {
            &&& post.heart_beat == pre.heart_beat
            &&& post.state == ConnState::Active
            &&& act matches Some(ConnAction::Forward(m)) && m.id == pre.id && m.room_id
                == pre.room && m.msg@ == t@
        },
        WsFrame::Close => {
            &&& post.heart_beat == pre.heart_beat
            &&& post.state == ConnState::Stopping
            &&& act matches Some(ConnAction::CloseTransport)
        },
        WsFrame::Continuation => {
            &&& post.heart_beat == pre.heart_beat
            &&& post.state == ConnState::Stopping
            &&& act is None
        },
        WsFrame::Nop => {
            &&& post.heart_beat == pre.heart_beat
            &&& post.state == ConnState::Active
            &&& act is None
        },
        WsFrame::ProtocolError => {
            &&& post.heart_beat == pre.heart_beat
            &&& post.state == ConnState::Stopping
            &&& act is None
        },
    }
}

/// One connection handler: its identity, its room, the time its peer was
/// last heard from, and its lifecycle state.
pub struct WebSocketConnection {
    pub id: u128,
    pub room: u128,
    pub heart_beat: u64,
    pub state: ConnState,
}

impl WebSocketConnection {
    /// A fresh handler for connection `id` on `room`, created at time `now`.
    /// The identifier is drawn by the caller (it is random, so nothing can
    /// be promised of its value).
    pub fn new(id: u128, room: u128, now: u64) -> (c: WebSocketConnection)
        ensures
            c.id == id,
            c.room == room,
            c.heart_beat == now,
            c.state == ConnState::Starting,
    {
        WebSocketConnection { id, room, heart_beat: now, state: ConnState::Starting }
    }

    /// On activation: the registration the runtime must deliver to the
    /// coordinator.
    pub fn started(&self) -> (m: Connect)
        requires
            self.state == ConnState::Starting,
        ensures
            m.self_id == self.id,
            m.lobby_id == self.room,
    {
        Connect { self_id: self.id, lobby_id: self.room }
    }

    /// The outcome of delivering the registration: on success the handler
    /// becomes active; if the coordinator was unreachable the handler is
    /// finished and goes straight to its terminal state (it never joined, so
    /// it owes no Disconnect).
    pub fn connect_result(&mut self, ok: bool)
        requires
            old(self).state == ConnState::Starting,
        ensures
            final(self).id == old(self).id,
            final(self).room == old(self).room,
            final(self).heart_beat == old(self).heart_beat,
            final(self).state == if ok {
                ConnState::Active
            } else {
                ConnState::Stopped
            },
    {
        if ok {
            self.state = ConnState::Active;
        } else {
            self.state = ConnState::Stopped;
        }
    }

    /// One liveness-timer tick at time `now`. If the peer has been silent
    /// for longer than `CLIENT_TIMEOUT`, the connection is force-closed: the
    /// handler starts stopping and no probe is sent. Otherwise a probe is
    /// owed to the peer (`probe` is true).
    pub fn heart_beat(&mut self, now: u64) -> (probe: bool)
        requires
            old(self).state == ConnState::Active,
            now >= old(self).heart_beat,
        ensures
            final(self).id == old(self).id,
            final(self).room == old(self).room,
            final(self).heart_beat == old(self).heart_beat,
            probe == (now - old(self).heart_beat <= CLIENT_TIMEOUT),
            final(self).state == if now - old(self).heart_beat > CLIENT_TIMEOUT {
                ConnState::Stopping
            } else {
                ConnState::Active
            },
    {
        if now - self.heart_beat > CLIENT_TIMEOUT {
            self.state = ConnState::Stopping;
            false
        } else {
            true
        }
    }

    /// One inbound frame at time `now`, per `frame_step`: probes are
    /// answered and probe answers absorbed (both reset the liveness clock),
    /// binary payloads are echoed, text payloads are handed on for routing,
    /// a close is acknowledged, and a continuation frame or a transport
    /// protocol error starts stopping this one connection.
    pub fn handle(&mut self, frame: WsFrame, now: u64) -> (act: Option<ConnAction>)
        requires
            old(self).state == ConnState::Active,
        ensures
            frame_step(*old(self), frame, now, *final(self), act),
    {
        match frame {
            WsFrame::Ping(b) => {
                self.heart_beat = now;
                Some(ConnAction::Pong(b))
            },
            WsFrame::Pong(_) => {
                self.heart_beat = now;
                None
            },
            WsFrame::Binary(b) => Some(ConnAction::EchoBinary(b)),
            WsFrame::Text(t) => Some(
                ConnAction::Forward(
                    ClientActorMessage { id: self.id, msg: t, room_id: self.room },
                ),
            ),
            WsFrame::Close => {
                self.state = ConnState::Stopping;
                Some(ConnAction::CloseTransport)
            },
            WsFrame::Continuation => {
                self.state = ConnState::Stopping;
                None
            },
            WsFrame::Nop => None,
            WsFrame::ProtocolError => {
                self.state = ConnState::Stopping;
                None
            },
        }
    }

    /// On the way out — after a timeout, a close, a protocol error or an
    /// external stop — the best-effort Disconnect the runtime must deliver
    /// to the coordinator. The handler ends Stopped, and every operation of
    /// the machine demands a non-Stopped handler, so the Disconnect for a
    /// connection is issued at most once.
    pub fn stopping(&mut self) -> (m: Disconnect)
        requires
            old(self).state != ConnState::Stopped,
        ensures
            final(self).id == old(self).id,
            final(self).room == old(self).room,
            final(self).heart_beat == old(self).heart_beat,
            final(self).state == ConnState::Stopped,
            m.id == old(self).id,
            m.room_id == old(self).room,
    {
        self.state = ConnState::Stopped;
        Disconnect { id: self.id, room_id: self.room }
    }
}

} // verus!
