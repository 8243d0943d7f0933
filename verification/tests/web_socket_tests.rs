use ws_lobby::lobby::Lobby;
use ws_lobby::messages::Connect;
use ws_lobby::web_socket::ConnAction;
use ws_lobby::web_socket::ConnState;
use ws_lobby::web_socket::WebSocketConnection;
use ws_lobby::web_socket::WsFrame;
use ws_lobby::web_socket::CLIENT_TIMEOUT;
use ws_lobby::web_socket::HEARTBEAT_INTERVAL;

const ID: u128 = 0xa1;
const PEER: u128 = 0xb2;
const ROOM: u128 = 0x9000;

fn active_conn(now: u64) -> WebSocketConnection {
    let mut c = WebSocketConnection::new(ID, ROOM, now);
    let reg = c.started();
    assert_eq!(reg.self_id, ID);
    assert_eq!(reg.lobby_id, ROOM);
    c.connect_result(true);
    assert_eq!(c.state, ConnState::Active);
    c
}

#[test]
fn failed_registration_ends_the_handler() {
    let mut c = WebSocketConnection::new(ID, ROOM, 0);
    assert_eq!(c.state, ConnState::Starting);
    c.started();
    c.connect_result(false);
    assert_eq!(c.state, ConnState::Stopped);
}

#[test]
fn probe_is_sent_while_the_peer_is_alive() {
    let mut c = active_conn(0);
    assert!(c.heart_beat(HEARTBEAT_INTERVAL));
    assert_eq!(c.state, ConnState::Active);
    // Exactly at the threshold the connection is still considered alive.
    assert!(c.heart_beat(CLIENT_TIMEOUT));
    assert_eq!(c.state, ConnState::Active);
}

#[test]
fn silent_peer_is_force_closed_after_the_timeout() {
    let mut c = active_conn(0);
    assert!(!c.heart_beat(CLIENT_TIMEOUT + 1));
    assert_eq!(c.state, ConnState::Stopping);
}

#[test]
fn timeout_disconnect_is_observed_by_room_peers_exactly_once() {
    let mut lobby = Lobby::default();
    lobby.handle_connect(&Connect { self_id: PEER, lobby_id: ROOM });
    let mut c = active_conn(0);
    lobby.handle_connect(&Connect { self_id: ID, lobby_id: ROOM });
    assert!(!c.heart_beat(CLIENT_TIMEOUT + 1));
    assert_eq!(c.state, ConnState::Stopping);
    let bye = c.stopping();
    assert_eq!(c.state, ConnState::Stopped);
    let out = lobby.handle_disconnect(&bye);
    assert_eq!(out.len(), 1);
    assert_eq!(out[0].to, PEER);
    assert_eq!(
        out[0].text,
        format!("{} disconnected.", uuid::Uuid::from_u128(ID))
    );
    // A replay of the same disconnect notifies nobody a second time.
    let replay = lobby.handle_disconnect(&bye);
    assert_eq!(replay.len(), 0);
}

#[test]
fn ping_resets_the_clock_and_is_answered() {
    let mut c = active_conn(0);
    let act = c.handle(WsFrame::Ping(vec![1, 2, 3]), 42);
    assert_eq!(c.heart_beat, 42);
    assert_eq!(c.state, ConnState::Active);
    match act {
        Some(ConnAction::Pong(b)) => assert_eq!(b, vec![1, 2, 3]),
        _ => panic!("a ping must be answered with a pong"),
    }
}

#[test]
fn pong_resets_the_clock_silently() {
    let mut c = active_conn(0);
    let act = c.handle(WsFrame::Pong(vec![]), 7);
    assert_eq!(c.heart_beat, 7);
    assert!(act.is_none());
    assert_eq!(c.state, ConnState::Active);
}

#[test]
fn binary_frames_are_echoed_without_touching_the_clock() {
    let mut c = active_conn(5);
    let act = c.handle(WsFrame::Binary(vec![9, 9]), 50);
    assert_eq!(c.heart_beat, 5);
    match act {
        Some(ConnAction::EchoBinary(b)) => assert_eq!(b, vec![9, 9]),
        _ => panic!("binary payloads are echoed"),
    }
}

#[test]
fn text_frames_are_forwarded_for_routing() {
    let mut c = active_conn(0);
    let act = c.handle(WsFrame::Text("hi all".to_string()), 1);
    match act {
        Some(ConnAction::Forward(m)) => {
            assert_eq!(m.id, ID);
            assert_eq!(m.room_id, ROOM);
            assert_eq!(m.msg, "hi all");
        }
        _ => panic!("text payloads go to the coordinator"),
    }
    assert_eq!(c.state, ConnState::Active);
}

#[test]
fn close_is_acknowledged_and_starts_stopping() {
    let mut c = active_conn(0);
    let act = c.handle(WsFrame::Close, 1);
    assert!(matches!(act, Some(ConnAction::CloseTransport)));
    assert_eq!(c.state, ConnState::Stopping);
    let bye = c.stopping();
    assert_eq!(bye.id, ID);
    assert_eq!(bye.room_id, ROOM);
    assert_eq!(c.state, ConnState::Stopped);
}

#[test]
fn continuation_frames_stop_the_handler() {
    let mut c = active_conn(0);
    let act = c.handle(WsFrame::Continuation, 1);
    assert!(act.is_none());
    assert_eq!(c.state, ConnState::Stopping);
}

#[test]
fn protocol_errors_are_fatal_to_this_connection_only() {
    let mut lobby = Lobby::default();
    lobby.handle_connect(&Connect { self_id: PEER, lobby_id: ROOM });
    let mut c = active_conn(0);
    lobby.handle_connect(&Connect { self_id: ID, lobby_id: ROOM });
    let act = c.handle(WsFrame::ProtocolError, 1);
    assert!(act.is_none());
    assert_eq!(c.state, ConnState::Stopping);
    let out = lobby.handle_disconnect(&c.stopping());
    assert_eq!(out.len(), 1);
    assert_eq!(out[0].to, PEER);
    // The coordinator and the peer's session survive.
    assert_eq!(lobby.session_count(), 1);
}

#[test]
fn nop_frames_change_nothing() {
    let mut c = active_conn(3);
    let act = c.handle(WsFrame::Nop, 99);
    assert!(act.is_none());
    assert_eq!(c.heart_beat, 3);
    assert_eq!(c.state, ConnState::Active);
}
