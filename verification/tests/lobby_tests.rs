use uuid::Uuid;
use ws_lobby::lobby::Lobby;
use ws_lobby::messages::ClientActorMessage;
use ws_lobby::messages::Connect;
use ws_lobby::messages::Disconnect;

const ROOM: u128 = 0x9000;
const OTHER_ROOM: u128 = 0x9001;
const A: u128 = 0xa1;
const B: u128 = 0xb2;
const C: u128 = 0xc3;

fn id_text(id: u128) -> String {
    format!("{}", Uuid::from_u128(id))
}

fn connect(lobby: &mut Lobby, id: u128, room: u128) -> Vec<ws_lobby::messages::WsMessage> {
    lobby.handle_connect(&Connect { self_id: id, lobby_id: room })
}

#[test]
fn first_join_greets_only_the_newcomer() {
    let mut lobby = Lobby::default();
    let out = connect(&mut lobby, A, ROOM);
    assert_eq!(out.len(), 1);
    assert_eq!(out[0].to, A);
    assert_eq!(out[0].text, format!("your id is {}", id_text(A)));
    assert_eq!(lobby.session_count(), 1);
    assert_eq!(lobby.room_count(), 1);
}

#[test]
fn second_join_notifies_first_and_greets_second() {
    let mut lobby = Lobby::default();
    connect(&mut lobby, A, ROOM);
    let out = connect(&mut lobby, B, ROOM);
    assert_eq!(out.len(), 2);
    assert_eq!(out[0].to, A);
    assert_eq!(out[0].text, format!("{} just joined!", id_text(B)));
    assert_eq!(out[1].to, B);
    assert_eq!(out[1].text, format!("your id is {}", id_text(B)));
    // The newcomer hears nothing about the earlier join.
    for m in &out {
        if m.to == B {
            assert_eq!(m.text, format!("your id is {}", id_text(B)));
        }
    }
}

#[test]
fn broadcast_reaches_all_members_including_sender() {
    let mut lobby = Lobby::default();
    connect(&mut lobby, A, ROOM);
    connect(&mut lobby, B, ROOM);
    connect(&mut lobby, C, ROOM);
    let out = lobby.handle_message(&ClientActorMessage {
        id: A,
        msg: "hello".to_string(),
        room_id: ROOM,
    });
    assert_eq!(out.len(), 3);
    let mut tos: Vec<u128> = out.iter().map(|m| m.to).collect();
    tos.sort();
    assert_eq!(tos, vec![A, B, C]);
    for m in &out {
        assert_eq!(m.text, "hello");
    }
}

#[test]
fn whisper_reaches_target_only_across_rooms() {
    let mut lobby = Lobby::default();
    connect(&mut lobby, A, ROOM);
    connect(&mut lobby, C, ROOM);
    connect(&mut lobby, B, OTHER_ROOM);
    let text = format!("\\w {} secret", id_text(B));
    let out = lobby.handle_message(&ClientActorMessage {
        id: A,
        msg: text.clone(),
        room_id: ROOM,
    });
    assert_eq!(out.len(), 1);
    assert_eq!(out[0].to, B);
    assert_eq!(out[0].text, text);
}

#[test]
fn whisper_without_body_still_reaches_target() {
    let mut lobby = Lobby::default();
    connect(&mut lobby, A, ROOM);
    connect(&mut lobby, B, ROOM);
    let text = format!("\\w {}", id_text(B));
    let out = lobby.handle_message(&ClientActorMessage {
        id: A,
        msg: text.clone(),
        room_id: ROOM,
    });
    assert_eq!(out.len(), 1);
    assert_eq!(out[0].to, B);
    assert_eq!(out[0].text, text);
}

#[test]
fn whisper_with_malformed_target_is_dropped_silently() {
    let mut lobby = Lobby::default();
    connect(&mut lobby, A, ROOM);
    let out = lobby.handle_message(&ClientActorMessage {
        id: A,
        msg: "\\w not-an-id hello".to_string(),
        room_id: ROOM,
    });
    assert_eq!(out.len(), 0);
}

#[test]
fn whisper_to_unknown_connection_is_dropped_silently() {
    let mut lobby = Lobby::default();
    connect(&mut lobby, A, ROOM);
    let text = format!("\\w {} psst", id_text(B));
    let out = lobby.handle_message(&ClientActorMessage { id: A, msg: text, room_id: ROOM });
    assert_eq!(out.len(), 0);
}

#[test]
fn marker_without_space_is_a_broadcast() {
    let mut lobby = Lobby::default();
    connect(&mut lobby, A, ROOM);
    connect(&mut lobby, B, ROOM);
    let out = lobby.handle_message(&ClientActorMessage {
        id: A,
        msg: "\\whatever".to_string(),
        room_id: ROOM,
    });
    assert_eq!(out.len(), 2);
    for m in &out {
        assert_eq!(m.text, "\\whatever");
    }
}

#[test]
fn disconnect_notifies_the_rest_exactly_once() {
    let mut lobby = Lobby::default();
    connect(&mut lobby, A, ROOM);
    connect(&mut lobby, B, ROOM);
    let out = lobby.handle_disconnect(&Disconnect { id: A, room_id: ROOM });
    assert_eq!(out.len(), 1);
    assert_eq!(out[0].to, B);
    assert_eq!(out[0].text, format!("{} disconnected.", id_text(A)));
    // The room now holds B alone: a broadcast reaches only B.
    let echo = lobby.handle_message(&ClientActorMessage {
        id: B,
        msg: "still here".to_string(),
        room_id: ROOM,
    });
    assert_eq!(echo.len(), 1);
    assert_eq!(echo[0].to, B);
}

#[test]
fn duplicate_disconnect_is_a_silent_no_op() {
    let mut lobby = Lobby::default();
    connect(&mut lobby, A, ROOM);
    connect(&mut lobby, B, ROOM);
    lobby.handle_disconnect(&Disconnect { id: A, room_id: ROOM });
    let sessions = lobby.session_count();
    let again = lobby.handle_disconnect(&Disconnect { id: A, room_id: ROOM });
    assert_eq!(again.len(), 0);
    assert_eq!(lobby.session_count(), sessions);
}

#[test]
fn room_is_deleted_once_everyone_has_left() {
    let mut lobby = Lobby::default();
    connect(&mut lobby, A, ROOM);
    connect(&mut lobby, B, ROOM);
    lobby.handle_disconnect(&Disconnect { id: A, room_id: ROOM });
    lobby.handle_disconnect(&Disconnect { id: B, room_id: ROOM });
    assert_eq!(lobby.session_count(), 0);
    assert_eq!(lobby.room_count(), 0);
    // A broadcast into the drained room is a no-op.
    let out = lobby.handle_message(&ClientActorMessage {
        id: A,
        msg: "anyone?".to_string(),
        room_id: ROOM,
    });
    assert_eq!(out.len(), 0);
}

#[test]
fn unknown_room_messages_never_disturb_the_coordinator() {
    let mut lobby = Lobby::default();
    connect(&mut lobby, A, ROOM);
    let junk_rooms = vec![0u128, 1, 0xdead_beef, u128::MAX, 0x1234_5678_9abc_def0];
    let junk_ids = vec![0u128, 7, 0xfeed_f00d, u128::MAX];
    for (i, room) in junk_rooms.iter().enumerate() {
        let out = lobby.handle_message(&ClientActorMessage {
            id: junk_ids[i % junk_ids.len()],
            msg: format!("probe {}", i),
            room_id: *room,
        });
        assert_eq!(out.len(), 0);
        let gone = lobby.handle_disconnect(&Disconnect {
            id: junk_ids[(i + 1) % junk_ids.len()],
            room_id: *room,
        });
        assert_eq!(gone.len(), 0);
    }
    // The registered member is untouched by all of it.
    assert_eq!(lobby.session_count(), 1);
    let echo = lobby.handle_message(&ClientActorMessage {
        id: A,
        msg: "fine".to_string(),
        room_id: ROOM,
    });
    assert_eq!(echo.len(), 1);
}

#[test]
fn rejoining_a_room_keeps_one_member_entry() {
    let mut lobby = Lobby::default();
    connect(&mut lobby, A, ROOM);
    connect(&mut lobby, B, ROOM);
    connect(&mut lobby, A, ROOM);
    let out = lobby.handle_message(&ClientActorMessage {
        id: B,
        msg: "hi".to_string(),
        room_id: ROOM,
    });
    assert_eq!(out.len(), 2);
}
