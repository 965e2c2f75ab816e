use hgserver::message::{ClientMessage, ClientMessageIncoming, ClientMessageOutgoing, MessageCallback, MessageHandler};
use hgserver::room::{Room, RoomError, RoomManager};
use hgserver::room_messages::{
    join_room, join_room_with, list_rooms, JoinRoomFailMessage, JoinRoomMessage, RoomDescription,
    RoomListMessage,
};
use hgserver::server::{Delivery, GameServer};
use hgserver::setup::{setup_game_server, setup_game_server_with_ids, setup_message_handler};
use hgserver::socket::{decode_envelope, ConnectionState, Frame, Reply, WsSession};

fn uuid_string(id: u128) -> String {
    uuid::Uuid::from_u128(id).to_string()
}

fn request(session: u128, message_type: &str, content: &str) -> ClientMessageIncoming {
    ClientMessageIncoming {
        session_id: session,
        message: ClientMessage::new(message_type.to_string(), content.to_string()),
    }
}

fn join_content(room: u128) -> String {
    format!("{{\"username\":\"foo\",\"room\":\"{}\"}}", uuid_string(room))
}

fn server_with_room(name: &str, capacity: usize) -> (GameServer, u128) {
    let mut server = GameServer::new();
    let room = Room::new(name, capacity);
    let id = room.id();
    server.add_room(room);
    (server, id)
}

fn single(out: Vec<Delivery>) -> (u128, String, String) {
    assert_eq!(out.len(), 1);
    let d = &out[0];
    (d.session_id, d.message.0.message_type.clone(), d.message.0.content.clone())
}

fn listed_players(server: &mut GameServer, handler: &MessageHandler, session: u128) -> Vec<Vec<String>> {
    handler.handle_message(&request(session, "get-room-list", ""), server);
    let (_, kind, content) = single(server.take_outbox());
    assert_eq!(kind, "get-room-list-response");
    let v: serde_json::Value = serde_json::from_str(&content).unwrap();
    v["rooms"]
        .as_array()
        .unwrap()
        .iter()
        .map(|r| r["players"].as_array().unwrap().iter().map(|p| p.as_str().unwrap().to_string()).collect())
        .collect()
}

#[test]
fn scenario_list_single_empty_room() {
    let (mut server, id) = server_with_room("Heck", 20);
    server.add_session(1);
    let handler = setup_message_handler();
    handler.handle_message(&request(1, "get-room-list", ""), &mut server);
    let (to, kind, content) = single(server.take_outbox());
    assert_eq!(to, 1);
    assert_eq!(kind, "get-room-list-response");
    assert_eq!(
        content,
        format!("{{\"rooms\":[{{\"id\":\"{}\",\"name\":\"Heck\",\"capacity\":20,\"players\":[]}}]}}", uuid_string(id))
    );
}

#[test]
fn scenario_join_then_list() {
    let (mut server, id) = server_with_room("Heck", 20);
    let a: u128 = 0xa1;
    server.add_session(a);
    let handler = setup_message_handler();
    handler.handle_message(&request(a, "join-room", &join_content(id)), &mut server);
    let (to, kind, content) = single(server.take_outbox());
    assert_eq!(to, a);
    assert_eq!(kind, "join-room-response");
    assert_eq!(content, "{}");
    assert_eq!(listed_players(&mut server, &handler, a), vec![vec![uuid_string(a)]]);
}

#[test]
fn scenario_full_room_rejects_second() {
    let (mut server, id) = server_with_room("X", 1);
    server.add_session(1);
    server.add_session(2);
    let handler = setup_message_handler();
    handler.handle_message(&request(1, "join-room", &join_content(id)), &mut server);
    let (_, kind, _) = single(server.take_outbox());
    assert_eq!(kind, "join-room-response");
    handler.handle_message(&request(2, "join-room", &join_content(id)), &mut server);
    let (to, kind, content) = single(server.take_outbox());
    assert_eq!(to, 2);
    assert_eq!(kind, "join-room-fail");
    assert_eq!(content, "{\"reason\":\"Room is full!\"}");
    assert_eq!(server.room_manager.room(id).unwrap().sessions(), vec![1]);
}

#[test]
fn unknown_room_fails_without_change() {
    let (mut server, id) = server_with_room("Heck", 20);
    server.add_session(7);
    join_room_with(&mut server, 7, id.wrapping_add(1));
    let (to, kind, content) = single(server.take_outbox());
    assert_eq!(to, 7);
    assert_eq!(kind, "join-room-fail");
    assert_eq!(content, "{\"reason\":\"Room not found\"}");
    assert!(server.room_manager.room(id).unwrap().sessions().is_empty());
}

#[test]
fn capacity_boundary_is_inclusive() {
    let mut room = Room::new("Duo", 2);
    assert_eq!(room.add_session(1), Ok(()));
    assert_eq!(room.add_session(2), Ok(()));
    assert_eq!(room.add_session(3), Err(RoomError::RoomFull));
    assert_eq!(room.sessions(), vec![1, 2]);
    assert_eq!(room.capacity(), 2);
    assert_eq!(room.name, "Duo");
}

#[test]
fn zero_capacity_room_takes_nobody() {
    let mut room = Room::new("None", 0);
    assert_eq!(room.add_session(1), Err(RoomError::RoomFull));
    assert!(room.sessions().is_empty());
}

#[test]
fn manager_join_errors() {
    let mut manager = RoomManager::new();
    let room = Room::new("A", 1);
    let id = room.id();
    manager.add_room(room);
    assert_eq!(manager.join(id.wrapping_add(1), 5), Err(RoomError::RoomNotFound));
    assert_eq!(manager.join(id, 5), Ok(()));
    assert_eq!(manager.join(id, 6), Err(RoomError::RoomFull));
    assert_eq!(manager.room_of_session(5), Some(id));
    assert_eq!(manager.room_of_session(6), None);
    manager.leave(id, 5);
    assert_eq!(manager.room_of_session(5), None);
    manager.leave(id, 5);
    assert!(manager.room(id).unwrap().sessions().is_empty());
}

#[test]
fn manager_add_and_remove_rooms() {
    let mut manager = RoomManager::new();
    let a = Room::new("A", 3);
    let b = Room::new("B", 4);
    let (ida, idb) = (a.id(), b.id());
    manager.add_room(a);
    manager.add_room(b);
    let names: Vec<String> = manager.rooms().iter().map(|r| r.name.clone()).collect();
    assert_eq!(names, vec!["A".to_string(), "B".to_string()]);
    manager.remove_room(ida);
    assert!(manager.room(ida).is_none());
    assert_eq!(manager.room(idb).unwrap().capacity(), 4);
    manager.remove_room(ida);
    assert_eq!(manager.rooms().len(), 1);
}

#[test]
fn remove_session_from_room_keeps_order() {
    let mut room = Room::new("R", 5);
    room.add_session(1).unwrap();
    room.add_session(2).unwrap();
    room.add_session(3).unwrap();
    room.remove_session(2);
    assert_eq!(room.sessions(), vec![1, 3]);
    room.remove_session(9);
    assert_eq!(room.sessions(), vec![1, 3]);
}

#[test]
fn error_messages() {
    assert_eq!(RoomError::RoomFull.message(), "Room is full!");
    assert_eq!(RoomError::RoomNotFound.message(), "Room not found");
}

#[test]
fn disconnect_cleans_up_every_room() {
    let mut server = GameServer::new();
    let r1 = Room::new("One", 4);
    let r2 = Room::new("Two", 4);
    let (id1, id2) = (r1.id(), r2.id());
    server.add_room(r1);
    server.add_room(r2);
    let handler = setup_message_handler();
    let mut ws = WsSession::new(42);
    assert_eq!(ws.state, ConnectionState::Connecting);
    ws.started(&mut server);
    assert_eq!(ws.state, ConnectionState::Open);
    assert!(server.has_session(42));
    join_room_with(&mut server, 42, id1);
    join_room_with(&mut server, 42, id2);
    server.take_outbox();
    let reply = ws.handle(Frame::Close, &handler, &mut server);
    assert!(matches!(reply, Reply::Close));
    assert_eq!(ws.state, ConnectionState::Closed);
    assert!(!server.has_session(42));
    assert!(server.room_manager.room_of_session(42).is_none());
    server.add_session(1);
    assert_eq!(listed_players(&mut server, &handler, 1), vec![Vec::<String>::new(), Vec::new()]);
}

#[test]
fn unregistered_type_is_ignored() {
    let (mut server, id) = server_with_room("Heck", 20);
    server.add_session(1);
    let handler = setup_message_handler();
    handler.handle_message(&request(1, "dance", "{}"), &mut server);
    assert!(server.take_outbox().is_empty());
    assert!(server.room_manager.room(id).unwrap().sessions().is_empty());
}

#[test]
fn replies_keep_frame_order() {
    let (mut server, id) = server_with_room("Heck", 20);
    let handler = setup_message_handler();
    let mut ws = WsSession::new(3);
    ws.started(&mut server);
    let first = format!("{{\"type\":\"join-room\",\"content\":{}}}", serde_json::to_string(&join_content(id)).unwrap());
    ws.handle(Frame::Text(first), &handler, &mut server);
    ws.handle(Frame::Text("{\"type\":\"get-room-list\",\"content\":\"\"}".to_string()), &handler, &mut server);
    let out = server.take_outbox();
    let kinds: Vec<String> = out.iter().map(|d| d.message.0.message_type.clone()).collect();
    assert_eq!(kinds, vec!["join-room-response".to_string(), "get-room-list-response".to_string()]);
}

#[test]
fn several_handlers_run_in_order() {
    let (mut server, id) = server_with_room("Heck", 20);
    server.add_session(1);
    let mut handler = MessageHandler::new();
    handler.add_callback("join-room", MessageCallback::JoinRoom);
    handler.add_callback("join-room", MessageCallback::ListRooms);
    handler.handle_message(&request(1, "join-room", &join_content(id)), &mut server);
    let kinds: Vec<String> = server.take_outbox().iter().map(|d| d.message.0.message_type.clone()).collect();
    assert_eq!(kinds, vec!["join-room-response".to_string(), "get-room-list-response".to_string()]);
}

#[test]
fn ping_binary_and_malformed_frames() {
    let mut server = GameServer::new();
    let handler = setup_message_handler();
    let mut ws = WsSession::new(9);
    assert!(matches!(ws.handle(Frame::Ping(vec![1, 2]), &handler, &mut server), Reply::Nothing));
    ws.started(&mut server);
    match ws.handle(Frame::Ping(vec![1, 2]), &handler, &mut server) {
        Reply::Pong(b) => assert_eq!(b, vec![1, 2]),
        _ => panic!("expected a pong"),
    }
    match ws.handle(Frame::Binary(vec![7]), &handler, &mut server) {
        Reply::Binary(b) => assert_eq!(b, vec![7]),
        _ => panic!("expected an echo"),
    }
    assert!(matches!(ws.handle(Frame::Text("not json".to_string()), &handler, &mut server), Reply::Nothing));
    assert!(matches!(ws.handle(Frame::Pong(vec![]), &handler, &mut server), Reply::Nothing));
    assert_eq!(ws.state, ConnectionState::Open);
    assert!(server.take_outbox().is_empty());
}

#[test]
fn outgoing_frame_text() {
    let ws = WsSession::new(1);
    let msg = ClientMessageOutgoing(ClientMessage::new("a".to_string(), "{\"x\":1}".to_string()));
    assert_eq!(ws.handle_outgoing(&msg), "{\"type\":\"a\",\"content\":\"{\\\"x\\\":1}\"}");
}

#[test]
fn decode_envelope_reads_both_members() {
    let m = decode_envelope("{\"type\":\"t\",\"content\":\"c\"}").unwrap();
    assert_eq!(m.message_type, "t");
    assert_eq!(m.content, "c");
    assert!(decode_envelope("{\"type\":\"t\"}").is_none());
    assert!(decode_envelope("{\"type\":1,\"content\":\"c\"}").is_none());
}

#[test]
fn join_request_parsing() {
    let m = JoinRoomMessage::parse(&join_content(0x1234)).unwrap();
    assert_eq!(m.username, "foo");
    assert_eq!(m.room, 0x1234);
    assert!(JoinRoomMessage::parse("{\"room\":\"x\",\"username\":\"u\"}").is_none());
    assert!(JoinRoomMessage::parse("{\"room\":\"00000000-0000-0000-0000-000000000001\"}").is_none());
}

#[test]
fn malformed_join_changes_nothing() {
    let (mut server, id) = server_with_room("Heck", 20);
    server.add_session(1);
    join_room(&request(1, "join-room", "garbage"), &mut server);
    assert!(server.take_outbox().is_empty());
    assert!(server.room_manager.room(id).unwrap().sessions().is_empty());
}

#[test]
fn payload_texts() {
    let fail = JoinRoomFailMessage { reason: "a \"b\"".to_string() };
    assert_eq!(fail.to_json(), "{\"reason\":\"a \\\"b\\\"\"}");
    let d = RoomDescription { id: 1, name: "N".to_string(), capacity: 123, players: vec!["p".to_string(), "q".to_string()] };
    let text = d.to_json();
    assert_eq!(
        text,
        "{\"id\":\"00000000-0000-0000-0000-000000000001\",\"name\":\"N\",\"capacity\":123,\"players\":[\"p\",\"q\"]}"
    );
    let list = RoomListMessage { rooms: vec![d.clone(), d] };
    assert_eq!(list.to_json(), format!("{{\"rooms\":[{},{}]}}", text, text));
}

#[test]
fn send_to_absent_session_is_dropped() {
    let mut server = GameServer::new();
    server.add_session(1);
    server.add_session(2);
    server.add_session(1);
    server.send_message(3, ClientMessage::new("x".to_string(), String::new()));
    assert!(server.take_outbox().is_empty());
    server.send_message_all(ClientMessage::new("y".to_string(), String::new()));
    let mut to: Vec<u128> = server.take_outbox().iter().map(|d| d.session_id).collect();
    to.sort();
    assert_eq!(to, vec![1, 2]);
}

#[test]
fn unregistered_sender_cannot_join() {
    let (mut server, id) = server_with_room("Heck", 20);
    join_room_with(&mut server, 5, id);
    assert!(server.take_outbox().is_empty());
    assert!(server.room_manager.room(id).unwrap().sessions().is_empty());
}

#[test]
fn list_rooms_direct() {
    let (mut server, _) = server_with_room("Heck", 20);
    server.add_session(1);
    list_rooms(&request(1, "get-room-list", ""), &mut server);
    let (_, kind, _) = single(server.take_outbox());
    assert_eq!(kind, "get-room-list-response");
}

#[test]
fn starting_configuration() {
    let mut server = setup_game_server();
    let rooms: Vec<(String, usize)> = server.room_list().iter().map(|r| (r.name.clone(), r.capacity())).collect();
    assert_eq!(
        rooms,
        vec![("Heck".to_string(), 20), ("SeaOfNightmares".to_string(), 20), ("MushroomKingdom".to_string(), 20)]
    );
    server.add_session(1);
    let handler = setup_message_handler();
    assert_eq!(listed_players(&mut server, &handler, 1).len(), 3);
}

#[test]
fn room_mut_changes_in_place() {
    let mut manager = RoomManager::new();
    let room = Room::new("A", 2);
    let id = room.id();
    manager.add_room(room);
    manager.room_mut(id).unwrap().add_session(4).unwrap();
    assert_eq!(manager.room(id).unwrap().sessions(), vec![4]);
    assert!(manager.room_mut(id.wrapping_add(1)).is_none());
}

#[test]
fn room_with_given_id() {
    let room = Room::with_id(77, "Heck", 20);
    assert_eq!(room.id(), 77);
    assert_eq!(room.name(), "Heck");
    assert_eq!(room.capacity(), 20);
    assert!(room.sessions().is_empty());
}

#[test]
fn starting_configuration_with_ids() {
    let server = setup_game_server_with_ids(1, 2, 3);
    let rooms: Vec<(u128, String, usize, usize)> = server
        .room_list()
        .iter()
        .map(|r| (r.id(), r.name.clone(), r.capacity(), r.sessions().len()))
        .collect();
    assert_eq!(
        rooms,
        vec![
            (1, "Heck".to_string(), 20, 0),
            (2, "SeaOfNightmares".to_string(), 20, 0),
            (3, "MushroomKingdom".to_string(), 20, 0)
        ]
    );
}

#[test]
fn starting_rooms_have_distinct_ids() {
    let server = setup_game_server();
    let ids: Vec<u128> = server.room_list().iter().map(|r| r.id()).collect();
    assert_eq!(ids.len(), 3);
    assert!(ids[0] != ids[1] && ids[0] != ids[2] && ids[1] != ids[2]);
}

#[test]
fn close_before_open_still_cleans_up() {
    let (mut server, id) = server_with_room("Heck", 20);
    let handler = setup_message_handler();
    server.add_session(5);
    join_room_with(&mut server, 5, id);
    server.take_outbox();
    let mut ws = WsSession::new(5);
    assert!(matches!(ws.handle(Frame::Close, &handler, &mut server), Reply::Close));
    assert_eq!(ws.state, ConnectionState::Closed);
    assert!(!server.has_session(5));
    assert!(server.room_manager.room(id).unwrap().sessions().is_empty());
    assert!(matches!(ws.handle(Frame::Close, &handler, &mut server), Reply::Nothing));
}

#[test]
fn uuid_text_is_hyphenated_lower_hex() {
    let d = RoomDescription { id: 0x0123456789abcdef0011223344556677, name: "\u{1}\t".to_string(), capacity: 0, players: vec![] };
    assert_eq!(
        d.to_json(),
        "{\"id\":\"01234567-89ab-cdef-0011-223344556677\",\"name\":\"\\u0001\\t\",\"capacity\":0,\"players\":[]}"
    );
}
