//! The built-in handlers for room listing and joining, and their payloads.
use vstd::prelude::*;
use vstd::string::*;

use crate::codec::{
    decimal, id_text, joined, json_quote, json_str_member, number_text, parse_id, push_joined,
    quote, str_member, uuid_parse, uuid_text,
};
use crate::message::{ClientMessage, ClientMessageIncoming, EnvelopeView};
use crate::room::{Room, RoomError, RoomView, has_room, join_outcome, room_error_text, rooms_after_join};
use crate::server::{GameServer, ServerView, registered, server_after_send};

verus! {

/// A room as a listing shows it.
#[derive(Debug, Clone)]
pub struct RoomDescription {
    pub id: u128,
    pub name: String,
    pub capacity: usize,
    pub players: Vec<String>,
}

/// The list of rooms sent in reply to a listing request.
#[derive(Debug)]
pub struct RoomListMessage {
    pub rooms: Vec<RoomDescription>,
}

/// A request to join a room.
#[derive(Debug)]
pub struct JoinRoomMessage {
    pub username: String,
    pub room: u128,
}

/// Why joining a room failed.
#[derive(Debug)]
pub struct JoinRoomFailMessage {
    pub reason: String,
}

/// The JSON object text of one room description.
pub open spec fn description_text(id: u128, name: Seq<char>, capacity: nat, players: Seq<Seq<char>>) -> Seq<char> {
    "{\"id\":"@ + json_quote(uuid_text(id)) + ",\"name\":"@ + json_quote(name) + ",\"capacity\":"@
        + decimal(capacity) + ",\"players\":["@ + joined(players.map_values(|p: Seq<char>| json_quote(p)))
        + "]}"@
}

/// The JSON text that describes a room, each member by its identifier's text.
pub open spec fn room_text(r: RoomView) -> Seq<char> {
    description_text(r.id, r.name, r.capacity, r.sessions.map_values(|p: u128| uuid_text(p)))
}

/// The JSON text of a listing made of the given room texts.
pub open spec fn list_text(items: Seq<Seq<char>>) -> Seq<char> {
    "{\"rooms\":["@ + joined(items) + "]}"@
}

/// The JSON text of the listing of `rooms`, in order.
pub open spec fn room_list_text(rooms: Seq<RoomView>) -> Seq<char> {
    list_text(rooms.map_values(|r: RoomView| room_text(r)))
}

/// The JSON text of a failure with the given reason.
pub open spec fn fail_text(reason: Seq<char>) -> Seq<char> {
    "{\"reason\":"@ + json_quote(reason) + "}"@
}

/// The reply to a listing request made when the rooms are `rooms`.
pub open spec fn room_list_reply(rooms: Seq<RoomView>) -> EnvelopeView {
    EnvelopeView { message_type: "get-room-list-response"@, content: room_list_text(rooms) }
}

/// The reply to a join attempt that came to `outcome`.
pub open spec fn join_reply(outcome: Result<(), RoomError>) -> EnvelopeView {
    match outcome {
        Ok(_) => EnvelopeView { message_type: "join-room-response"@, content: "{}"@ },
        Err(e) => EnvelopeView { message_type: "join-room-fail"@, content: fail_text(room_error_text(e)) },
    }
}

/// The room that a join request's content names: it must be a JSON object with
/// a string `username` and a string `room` that spells an identifier.
pub open spec fn join_request(content: Seq<char>) -> Option<u128> {
    match (json_str_member(content, "username"@), json_str_member(content, "room"@)) {
        (Some(_), Some(r)) => uuid_parse(r),
        _ => None,
    }
}

/// The coordinator after a listing request from `session`.
pub open spec fn server_after_list(s: ServerView, session: u128) -> ServerView {
    server_after_send(s, session, room_list_reply(s.rooms))
}

/// The coordinator after `session` asked to join room `room`: an unregistered
/// session changes nothing; a registered one joins where the room exists and
/// has space, and is told the outcome.
pub open spec fn server_after_join(s: ServerView, session: u128, room: u128) -> ServerView {
    if !registered(s, session) {
        s
    } else {
        server_after_send(
            ServerView { rooms: rooms_after_join(s.rooms, room, session), ..s },
            session,
            join_reply(join_outcome(s.rooms, room)),
        )
    }
}

/// Unknown room: a request to join a room that does not exist changes neither
/// the sessions nor the rooms, and a registered sender is told
/// `join-room-fail` with the reason "Room not found".
pub proof fn lemma_unknown_room(s: ServerView, session: u128, room: u128)
    requires
        !has_room(s.rooms, room),
    ensures
        server_after_join(s, session, room).sessions == s.sessions,
        server_after_join(s, session, room).rooms == s.rooms,
        registered(s, session) ==> server_after_join(s, session, room).outbox == s.outbox.push(
            (session, EnvelopeView { message_type: "join-room-fail"@, content: fail_text("Room not found"@) }),
        ),
        !registered(s, session) ==> server_after_join(s, session, room) == s,
{
}

impl RoomDescription {
    /// The JSON object text of this description.
    pub fn to_json(&self) -> (r: String)
        ensures
            r@ == description_text(self.id, self.name@, self.capacity as nat, self.players@.map_values(|s: String| s@)),
    {
        let mut out = "{\"id\":".to_string();
        let id = id_text(self.id);
        let qid = quote(id.as_str());
        out.append(qid.as_str());
        out.append(",\"name\":");
        let qn = quote(self.name.as_str());
        out.append(qn.as_str());
        out.append(",\"capacity\":");
        let cap = number_text(self.capacity);
        out.append(cap.as_str());
        out.append(",\"players\":[");
        let ghost pv = self.players@.map_values(|s: String| s@);
        let mut quoted: Vec<String> = Vec::new();
        let mut i: usize = 0;
        while i < self.players.len()
            invariant
                i <= self.players@.len(),
                pv == self.players@.map_values(|s: String| s@),
                quoted@.len() == i,
                forall|j: int| 0 <= j < i ==> (#[trigger] quoted@[j])@ == json_quote(pv[j]),
            decreases self.players@.len() - i,
        {
            quoted.push(quote(self.players[i].as_str()));
            i = i + 1;
        }
        assert(quoted@.map_values(|s: String| s@) =~= pv.map_values(|p: Seq<char>| json_quote(p)));
        push_joined(&mut out, &quoted);
        out.append("]}");
        assert(out@ =~= description_text(self.id, self.name@, self.capacity as nat, pv));
        out
    }
}

impl RoomListMessage {
    /// The JSON object text of this listing.
    pub fn to_json(&self) -> (r: String)
        ensures
            r@ == list_text(self.rooms@.map_values(
                |d: RoomDescription| description_text(d.id, d.name@, d.capacity as nat, d.players@.map_values(|s: String| s@)),
            )),
    {
        let ghost dv = self.rooms@.map_values(
            |d: RoomDescription| description_text(d.id, d.name@, d.capacity as nat, d.players@.map_values(|s: String| s@)),
        );
        let mut texts: Vec<String> = Vec::new();
        let mut i: usize = 0;
        while i < self.rooms.len()
            invariant
                i <= self.rooms@.len(),
                dv == self.rooms@.map_values(
                    |d: RoomDescription| description_text(d.id, d.name@, d.capacity as nat, d.players@.map_values(|s: String| s@)),
                ),
                texts@.len() == i,
                forall|j: int| 0 <= j < i ==> (#[trigger] texts@[j])@ == dv[j],
            decreases self.rooms@.len() - i,
        {
            texts.push(self.rooms[i].to_json());
            i = i + 1;
        }
        assert(texts@.map_values(|s: String| s@) =~= dv);
        let mut out = "{\"rooms\":[".to_string();
        push_joined(&mut out, &texts);
        out.append("]}");
        assert(out@ =~= list_text(dv));
        out
    }
}

impl JoinRoomFailMessage {
    /// The JSON object text of this failure.
    pub fn to_json(&self) -> (r: String)
        ensures
            r@ == fail_text(self.reason@),
    {
        let mut out = "{\"reason\":".to_string();
        let q = quote(self.reason.as_str());
        out.append(q.as_str());
        out.append("}");
        assert(out@ =~= fail_text(self.reason@));
        out
    }
}

impl JoinRoomMessage {
    /// Reads a join request from its content text.
    pub fn parse(content: &str) -> (r: Option<JoinRoomMessage>)
        ensures
            r is None <==> join_request(content@) is None,
            r matches Some(m) ==> join_request(content@) == Some(m.room)
                && json_str_member(content@, "username"@) == Some(m.username@),
    {
        let username = match str_member(content, "username") {
            Some(u) => u,
            None => return None,
        };
        let room_text = match str_member(content, "room") {
            Some(t) => t,
            None => return None,
        };
        match parse_id(room_text.as_str()) {
            Some(room) => Some(JoinRoomMessage { username, room }),
            None => None,
        }
    }
}

/// The description of one room as a listing shows it.
fn describe(room: &Room) -> (r: RoomDescription)
    ensures
        description_text(r.id, r.name@, r.capacity as nat, r.players@.map_values(|s: String| s@))
            == room_text(room@),
{
    let members = room.sessions();
    let mut players: Vec<String> = Vec::new();
    let mut i: usize = 0;
    while i < members.len()
        invariant
            i <= members@.len(),
            members@ == room@.sessions,
            players@.len() == i,
            forall|j: int| 0 <= j < i ==> (#[trigger] players@[j])@ == uuid_text(members@[j]),
        decreases members@.len() - i,
    {
        players.push(id_text(members[i]));
        i = i + 1;
    }
    assert(players@.map_values(|s: String| s@) =~= room@.sessions.map_values(|p: u128| uuid_text(p)));
    RoomDescription { id: room.id(), name: room.name().clone(), capacity: room.capacity(), players }
}

/// Replies to `incoming`'s session with the listing of every room.
pub fn list_rooms(incoming: &ClientMessageIncoming, server: &mut GameServer)
    ensures
        old(server).wf() ==> final(server).wf(),
        final(server)@ == server_after_list(old(server)@, incoming.session_id),
{
    let rooms = server.room_list();
    let ghost rv = old(server)@.rooms;
    let mut descriptions: Vec<RoomDescription> = Vec::new();
    let mut i: usize = 0;
    while i < rooms.len()
        invariant
            i <= rooms@.len(),
            rooms@.map_values(|x: &Room| x@) == rv,
            descriptions@.len() == i,
            forall|j: int| 0 <= j < i ==> description_text(
                (#[trigger] descriptions@[j]).id,
                descriptions@[j].name@,
                descriptions@[j].capacity as nat,
                descriptions@[j].players@.map_values(|s: String| s@),
            ) == room_text(rv[j]),
        decreases rooms@.len() - i,
    {
        descriptions.push(describe(rooms[i]));
        i = i + 1;
    }
    let listing = RoomListMessage { rooms: descriptions };
    let content = listing.to_json();
    assert(listing.rooms@.map_values(
        |d: RoomDescription| description_text(d.id, d.name@, d.capacity as nat, d.players@.map_values(|s: String| s@)),
    ) =~= rv.map_values(|r: RoomView| room_text(r)));
    let reply = ClientMessage::new("get-room-list-response".to_string(), content);
    server.send_message(incoming.session_id, reply);
}

/// Lets `session` join room `room` and tells it the outcome: `join-room-response`
/// on success, else `join-room-fail` with the reason. An unregistered session
/// changes nothing.
pub fn join_room_with(server: &mut GameServer, session: u128, room: u128)
    requires
        old(server).wf(),
    ensures
        final(server).wf(),
        final(server)@ == server_after_join(old(server)@, session, room),
{
    if !server.has_session(session) {
        return;
    }
    let outcome = server.join(room, session);
    let reply = match outcome {
        Ok(()) => ClientMessage::new("join-room-response".to_string(), "{}".to_string()),
        Err(e) => {
            let fail = JoinRoomFailMessage { reason: e.message() };
            ClientMessage::new("join-room-fail".to_string(), fail.to_json())
        },
    };
    server.send_message(session, reply);
}

/// Handles a join request: reads the room from the content and lets the
/// session join it. Content that is no join request changes nothing.
pub fn join_room(incoming: &ClientMessageIncoming, server: &mut GameServer)
    requires
        old(server).wf(),
    ensures
        final(server).wf(),
        final(server)@ == match join_request(incoming.message@.content) {
            Some(room) => server_after_join(old(server)@, incoming.session_id, room),
            None => old(server)@,
        },
{
    match JoinRoomMessage::parse(incoming.message.content.as_str()) {
        Some(request) => join_room_with(server, incoming.session_id, request.room),
        None => {},
    }
}

} // verus!
