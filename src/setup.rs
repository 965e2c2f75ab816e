//! The server's fixed starting configuration.
use vstd::prelude::*;

use crate::codec::new_id;
use crate::message::{MessageCallback, MessageHandler, handlers_for};
use crate::room::{Room, RoomView, has_room};
use crate::server::GameServer;

verus! {

/// Capacity of each of the starting rooms.
pub const ROOM_CAPACITY: usize = 20;

/// The starting rooms with the given identifiers: Heck, SeaOfNightmares and
/// MushroomKingdom, in that order, empty, each of capacity 20.
pub open spec fn starting_rooms(heck: u128, sea: u128, mushroom: u128) -> Seq<RoomView> {
    seq![
        RoomView { id: heck, name: "Heck"@, capacity: 20, sessions: Seq::empty() },
        RoomView { id: sea, name: "SeaOfNightmares"@, capacity: 20, sessions: Seq::empty() },
        RoomView { id: mushroom, name: "MushroomKingdom"@, capacity: 20, sessions: Seq::empty() },
    ]
}

/// A server with no sessions holding exactly the three starting rooms, with
/// the given distinct identifiers.
pub fn setup_game_server_with_ids(heck: u128, sea: u128, mushroom: u128) -> (r: GameServer)
    requires
        heck != sea,
        heck != mushroom,
        sea != mushroom,
    ensures
        r.wf(),
        r@.sessions == Set::<u128>::empty(),
        r@.outbox.len() == 0,
        r@.rooms == starting_rooms(heck, sea, mushroom),
{
    let mut server = GameServer::new();
    let a = Room::with_id(heck, "Heck", ROOM_CAPACITY);
    let ghost va = a@;
    server.add_room(a);
    assert(!has_room(Seq::<RoomView>::empty(), heck));
    assert(server@.rooms =~= seq![va]);
    let b = Room::with_id(sea, "SeaOfNightmares", ROOM_CAPACITY);
    let ghost vb = b@;
    assert(!has_room(seq![va], sea)) by {
        assert forall|i: int| 0 <= i < 1 implies seq![va][i].id != sea by {}
    }
    server.add_room(b);
    assert(server@.rooms =~= seq![va, vb]);
    let c = Room::with_id(mushroom, "MushroomKingdom", ROOM_CAPACITY);
    let ghost vc = c@;
    assert(!has_room(seq![va, vb], mushroom)) by {
        assert forall|i: int| 0 <= i < 2 implies seq![va, vb][i].id != mushroom by {}
    }
    server.add_room(c);
    assert(server@.rooms =~= seq![va, vb, vc]);
    assert(va.sessions =~= Seq::<u128>::empty());
    assert(vb.sessions =~= Seq::<u128>::empty());
    assert(vc.sessions =~= Seq::<u128>::empty());
    assert(server@.rooms =~= starting_rooms(heck, sea, mushroom));
    server
}

/// A server with no sessions holding exactly the three starting rooms, with
/// freshly drawn identifiers. Should the draws coincide, identifiers derived
/// from the first draw, distinct by construction, are used instead.
pub fn setup_game_server() -> (r: GameServer)
    ensures
        r.wf(),
        r@.sessions == Set::<u128>::empty(),
        r@.outbox.len() == 0,
        exists|heck: u128, sea: u128, mushroom: u128|
            heck != sea && heck != mushroom && sea != mushroom
                && r@.rooms == starting_rooms(heck, sea, mushroom),
{
    let heck = new_id();
    let sea = new_id();
    let mushroom = new_id();
    if heck != sea && heck != mushroom && sea != mushroom {
        setup_game_server_with_ids(heck, sea, mushroom)
    } else {
        assert(heck ^ 1u128 != heck && heck ^ 2u128 != heck && heck ^ 1u128 != heck ^ 2u128) by (bit_vector);
        setup_game_server_with_ids(heck, heck ^ 1u128, heck ^ 2u128)
    }
}

/// A dispatcher with the listing handler for `get-room-list` and the join
/// handler for `join-room`.
pub fn setup_message_handler() -> (r: MessageHandler)
    ensures
        r@ == map![
            "get-room-list"@ => seq![MessageCallback::ListRooms],
            "join-room"@ => seq![MessageCallback::JoinRoom],
        ],
{
    proof {
        reveal_strlit("get-room-list");
        reveal_strlit("join-room");
        assert("get-room-list"@.len() != "join-room"@.len());
    }
    let mut handler = MessageHandler::new();
    handler.add_callback("get-room-list", MessageCallback::ListRooms);
    handler.add_callback("join-room", MessageCallback::JoinRoom);
    assert(Seq::<MessageCallback>::empty().push(MessageCallback::ListRooms) =~= seq![MessageCallback::ListRooms]);
    assert(Seq::<MessageCallback>::empty().push(MessageCallback::JoinRoom) =~= seq![MessageCallback::JoinRoom]);
    assert(handler@ =~= map![
        "get-room-list"@ => seq![MessageCallback::ListRooms],
        "join-room"@ => seq![MessageCallback::JoinRoom],
    ]);
    handler
}

} // verus!
