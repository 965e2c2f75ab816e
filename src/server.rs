//! The coordinator: the session registry and the rooms, changed together.
use vstd::prelude::*;

use crate::message::{ClientMessage, ClientMessageOutgoing, EnvelopeView};
use crate::room::{
    Room, RoomError, RoomManager, RoomView, has_room, join_outcome, lemma_remove_all, remove_all,
    room_index, rooms_after_add, rooms_after_join, rooms_after_leave_all, with_sessions,
};

verus! {

/// A session connected to the server.
#[derive(Debug, Clone, Copy, PartialEq, Eq, Structural)]
pub struct Session {
    pub id: u128,
}

/// The identifiers that a session table holds.
pub uninterp spec fn session_ids(t: SessionTable) -> Set<u128>;

/// The session registry's table: a hashbrown map from identifier to session.
#[verifier::external_body]
pub struct SessionTable {
    map: hashbrown::HashMap<u128, Session>,
}

impl SessionTable {
    /// Relies on hashbrown::HashMap::new: a map with no entries.
    #[verifier::external_body]
    fn new() -> (r: SessionTable)
        ensures
            session_ids(r) == Set::<u128>::empty(),
    {
        SessionTable { map: hashbrown::HashMap::new() }
    }

    /// Relies on hashbrown::HashMap::contains_key: whether the key has an entry.
    #[verifier::external_body]
    fn contains(&self, id: u128) -> (r: bool)
        ensures
            r == session_ids(*self).contains(id),
    {
        self.map.contains_key(&id)
    }

    /// Relies on hashbrown::HashMap::insert: afterwards the key has an entry,
    /// and no other key gains or loses one.
    #[verifier::external_body]
    fn insert(&mut self, id: u128)
        ensures
            session_ids(*final(self)) == session_ids(*old(self)).insert(id),
    {
        self.map.insert(id, Session { id });
    }

    /// Relies on hashbrown::HashMap::remove: afterwards the key has no entry,
    /// and no other key gains or loses one.
    #[verifier::external_body]
    fn remove(&mut self, id: u128)
        ensures
            session_ids(*final(self)) == session_ids(*old(self)).remove(id),
    {
        self.map.remove(&id);
    }

    /// Relies on hashbrown::HashMap::keys: every key once, in an order that
    /// the map does not promise.
    #[verifier::external_body]
    fn ids(&self) -> (r: Vec<u128>)
        ensures
            r@.to_set() == session_ids(*self),
            r@.no_duplicates(),
    {
        self.map.keys().copied().collect()
    }
}

/// A message queued for delivery to one session.
#[derive(Debug)]
pub struct Delivery {
    pub session_id: u128,
    pub message: ClientMessageOutgoing,
}

/// What the coordinator is: the registered sessions, the rooms, and the
/// messages queued for delivery in the order they were sent.
pub struct ServerView {
    pub sessions: Set<u128>,
    pub rooms: Seq<RoomView>,
    pub outbox: Seq<(u128, EnvelopeView)>,
}

/// Whether `session` is registered.
pub open spec fn registered(s: ServerView, session: u128) -> bool {
    s.sessions.contains(session)
}

/// The coordinator's invariants: rooms well formed with unique identifiers,
/// and every room member registered.
pub open spec fn server_wf(s: ServerView) -> bool {
    &&& crate::room::rooms_wf(s.rooms)
    &&& forall|i: int, m: u128|
        0 <= i < s.rooms.len() && #[trigger] s.rooms[i].sessions.contains(m) ==> s.sessions.contains(m)
}

/// The coordinator after `message` was sent to `session`: queued where the
/// session is registered, dropped otherwise.
pub open spec fn server_after_send(s: ServerView, session: u128, message: EnvelopeView) -> ServerView {
    if registered(s, session) {
        ServerView { outbox: s.outbox.push((session, message)), ..s }
    } else {
        s
    }
}

/// The coordinator after `session` was registered.
pub open spec fn server_after_add(s: ServerView, session: u128) -> ServerView {
    ServerView { sessions: s.sessions.insert(session), ..s }
}

/// The coordinator after `session` was removed, together with its memberships.
pub open spec fn server_after_remove(s: ServerView, session: u128) -> ServerView {
    ServerView {
        sessions: s.sessions.remove(session),
        rooms: rooms_after_leave_all(s.rooms, session),
        ..s
    }
}

/// The main server state: sessions, rooms and undelivered messages.
pub struct GameServer {
    pub sessions: SessionTable,
    pub room_manager: RoomManager,
    outbox: Vec<Delivery>,
}

impl View for GameServer {
    type V = ServerView;

    closed spec fn view(&self) -> ServerView {
        ServerView {
            sessions: session_ids(self.sessions),
            rooms: self.room_manager@,
            outbox: self.outbox@.map_values(|d: Delivery| (d.session_id, d.message.0@)),
        }
    }
}

impl GameServer {
    /// The coordinator's invariants hold.
    pub open spec fn wf(&self) -> bool {
        server_wf(self@)
    }

    /// A server with no sessions, no rooms and nothing queued.
    pub fn new() -> (r: GameServer)
        ensures
            r.wf(),
            r@.sessions == Set::<u128>::empty(),
            r@.rooms.len() == 0,
            r@.outbox.len() == 0,
    {
        GameServer { sessions: SessionTable::new(), room_manager: RoomManager::new(), outbox: Vec::new() }
    }

    /// Whether `session` is registered.
    pub fn has_session(&self, session: u128) -> (r: bool)
        ensures
            r == registered(self@, session),
    {
        self.sessions.contains(session)
    }

    /// Registers `session`; one already registered stays as it is.
    pub fn add_session(&mut self, session: u128)
        requires
            old(self).wf(),
        ensures
            final(self).wf(),
            final(self)@ == server_after_add(old(self)@, session),
    {
        self.sessions.insert(session);
        assert(self@ =~= server_after_add(old(self)@, session));
    }

    /// Removes `session` and takes it out of every room that holds it.
    pub fn remove_session(&mut self, session: u128)
        requires
            old(self).wf(),
        ensures
            final(self).wf(),
            final(self)@ == server_after_remove(old(self)@, session),
    {
        self.sessions.remove(session);
        self.room_manager.leave_all(session);
        assert(self@ =~= server_after_remove(old(self)@, session));
        proof {
            assert forall|k: int, m: u128|
                0 <= k < self@.rooms.len() && #[trigger] self@.rooms[k].sessions.contains(m)
                implies self@.sessions.contains(m) by {
                let r = old(self)@.rooms[k];
                lemma_remove_all(r.sessions, session);
                assert(self@.rooms[k] == with_sessions(r, remove_all(r.sessions, session)));
                assert(m != session);
                assert(r.sessions.contains(m));
                assert(old(self)@.rooms[k].sessions.contains(m));
            }
        }
    }

    /// Queues `message` for `session`; drops it where the session is not registered.
    pub fn send_message(&mut self, session: u128, message: ClientMessage)
        ensures
            final(self)@ == server_after_send(old(self)@, session, message@),
    {
        if self.has_session(session) {
            let ghost m = message@;
            self.outbox.push(Delivery { session_id: session, message: ClientMessageOutgoing(message) });
            assert(self@.outbox =~= old(self)@.outbox.push((session, m)));
            assert(self@ =~= server_after_send(old(self)@, session, m));
        }
    }

    /// Queues `message` once for every registered session, in some order.
    pub fn send_message_all(&mut self, message: ClientMessage)
        ensures
            final(self)@.sessions == old(self)@.sessions,
            final(self)@.rooms == old(self)@.rooms,
            exists|order: Seq<u128>|
                order.to_set() == old(self)@.sessions && order.no_duplicates()
                    && final(self)@.outbox == old(self)@.outbox + order.map_values(|id: u128| (id, message@)),
    {
        let ids = self.sessions.ids();
        let mut i: usize = 0;
        while i < ids.len()
            invariant
                i <= ids@.len(),
                ids@.to_set() == old(self)@.sessions,
                self@.sessions == old(self)@.sessions,
                self@.rooms == old(self)@.rooms,
                self@.outbox == old(self)@.outbox + ids@.take(i as int).map_values(|id: u128| (id, message@)),
            decreases ids@.len() - i,
        {
            let id = ids[i];
            let ghost before = self@.outbox;
            self.outbox.push(Delivery { session_id: id, message: ClientMessageOutgoing(message.duplicate()) });
            assert(self@.outbox =~= before.push((id, message@)));
            assert(ids@.take(i + 1).map_values(|id: u128| (id, message@)) =~= ids@.take(i as int).map_values(
                |id: u128| (id, message@),
            ).push((id, message@)));
            i = i + 1;
            assert(self@.outbox =~= old(self)@.outbox + ids@.take(i as int).map_values(|id: u128| (id, message@)));
        }
        assert(ids@.take(ids@.len() as int) =~= ids@);
    }

    /// Lets registered `session` join room `room`, as `RoomManager::join` does.
    pub fn join(&mut self, room: u128, session: u128) -> (r: Result<(), RoomError>)
        requires
            old(self).wf(),
            registered(old(self)@, session),
        ensures
            final(self).wf(),
            r == join_outcome(old(self)@.rooms, room),
            final(self)@ == (ServerView { rooms: rooms_after_join(old(self)@.rooms, room, session), ..old(self)@ }),
    {
        let r = self.room_manager.join(room, session);
        assert(self@ =~= (ServerView { rooms: rooms_after_join(old(self)@.rooms, room, session), ..old(self)@ }));
        assert forall|k: int, m: u128|
            0 <= k < self@.rooms.len() && #[trigger] self@.rooms[k].sessions.contains(m)
            implies self@.sessions.contains(m) by {
            let o = old(self)@.rooms;
            if r is Ok && k == crate::room::room_index(o, room) {
                let q = o[k].sessions.push(session);
                assert(self@.rooms[k].sessions == q);
                let j = choose|j: int| 0 <= j < q.len() && q[j] == m;
                if j < o[k].sessions.len() {
                    assert(o[k].sessions[j] == m);
                    assert(o[k].sessions.contains(m));
                }
            } else {
                assert(self@.rooms[k] == o[k]);
            }
        }
        r
    }

    /// Adds an empty room, replacing one with the same identifier.
    pub fn add_room(&mut self, room: Room)
        requires
            old(self).wf(),
            room.wf(),
            room@.sessions.len() == 0,
        ensures
            final(self).wf(),
            final(self)@ == (ServerView { rooms: rooms_after_add(old(self)@.rooms, room@), ..old(self)@ }),
    {
        let ghost v = room@;
        self.room_manager.add_room(room);
        assert(self@ =~= (ServerView { rooms: rooms_after_add(old(self)@.rooms, v), ..old(self)@ }));
        assert forall|k: int, m: u128|
            0 <= k < self@.rooms.len() && #[trigger] self@.rooms[k].sessions.contains(m)
            implies self@.sessions.contains(m) by {
            let o = old(self)@.rooms;
            if has_room(o, v.id) && k == room_index(o, v.id) {
                assert(self@.rooms[k] == v);
            } else if k < o.len() {
                assert(self@.rooms[k] == o[k]);
            } else {
                assert(self@.rooms[k] == v);
            }
        }
    }

    /// Every room, in order.
    pub fn room_list(&self) -> (r: Vec<&Room>)
        ensures
            r@.map_values(|x: &Room| x@) == self@.rooms,
    {
        self.room_manager.rooms()
    }

    /// Hands out every queued message, in order, and empties the queue.
    pub fn take_outbox(&mut self) -> (r: Vec<Delivery>)
        ensures
            r@.map_values(|d: Delivery| (d.session_id, d.message.0@)) == old(self)@.outbox,
            final(self)@.sessions == old(self)@.sessions,
            final(self)@.rooms == old(self)@.rooms,
            final(self)@.outbox.len() == 0,
            old(self).wf() ==> final(self).wf(),
    {
        let mut out: Vec<Delivery> = Vec::new();
        std::mem::swap(&mut out, &mut self.outbox);
        assert(self@.outbox =~= Seq::<(u128, EnvelopeView)>::empty());
        out
    }
}

/// Cleanup on disconnect: once a session is removed it is neither registered
/// nor a member of any room, so no later listing shows it; the rooms
/// themselves stay, and the coordinator's invariants still hold.
pub proof fn lemma_cleanup_on_disconnect(s: ServerView, session: u128)
    requires
        server_wf(s),
    ensures
        !server_after_remove(s, session).sessions.contains(session),
        server_after_remove(s, session).rooms.len() == s.rooms.len(),
        forall|i: int| 0 <= i < s.rooms.len() ==> !(#[trigger] server_after_remove(s, session).rooms[i]).sessions.contains(session),
        forall|i: int| 0 <= i < s.rooms.len() ==> (#[trigger] server_after_remove(s, session).rooms[i]).id == s.rooms[i].id,
{
    assert forall|i: int| 0 <= i < s.rooms.len() implies !(#[trigger] server_after_remove(s, session).rooms[i]).sessions.contains(session) by {
        lemma_remove_all(s.rooms[i].sessions, session);
    }
}

} // verus!
