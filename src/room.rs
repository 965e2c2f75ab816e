//! Capacity-bounded rooms and the manager that holds them.
use vstd::prelude::*;

use crate::codec::new_id;

verus! {

/// Why a session could not join a room.
#[derive(Debug, Clone, Copy, PartialEq, Eq, Structural)]
pub enum RoomError {
    RoomFull,
    RoomNotFound,
}

/// The reason that a client is shown for each error.
pub open spec fn room_error_text(e: RoomError) -> Seq<char> {
    match e {
        RoomError::RoomFull => "Room is full!"@,
        RoomError::RoomNotFound => "Room not found"@,
    }
}

impl RoomError {
    /// The human-readable reason for this error.
    pub fn message(&self) -> (r: String)
        ensures
            r@ == room_error_text(*self),
    {
        match self {
            RoomError::RoomFull => "Room is full!".to_string(),
            RoomError::RoomNotFound => "Room not found".to_string(),
        }
    }
}

/// A room with players.
#[derive(Debug, Clone)]
pub struct Room {
    id: u128,
    pub name: String,
    capacity: usize,
    sessions: Vec<u128>,
}

/// What a room is: its identifier, name, capacity and members in order of arrival.
pub struct RoomView {
    pub id: u128,
    pub name: Seq<char>,
    pub capacity: nat,
    pub sessions: Seq<u128>,
}

impl RoomView {
    /// No room holds more members than its capacity.
    pub open spec fn wf(self) -> bool {
        self.sessions.len() <= self.capacity
    }
}

/// `s` with every occurrence of `x` taken out, the rest in order.
pub open spec fn remove_all(s: Seq<u128>, x: u128) -> Seq<u128>
    decreases s.len(),
{
    if s.len() == 0 {
        s
    } else {
        let r = remove_all(s.drop_last(), x);
        if s.last() == x {
            r
        } else {
            r.push(s.last())
        }
    }
}

/// Taking out `x` leaves no `x`, keeps every other member and never grows.
pub proof fn lemma_remove_all(s: Seq<u128>, x: u128)
    ensures
        remove_all(s, x).len() <= s.len(),
        !remove_all(s, x).contains(x),
        forall|y: u128| y != x ==> (remove_all(s, x).contains(y) <==> s.contains(y)),
        !s.contains(x) ==> remove_all(s, x) == s,
    decreases s.len(),
{
    if s.len() > 0 {
        lemma_remove_all(s.drop_last(), x);
        let p = s.drop_last();
        assert(s == p.push(s.last()));
        let r = remove_all(p, x);
        assert forall|y: u128| y != x implies (remove_all(s, x).contains(y) <==> s.contains(y)) by {
            assert(s.contains(y) <==> (p.contains(y) || s.last() == y)) by {
                if s.contains(y) {
                    let k = choose|k: int| 0 <= k < s.len() && s[k] == y;
                    if k < s.len() - 1 {
                        assert(p[k] == y);
                    }
                }
                if p.contains(y) {
                    let k = choose|k: int| 0 <= k < p.len() && p[k] == y;
                    assert(s[k] == y);
                }
                assert(s[s.len() - 1] == s.last());
            }
            if s.last() != x {
                assert(r.push(s.last()).contains(y) <==> (r.contains(y) || s.last() == y)) by {
                    let q = r.push(s.last());
                    if q.contains(y) {
                        let k = choose|k: int| 0 <= k < q.len() && q[k] == y;
                        if k < r.len() {
                            assert(r[k] == y);
                        }
                    }
                    if r.contains(y) {
                        let k = choose|k: int| 0 <= k < r.len() && r[k] == y;
                        assert(q[k] == y);
                    }
                    assert(q[r.len() as int] == s.last());
                }
            }
        }
        assert(!remove_all(s, x).contains(x)) by {
            if s.last() != x {
                let q = r.push(s.last());
                if q.contains(x) {
                    let k = choose|k: int| 0 <= k < q.len() && q[k] == x;
                    if k < r.len() {
                        assert(r[k] == x);
                    }
                }
            }
        }
        if !s.contains(x) {
            assert(!p.contains(x)) by {
                if p.contains(x) {
                    let k = choose|k: int| 0 <= k < p.len() && p[k] == x;
                    assert(s[k] == x);
                }
            }
            assert(s.last() != x) by {
                assert(s[s.len() - 1] == s.last());
            }
        }
    }
}

impl View for Room {
    type V = RoomView;

    closed spec fn view(&self) -> RoomView {
        RoomView {
            id: self.id,
            name: self.name@,
            capacity: self.capacity as nat,
            sessions: self.sessions@,
        }
    }
}

impl Room {
    /// The room's members never outnumber its capacity.
    pub open spec fn wf(&self) -> bool {
        self@.wf()
    }

    /// A new empty room with identifier `id`.
    pub fn with_id(id: u128, name: &str, capacity: usize) -> (r: Room)
        ensures
            r.wf(),
            r@.id == id,
            r@.name == name@,
            r@.capacity == capacity,
            r@.sessions.len() == 0,
    {
        Room { id, name: name.to_string(), capacity, sessions: Vec::new() }
    }

    /// A new empty room with a fresh random identifier.
    pub fn new(name: &str, capacity: usize) -> (r: Room)
        ensures
            r.wf(),
            r@.name == name@,
            r@.capacity == capacity,
            r@.sessions.len() == 0,
    {
        Room::with_id(new_id(), name, capacity)
    }

    /// Appends `session` to the members, unless the room is already full.
    pub fn add_session(&mut self, session: u128) -> (r: Result<(), RoomError>)
        ensures
            r is Err <==> old(self)@.sessions.len() >= old(self)@.capacity,
            r is Err ==> r == Err::<(), RoomError>(RoomError::RoomFull),
            r is Ok ==> final(self)@.sessions == old(self)@.sessions.push(session),
            r is Err ==> final(self)@ == old(self)@,
            final(self)@.id == old(self)@.id,
            final(self)@.name == old(self)@.name,
            final(self)@.capacity == old(self)@.capacity,
            old(self).wf() ==> final(self).wf(),
    {
        if self.sessions.len() >= self.capacity {
            return Err(RoomError::RoomFull);
        }
        self.sessions.push(session);
        Ok(())
    }

    /// Takes `session` out of the members; does nothing where it is absent.
    pub fn remove_session(&mut self, session: u128)
        ensures
            final(self)@.sessions == remove_all(old(self)@.sessions, session),
            final(self)@.id == old(self)@.id,
            final(self)@.name == old(self)@.name,
            final(self)@.capacity == old(self)@.capacity,
            old(self).wf() ==> final(self).wf(),
    {
        let ghost s = self.sessions@;
        let mut kept: Vec<u128> = Vec::new();
        let mut i: usize = 0;
        while i < self.sessions.len()
            invariant
                self.sessions@ == s,
                i <= s.len(),
                kept@ == remove_all(s.take(i as int), session),
            decreases s.len() - i,
        {
            assert(s.take(i + 1).drop_last() == s.take(i as int));
            if self.sessions[i] != session {
                kept.push(self.sessions[i]);
            }
            i = i + 1;
        }
        assert(s.take(s.len() as int) == s);
        proof {
            lemma_remove_all(s, session);
        }
        self.sessions = kept;
    }

    /// The members, in order of arrival.
    pub fn sessions(&self) -> (r: Vec<u128>)
        ensures
            r@ == self@.sessions,
    {
        self.sessions.clone()
    }

    /// How many members the room takes at most.
    pub fn capacity(&self) -> (r: usize)
        ensures
            r == self@.capacity,
    {
        self.capacity
    }

    /// The room's name.
    pub fn name(&self) -> (r: &String)
        ensures
            r@ == self@.name,
    {
        &self.name
    }

    /// The room's identifier.
    pub fn id(&self) -> (r: u128)
        ensures
            r == self@.id,
    {
        self.id
    }
}

/// Whether some room carries the identifier `id`.
pub open spec fn has_room(rooms: Seq<RoomView>, id: u128) -> bool {
    exists|i: int| 0 <= i < rooms.len() && rooms[i].id == id
}

/// The position of the room with identifier `id`, where there is one.
pub open spec fn room_index(rooms: Seq<RoomView>, id: u128) -> int {
    choose|i: int| 0 <= i < rooms.len() && rooms[i].id == id
}

/// Every room is well formed and no two rooms share an identifier.
pub open spec fn rooms_wf(rooms: Seq<RoomView>) -> bool {
    &&& forall|i: int| 0 <= i < rooms.len() ==> (#[trigger] rooms[i]).wf()
    &&& forall|i: int, j: int|
        0 <= i < rooms.len() && 0 <= j < rooms.len() && i != j ==> rooms[i].id != rooms[j].id
}

/// `r` with its members replaced by `sessions`.
pub open spec fn with_sessions(r: RoomView, sessions: Seq<u128>) -> RoomView {
    RoomView { id: r.id, name: r.name, capacity: r.capacity, sessions }
}

/// What an attempt of `session` to join room `id` comes to.
pub open spec fn join_outcome(rooms: Seq<RoomView>, id: u128) -> Result<(), RoomError> {
    if !has_room(rooms, id) {
        Err(RoomError::RoomNotFound)
    } else if rooms[room_index(rooms, id)].sessions.len() >= rooms[room_index(rooms, id)].capacity {
        Err(RoomError::RoomFull)
    } else {
        Ok(())
    }
}

/// The rooms after `session` tried to join room `id`: appended on success,
/// untouched otherwise.
pub open spec fn rooms_after_join(rooms: Seq<RoomView>, id: u128, session: u128) -> Seq<RoomView> {
    if join_outcome(rooms, id) is Ok {
        let i = room_index(rooms, id);
        rooms.update(i, with_sessions(rooms[i], rooms[i].sessions.push(session)))
    } else {
        rooms
    }
}

/// The rooms after `session` left room `id`, where there is such a room.
pub open spec fn rooms_after_leave(rooms: Seq<RoomView>, id: u128, session: u128) -> Seq<RoomView> {
    if has_room(rooms, id) {
        let i = room_index(rooms, id);
        rooms.update(i, with_sessions(rooms[i], remove_all(rooms[i].sessions, session)))
    } else {
        rooms
    }
}

/// The rooms after `session` left every room it was in.
pub open spec fn rooms_after_leave_all(rooms: Seq<RoomView>, session: u128) -> Seq<RoomView> {
    rooms.map_values(|r: RoomView| with_sessions(r, remove_all(r.sessions, session)))
}

/// The rooms after `room` was added, replacing one with the same identifier.
pub open spec fn rooms_after_add(rooms: Seq<RoomView>, room: RoomView) -> Seq<RoomView> {
    if has_room(rooms, room.id) {
        rooms.update(room_index(rooms, room.id), room)
    } else {
        rooms.push(room)
    }
}

/// The rooms after the one with identifier `id`, if any, was taken out.
pub open spec fn rooms_after_remove(rooms: Seq<RoomView>, id: u128) -> Seq<RoomView> {
    if has_room(rooms, id) {
        rooms.remove(room_index(rooms, id))
    } else {
        rooms
    }
}

/// The first room, in order, whose members include `session`.
pub open spec fn first_room_of(rooms: Seq<RoomView>, session: u128, i: int) -> bool {
    &&& 0 <= i < rooms.len()
    &&& rooms[i].sessions.contains(session)
    &&& forall|j: int| 0 <= j < i ==> !(#[trigger] rooms[j]).sessions.contains(session)
}

/// The rooms after each of `sessions`, in order, tried to join room `id`.
pub open spec fn rooms_after_joins(rooms: Seq<RoomView>, id: u128, sessions: Seq<u128>) -> Seq<RoomView>
    decreases sessions.len(),
{
    if sessions.len() == 0 {
        rooms
    } else {
        rooms_after_join(rooms_after_joins(rooms, id, sessions.drop_last()), id, sessions.last())
    }
}

/// A join attempt keeps every room well formed and every identifier unique.
pub proof fn lemma_join_keeps_wf(rooms: Seq<RoomView>, id: u128, session: u128)
    requires
        rooms_wf(rooms),
    ensures
        rooms_wf(rooms_after_join(rooms, id, session)),
        rooms_after_join(rooms, id, session).len() == rooms.len(),
        forall|i: int| 0 <= i < rooms.len() ==> (#[trigger] rooms_after_join(rooms, id, session)[i]).id == rooms[i].id
            && rooms_after_join(rooms, id, session)[i].capacity == rooms[i].capacity,
{
    let after = rooms_after_join(rooms, id, session);
    if join_outcome(rooms, id) is Ok {
        let k = room_index(rooms, id);
        assert forall|i: int| 0 <= i < after.len() implies (#[trigger] after[i]).wf() by {
            if i != k {
                assert(after[i] == rooms[i]);
            }
        }
    }
}

/// Capacity: whatever join attempts a room sees, its members never outnumber
/// its capacity; and once it is full, a further attempt fails with `RoomFull`
/// and leaves every room as it was.
pub proof fn lemma_capacity_invariant(rooms: Seq<RoomView>, id: u128, sessions: Seq<u128>, next: u128)
    requires
        rooms_wf(rooms),
    ensures
        rooms_wf(rooms_after_joins(rooms, id, sessions)),
        ({
            let after = rooms_after_joins(rooms, id, sessions);
            has_room(after, id) && after[room_index(after, id)].sessions.len() == after[room_index(after, id)].capacity
                ==> join_outcome(after, id) == Err::<(), RoomError>(RoomError::RoomFull)
                    && rooms_after_join(after, id, next) == after
        }),
    decreases sessions.len(),
{
    if sessions.len() > 0 {
        lemma_capacity_invariant(rooms, id, sessions.drop_last(), next);
        lemma_join_keeps_wf(rooms_after_joins(rooms, id, sessions.drop_last()), id, sessions.last());
    }
}

/// The room manager: every room of the server, keyed by identifier.
#[derive(Debug)]
pub struct RoomManager {
    rooms: Vec<Room>,
}

impl View for RoomManager {
    type V = Seq<RoomView>;

    closed spec fn view(&self) -> Seq<RoomView> {
        self.rooms@.map_values(|r: Room| r@)
    }
}

impl RoomManager {
    /// Rooms are well formed and their identifiers unique.
    pub open spec fn wf(&self) -> bool {
        rooms_wf(self@)
    }

    /// A manager with no rooms.
    pub fn new() -> (r: RoomManager)
        ensures
            r.wf(),
            r@ == Seq::<RoomView>::empty(),
    {
        let r = RoomManager { rooms: Vec::new() };
        assert(r@ =~= Seq::<RoomView>::empty());
        r
    }

    fn index_of(&self, id: u128) -> (r: Option<usize>)
        ensures
            r is None <==> !has_room(self@, id),
            r is Some ==> r->0 < self@.len() && self@[r->0 as int].id == id,
            r is Some && self.wf() ==> r->0 == room_index(self@, id),
    {
        let mut i: usize = 0;
        while i < self.rooms.len()
            invariant
                i <= self.rooms@.len(),
                self@.len() == self.rooms@.len(),
                forall|j: int| 0 <= j < i ==> self@[j].id != id,
            decreases self.rooms@.len() - i,
        {
            if self.rooms[i].id() == id {
                proof {
                    if self.wf() {
                        let k = room_index(self@, id);
                        assert(self@[i as int].id == id);
                    }
                }
                return Some(i);
            }
            i = i + 1;
        }
        None
    }

    /// Adds a room, replacing one with the same identifier.
    pub fn add_room(&mut self, room: Room)
        requires
            old(self).wf(),
            room.wf(),
        ensures
            final(self).wf(),
            final(self)@ == rooms_after_add(old(self)@, room@),
    {
        let ghost v = room@;
        match self.index_of(room.id()) {
            Some(i) => {
                self.rooms.remove(i);
                self.rooms.insert(i, room);
                assert(self@ =~= old(self)@.update(i as int, v));
            },
            None => {
                self.rooms.push(room);
                assert(self@ =~= old(self)@.push(v));
            },
        }
    }

    /// Removes the room with identifier `room`, if there is one.
    pub fn remove_room(&mut self, room: u128)
        requires
            old(self).wf(),
        ensures
            final(self).wf(),
            final(self)@ == rooms_after_remove(old(self)@, room),
    {
        if let Some(i) = self.index_of(room) {
            self.rooms.remove(i);
            assert(self@ =~= old(self)@.remove(i as int));
            assert forall|a: int, b: int|
                0 <= a < self@.len() && 0 <= b < self@.len() && a != b implies self@[a].id
                != self@[b].id by {
                let a0 = if a < i { a } else { a + 1 };
                let b0 = if b < i { b } else { b + 1 };
                assert(self@[a] == old(self)@[a0]);
                assert(self@[b] == old(self)@[b0]);
            }
        }
    }

    /// Every room, in order.
    pub fn rooms(&self) -> (r: Vec<&Room>)
        ensures
            r@.map_values(|x: &Room| x@) == self@,
    {
        let mut out: Vec<&Room> = Vec::new();
        let mut i: usize = 0;
        while i < self.rooms.len()
            invariant
                i <= self.rooms@.len(),
                self@.len() == self.rooms@.len(),
                out@.len() == i,
                forall|j: int| 0 <= j < i ==> (#[trigger] out@[j])@ == self@[j],
            decreases self.rooms@.len() - i,
        {
            out.push(&self.rooms[i]);
            i = i + 1;
        }
        assert(out@.map_values(|x: &Room| x@) =~= self@);
        out
    }

    /// The room with identifier `id`, if there is one.
    pub fn room(&self, id: u128) -> (r: Option<&Room>)
        requires
            self.wf(),
        ensures
            r is None <==> !has_room(self@, id),
            r is Some ==> r->0@ == self@[room_index(self@, id)],
    {
        match self.index_of(id) {
            Some(i) => Some(&self.rooms[i]),
            None => None,
        }
    }

    /// The room with identifier `id`, for changing, if there is one. Whatever
    /// the caller makes of it takes its place; the other rooms stay.
    pub fn room_mut(&mut self, id: u128) -> (r: Option<&mut Room>)
        requires
            old(self).wf(),
        ensures
            r is None <==> !has_room(old(self)@, id),
            r is None ==> final(self)@ == old(self)@,
            r is Some ==> (*r->0)@ == old(self)@[room_index(old(self)@, id)]
                && final(self)@ == old(self)@.update(room_index(old(self)@, id), (*final(r->0))@),
    {
        match self.index_of(id) {
            Some(i) => Some(&mut self.rooms[i]),
            None => None,
        }
    }

    /// Appends `session` to the members of room `room`. Fails with `RoomNotFound`
    /// where no room has that identifier, and with `RoomFull` where the room
    /// already holds as many members as its capacity; nothing changes then.
    pub fn join(&mut self, room: u128, session: u128) -> (r: Result<(), RoomError>)
        requires
            old(self).wf(),
        ensures
            final(self).wf(),
            r == join_outcome(old(self)@, room),
            final(self)@ == rooms_after_join(old(self)@, room, session),
    {
        let ghost k = room_index(old(self)@, room);
        let r = match self.room_mut(room) {
            None => Err(RoomError::RoomNotFound),
            Some(target) => match target.add_session(session) {
                Ok(()) => Ok(()),
                Err(e) => Err(e),
            },
        };
        assert(has_room(old(self)@, room) ==> self@ =~= old(self)@.update(k, self@[k]));
        assert(r is Err ==> self@ =~= old(self)@);
        assert(rooms_wf(self@)) by {
            if has_room(old(self)@, room) {
                assert forall|i: int| 0 <= i < self@.len() && i != k implies self@[i] == old(self)@[i] by {}
            }
        }
        r
    }

    /// Takes `session` out of room `room`; does nothing where either is absent.
    pub fn leave(&mut self, room: u128, session: u128)
        requires
            old(self).wf(),
        ensures
            final(self).wf(),
            final(self)@ == rooms_after_leave(old(self)@, room, session),
    {
        let ghost k = room_index(old(self)@, room);
        if let Some(target) = self.room_mut(room) {
            target.remove_session(session);
        }
        assert(has_room(old(self)@, room) ==> self@ =~= old(self)@.update(k, self@[k]));
        assert(rooms_wf(self@)) by {
            if has_room(old(self)@, room) {
                assert forall|i: int| 0 <= i < self@.len() && i != k implies self@[i] == old(self)@[i] by {}
            }
        }
    }

    /// Takes `session` out of every room that holds it.
    pub fn leave_all(&mut self, session: u128)
        requires
            old(self).wf(),
        ensures
            final(self).wf(),
            final(self)@ == rooms_after_leave_all(old(self)@, session),
    {
        let ghost s = self@;
        let mut i: usize = 0;
        while i < self.rooms.len()
            invariant
                i <= self.rooms@.len(),
                self@.len() == s.len(),
                rooms_wf(s),
                forall|j: int| 0 <= j < i ==> self@[j] == with_sessions(s[j], remove_all(s[j].sessions, session)),
                forall|j: int| i <= j < s.len() ==> self@[j] == s[j],
            decreases s.len() - i,
        {
            let ghost prev = self@;
            let mut target = self.rooms.remove(i);
            assert(target@ == prev[i as int]);
            target.remove_session(session);
            self.rooms.insert(i, target);
            assert(self@ =~= prev.update(i as int, target@));
            proof {
                lemma_remove_all(s[i as int].sessions, session);
            }
            i = i + 1;
        }
        assert(self@ =~= rooms_after_leave_all(s, session));
        assert forall|j: int| 0 <= j < self@.len() implies (#[trigger] self@[j]).wf() by {
            lemma_remove_all(s[j].sessions, session);
        }
    }

    /// The first room, in order, that holds `session`.
    pub fn room_of_session(&self, session: u128) -> (r: Option<u128>)
        ensures
            r is None <==> forall|i: int| 0 <= i < self@.len() ==> !(#[trigger] self@[i]).sessions.contains(session),
            r is Some ==> exists|i: int| first_room_of(self@, session, i) && self@[i].id == r->0,
    {
        let mut i: usize = 0;
        while i < self.rooms.len()
            invariant
                i <= self.rooms@.len(),
                self@.len() == self.rooms@.len(),
                forall|j: int| 0 <= j < i ==> !(#[trigger] self@[j]).sessions.contains(session),
            decreases self.rooms@.len() - i,
        {
            let members = self.rooms[i].sessions();
            let mut k: usize = 0;
            while k < members.len()
                invariant
                    k <= members@.len(),
                    i < self@.len(),
                    forall|j: int| 0 <= j < i ==> !(#[trigger] self@[j]).sessions.contains(session),
                    members@ == self@[i as int].sessions,
                    forall|m: int| 0 <= m < k ==> members@[m] != session,
                decreases members@.len() - k,
            {
                if members[k] == session {
                    assert(self@[i as int].sessions[k as int] == session);
                    assert(first_room_of(self@, session, i as int));
                    return Some(self.rooms[i].id());
                }
                k = k + 1;
            }
            i = i + 1;
        }
        None
    }
}

} // verus!
