//! The registry: the directory of active rooms, by name.
//!
//! A [`Registry`] changes only through `&mut self`, so a program that shares
//! one between threads has to put it behind a lock, and every operation then
//! runs as one critical section. None of them waits for anything.

use crate::board::{lemma_initial_valid, lemma_place_valid, BoardView, Outcome};
use crate::room::{ConnId, GameType, PlayError, Room, RoomView};
use vstd::hash_map::StringHashMap;
use vstd::prelude::*;

verus! {

/// Why a request to the registry failed.
#[derive(Clone, Copy, Debug, PartialEq, Eq, Structural)]
pub enum RegistryError {
    /// A room of that name is already registered.
    RoomExists,
    /// No room of that name is registered.
    RoomNotFound,
    /// Both seats of the room are taken.
    RoomFull,
}

/// The model of a [`Registry`]: the rooms by name.
pub type Rooms = Map<Seq<char>, RoomView>;

/// What every registry satisfies: it holds finitely many rooms, each valid,
/// registered under its own name, and with its first seat taken.
pub open spec fn valid_rooms(rooms: Rooms) -> bool {
    &&& rooms.dom().finite()
    &&& forall|name: Seq<char>| #[trigger]
        rooms.contains_key(name) ==> {
            &&& rooms[name].valid()
            &&& rooms[name].name == name
            &&& rooms[name].seat1 is Some
        }
}

/// The room that `conn` creates under `name`: `conn` in the first seat, the
/// second seat empty, no game.
pub open spec fn opened(name: Seq<char>, game_type: GameType, conn: ConnId) -> RoomView {
    RoomView::vacant(name, game_type).seated(conn)
}

/// Why a request to create `name` fails, if it does.
pub open spec fn create_error(rooms: Rooms, name: Seq<char>) -> Option<RegistryError> {
    if rooms.contains_key(name) {
        Some(RegistryError::RoomExists)
    } else {
        None
    }
}

/// The rooms after `conn` asked to create `name`.
pub open spec fn after_create(rooms: Rooms, name: Seq<char>, game_type: GameType, conn: ConnId)
    -> Rooms {
    if create_error(rooms, name) is None {
        rooms.insert(name, opened(name, game_type, conn))
    } else {
        rooms
    }
}

/// Why a request to join `name` fails, if it does.
pub open spec fn join_error(rooms: Rooms, name: Seq<char>) -> Option<RegistryError> {
    if !rooms.contains_key(name) {
        Some(RegistryError::RoomNotFound)
    } else if rooms[name].is_full() {
        Some(RegistryError::RoomFull)
    } else {
        None
    }
}

/// The rooms after `conn` asked to join `name`.
pub open spec fn after_join(rooms: Rooms, name: Seq<char>, conn: ConnId) -> Rooms {
    if join_error(rooms, name) is None {
        rooms.insert(name, rooms[name].seated(conn))
    } else {
        rooms
    }
}

/// What a move by `conn` to `(row, col)` in room `name` yields.
pub open spec fn play_result(rooms: Rooms, name: Seq<char>, conn: ConnId, row: int, col: int)
    -> Result<Outcome, PlayError> {
    if rooms.contains_key(name) {
        rooms[name].play_result(conn, row, col)
    } else {
        Err(PlayError::RoomNotFound)
    }
}

/// The rooms after `conn` attempted a move to `(row, col)` in room `name`.
pub open spec fn after_play(rooms: Rooms, name: Seq<char>, conn: ConnId, row: int, col: int)
    -> Rooms {
    if play_result(rooms, name, conn, row, col) is Ok {
        rooms.insert(name, rooms[name].after_play(conn, row, col))
    } else {
        rooms
    }
}

/// The directory of active rooms. Every registry satisfies [`valid_rooms`].
pub struct Registry {
    rooms: StringHashMap<Room>,
}

impl View for Registry {
    type V = Rooms;

    closed spec fn view(&self) -> Rooms {
        self.rooms@.map_values(|room: Room| room@)
    }
}

impl Registry {
    /// What holds of every registry at all times.
    #[verifier::type_invariant]
    pub open spec fn well_formed(self) -> bool {
        valid_rooms(self@)
    }

    /// A registry without rooms.
    pub fn new() -> (registry: Registry)
        ensures
            registry@ == Rooms::empty(),
            valid_rooms(registry@),
    {
        let rooms = StringHashMap::new();
        assert(rooms@.map_values(|room: Room| room@) =~= Rooms::empty());
        Registry { rooms }
    }

    /// The number of rooms.
    pub fn len(&self) -> (n: usize)
        ensures
            n == self@.len(),
            valid_rooms(self@),
    {
        proof {
            use_type_invariant(self);
            assert(self@.dom() =~= self.rooms@.dom());
        }
        self.rooms.len()
    }

    /// Whether a room is registered under `name`.
    pub fn contains(&self, name: &str) -> (found: bool)
        ensures
            found == self@.contains_key(name@),
    {
        self.rooms.contains_key(name)
    }

    /// A copy of the room registered under `name`, as it is now.
    pub fn room(&self, name: &str) -> (room: Option<Room>)
        ensures
            valid_rooms(self@),
            match room {
                Some(r) => self@.contains_key(name@) && r@ == self@[name@],
                None => !self@.contains_key(name@),
            },
    {
        proof {
            use_type_invariant(self);
        }
        match self.rooms.get(name) {
            Some(r) => Some(r.clone()),
            None => None,
        }
    }

    /// Puts `room` under its own name, in place of what was there.
    fn put(&mut self, room: Room)
        requires
            room@.valid(),
            room@.seat1 is Some,
        ensures
            final(self)@ == old(self)@.insert(room@.name, room@),
    {
        proof {
            use_type_invariant(&*self);
        }
        let name = room.name().to_owned();
        let mut rooms = StringHashMap::new();
        assert(rooms@.map_values(|room: Room| room@) =~= Rooms::empty());
        std::mem::swap(&mut rooms, &mut self.rooms);
        let ghost before = rooms@;
        rooms.insert(name, room);
        proof {
            assert(rooms@.map_values(|room: Room| room@) =~= before.map_values(|room: Room| room@).insert(
                room@.name,
                room@,
            ));
        }
        self.rooms = rooms;
    }

    /// Registers a new room under `name`, with `conn` in its first seat, the
    /// second seat empty and no game, and returns a copy of it. Fails with
    /// `RoomExists`, and changes nothing, if the name is taken.
    pub fn create_room(&mut self, name: &str, game_type: GameType, conn: ConnId) -> (res: Result<
        Room,
        RegistryError,
    >)
        ensures
            final(self)@ == after_create(old(self)@, name@, game_type, conn),
            valid_rooms(final(self)@),
            match res {
                Ok(room) => {
                    &&& create_error(old(self)@, name@) is None
                    &&& room@ == final(self)@[name@]
                    &&& room@ == opened(name@, game_type, conn)
                },
                Err(e) => create_error(old(self)@, name@) == Some(e) && final(self)@ == old(self)@,
            },
    {
        if self.rooms.contains_key(name) {
            proof {
                use_type_invariant(&*self);
            }
            return Err(RegistryError::RoomExists);
        }
        let mut room = Room::new(name.to_owned(), game_type);
        room.take_seat(conn);
        let handle = room.clone();
        self.put(room);
        proof {
            use_type_invariant(&*self);
        }
        Ok(handle)
    }

    /// Seats `conn` in the second seat of the room `name`, starts its game,
    /// and returns a copy of the room, both seats taken. Fails with
    /// `RoomNotFound` if there is no such room and with `RoomFull` if both its
    /// seats are taken; then nothing changes.
    pub fn join_room(&mut self, name: &str, conn: ConnId) -> (res: Result<Room, RegistryError>)
        ensures
            final(self)@ == after_join(old(self)@, name@, conn),
            valid_rooms(final(self)@),
            match res {
                Ok(room) => {
                    &&& join_error(old(self)@, name@) is None
                    &&& room@ == final(self)@[name@]
                    &&& room@ == old(self)@[name@].seated(conn)
                    &&& room@.seat2 == Some(conn)
                    &&& room@.game == Some(BoardView::initial())
                },
                Err(e) => join_error(old(self)@, name@) == Some(e) && final(self)@ == old(self)@,
            },
    {
        proof {
            use_type_invariant(&*self);
        }
        let mut room = match self.rooms.get(name) {
            Some(r) => r.clone(),
            None => {
                return Err(RegistryError::RoomNotFound);
            },
        };
        if !room.take_seat(conn) {
            return Err(RegistryError::RoomFull);
        }
        let handle = room.clone();
        self.put(room);
        proof {
            use_type_invariant(&*self);
        }
        Ok(handle)
    }

    /// Removes the room `name`. Removing a room that is not there does
    /// nothing.
    pub fn remove_room(&mut self, name: &str)
        ensures
            final(self)@ == old(self)@.remove(name@),
            valid_rooms(final(self)@),
    {
        proof {
            use_type_invariant(&*self);
        }
        let mut rooms = StringHashMap::new();
        assert(rooms@.map_values(|room: Room| room@) =~= Rooms::empty());
        std::mem::swap(&mut rooms, &mut self.rooms);
        let ghost before = rooms@;
        rooms.remove(name);
        proof {
            assert(rooms@.map_values(|room: Room| room@) =~= before.map_values(|room: Room| room@).remove(
                name@,
            ));
        }
        self.rooms = rooms;
        proof {
            use_type_invariant(&*self);
        }
    }

    /// Attempts a move by `conn` to `(row, col)` on the board of room `name`
    /// and looks at the board after it, in one step. A move that is turned
    /// down changes nothing.
    pub fn play(&mut self, name: &str, conn: ConnId, row: usize, col: usize) -> (res: Result<
        Outcome,
        PlayError,
    >)
        ensures
            res == play_result(old(self)@, name@, conn, row as int, col as int),
            final(self)@ == after_play(old(self)@, name@, conn, row as int, col as int),
            res is Err ==> final(self)@ == old(self)@,
            valid_rooms(final(self)@),
    {
        proof {
            use_type_invariant(&*self);
        }
        let mut room = match self.rooms.get(name) {
            Some(r) => r.clone(),
            None => {
                return Err(PlayError::RoomNotFound);
            },
        };
        match room.play(conn, row, col) {
            Err(e) => Err(e),
            Ok(outcome) => {
                self.put(room);
                proof {
                    use_type_invariant(&*self);
                }
                Ok(outcome)
            },
        }
    }
}

/// Creating, joining, playing and removing lead from a valid registry to a
/// valid registry.
pub proof fn lemma_requests_keep_valid(
    rooms: Rooms,
    name: Seq<char>,
    game_type: GameType,
    conn: ConnId,
    row: int,
    col: int,
)
    requires
        valid_rooms(rooms),
    ensures
        valid_rooms(after_create(rooms, name, game_type, conn)),
        valid_rooms(after_join(rooms, name, conn)),
        valid_rooms(after_play(rooms, name, conn, row, col)),
        valid_rooms(rooms.remove(name)),
{
    lemma_initial_valid();
    if play_result(rooms, name, conn, row, col) is Ok {
        lemma_place_valid(rooms[name].game->0, row, col);
    }
}

/// Removing a room twice is removing it once, and removing a room that is
/// not there changes nothing.
pub proof fn lemma_remove_is_idempotent(rooms: Rooms, name: Seq<char>)
    ensures
        !rooms.remove(name).contains_key(name),
        rooms.remove(name).remove(name) == rooms.remove(name),
        !rooms.contains_key(name) ==> rooms.remove(name) == rooms,
{
    assert(rooms.remove(name).remove(name) =~= rooms.remove(name));
    if !rooms.contains_key(name) {
        assert(rooms.remove(name) =~= rooms);
    }
}

/// A request to create a room: its name, its game, and who asks.
pub struct CreateRequest {
    /// The name asked for.
    pub name: Seq<char>,
    /// The game asked for.
    pub game_type: GameType,
    /// The connection that asks.
    pub conn: ConnId,
}

/// The rooms after the requests of `requests` were served in order.
pub open spec fn after_creates(rooms: Rooms, requests: Seq<CreateRequest>) -> Rooms
    decreases requests.len(),
{
    if requests.len() == 0 {
        rooms
    } else {
        after_create(
            after_creates(rooms, requests.drop_last()),
            requests.last().name,
            requests.last().game_type,
            requests.last().conn,
        )
    }
}

/// Requests to create rooms under names that differ from each other and from
/// those of the rooms that exist all succeed, in whatever order they are
/// served, and the registry then holds one room more for each of them.
pub proof fn lemma_distinct_creates_succeed(rooms: Rooms, requests: Seq<CreateRequest>)
    requires
        rooms.dom().finite(),
        forall|i: int| 0 <= i < requests.len() ==> !rooms.contains_key(#[trigger] requests[i].name),
        forall|i: int, j: int|
            0 <= i < j < requests.len() ==> #[trigger] requests[i].name != #[trigger] requests[j].name,
    ensures
        forall|i: int|
            0 <= i < requests.len() ==> create_error(
                after_creates(rooms, #[trigger] requests.take(i)),
                requests[i].name,
            ) is None,
        after_creates(rooms, requests).dom().finite(),
        after_creates(rooms, requests).len() == rooms.len() + requests.len(),
        forall|name: Seq<char>|
            after_creates(rooms, requests).contains_key(name) <==> rooms.contains_key(name) || exists|
                i: int,
            |
                0 <= i < requests.len() && #[trigger] requests[i].name == name,
    decreases requests.len(),
{
    if requests.len() > 0 {
        let front = requests.drop_last();
        let last = requests.last();
        lemma_distinct_creates_succeed(rooms, front);
        let before = after_creates(rooms, front);
        assert(!before.contains_key(last.name)) by {
            if before.contains_key(last.name) {
                let i = choose|i: int| 0 <= i < front.len() && #[trigger] front[i].name == last.name;
                assert(requests[i].name != requests[requests.len() - 1].name);
            }
        }
        assert forall|i: int| 0 <= i < requests.len() implies create_error(
            after_creates(rooms, #[trigger] requests.take(i)),
            requests[i].name,
        ) is None by {
            if i < front.len() {
                assert(requests.take(i) =~= front.take(i));
            } else {
                assert(requests.take(i) =~= front);
            }
        }
        let after = after_creates(rooms, requests);
        assert forall|name: Seq<char>| after.contains_key(name) <==> rooms.contains_key(name)
            || exists|i: int| 0 <= i < requests.len() && #[trigger] requests[i].name == name by {
            if name == last.name {
                assert(requests[requests.len() - 1].name == name);
            } else if before.contains_key(name) && !rooms.contains_key(name) {
                let i = choose|i: int| 0 <= i < front.len() && #[trigger] front[i].name == name;
                assert(requests[i].name == name);
            } else if exists|i: int| 0 <= i < requests.len() && #[trigger] requests[i].name == name {
                let i = choose|i: int| 0 <= i < requests.len() && #[trigger] requests[i].name == name;
                assert(front[i].name == name);
            }
        }
    }
}

/// Of two requests to join a room with a free seat, the one that is served
/// first succeeds and the other is refused with `RoomFull`, whichever of the
/// two comes first.
pub proof fn lemma_one_join_succeeds(rooms: Rooms, name: Seq<char>, first: ConnId, second: ConnId)
    requires
        valid_rooms(rooms),
        rooms.contains_key(name),
        !rooms[name].is_full(),
    ensures
        join_error(rooms, name) is None,
        join_error(after_join(rooms, name, first), name) == Some(RegistryError::RoomFull),
        after_join(after_join(rooms, name, first), name, second) == after_join(rooms, name, first),
        after_join(rooms, name, first)[name].seat2 == Some(first),
{
}

} // verus!
