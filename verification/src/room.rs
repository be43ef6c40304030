//! A room: a named pairing slot for two connections and the game they share.

use crate::board::{Board, BoardView, Mark, MoveError, Outcome};
use vstd::prelude::*;

verus! {

/// Names a client connection. The caller hands them out; the library only
/// compares them.
pub type ConnId = u64;

/// The game that a room was created for. It is a label: every room runs the
/// board engine of [`crate::board`].
#[derive(Clone, Copy, Debug, PartialEq, Eq, Structural)]
pub enum GameType {
    TicTacToe,
    ConnectFour,
}

/// Why a move in a room was turned down.
#[derive(Clone, Copy, Debug, PartialEq, Eq, Structural)]
pub enum PlayError {
    /// No room of that name is registered.
    RoomNotFound,
    /// The second seat is still empty, so there is no game yet.
    NotStarted,
    /// The connection does not hold the seat whose mark is to move.
    NotYourTurn,
    /// The board turned the move down.
    Rejected(MoveError),
}

/// The model of a [`Room`].
pub struct RoomView {
    /// The name under which the room is registered.
    pub name: Seq<char>,
    /// The game the room was created for.
    pub game_type: GameType,
    /// The connection in the first seat, which plays `X`.
    pub seat1: Option<ConnId>,
    /// The connection in the second seat, which plays `O`.
    pub seat2: Option<ConnId>,
    /// The game, once both seats are taken.
    pub game: Option<BoardView>,
}

impl RoomView {
    /// A room without players.
    pub open spec fn vacant(name: Seq<char>, game_type: GameType) -> RoomView {
        RoomView { name, game_type, seat1: None, seat2: None, game: None }
    }

    /// What every room satisfies: the first seat is taken before the second,
    /// the game exists exactly when both seats are taken, and it is a valid
    /// board.
    pub open spec fn valid(self) -> bool {
        &&& self.seat2 is Some ==> self.seat1 is Some
        &&& self.game is Some <==> self.is_full()
        &&& self.game matches Some(b) ==> b.valid()
    }

    /// Both seats are taken.
    pub open spec fn is_full(self) -> bool {
        self.seat1 is Some && self.seat2 is Some
    }

    /// The room after `conn` asked for a seat: it takes the first seat if that
    /// is free, else the second, with which the game starts; a full room stays
    /// as it is.
    pub open spec fn seated(self, conn: ConnId) -> RoomView {
        if self.seat1 is None {
            RoomView { seat1: Some(conn), ..self }
        } else if self.seat2 is None {
            RoomView { seat2: Some(conn), game: Some(BoardView::initial()), ..self }
        } else {
            self
        }
    }

    /// The connection whose mark is to move, if the game has started.
    pub open spec fn seat_to_move(self) -> Option<ConnId> {
        match self.game {
            Some(b) => if b.turn == Mark::X {
                self.seat1
            } else {
                self.seat2
            },
            None => None,
        }
    }

    /// Whether `conn` holds a seat.
    pub open spec fn holds(self, conn: ConnId) -> bool {
        self.seat1 == Some(conn) || self.seat2 == Some(conn)
    }

    /// The connection in the seat across from `conn`, if `conn` holds a seat
    /// and the other seat is taken.
    pub open spec fn peer_of(self, conn: ConnId) -> Option<ConnId> {
        if self.seat1 == Some(conn) {
            self.seat2
        } else if self.seat2 == Some(conn) {
            self.seat1
        } else {
            None
        }
    }

    /// What a move by `conn` to `(row, col)` yields: the outcome after the
    /// move where it is accepted, else the reason it is not.
    pub open spec fn play_result(self, conn: ConnId, row: int, col: int) -> Result<
        Outcome,
        PlayError,
    > {
        match self.game {
            None => Err(PlayError::NotStarted),
            Some(b) => if self.seat_to_move() != Some(conn) {
                Err(PlayError::NotYourTurn)
            } else {
                match b.rejection(row, col) {
                    Some(e) => Err(PlayError::Rejected(e)),
                    None => Ok(b.place(row, col).outcome()),
                }
            },
        }
    }

    /// The room after `conn` attempted a move to `(row, col)`: the board takes
    /// the move where it is accepted, and nothing changes where it is not.
    pub open spec fn after_play(self, conn: ConnId, row: int, col: int) -> RoomView {
        if self.play_result(conn, row, col) is Ok {
            RoomView { game: Some(self.game->0.place(row, col)), ..self }
        } else {
            self
        }
    }
}

/// A named pairing slot: up to two seated connections and, once both seats
/// are taken, their game. Every room satisfies [`RoomView::valid`].
#[derive(Debug, PartialEq, Eq)]
pub struct Room {
    name: String,
    game_type: GameType,
    seat1: Option<ConnId>,
    seat2: Option<ConnId>,
    game: Option<Board>,
}

impl View for Room {
    type V = RoomView;

    closed spec fn view(&self) -> RoomView {
        RoomView {
            name: self.name@,
            game_type: self.game_type,
            seat1: self.seat1,
            seat2: self.seat2,
            game: match self.game {
                Some(b) => Some(b@),
                None => None,
            },
        }
    }
}

impl Clone for Room {
    fn clone(&self) -> (room: Room)
        ensures
            room@ == self@,
    {
        proof {
            use_type_invariant(self);
        }
        Room {
            name: self.name.clone(),
            game_type: self.game_type,
            seat1: self.seat1,
            seat2: self.seat2,
            game: self.game,
        }
    }
}

impl Room {
    #[verifier::type_invariant]
    spec fn inv(self) -> bool {
        self@.valid()
    }

    /// A room without players.
    pub fn new(name: String, game_type: GameType) -> (room: Room)
        ensures
            room@ == RoomView::vacant(name@, game_type),
            room@.valid(),
    {
        Room { name, game_type, seat1: None, seat2: None, game: None }
    }

    /// The name under which the room is registered.
    pub fn name(&self) -> (name: &str)
        ensures
            name@ == self@.name,
    {
        self.name.as_str()
    }

    /// The game the room was created for.
    pub fn game_type(&self) -> (game_type: GameType)
        ensures
            game_type == self@.game_type,
    {
        self.game_type
    }

    /// The connection in the first seat.
    pub fn seat1(&self) -> (seat: Option<ConnId>)
        ensures
            seat == self@.seat1,
    {
        self.seat1
    }

    /// The connection in the second seat.
    pub fn seat2(&self) -> (seat: Option<ConnId>)
        ensures
            seat == self@.seat2,
    {
        self.seat2
    }

    /// The game, once both seats are taken.
    pub fn game(&self) -> (game: Option<Board>)
        ensures
            self@.valid(),
            match game {
                Some(b) => self@.game == Some(b@),
                None => self@.game is None,
            },
    {
        proof {
            use_type_invariant(self);
        }
        self.game
    }

    /// Whether both seats are taken.
    pub fn is_full(&self) -> (full: bool)
        ensures
            full == self@.is_full(),
    {
        self.seat1.is_some() && self.seat2.is_some()
    }

    /// Whether `conn` holds a seat.
    pub fn holds(&self, conn: ConnId) -> (seated: bool)
        ensures
            seated == self@.holds(conn),
    {
        self.seat1 == Some(conn) || self.seat2 == Some(conn)
    }

    /// The connection whose mark is to move, if the game has started.
    pub fn seat_to_move(&self) -> (seat: Option<ConnId>)
        ensures
            seat == self@.seat_to_move(),
    {
        match self.game {
            Some(b) => if b.turn() == Mark::X {
                self.seat1
            } else {
                self.seat2
            },
            None => None,
        }
    }

    /// The connection in the seat across from `conn`.
    pub fn peer_of(&self, conn: ConnId) -> (peer: Option<ConnId>)
        ensures
            peer == self@.peer_of(conn),
    {
        if self.seat1 == Some(conn) {
            self.seat2
        } else if self.seat2 == Some(conn) {
            self.seat1
        } else {
            None
        }
    }

    /// Seats `conn`: in the first seat if that is free, else in the second,
    /// with which a fresh game starts. Returns whether a seat was free; a full
    /// room is left as it is.
    pub fn take_seat(&mut self, conn: ConnId) -> (seated: bool)
        ensures
            seated == !old(self)@.is_full(),
            final(self)@ == old(self)@.seated(conn),
            final(self)@.valid(),
    {
        proof {
            use_type_invariant(&*self);
        }
        if self.seat1.is_none() {
            self.seat1 = Some(conn);
            true
        } else if self.seat2.is_none() {
            let mut name = String::new();
            std::mem::swap(&mut name, &mut self.name);
            *self = Room {
                name,
                game_type: self.game_type,
                seat1: self.seat1,
                seat2: Some(conn),
                game: Some(Board::new()),
            };
            true
        } else {
            false
        }
    }

    /// Attempts a move by `conn` to `(row, col)` and looks at the board after
    /// it, in one step.
    ///
    /// The move is accepted if the game has started, `conn` holds the seat
    /// whose mark is to move, and the board accepts it. A move that is turned
    /// down changes nothing.
    pub fn play(&mut self, conn: ConnId, row: usize, col: usize) -> (res: Result<
        Outcome,
        PlayError,
    >)
        ensures
            res == old(self)@.play_result(conn, row as int, col as int),
            final(self)@ == old(self)@.after_play(conn, row as int, col as int),
            res is Err ==> final(self)@ == old(self)@,
            final(self)@.valid(),
    {
        proof {
            use_type_invariant(&*self);
        }
        let mut board = match self.game {
            Some(b) => b,
            None => {
                return Err(PlayError::NotStarted);
            },
        };
        let mover = if board.turn() == Mark::X {
            self.seat1
        } else {
            self.seat2
        };
        if mover != Some(conn) {
            return Err(PlayError::NotYourTurn);
        }
        match board.attempt_move(row, col) {
            Err(e) => Err(PlayError::Rejected(e)),
            Ok(()) => {
                let outcome = board.evaluate_outcome();
                self.game = Some(board);
                Ok(outcome)
            },
        }
    }
}

/// In each turn one seat moves and no other: a move is accepted only from the
/// seat whose mark is to move, and once it is accepted, the turn has passed,
/// so that a second move from the same seat is turned down until the other
/// seat has moved.
pub proof fn lemma_one_move_per_turn(
    room: RoomView,
    conn: ConnId,
    row: int,
    col: int,
    again_row: int,
    again_col: int,
)
    requires
        room.valid(),
        room.seat1 != room.seat2,
        room.play_result(conn, row, col) is Ok,
    ensures
        room.seat_to_move() == Some(conn),
        forall|other: ConnId, r: int, c: int|
            other != conn ==> #[trigger] room.play_result(other, r, c) == Err::<Outcome, PlayError>(
                PlayError::NotYourTurn,
            ),
        room.after_play(conn, row, col).play_result(conn, again_row, again_col) == Err::<
            Outcome,
            PlayError,
        >(PlayError::NotYourTurn),
{
}

} // verus!
