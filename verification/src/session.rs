//! The session: what the server does for one connection, from the menu to
//! the end of a game.
//!
//! A session neither reads nor writes. It is a state machine: the caller
//! hands it an [`Event`] and the registry, and gets back the session in its
//! next state and the [`Action`]s to perform, in order. What the session
//! waits for next is told by [`Session::expects`]; a session that waits for
//! its opponent waits for a wake-up, and has nothing to poll.

use crate::board::{lemma_initial_valid, Outcome};
use crate::message::{Message, MessageView};
use crate::protocol::{
    game_type_of, menu_choice_of, move_of, parse_game_type, parse_menu_choice, parse_move,
    parse_room_name, room_name_of, trim, MenuChoice,
};
use crate::registry::{
    after_create, after_join, after_play, create_error, join_error, lemma_requests_keep_valid,
    play_result, valid_rooms, Registry, RegistryError, Rooms,
};
use crate::room::{ConnId, GameType, Room, RoomView};
use vstd::prelude::*;

verus! {

/// Where a session stands.
#[derive(Debug, PartialEq, Eq)]
pub enum SessionState {
    /// The client chooses from the menu.
    Menu,
    /// The client creates a room: it names the room, then selects the game
    /// type. `name` is the name once it is given.
    CreatingRoom { name: Option<String> },
    /// The client names the room it wants to join.
    JoiningRoom,
    /// The client has created `room` and waits for a second player.
    WaitingForOpponent { room: String },
    /// The client plays in `room`; `to_move` says whether it is its turn.
    Playing { room: String, to_move: bool },
    /// The session is over.
    Finished,
}

/// The model of a [`SessionState`].
pub enum StateView {
    Menu,
    CreatingRoom { name: Option<Seq<char>> },
    JoiningRoom,
    WaitingForOpponent { room: Seq<char> },
    Playing { room: Seq<char>, to_move: bool },
    Finished,
}

impl View for SessionState {
    type V = StateView;

    open spec fn view(&self) -> StateView {
        match *self {
            SessionState::Menu => StateView::Menu,
            SessionState::CreatingRoom { name } => StateView::CreatingRoom {
                name: match name {
                    Some(n) => Some(n@),
                    None => None,
                },
            },
            SessionState::JoiningRoom => StateView::JoiningRoom,
            SessionState::WaitingForOpponent { room } => StateView::WaitingForOpponent { room: room@ },
            SessionState::Playing { room, to_move } => StateView::Playing { room: room@, to_move },
            SessionState::Finished => StateView::Finished,
        }
    }
}

/// Something that happens to a session.
#[derive(Debug, PartialEq, Eq)]
pub enum Event {
    /// The client sent a line.
    Line(String),
    /// The session was woken up: its room may have changed.
    Wake,
    /// Sending to the given connection, or receiving from it, failed.
    Disconnected(ConnId),
}

/// The model of an [`Event`].
pub enum EventView {
    Line(Seq<char>),
    Wake,
    Disconnected(ConnId),
}

impl View for Event {
    type V = EventView;

    open spec fn view(&self) -> EventView {
        match *self {
            Event::Line(line) => EventView::Line(line@),
            Event::Wake => EventView::Wake,
            Event::Disconnected(conn) => EventView::Disconnected(conn),
        }
    }
}

/// Something for the caller to do after a step.
#[derive(Clone, Copy, Debug, PartialEq, Eq)]
pub enum Action {
    /// Send `message` to the connection `to`.
    Send { to: ConnId, message: Message },
    /// Wake up the session of the connection `conn`.
    Wake { conn: ConnId },
}

/// The model of an [`Action`].
pub enum ActionView {
    Send { to: ConnId, message: MessageView },
    Wake { conn: ConnId },
}

impl View for Action {
    type V = ActionView;

    open spec fn view(&self) -> ActionView {
        match *self {
            Action::Send { to, message } => ActionView::Send { to, message: message@ },
            Action::Wake { conn } => ActionView::Wake { conn },
        }
    }
}

impl DeepView for Action {
    type V = ActionView;

    open spec fn deep_view(&self) -> ActionView {
        self@
    }
}

/// What a session waits for.
#[derive(Clone, Copy, Debug, PartialEq, Eq, Structural)]
pub enum Expect {
    /// A line from its client.
    Input,
    /// A wake-up.
    Signal,
    /// Nothing: the session is over.
    Nothing,
}

/// The model of a [`Session`].
pub struct SessionView {
    /// The connection that the session serves.
    pub conn: ConnId,
    /// Where the session stands.
    pub state: StateView,
}

/// The result of a step: the session and the rooms after it, and what the
/// caller is to do, in order.
pub struct Step {
    /// The session after the step.
    pub session: SessionView,
    /// The rooms after the step.
    pub rooms: Rooms,
    /// What the caller is to do, in order.
    pub actions: Seq<ActionView>,
}

/// The action of sending `message` to `to`.
pub open spec fn send(to: ConnId, message: MessageView) -> ActionView {
    ActionView::Send { to, message }
}

/// The action of waking up the session of `conn`.
pub open spec fn wake(conn: ConnId) -> ActionView {
    ActionView::Wake { conn }
}

/// Whether `action` sends a message to `conn`.
pub open spec fn is_reply(action: ActionView, conn: ConnId) -> bool {
    match action {
        ActionView::Send { to, .. } => to == conn,
        ActionView::Wake { .. } => false,
    }
}

/// The room `name`, if it exists and `conn` holds a seat there.
pub open spec fn room_of(rooms: Rooms, name: Seq<char>, conn: ConnId) -> Option<RoomView> {
    if rooms.contains_key(name) && rooms[name].holds(conn) {
        Some(rooms[name])
    } else {
        None
    }
}

/// What opens a round in a room whose game has started: the board goes to
/// both seats, and the seat whose mark is to move is asked for a move.
pub open spec fn round_actions(room: RoomView) -> Seq<ActionView> {
    let board = room.game->0;
    seq![
        send(room.seat1->0, MessageView::Board(board)),
        send(room.seat2->0, MessageView::Board(board)),
        send(room.seat_to_move()->0, MessageView::YourMove(board.turn)),
    ]
}

/// What ends a game: the final board goes to both seats, and then the
/// result.
pub open spec fn final_actions(room: RoomView, result: MessageView) -> Seq<ActionView> {
    let board = room.game->0;
    seq![
        send(room.seat1->0, MessageView::Board(board)),
        send(room.seat2->0, MessageView::Board(board)),
        send(room.seat1->0, result),
        send(room.seat2->0, result),
    ]
}

/// A step of the session of `conn` into `state`.
pub open spec fn go(conn: ConnId, state: StateView, rooms: Rooms, actions: Seq<ActionView>) -> Step {
    Step { session: SessionView { conn, state }, rooms, actions }
}

/// At the menu: a choice leads on, anything else is answered and the menu
/// shown again.
pub open spec fn menu_line(conn: ConnId, rooms: Rooms, line: Seq<char>) -> Step {
    match menu_choice_of(line) {
        Some(MenuChoice::Create) => go(
            conn,
            StateView::CreatingRoom { name: None },
            rooms,
            seq![send(conn, MessageView::AskRoomName)],
        ),
        Some(MenuChoice::Join) => go(
            conn,
            StateView::JoiningRoom,
            rooms,
            seq![send(conn, MessageView::AskRoomName)],
        ),
        Some(MenuChoice::Exit) => go(conn, StateView::Finished, rooms, seq![]),
        None => go(
            conn,
            StateView::Menu,
            rooms,
            seq![send(conn, MessageView::InvalidOption), send(conn, MessageView::Menu)],
        ),
    }
}

/// Creating a room, no name yet: a name leads on to the game type, a blank
/// line is asked again.
pub open spec fn naming_line(conn: ConnId, rooms: Rooms, line: Seq<char>) -> Step {
    match room_name_of(line) {
        Some(name) => go(
            conn,
            StateView::CreatingRoom { name: Some(name) },
            rooms,
            seq![send(conn, MessageView::AskGameType)],
        ),
        None => go(
            conn,
            StateView::CreatingRoom { name: None },
            rooms,
            seq![send(conn, MessageView::AskRoomName)],
        ),
    }
}

/// Creating the room `name`: a game type creates it, and the session then
/// waits for an opponent, or goes back to the menu if the name is taken;
/// anything else is asked again.
pub open spec fn creating_line(conn: ConnId, rooms: Rooms, name: Seq<char>, line: Seq<char>)
    -> Step {
    match game_type_of(line) {
        None => go(
            conn,
            StateView::CreatingRoom { name: Some(name) },
            rooms,
            seq![send(conn, MessageView::InvalidGameType), send(conn, MessageView::AskGameType)],
        ),
        Some(game_type) => if create_error(rooms, name) is None {
            go(
                conn,
                StateView::WaitingForOpponent { room: name },
                after_create(rooms, name, game_type, conn),
                seq![send(conn, MessageView::RoomCreated)],
            )
        } else {
            go(
                conn,
                StateView::Menu,
                rooms,
                seq![send(conn, MessageView::RoomExists), send(conn, MessageView::Menu)],
            )
        },
    }
}

/// Joining: the line names the room. Where a seat is free the client takes
/// it, the first round opens and the host is woken up; else the reason is
/// told and the session goes back to the menu.
pub open spec fn joining_line(conn: ConnId, rooms: Rooms, line: Seq<char>) -> Step {
    let name = trim(line);
    match join_error(rooms, name) {
        Some(RegistryError::RoomFull) => go(
            conn,
            StateView::Menu,
            rooms,
            seq![send(conn, MessageView::RoomFull), send(conn, MessageView::Menu)],
        ),
        Some(_) => go(
            conn,
            StateView::Menu,
            rooms,
            seq![send(conn, MessageView::RoomNotFound), send(conn, MessageView::Menu)],
        ),
        None => {
            let joined = after_join(rooms, name, conn);
            let room = joined[name];
            go(
                conn,
                StateView::Playing { room: name, to_move: room.seat_to_move() == Some(conn) },
                joined,
                seq![send(conn, MessageView::Joined)] + round_actions(room) + seq![
                    wake(room.seat1->0),
                ],
            )
        },
    }
}

/// Playing in `name`: the line is a move. A move that the board accepts
/// opens the next round, or ends the game, and wakes up the opponent; one
/// that is malformed or turned down is answered, and asked for again if it is
/// the client's turn. If the room is gone the session is over.
pub open spec fn playing_line(conn: ConnId, rooms: Rooms, name: Seq<char>, line: Seq<char>)
    -> Step {
    match room_of(rooms, name, conn) {
        None => go(conn, StateView::Finished, rooms, seq![]),
        Some(room) => if room.seat_to_move() != Some(conn) {
            go(
                conn,
                StateView::Playing { room: name, to_move: false },
                rooms,
                seq![send(conn, MessageView::InvalidMove)],
            )
        } else {
            let board = room.game->0;
            let again = go(
                conn,
                StateView::Playing { room: name, to_move: true },
                rooms,
                seq![
                    send(conn, MessageView::InvalidMove),
                    send(conn, MessageView::YourMove(board.turn)),
                ],
            );
            match move_of(line) {
                Some(cell) => if board.accepts(cell.0 as int, cell.1 as int) {
                    moved(conn, rooms, name, cell.0 as int, cell.1 as int)
                } else {
                    again
                },
                None => again,
            }
        },
    }
}

/// What follows a move of `conn` to `(row, col)` that the board of `name`
/// accepts.
pub open spec fn moved(conn: ConnId, rooms: Rooms, name: Seq<char>, row: int, col: int) -> Step {
    let played = after_play(rooms, name, conn, row, col);
    let room = played[name];
    let peer = room.peer_of(conn)->0;
    match room.game->0.outcome() {
        Outcome::InProgress => go(
            conn,
            StateView::Playing { room: name, to_move: room.seat_to_move() == Some(conn) },
            played,
            round_actions(room) + seq![wake(peer)],
        ),
        Outcome::Won(mark) => go(
            conn,
            StateView::Finished,
            played.remove(name),
            final_actions(room, MessageView::Wins(mark)) + seq![wake(peer)],
        ),
        Outcome::Draw => go(
            conn,
            StateView::Finished,
            played.remove(name),
            final_actions(room, MessageView::Draw) + seq![wake(peer)],
        ),
    }
}

impl SessionView {
    /// A session that has just begun: at the menu.
    pub open spec fn opened(conn: ConnId) -> SessionView {
        SessionView { conn, state: StateView::Menu }
    }

    /// What the session waits for.
    pub open spec fn expects(self) -> Expect {
        match self.state {
            StateView::Menu => Expect::Input,
            StateView::CreatingRoom { .. } => Expect::Input,
            StateView::JoiningRoom => Expect::Input,
            StateView::WaitingForOpponent { .. } => Expect::Signal,
            StateView::Playing { to_move, .. } => if to_move {
                Expect::Input
            } else {
                Expect::Signal
            },
            StateView::Finished => Expect::Nothing,
        }
    }

    /// A step that changes neither the session nor the rooms.
    pub open spec fn stay(self, rooms: Rooms, actions: Seq<ActionView>) -> Step {
        Step { session: self, rooms, actions }
    }

    /// What a line from the client leads to.
    pub open spec fn on_line(self, rooms: Rooms, line: Seq<char>) -> Step {
        match self.state {
            StateView::Menu => menu_line(self.conn, rooms, line),
            StateView::CreatingRoom { name: None } => naming_line(self.conn, rooms, line),
            StateView::CreatingRoom { name: Some(name) } => creating_line(
                self.conn,
                rooms,
                name,
                line,
            ),
            StateView::JoiningRoom => joining_line(self.conn, rooms, line),
            StateView::WaitingForOpponent { .. } => self.stay(rooms, seq![]),
            StateView::Playing { room, .. } => playing_line(self.conn, rooms, room, line),
            StateView::Finished => self.stay(rooms, seq![]),
        }
    }

    /// What a wake-up leads to: a session that waits in a room looks at the
    /// room again. It plays once the second seat is taken, it is to move when
    /// its mark is, and it is over if the room is gone.
    pub open spec fn on_wake(self, rooms: Rooms) -> Step {
        match self.state {
            StateView::WaitingForOpponent { room } => match room_of(rooms, room, self.conn) {
                None => go(self.conn, StateView::Finished, rooms, seq![]),
                Some(r) => if r.is_full() {
                    go(
                        self.conn,
                        StateView::Playing { room, to_move: r.seat_to_move() == Some(self.conn) },
                        rooms,
                        seq![],
                    )
                } else {
                    self.stay(rooms, seq![])
                },
            },
            StateView::Playing { room, .. } => match room_of(rooms, room, self.conn) {
                None => go(self.conn, StateView::Finished, rooms, seq![]),
                Some(r) => go(
                    self.conn,
                    StateView::Playing { room, to_move: r.seat_to_move() == Some(self.conn) },
                    rooms,
                    seq![],
                ),
            },
            _ => self.stay(rooms, seq![]),
        }
    }

    /// What the loss of a connection leads to, for a session in the room
    /// `name`: if the connection is the session's own or its opponent's, the
    /// room is removed, the one who is left is told, the opponent's session is
    /// woken up, and the session is over.
    pub open spec fn leave(self, rooms: Rooms, name: Seq<char>, lost: ConnId) -> Step {
        match room_of(rooms, name, self.conn) {
            None => if lost == self.conn {
                go(self.conn, StateView::Finished, rooms, seq![])
            } else {
                self.stay(rooms, seq![])
            },
            Some(room) => if lost == self.conn {
                go(
                    self.conn,
                    StateView::Finished,
                    rooms.remove(name),
                    match room.peer_of(self.conn) {
                        Some(peer) => seq![
                            send(peer, MessageView::OpponentDisconnected),
                            wake(peer),
                        ],
                        None => seq![],
                    },
                )
            } else if room.peer_of(self.conn) == Some(lost) {
                go(
                    self.conn,
                    StateView::Finished,
                    rooms.remove(name),
                    seq![send(self.conn, MessageView::OpponentDisconnected), wake(lost)],
                )
            } else {
                self.stay(rooms, seq![])
            },
        }
    }

    /// What the loss of the connection `lost` leads to.
    pub open spec fn on_disconnect(self, rooms: Rooms, lost: ConnId) -> Step {
        match self.state {
            StateView::WaitingForOpponent { room } => self.leave(rooms, room, lost),
            StateView::Playing { room, .. } => self.leave(rooms, room, lost),
            StateView::Finished => self.stay(rooms, seq![]),
            _ => if lost == self.conn {
                go(self.conn, StateView::Finished, rooms, seq![])
            } else {
                self.stay(rooms, seq![])
            },
        }
    }

    /// What an event leads to.
    pub open spec fn step(self, rooms: Rooms, event: EventView) -> Step {
        match event {
            EventView::Line(line) => self.on_line(rooms, line),
            EventView::Wake => self.on_wake(rooms),
            EventView::Disconnected(lost) => self.on_disconnect(rooms, lost),
        }
    }
}

/// The session of one connection.
#[derive(Debug, PartialEq, Eq)]
pub struct Session {
    conn: ConnId,
    state: SessionState,
}

impl View for Session {
    type V = SessionView;

    closed spec fn view(&self) -> SessionView {
        SessionView { conn: self.conn, state: self.state@ }
    }
}

/// Whether a session, the rooms and a list of actions are what `step` says.
pub open spec fn is_step(session: Session, rooms: Rooms, actions: Vec<Action>, step: Step) -> bool {
    &&& session@ == step.session
    &&& rooms == step.rooms
    &&& actions.deep_view() == step.actions
}

/// Appends the action of sending `message` to `to`.
fn push_send(actions: &mut Vec<Action>, to: ConnId, message: Message)
    ensures
        final(actions).deep_view() == old(actions).deep_view().push(send(to, message@)),
{
    actions.push(Action::Send { to, message });
    assert(actions.deep_view() =~= old(actions).deep_view().push(send(to, message@)));
}

/// Appends the action of waking up the session of `conn`.
fn push_wake(actions: &mut Vec<Action>, conn: ConnId)
    ensures
        final(actions).deep_view() == old(actions).deep_view().push(wake(conn)),
{
    actions.push(Action::Wake { conn });
    assert(actions.deep_view() =~= old(actions).deep_view().push(wake(conn)));
}

/// No actions.
fn no_actions() -> (actions: Vec<Action>)
    ensures
        actions.deep_view() == Seq::<ActionView>::empty(),
{
    let actions: Vec<Action> = Vec::new();
    assert(actions.deep_view() =~= Seq::<ActionView>::empty());
    actions
}

/// One message for `to`.
fn reply(to: ConnId, message: Message) -> (actions: Vec<Action>)
    ensures
        actions.deep_view() == seq![send(to, message@)],
{
    let mut actions = no_actions();
    push_send(&mut actions, to, message);
    actions
}

/// Two messages for `to`.
fn reply_both(to: ConnId, first: Message, second: Message) -> (actions: Vec<Action>)
    ensures
        actions.deep_view() == seq![send(to, first@), send(to, second@)],
{
    let mut actions = no_actions();
    push_send(&mut actions, to, first);
    push_send(&mut actions, to, second);
    actions
}

/// Appends what opens a round in `room`.
fn push_round(actions: &mut Vec<Action>, room: &Room)
    requires
        room@.game is Some,
    ensures
        final(actions).deep_view() == old(actions).deep_view() + round_actions(room@),
{
    let game = room.game();
    let board = game.unwrap();
    let seat1 = room.seat1().unwrap();
    let seat2 = room.seat2().unwrap();
    let mover = room.seat_to_move().unwrap();
    push_send(actions, seat1, Message::Board(board));
    push_send(actions, seat2, Message::Board(board));
    push_send(actions, mover, Message::YourMove(board.turn()));
    assert(actions.deep_view() =~= old(actions).deep_view() + round_actions(room@));
}

/// What ends the game of `room` with `result`.
fn closing(room: &Room, result: Message) -> (actions: Vec<Action>)
    requires
        room@.game is Some,
    ensures
        actions.deep_view() == final_actions(room@, result@),
{
    let game = room.game();
    let board = game.unwrap();
    let seat1 = room.seat1().unwrap();
    let seat2 = room.seat2().unwrap();
    let mut actions = no_actions();
    push_send(&mut actions, seat1, Message::Board(board));
    push_send(&mut actions, seat2, Message::Board(board));
    push_send(&mut actions, seat1, result);
    push_send(&mut actions, seat2, result);
    actions
}

impl Session {
    /// Begins the session of `conn`: it is at the menu, and the menu is to be
    /// sent.
    pub fn open(conn: ConnId) -> (out: (Session, Vec<Action>))
        ensures
            out.0@ == SessionView::opened(conn),
            out.1.deep_view() == seq![send(conn, MessageView::Menu)],
    {
        (Session { conn, state: SessionState::Menu }, reply(conn, Message::Menu))
    }

    /// The connection that the session serves.
    pub fn conn(&self) -> (conn: ConnId)
        ensures
            conn == self@.conn,
    {
        self.conn
    }

    /// Where the session stands.
    pub fn state(&self) -> (state: &SessionState)
        ensures
            state@ == self@.state,
    {
        &self.state
    }

    /// What the session waits for: a line from its client, a wake-up, or
    /// nothing more.
    pub fn expects(&self) -> (expect: Expect)
        ensures
            expect == self@.expects(),
    {
        match &self.state {
            SessionState::Menu => Expect::Input,
            SessionState::CreatingRoom { .. } => Expect::Input,
            SessionState::JoiningRoom => Expect::Input,
            SessionState::WaitingForOpponent { .. } => Expect::Signal,
            SessionState::Playing { to_move, .. } => if *to_move {
                Expect::Input
            } else {
                Expect::Signal
            },
            SessionState::Finished => Expect::Nothing,
        }
    }

    /// Whether the session is over.
    pub fn is_finished(&self) -> (finished: bool)
        ensures
            finished == (self@.state is Finished),
    {
        match &self.state {
            SessionState::Finished => true,
            _ => false,
        }
    }

    /// Handles a line at the menu.
    fn menu_line(conn: ConnId, line: &str, Ghost(rooms): Ghost<Rooms>) -> (out: (Session, Vec<Action>))
        ensures
            is_step(out.0, rooms, out.1, menu_line(conn, rooms, line@)),
    {
        match parse_menu_choice(line) {
            Some(MenuChoice::Create) => (
                Session { conn, state: SessionState::CreatingRoom { name: None } },
                reply(conn, Message::AskRoomName),
            ),
            Some(MenuChoice::Join) => (
                Session { conn, state: SessionState::JoiningRoom },
                reply(conn, Message::AskRoomName),
            ),
            Some(MenuChoice::Exit) => (Session { conn, state: SessionState::Finished }, no_actions()),
            None => (
                Session { conn, state: SessionState::Menu },
                reply_both(conn, Message::InvalidOption, Message::Menu),
            ),
        }
    }

    /// Handles the line that names the room to create.
    fn naming_line(conn: ConnId, line: &str, Ghost(rooms): Ghost<Rooms>) -> (out: (
        Session,
        Vec<Action>,
    ))
        ensures
            is_step(out.0, rooms, out.1, naming_line(conn, rooms, line@)),
    {
        match parse_room_name(line) {
            Some(name) => (
                Session { conn, state: SessionState::CreatingRoom { name: Some(name) } },
                reply(conn, Message::AskGameType),
            ),
            None => (
                Session { conn, state: SessionState::CreatingRoom { name: None } },
                reply(conn, Message::AskRoomName),
            ),
        }
    }

    /// Handles the line that selects the game type of the room to create.
    fn creating_line(conn: ConnId, registry: &mut Registry, name: String, line: &str) -> (out: (
        Session,
        Vec<Action>,
    ))
        ensures
            is_step(
                out.0,
                final(registry)@,
                out.1,
                creating_line(conn, old(registry)@, name@, line@),
            ),
            valid_rooms(final(registry)@),
    {
        match parse_game_type(line) {
            None => {
                proof {
                    use_type_invariant(&*registry);
                }
                (
                    Session { conn, state: SessionState::CreatingRoom { name: Some(name) } },
                    reply_both(conn, Message::InvalidGameType, Message::AskGameType),
                )
            },
            Some(game_type) => match registry.create_room(name.as_str(), game_type, conn) {
                Ok(_) => (
                    Session { conn, state: SessionState::WaitingForOpponent { room: name } },
                    reply(conn, Message::RoomCreated),
                ),
                Err(_) => (
                    Session { conn, state: SessionState::Menu },
                    reply_both(conn, Message::RoomExists, Message::Menu),
                ),
            },
        }
    }

    /// Handles the line that names the room to join.
    fn joining_line(conn: ConnId, registry: &mut Registry, line: &str) -> (out: (
        Session,
        Vec<Action>,
    ))
        ensures
            is_step(out.0, final(registry)@, out.1, joining_line(conn, old(registry)@, line@)),
            valid_rooms(final(registry)@),
    {
        let name = match parse_room_name(line) {
            Some(name) => name,
            None => String::new(),
        };
        assert(name@ =~= trim(line@));
        match registry.join_room(name.as_str(), conn) {
            Err(RegistryError::RoomFull) => (
                Session { conn, state: SessionState::Menu },
                reply_both(conn, Message::RoomFull, Message::Menu),
            ),
            Err(_) => (
                Session { conn, state: SessionState::Menu },
                reply_both(conn, Message::RoomNotFound, Message::Menu),
            ),
            Ok(room) => {
                let host = room.seat1().unwrap();
                let to_move = room.seat_to_move() == Some(conn);
                let mut actions = reply(conn, Message::Joined);
                push_round(&mut actions, &room);
                push_wake(&mut actions, host);
                assert(actions.deep_view() =~= seq![send(conn, MessageView::Joined)] + round_actions(
                    room@,
                ) + seq![wake(host)]);
                (Session { conn, state: SessionState::Playing { room: name, to_move } }, actions)
            },
        }
    }

    /// Follows up a move that the board of `name` has just accepted: `before`
    /// are the rooms before the move, `cell` is where it went.
    fn moved(
        conn: ConnId,
        registry: &mut Registry,
        name: String,
        Ghost(before): Ghost<Rooms>,
        Ghost(cell): Ghost<(int, int)>,
    ) -> (out: (Session, Vec<Action>))
        requires
            valid_rooms(before),
            play_result(before, name@, conn, cell.0, cell.1) is Ok,
            old(registry)@ == after_play(before, name@, conn, cell.0, cell.1),
        ensures
            is_step(out.0, final(registry)@, out.1, moved(conn, before, name@, cell.0, cell.1)),
            valid_rooms(final(registry)@),
    {
        let found = registry.room(name.as_str());
        let room = found.unwrap();
        let game = room.game();
        let board = game.unwrap();
        let peer = room.peer_of(conn).unwrap();
        assert(room@ == after_play(before, name@, conn, cell.0, cell.1)[name@]);
        assert(room@.game == Some(board@));
        match board.evaluate_outcome() {
            Outcome::InProgress => {
                let to_move = room.seat_to_move() == Some(conn);
                let mut actions = no_actions();
                push_round(&mut actions, &room);
                push_wake(&mut actions, peer);
                assert(actions.deep_view() =~= round_actions(room@) + seq![wake(peer)]);
                (Session { conn, state: SessionState::Playing { room: name, to_move } }, actions)
            },
            Outcome::Won(mark) => {
                registry.remove_room(name.as_str());
                let mut actions = closing(&room, Message::Wins(mark));
                push_wake(&mut actions, peer);
                assert(actions.deep_view() =~= final_actions(room@, MessageView::Wins(mark)) + seq![
                    wake(peer),
                ]);
                (Session { conn, state: SessionState::Finished }, actions)
            },
            Outcome::Draw => {
                registry.remove_room(name.as_str());
                let mut actions = closing(&room, Message::Draw);
                push_wake(&mut actions, peer);
                assert(actions.deep_view() =~= final_actions(room@, MessageView::Draw) + seq![
                    wake(peer),
                ]);
                (Session { conn, state: SessionState::Finished }, actions)
            },
        }
    }

    /// Handles a line from a client that plays in `name`.
    fn playing_line(conn: ConnId, registry: &mut Registry, name: String, line: &str) -> (out: (
        Session,
        Vec<Action>,
    ))
        ensures
            is_step(
                out.0,
                final(registry)@,
                out.1,
                playing_line(conn, old(registry)@, name@, line@),
            ),
            valid_rooms(final(registry)@),
    {
        let room = match registry.room(name.as_str()) {
            Some(room) => room,
            None => {
                return (Session { conn, state: SessionState::Finished }, no_actions());
            },
        };
        if !room.holds(conn) {
            return (Session { conn, state: SessionState::Finished }, no_actions());
        }
        if room.seat_to_move() != Some(conn) {
            return (
                Session { conn, state: SessionState::Playing { room: name, to_move: false } },
                reply(conn, Message::InvalidMove),
            );
        }
        let game = room.game();
        let board = game.unwrap();
        if let Some((row, col)) = parse_move(line) {
            let ghost before = registry@;
            if registry.play(name.as_str(), conn, row, col).is_ok() {
                return Self::moved(conn, registry, name, Ghost(before), Ghost((row as int, col as int)));
            }
        }
        (
            Session { conn, state: SessionState::Playing { room: name, to_move: true } },
            reply_both(conn, Message::InvalidMove, Message::YourMove(board.turn())),
        )
    }

    /// Handles a line from the client.
    fn on_line(self, registry: &mut Registry, line: &str) -> (out: (Session, Vec<Action>))
        ensures
            is_step(out.0, final(registry)@, out.1, self@.on_line(old(registry)@, line@)),
            valid_rooms(final(registry)@),
    {
        let conn = self.conn;
        proof {
            use_type_invariant(&*registry);
        }
        match self.state {
            SessionState::Menu => Self::menu_line(conn, line, Ghost(registry@)),
            SessionState::CreatingRoom { name: None } => Self::naming_line(
                conn,
                line,
                Ghost(registry@),
            ),
            SessionState::CreatingRoom { name: Some(name) } => Self::creating_line(
                conn,
                registry,
                name,
                line,
            ),
            SessionState::JoiningRoom => Self::joining_line(conn, registry, line),
            SessionState::WaitingForOpponent { room } => (
                Session { conn, state: SessionState::WaitingForOpponent { room } },
                no_actions(),
            ),
            SessionState::Playing { room, .. } => Self::playing_line(conn, registry, room, line),
            SessionState::Finished => (Session { conn, state: SessionState::Finished }, no_actions()),
        }
    }

    /// Handles a wake-up.
    fn on_wake(self, registry: &Registry) -> (out: (Session, Vec<Action>))
        ensures
            is_step(out.0, registry@, out.1, self@.on_wake(registry@)),
            valid_rooms(registry@),
    {
        let conn = self.conn;
        proof {
            use_type_invariant(registry);
        }
        match self.state {
            SessionState::WaitingForOpponent { room } => {
                let state = match registry.room(room.as_str()) {
                    Some(r) => if !r.holds(conn) {
                        SessionState::Finished
                    } else if r.is_full() {
                        SessionState::Playing { room, to_move: r.seat_to_move() == Some(conn) }
                    } else {
                        SessionState::WaitingForOpponent { room }
                    },
                    None => SessionState::Finished,
                };
                (Session { conn, state }, no_actions())
            },
            SessionState::Playing { room, .. } => {
                let state = match registry.room(room.as_str()) {
                    Some(r) => if !r.holds(conn) {
                        SessionState::Finished
                    } else {
                        SessionState::Playing { room, to_move: r.seat_to_move() == Some(conn) }
                    },
                    None => SessionState::Finished,
                };
                (Session { conn, state }, no_actions())
            },
            state => (Session { conn, state }, no_actions()),
        }
    }

    /// Handles the loss of `lost` for a session in the room `name`.
    fn leave(self, registry: &mut Registry, name: &str, lost: ConnId) -> (out: (
        Session,
        Vec<Action>,
    ))
        ensures
            is_step(out.0, final(registry)@, out.1, self@.leave(old(registry)@, name@, lost)),
            valid_rooms(final(registry)@),
    {
        let conn = self.conn;
        let peer = match registry.room(name) {
            Some(room) => if room.holds(conn) {
                Some(room.peer_of(conn))
            } else {
                None
            },
            None => None,
        };
        assert(peer == match room_of(registry@, name@, conn) {
            Some(room) => Some(room.peer_of(conn)),
            None => None,
        });
        match peer {
            None => if lost == conn {
                (Session { conn, state: SessionState::Finished }, no_actions())
            } else {
                (self, no_actions())
            },
            Some(peer) => if lost == conn {
                registry.remove_room(name);
                let mut actions = no_actions();
                if let Some(p) = peer {
                    push_send(&mut actions, p, Message::OpponentDisconnected);
                    push_wake(&mut actions, p);
                }
                assert(actions.deep_view() =~= match peer {
                    Some(p) => seq![send(p, MessageView::OpponentDisconnected), wake(p)],
                    None => seq![],
                });
                (Session { conn, state: SessionState::Finished }, actions)
            } else if peer == Some(lost) {
                registry.remove_room(name);
                let mut actions = reply(conn, Message::OpponentDisconnected);
                push_wake(&mut actions, lost);
                assert(actions.deep_view() =~= seq![
                    send(conn, MessageView::OpponentDisconnected),
                    wake(lost),
                ]);
                (Session { conn, state: SessionState::Finished }, actions)
            } else {
                (self, no_actions())
            },
        }
    }

    /// Handles the loss of the connection `lost`.
    fn on_disconnect(self, registry: &mut Registry, lost: ConnId) -> (out: (Session, Vec<Action>))
        ensures
            is_step(out.0, final(registry)@, out.1, self@.on_disconnect(old(registry)@, lost)),
            valid_rooms(final(registry)@),
    {
        let conn = self.conn;
        proof {
            use_type_invariant(&*registry);
        }
        let name = match &self.state {
            SessionState::WaitingForOpponent { room } => Some(room.clone()),
            SessionState::Playing { room, .. } => Some(room.clone()),
            _ => None,
        };
        match name {
            Some(name) => self.leave(registry, name.as_str(), lost),
            None => if lost == conn && !self.is_finished() {
                (Session { conn, state: SessionState::Finished }, no_actions())
            } else {
                (self, no_actions())
            },
        }
    }

    /// Takes one step: handles `event` in the present state.
    ///
    /// The session and the registry come out as [`SessionView::step`] says,
    /// together with what the caller is to do, in order. Input that is
    /// malformed, and requests that the registry refuses, are answered and
    /// change no room; they never end the session.
    pub fn step(self, registry: &mut Registry, event: Event) -> (out: (Session, Vec<Action>))
        ensures
            is_step(out.0, final(registry)@, out.1, self@.step(old(registry)@, event@)),
            valid_rooms(old(registry)@),
            valid_rooms(final(registry)@),
    {
        proof {
            use_type_invariant(&*registry);
        }
        match event {
            Event::Line(line) => self.on_line(registry, line.as_str()),
            Event::Wake => self.on_wake(registry),
            Event::Disconnected(lost) => self.on_disconnect(registry, lost),
        }
    }
}

/// A step leads from valid rooms to valid rooms.
pub proof fn lemma_step_keeps_rooms_valid(session: SessionView, rooms: Rooms, event: EventView)
    requires
        valid_rooms(rooms),
    ensures
        valid_rooms(session.step(rooms, event).rooms),
{
    let next = session.step(rooms, event);
    let conn = session.conn;
    match event {
        EventView::Line(line) => {
            match session.state {
                StateView::CreatingRoom { name: Some(name) } => {
                    if let Some(game_type) = game_type_of(line) {
                        lemma_requests_keep_valid(rooms, name, game_type, conn, 0, 0);
                    }
                },
                StateView::JoiningRoom => {
                    lemma_requests_keep_valid(
                        rooms,
                        trim(line),
                        GameType::TicTacToe,
                        conn,
                        0,
                        0,
                    );
                },
                StateView::Playing { room, .. } => {
                    if let Some(cell) = move_of(line) {
                        lemma_requests_keep_valid(
                            rooms,
                            room,
                            GameType::TicTacToe,
                            conn,
                            cell.0 as int,
                            cell.1 as int,
                        );
                        let played = after_play(rooms, room, conn, cell.0 as int, cell.1 as int);
                        lemma_requests_keep_valid(
                            played,
                            room,
                            GameType::TicTacToe,
                            conn,
                            0,
                            0,
                        );
                    }
                },
                _ => {},
            }
        },
        EventView::Wake => {},
        EventView::Disconnected(lost) => {
            match session.state {
                StateView::WaitingForOpponent { room } => {
                    lemma_requests_keep_valid(
                        rooms,
                        room,
                        GameType::TicTacToe,
                        conn,
                        0,
                        0,
                    );
                },
                StateView::Playing { room, .. } => {
                    lemma_requests_keep_valid(
                        rooms,
                        room,
                        GameType::TicTacToe,
                        conn,
                        0,
                        0,
                    );
                },
                _ => {},
            }
        },
    }
}

/// No room holds a game that is over.
pub open spec fn all_games_open(rooms: Rooms) -> bool {
    forall|name: Seq<char>| #[trigger]
        rooms.contains_key(name) ==> (rooms[name].game matches Some(board) ==> board.outcome()
            == Outcome::InProgress)
}

/// A room lasts as long as its game: a step leaves no room behind whose game
/// has been won or drawn.
pub proof fn lemma_step_leaves_no_finished_game(
    session: SessionView,
    rooms: Rooms,
    event: EventView,
)
    requires
        valid_rooms(rooms),
        all_games_open(rooms),
    ensures
        all_games_open(session.step(rooms, event).rooms),
{
    lemma_initial_valid();
}

/// A session that is over stays over: no event changes it or the rooms, and
/// none asks for an action.
pub proof fn lemma_finished_is_final(session: SessionView, rooms: Rooms, event: EventView)
    requires
        session.state is Finished,
    ensures
        session.step(rooms, event) == session.stay(rooms, seq![]),
        session.expects() == Expect::Nothing,
{
}

/// Leaving by the menu ends the session and touches no room, and asks for no
/// action.
pub proof fn lemma_exit_touches_no_room(session: SessionView, rooms: Rooms, line: Seq<char>)
    requires
        session.state is Menu,
        menu_choice_of(line) == Some(MenuChoice::Exit),
    ensures
        session.step(rooms, EventView::Line(line)) == go(
            session.conn,
            StateView::Finished,
            rooms,
            seq![],
        ),
{
}

/// Input that cannot be read, and a move that the board turns down, are
/// recovered on the spot: the session stays in its state, no room changes,
/// and the client is told and asked again.
pub proof fn lemma_bad_input_is_asked_again(session: SessionView, rooms: Rooms, line: Seq<char>)
    requires
        match session.state {
            StateView::Menu => menu_choice_of(line) is None,
            StateView::CreatingRoom { name: None } => room_name_of(line) is None,
            StateView::CreatingRoom { name: Some(_) } => game_type_of(line) is None,
            StateView::Playing { room, to_move } => {
                &&& to_move
                &&& room_of(rooms, room, session.conn) matches Some(r)
                &&& r.seat_to_move() == Some(session.conn)
                &&& move_of(line) matches Some(cell) ==> !r.game->0.accepts(
                    cell.0 as int,
                    cell.1 as int,
                )
            },
            _ => false,
        },
    ensures
        session.step(rooms, EventView::Line(line)).session == session,
        session.step(rooms, EventView::Line(line)).rooms == rooms,
        session.step(rooms, EventView::Line(line)).session.expects() == Expect::Input,
        session.step(rooms, EventView::Line(line)).actions.len() > 0,
        forall|i: int|
            0 <= i < session.step(rooms, EventView::Line(line)).actions.len() ==> is_reply(
                #[trigger] session.step(rooms, EventView::Line(line)).actions[i],
                session.conn,
            ),
{
}

/// A request that the registry refuses changes no room: the client is told
/// why and is back at the menu.
pub proof fn lemma_refused_request_returns_to_menu(
    session: SessionView,
    rooms: Rooms,
    line: Seq<char>,
)
    requires
        match session.state {
            StateView::CreatingRoom { name: Some(name) } => game_type_of(line) is Some
                && create_error(rooms, name) is Some,
            StateView::JoiningRoom => join_error(rooms, trim(line)) is Some,
            _ => false,
        },
    ensures
        ({
            let next = session.step(rooms, EventView::Line(line));
            let reason = match session.state {
                StateView::CreatingRoom { .. } => MessageView::RoomExists,
                _ => if join_error(rooms, trim(line)) == Some(RegistryError::RoomFull) {
                    MessageView::RoomFull
                } else {
                    MessageView::RoomNotFound
                },
            };
            &&& next.session == SessionView::opened(session.conn)
            &&& next.rooms == rooms
            &&& next.actions == seq![send(session.conn, reason), send(session.conn, MessageView::Menu)]
        }),
{
}

/// When a connection is lost to a session that plays in a room with its
/// opponent, be it the session's own connection or the opponent's, the room
/// is removed from the registry, the player who is left is told that the
/// opponent disconnected, the opponent's session is woken up, and the session
/// is over.
pub proof fn lemma_disconnect_removes_room(
    session: SessionView,
    rooms: Rooms,
    room: Seq<char>,
    lost: ConnId,
)
    requires
        valid_rooms(rooms),
        session.state matches StateView::Playing { room: r, .. } && r == room,
        room_of(rooms, room, session.conn) is Some,
        rooms[room].is_full(),
        lost == session.conn || rooms[room].peer_of(session.conn) == Some(lost),
    ensures
        ({
            let next = session.step(rooms, EventView::Disconnected(lost));
            let peer = rooms[room].peer_of(session.conn)->0;
            let left = if lost == session.conn {
                peer
            } else {
                session.conn
            };
            &&& !next.rooms.contains_key(room)
            &&& next.rooms == rooms.remove(room)
            &&& next.session.state is Finished
            &&& next.actions == seq![send(left, MessageView::OpponentDisconnected), wake(peer)]
        }),
{
}

} // verus!
