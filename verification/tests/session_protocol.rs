use game_server::board::{Board, Mark};
use game_server::message::Message;
use game_server::registry::Registry;
use game_server::room::GameType;
use game_server::session::{Action, Event, Expect, Session, SessionState};

const HOST: u64 = 1;
const GUEST: u64 = 2;

fn line(text: &str) -> Event {
    Event::Line(text.to_string())
}

fn send(to: u64, message: Message) -> Action {
    Action::Send { to, message }
}

fn wake(conn: u64) -> Action {
    Action::Wake { conn }
}

fn at_menu(conn: u64) -> Session {
    let (session, actions) = Session::open(conn);
    assert_eq!(actions, vec![send(conn, Message::Menu)]);
    session
}

fn playing(room: &str, to_move: bool) -> SessionState {
    SessionState::Playing { room: room.to_string(), to_move }
}

/// A host waiting in `room` and a guest who has joined it; the host was woken.
fn paired(registry: &mut Registry, room: &str) -> (Session, Session) {
    let host = at_menu(HOST);
    let (host, _) = host.step(registry, line("1"));
    let (host, _) = host.step(registry, line(room));
    let (host, _) = host.step(registry, line("1"));
    let guest = at_menu(GUEST);
    let (guest, _) = guest.step(registry, line("2"));
    let (guest, _) = guest.step(registry, line(room));
    let (host, _) = host.step(registry, Event::Wake);
    assert_eq!(host.state(), &playing(room, true));
    assert_eq!(guest.state(), &playing(room, false));
    (host, guest)
}

fn board_after(moves: &[(usize, usize)]) -> Board {
    let mut board = Board::new();
    for &(row, col) in moves {
        assert_eq!(board.attempt_move(row, col), Ok(()));
    }
    board
}

/// Plays `moves` in turn, host first, waking the other side after each, and
/// returns both sessions with the actions of the last move.
fn play_out(
    registry: &mut Registry,
    mut host: Session,
    mut guest: Session,
    moves: &[&str],
) -> (Session, Session, Vec<Action>) {
    let mut last = Vec::new();
    for (k, text) in moves.iter().enumerate() {
        if k % 2 == 0 {
            assert_eq!(host.expects(), Expect::Input);
            assert_eq!(guest.expects(), Expect::Signal);
            let (next, actions) = host.step(registry, line(text));
            host = next;
            last = actions;
            let (next, woken) = guest.step(registry, Event::Wake);
            guest = next;
            assert_eq!(woken, vec![]);
        } else {
            assert_eq!(guest.expects(), Expect::Input);
            assert_eq!(host.expects(), Expect::Signal);
            let (next, actions) = guest.step(registry, line(text));
            guest = next;
            last = actions;
            let (next, woken) = host.step(registry, Event::Wake);
            host = next;
            assert_eq!(woken, vec![]);
        }
    }
    (host, guest, last)
}

#[test]
fn session_opens_at_the_menu() {
    let (session, actions) = Session::open(7);
    assert_eq!(session.conn(), 7);
    assert_eq!(session.state(), &SessionState::Menu);
    assert_eq!(session.expects(), Expect::Input);
    assert!(!session.is_finished());
    assert_eq!(actions, vec![send(7, Message::Menu)]);
}

#[test]
fn unrecognised_menu_input_shows_the_menu_again() {
    let mut registry = Registry::new();
    let mut session = at_menu(HOST);
    for text in ["", "4", "hello", "1 2", "0"] {
        let (next, actions) = session.step(&mut registry, line(text));
        session = next;
        assert_eq!(session.state(), &SessionState::Menu);
        assert_eq!(actions, vec![send(HOST, Message::InvalidOption), send(HOST, Message::Menu)]);
        assert_eq!(session.expects(), Expect::Input);
    }
    assert_eq!(registry.len(), 0);
}

#[test]
fn exit_ends_the_session_and_touches_no_room() {
    let mut registry = Registry::new();
    registry.create_room("alpha", GameType::TicTacToe, 9).unwrap();
    let before = registry.room("alpha");
    let (session, actions) = at_menu(HOST).step(&mut registry, line("3\n"));
    assert_eq!(session.state(), &SessionState::Finished);
    assert!(session.is_finished());
    assert_eq!(session.expects(), Expect::Nothing);
    assert_eq!(actions, vec![]);
    assert_eq!(registry.len(), 1);
    assert_eq!(registry.room("alpha"), before);
}

#[test]
fn creating_a_room_asks_for_name_and_game_type() {
    let mut registry = Registry::new();
    let (session, actions) = at_menu(HOST).step(&mut registry, line("1\n"));
    assert_eq!(session.state(), &SessionState::CreatingRoom { name: None });
    assert_eq!(actions, vec![send(HOST, Message::AskRoomName)]);
    let (session, actions) = session.step(&mut registry, line("  alpha \n"));
    assert_eq!(session.state(), &SessionState::CreatingRoom { name: Some("alpha".to_string()) });
    assert_eq!(actions, vec![send(HOST, Message::AskGameType)]);
    assert_eq!(registry.len(), 0);
    let (session, actions) = session.step(&mut registry, line("1\n"));
    assert_eq!(session.state(), &SessionState::WaitingForOpponent { room: "alpha".to_string() });
    assert_eq!(actions, vec![send(HOST, Message::RoomCreated)]);
    assert_eq!(session.expects(), Expect::Signal);
    let room = registry.room("alpha").unwrap();
    assert_eq!(room.seat1(), Some(HOST));
    assert_eq!(room.seat2(), None);
    assert_eq!(room.game(), None);
    assert_eq!(room.game_type(), GameType::TicTacToe);
}

#[test]
fn second_game_type_is_recorded() {
    let mut registry = Registry::new();
    let (session, _) = at_menu(HOST).step(&mut registry, line("1"));
    let (session, _) = session.step(&mut registry, line("four"));
    let (session, _) = session.step(&mut registry, line("2"));
    assert_eq!(session.state(), &SessionState::WaitingForOpponent { room: "four".to_string() });
    assert_eq!(registry.room("four").unwrap().game_type(), GameType::ConnectFour);
}

#[test]
fn blank_room_name_is_asked_again() {
    let mut registry = Registry::new();
    let (mut session, _) = at_menu(HOST).step(&mut registry, line("1"));
    for text in ["", "\n", "   \t"] {
        let (next, actions) = session.step(&mut registry, line(text));
        session = next;
        assert_eq!(session.state(), &SessionState::CreatingRoom { name: None });
        assert_eq!(actions, vec![send(HOST, Message::AskRoomName)]);
    }
    assert_eq!(registry.len(), 0);
}

#[test]
fn invalid_game_type_is_asked_again() {
    let mut registry = Registry::new();
    let (session, _) = at_menu(HOST).step(&mut registry, line("1"));
    let (mut session, _) = session.step(&mut registry, line("alpha"));
    for text in ["", "3", "Tic Tac Toe", "0"] {
        let (next, actions) = session.step(&mut registry, line(text));
        session = next;
        assert_eq!(session.state(), &SessionState::CreatingRoom { name: Some("alpha".to_string()) });
        assert_eq!(
            actions,
            vec![send(HOST, Message::InvalidGameType), send(HOST, Message::AskGameType)]
        );
    }
    assert_eq!(registry.len(), 0);
    assert_eq!(session.expects(), Expect::Input);
}

#[test]
fn creating_an_existing_room_returns_to_the_menu() {
    let mut registry = Registry::new();
    registry.create_room("alpha", GameType::TicTacToe, 9).unwrap();
    let before = registry.room("alpha");
    let (session, _) = at_menu(HOST).step(&mut registry, line("1"));
    let (session, _) = session.step(&mut registry, line("alpha"));
    let (session, actions) = session.step(&mut registry, line("1"));
    assert_eq!(session.state(), &SessionState::Menu);
    assert_eq!(actions, vec![send(HOST, Message::RoomExists), send(HOST, Message::Menu)]);
    assert_eq!(registry.room("alpha"), before);
    assert_eq!(registry.len(), 1);
}

#[test]
fn joining_a_missing_room_returns_to_the_menu() {
    let mut registry = Registry::new();
    let (session, actions) = at_menu(GUEST).step(&mut registry, line("2"));
    assert_eq!(session.state(), &SessionState::JoiningRoom);
    assert_eq!(actions, vec![send(GUEST, Message::AskRoomName)]);
    let (session, actions) = session.step(&mut registry, line("missing"));
    assert_eq!(session.state(), &SessionState::Menu);
    assert_eq!(actions, vec![send(GUEST, Message::RoomNotFound), send(GUEST, Message::Menu)]);
    assert_eq!(registry.len(), 0);
}

#[test]
fn joining_with_a_blank_name_finds_no_room() {
    let mut registry = Registry::new();
    registry.create_room("alpha", GameType::TicTacToe, HOST).unwrap();
    let (session, _) = at_menu(GUEST).step(&mut registry, line("2"));
    let (session, actions) = session.step(&mut registry, line("  "));
    assert_eq!(session.state(), &SessionState::Menu);
    assert_eq!(actions, vec![send(GUEST, Message::RoomNotFound), send(GUEST, Message::Menu)]);
}

#[test]
fn joining_a_full_room_returns_to_the_menu() {
    let mut registry = Registry::new();
    paired(&mut registry, "alpha");
    let before = registry.room("alpha");
    let (session, _) = at_menu(3).step(&mut registry, line("2"));
    let (session, actions) = session.step(&mut registry, line("alpha"));
    assert_eq!(session.state(), &SessionState::Menu);
    assert_eq!(actions, vec![send(3, Message::RoomFull), send(3, Message::Menu)]);
    assert_eq!(registry.room("alpha"), before);
}

#[test]
fn joining_opens_the_first_round_and_wakes_the_host() {
    let mut registry = Registry::new();
    let (host, _) = at_menu(HOST).step(&mut registry, line("1"));
    let (host, _) = host.step(&mut registry, line("alpha"));
    let (host, _) = host.step(&mut registry, line("1"));
    let (guest, _) = at_menu(GUEST).step(&mut registry, line("2"));
    let (guest, actions) = guest.step(&mut registry, line("alpha\n"));
    assert_eq!(guest.state(), &playing("alpha", false));
    assert_eq!(guest.expects(), Expect::Signal);
    assert_eq!(
        actions,
        vec![
            send(GUEST, Message::Joined),
            send(HOST, Message::Board(Board::new())),
            send(GUEST, Message::Board(Board::new())),
            send(HOST, Message::YourMove(Mark::X)),
            wake(HOST),
        ]
    );
    let room = registry.room("alpha").unwrap();
    assert_eq!(room.seat1(), Some(HOST));
    assert_eq!(room.seat2(), Some(GUEST));
    assert_eq!(room.game(), Some(Board::new()));
    let (host, actions) = host.step(&mut registry, Event::Wake);
    assert_eq!(host.state(), &playing("alpha", true));
    assert_eq!(host.expects(), Expect::Input);
    assert_eq!(actions, vec![]);
}

#[test]
fn waiting_host_stays_until_the_second_seat_is_taken() {
    let mut registry = Registry::new();
    let (host, _) = at_menu(HOST).step(&mut registry, line("1"));
    let (host, _) = host.step(&mut registry, line("alpha"));
    let (host, _) = host.step(&mut registry, line("1"));
    let (host, actions) = host.step(&mut registry, Event::Wake);
    assert_eq!(host.state(), &SessionState::WaitingForOpponent { room: "alpha".to_string() });
    assert_eq!(actions, vec![]);
    let (host, actions) = host.step(&mut registry, line("1 1"));
    assert_eq!(host.state(), &SessionState::WaitingForOpponent { room: "alpha".to_string() });
    assert_eq!(actions, vec![]);
    assert_eq!(host.expects(), Expect::Signal);
}

#[test]
fn accepted_move_opens_the_next_round() {
    let mut registry = Registry::new();
    let (host, guest) = paired(&mut registry, "alpha");
    let (host, actions) = host.step(&mut registry, line("1 1\n"));
    let board = board_after(&[(1, 1)]);
    assert_eq!(host.state(), &playing("alpha", false));
    assert_eq!(host.expects(), Expect::Signal);
    assert_eq!(
        actions,
        vec![
            send(HOST, Message::Board(board)),
            send(GUEST, Message::Board(board)),
            send(GUEST, Message::YourMove(Mark::O)),
            wake(GUEST),
        ]
    );
    assert_eq!(registry.room("alpha").unwrap().game(), Some(board));
    let (guest, actions) = guest.step(&mut registry, Event::Wake);
    assert_eq!(guest.state(), &playing("alpha", true));
    assert_eq!(guest.expects(), Expect::Input);
    assert_eq!(actions, vec![]);
}

#[test]
fn invalid_move_is_reported_and_asked_again() {
    let mut registry = Registry::new();
    let (host, guest) = paired(&mut registry, "alpha");
    let (host, guest, _) = play_out(&mut registry, host, guest, &["0 0", "1 1"]);
    let before = registry.room("alpha");
    let mut host = host;
    for text in ["", "1", "a b", "1 2 3", "3 0", "0 3", "0 0", "1 1", "-1 0", "99999999999999999999999 0"] {
        let (next, actions) = host.step(&mut registry, line(text));
        host = next;
        assert_eq!(host.state(), &playing("alpha", true), "{:?}", text);
        assert_eq!(
            actions,
            vec![send(HOST, Message::InvalidMove), send(HOST, Message::YourMove(Mark::X))],
            "{:?}",
            text
        );
        assert_eq!(registry.room("alpha"), before);
    }
    assert_eq!(guest.state(), &playing("alpha", false));
    let (host, actions) = host.step(&mut registry, line("0 1"));
    assert_eq!(host.state(), &playing("alpha", false));
    assert_eq!(actions.len(), 4);
}

#[test]
fn move_out_of_turn_is_invalid() {
    let mut registry = Registry::new();
    let (_host, guest) = paired(&mut registry, "alpha");
    let before = registry.room("alpha");
    let (guest, actions) = guest.step(&mut registry, line("0 0"));
    assert_eq!(guest.state(), &playing("alpha", false));
    assert_eq!(guest.expects(), Expect::Signal);
    assert_eq!(actions, vec![send(GUEST, Message::InvalidMove)]);
    assert_eq!(registry.room("alpha"), before);
}

#[test]
fn two_sessions_never_both_move_in_one_turn() {
    let mut registry = Registry::new();
    let (host, guest) = paired(&mut registry, "alpha");
    let (host, first) = host.step(&mut registry, line("0 0"));
    let (_host, second) = host.step(&mut registry, line("0 1"));
    assert_eq!(first.len(), 4);
    assert_eq!(second, vec![send(HOST, Message::InvalidMove)]);
    assert_eq!(registry.room("alpha").unwrap().game().unwrap().move_count(), 1);
    let (guest, _) = guest.step(&mut registry, Event::Wake);
    let (_guest, third) = guest.step(&mut registry, line("0 1"));
    assert_eq!(third.len(), 4);
    assert_eq!(registry.room("alpha").unwrap().game().unwrap().move_count(), 2);
}

#[test]
fn winning_move_ends_the_game_and_removes_the_room() {
    let mut registry = Registry::new();
    registry.create_room("other", GameType::TicTacToe, 9).unwrap();
    let (host, guest) = paired(&mut registry, "alpha");
    let (host, guest, _) = play_out(&mut registry, host, guest, &["0 0", "1 1", "0 1", "2 2"]);
    assert!(registry.contains("alpha"));
    let (host, actions) = host.step(&mut registry, line("0 2"));
    let board = board_after(&[(0, 0), (1, 1), (0, 1), (2, 2), (0, 2)]);
    assert_eq!(
        actions,
        vec![
            send(HOST, Message::Board(board)),
            send(GUEST, Message::Board(board)),
            send(HOST, Message::Wins(Mark::X)),
            send(GUEST, Message::Wins(Mark::X)),
            wake(GUEST),
        ]
    );
    assert_eq!(host.state(), &SessionState::Finished);
    assert_eq!(host.expects(), Expect::Nothing);
    assert!(!registry.contains("alpha"));
    assert!(registry.contains("other"));
    assert_eq!(registry.len(), 1);
    let (guest, actions) = guest.step(&mut registry, Event::Wake);
    assert_eq!(guest.state(), &SessionState::Finished);
    assert_eq!(actions, vec![]);
}

#[test]
fn no_winner_is_announced_before_the_winning_move() {
    let mut registry = Registry::new();
    let (mut host, mut guest) = paired(&mut registry, "alpha");
    let moves = ["0 0", "1 1", "0 1", "2 2"];
    for (k, text) in moves.iter().enumerate() {
        let actions = if k % 2 == 0 {
            let (next, actions) = host.step(&mut registry, line(text));
            host = next;
            let (next, _) = guest.step(&mut registry, Event::Wake);
            guest = next;
            actions
        } else {
            let (next, actions) = guest.step(&mut registry, line(text));
            guest = next;
            let (next, _) = host.step(&mut registry, Event::Wake);
            host = next;
            actions
        };
        assert_eq!(actions.len(), 4, "move {}", k);
        assert!(actions.iter().all(|a| !matches!(
            a,
            Action::Send { message: Message::Wins(_), .. } | Action::Send { message: Message::Draw, .. }
        )));
        assert!(registry.contains("alpha"));
    }
    assert_eq!(host.state(), &playing("alpha", true));
    assert_eq!(guest.state(), &playing("alpha", false));
}

#[test]
fn second_player_wins_as_o() {
    let mut registry = Registry::new();
    let (host, guest) = paired(&mut registry, "alpha");
    let (host, guest, actions) =
        play_out(&mut registry, host, guest, &["0 0", "1 0", "0 1", "1 1", "2 2", "1 2"]);
    let board = board_after(&[(0, 0), (1, 0), (0, 1), (1, 1), (2, 2), (1, 2)]);
    assert_eq!(
        actions,
        vec![
            send(HOST, Message::Board(board)),
            send(GUEST, Message::Board(board)),
            send(HOST, Message::Wins(Mark::O)),
            send(GUEST, Message::Wins(Mark::O)),
            wake(HOST),
        ]
    );
    assert_eq!(guest.state(), &SessionState::Finished);
    assert_eq!(host.state(), &SessionState::Finished);
    assert!(!registry.contains("alpha"));
}

#[test]
fn full_grid_without_line_ends_in_a_draw() {
    let mut registry = Registry::new();
    let (host, guest) = paired(&mut registry, "alpha");
    let moves = ["0 0", "0 1", "0 2", "1 1", "1 0", "1 2", "2 1", "2 0", "2 2"];
    let (host, guest, actions) = play_out(&mut registry, host, guest, &moves);
    let board =
        board_after(&[(0, 0), (0, 1), (0, 2), (1, 1), (1, 0), (1, 2), (2, 1), (2, 0), (2, 2)]);
    assert_eq!(
        actions,
        vec![
            send(HOST, Message::Board(board)),
            send(GUEST, Message::Board(board)),
            send(HOST, Message::Draw),
            send(GUEST, Message::Draw),
            wake(GUEST),
        ]
    );
    assert_eq!(host.state(), &SessionState::Finished);
    assert_eq!(guest.state(), &SessionState::Finished);
    assert!(!registry.contains("alpha"));
}

#[test]
fn own_disconnect_while_playing_removes_the_room_and_tells_the_peer() {
    let mut registry = Registry::new();
    registry.create_room("other", GameType::TicTacToe, 9).unwrap();
    let (host, guest) = paired(&mut registry, "alpha");
    let (host, actions) = host.step(&mut registry, Event::Disconnected(HOST));
    assert_eq!(host.state(), &SessionState::Finished);
    assert_eq!(actions, vec![send(GUEST, Message::OpponentDisconnected), wake(GUEST)]);
    assert!(!registry.contains("alpha"));
    assert_eq!(registry.room("alpha"), None);
    assert!(registry.contains("other"));
    let (guest, actions) = guest.step(&mut registry, Event::Wake);
    assert_eq!(guest.state(), &SessionState::Finished);
    assert_eq!(actions, vec![]);
}

#[test]
fn peer_disconnect_while_playing_removes_the_room_and_tells_the_one_left() {
    let mut registry = Registry::new();
    let (host, guest) = paired(&mut registry, "alpha");
    let (host, guest, _) = play_out(&mut registry, host, guest, &["0 0"]);
    let (host, actions) = host.step(&mut registry, Event::Disconnected(GUEST));
    assert_eq!(host.state(), &SessionState::Finished);
    assert_eq!(actions, vec![send(HOST, Message::OpponentDisconnected), wake(GUEST)]);
    assert!(!registry.contains("alpha"));
    assert_eq!(registry.len(), 0);
    let (guest, actions) = guest.step(&mut registry, Event::Wake);
    assert_eq!(guest.state(), &SessionState::Finished);
    assert_eq!(actions, vec![]);
}

#[test]
fn guest_disconnect_is_handled_like_the_host_one() {
    let mut registry = Registry::new();
    let (host, guest) = paired(&mut registry, "alpha");
    let (guest, actions) = guest.step(&mut registry, Event::Disconnected(GUEST));
    assert_eq!(guest.state(), &SessionState::Finished);
    assert_eq!(actions, vec![send(HOST, Message::OpponentDisconnected), wake(HOST)]);
    assert!(!registry.contains("alpha"));
    let (host, actions) = host.step(&mut registry, line("0 0"));
    assert_eq!(host.state(), &SessionState::Finished);
    assert_eq!(actions, vec![]);
}

#[test]
fn disconnect_of_a_stranger_changes_nothing() {
    let mut registry = Registry::new();
    let (host, _guest) = paired(&mut registry, "alpha");
    let before = registry.room("alpha");
    let (host, actions) = host.step(&mut registry, Event::Disconnected(77));
    assert_eq!(host.state(), &playing("alpha", true));
    assert_eq!(actions, vec![]);
    assert_eq!(registry.room("alpha"), before);
}

#[test]
fn disconnect_while_waiting_removes_the_room() {
    let mut registry = Registry::new();
    let (host, _) = at_menu(HOST).step(&mut registry, line("1"));
    let (host, _) = host.step(&mut registry, line("alpha"));
    let (host, _) = host.step(&mut registry, line("1"));
    assert!(registry.contains("alpha"));
    let (host, actions) = host.step(&mut registry, Event::Disconnected(HOST));
    assert_eq!(host.state(), &SessionState::Finished);
    assert_eq!(actions, vec![]);
    assert!(!registry.contains("alpha"));
}

#[test]
fn disconnect_before_any_room_ends_only_the_session() {
    let mut registry = Registry::new();
    registry.create_room("alpha", GameType::TicTacToe, 9).unwrap();
    let before = registry.room("alpha");
    let (menu, _) = at_menu(HOST).step(&mut registry, Event::Disconnected(HOST));
    assert_eq!(menu.state(), &SessionState::Finished);
    let (naming, _) = at_menu(HOST).step(&mut registry, line("1"));
    let (naming, actions) = naming.step(&mut registry, Event::Disconnected(HOST));
    assert_eq!(naming.state(), &SessionState::Finished);
    assert_eq!(actions, vec![]);
    let (joining, _) = at_menu(HOST).step(&mut registry, line("2"));
    let (joining, _) = joining.step(&mut registry, Event::Disconnected(HOST));
    assert_eq!(joining.state(), &SessionState::Finished);
    let (other, actions) = at_menu(HOST).step(&mut registry, Event::Disconnected(5));
    assert_eq!(other.state(), &SessionState::Menu);
    assert_eq!(actions, vec![]);
    assert_eq!(registry.room("alpha"), before);
    assert_eq!(registry.len(), 1);
}

#[test]
fn finished_session_ignores_every_event() {
    let mut registry = Registry::new();
    registry.create_room("alpha", GameType::TicTacToe, 9).unwrap();
    let (mut session, _) = at_menu(HOST).step(&mut registry, line("3"));
    for event in [line("1"), line("0 0"), Event::Wake, Event::Disconnected(HOST), Event::Disconnected(9)] {
        let (next, actions) = session.step(&mut registry, event);
        session = next;
        assert_eq!(session.state(), &SessionState::Finished);
        assert_eq!(actions, vec![]);
    }
    assert_eq!(registry.len(), 1);
}

#[test]
fn wake_at_the_menu_changes_nothing() {
    let mut registry = Registry::new();
    let (session, actions) = at_menu(HOST).step(&mut registry, Event::Wake);
    assert_eq!(session.state(), &SessionState::Menu);
    assert_eq!(actions, vec![]);
}

#[test]
fn session_does_not_touch_a_room_it_holds_no_seat_in() {
    let mut registry = Registry::new();
    let (host, guest) = paired(&mut registry, "alpha");
    let (_guest, _) = guest.step(&mut registry, Event::Disconnected(GUEST));
    registry.create_room("alpha", GameType::TicTacToe, 8).unwrap();
    registry.join_room("alpha", 9).unwrap();
    let before = registry.room("alpha");
    let (host, actions) = host.step(&mut registry, Event::Disconnected(HOST));
    assert_eq!(host.state(), &SessionState::Finished);
    assert_eq!(actions, vec![]);
    assert_eq!(registry.room("alpha"), before);
}

#[test]
fn after_a_game_the_name_is_free_again() {
    let mut registry = Registry::new();
    let (host, guest) = paired(&mut registry, "alpha");
    play_out(&mut registry, host, guest, &["0 0", "1 1", "0 1", "2 2", "0 2"]);
    assert_eq!(registry.len(), 0);
    let (host, guest) = paired(&mut registry, "alpha");
    assert_eq!(host.state(), &playing("alpha", true));
    assert_eq!(guest.state(), &playing("alpha", false));
    assert_eq!(registry.room("alpha").unwrap().game(), Some(Board::new()));
}

/// Feeds `text` to `session` and appends what each connection is sent.
fn feed(
    registry: &mut Registry,
    session: Session,
    event: Event,
    host_log: &mut Vec<String>,
    guest_log: &mut Vec<String>,
) -> Session {
    let (next, actions) = session.step(registry, event);
    for action in actions {
        if let Action::Send { to, message } = action {
            if to == HOST {
                host_log.push(message.text());
            } else {
                guest_log.push(message.text());
            }
        }
    }
    next
}

#[test]
fn transcript_of_a_game_won_by_the_host() {
    let mut registry = Registry::new();
    let mut host_log = Vec::new();
    let mut guest_log = Vec::new();
    let (mut host, _) = Session::open(HOST);
    let (mut guest, _) = Session::open(GUEST);
    for text in ["1\n", "den\n", "1\n"] {
        host = feed(&mut registry, host, line(text), &mut host_log, &mut guest_log);
    }
    for text in ["2\n", "den\n"] {
        guest = feed(&mut registry, guest, line(text), &mut host_log, &mut guest_log);
    }
    host = feed(&mut registry, host, Event::Wake, &mut host_log, &mut guest_log);
    for (k, text) in ["0 0\n", "1 1\n", "0 0\n", "0 1\n", "2 2\n", "0 2\n"].iter().enumerate() {
        if [0, 2, 3, 5].contains(&k) {
            host = feed(&mut registry, host, line(text), &mut host_log, &mut guest_log);
            guest = feed(&mut registry, guest, Event::Wake, &mut host_log, &mut guest_log);
        } else {
            guest = feed(&mut registry, guest, line(text), &mut host_log, &mut guest_log);
            host = feed(&mut registry, host, Event::Wake, &mut host_log, &mut guest_log);
        }
    }
    assert!(host.is_finished());
    assert!(guest.is_finished());
    assert_eq!(registry.len(), 0);
    assert_eq!(
        host_log,
        vec![
            "Enter game room name: ",
            "Choose game type (Tic Tac Toe / Connect 4): ",
            "Game room created. Waiting for a second player...",
            "...\n...\n...",
            "X to move (row column): ",
            "X..\n...\n...",
            "X..\n.O.\n...",
            "X to move (row column): ",
            "invalid move",
            "X to move (row column): ",
            "XX.\n.O.\n...",
            "XX.\n.O.\n..O",
            "X to move (row column): ",
            "XXX\n.O.\n..O",
            "X wins",
        ]
    );
    assert_eq!(
        guest_log,
        vec![
            "Enter game room name: ",
            "You have joined the game room.",
            "...\n...\n...",
            "X..\n...\n...",
            "O to move (row column): ",
            "X..\n.O.\n...",
            "XX.\n.O.\n...",
            "O to move (row column): ",
            "XX.\n.O.\n..O",
            "XXX\n.O.\n..O",
            "X wins",
        ]
    );
}
