//! What the server tells clients: prompts, the board, and announcements.
//!
//! A [`Message`] says what is told; [`Message::text`] is its wording on the
//! wire, without the line end that the transport adds.

use crate::board::{at, Board, BoardView, Grid, Mark, N};
use vstd::prelude::*;
use vstd::string::StringExecFns;

verus! {

/// Something the server tells a client.
#[derive(Clone, Copy, Debug, PartialEq, Eq)]
pub enum Message {
    /// The options of the menu.
    Menu,
    /// The prompt for a room name.
    AskRoomName,
    /// The prompt for a game type.
    AskGameType,
    /// The menu choice was none of the options.
    InvalidOption,
    /// The game type selection was none of the options.
    InvalidGameType,
    /// The room was created and waits for a second player.
    RoomCreated,
    /// The client has joined the room.
    Joined,
    /// A room of that name exists already.
    RoomExists,
    /// There is no room of that name.
    RoomNotFound,
    /// Both seats of the room are taken.
    RoomFull,
    /// The board as it stands.
    Board(Board),
    /// The prompt for a move of the given mark.
    YourMove(Mark),
    /// The move was turned down.
    InvalidMove,
    /// The given mark has won.
    Wins(Mark),
    /// The game ended without a winner.
    Draw,
    /// The other player's connection was lost.
    OpponentDisconnected,
}

/// The model of a [`Message`].
pub enum MessageView {
    Menu,
    AskRoomName,
    AskGameType,
    InvalidOption,
    InvalidGameType,
    RoomCreated,
    Joined,
    RoomExists,
    RoomNotFound,
    RoomFull,
    Board(BoardView),
    YourMove(Mark),
    InvalidMove,
    Wins(Mark),
    Draw,
    OpponentDisconnected,
}

impl View for Message {
    type V = MessageView;

    open spec fn view(&self) -> MessageView {
        match *self {
            Message::Menu => MessageView::Menu,
            Message::AskRoomName => MessageView::AskRoomName,
            Message::AskGameType => MessageView::AskGameType,
            Message::InvalidOption => MessageView::InvalidOption,
            Message::InvalidGameType => MessageView::InvalidGameType,
            Message::RoomCreated => MessageView::RoomCreated,
            Message::Joined => MessageView::Joined,
            Message::RoomExists => MessageView::RoomExists,
            Message::RoomNotFound => MessageView::RoomNotFound,
            Message::RoomFull => MessageView::RoomFull,
            Message::Board(b) => MessageView::Board(b@),
            Message::YourMove(m) => MessageView::YourMove(m),
            Message::InvalidMove => MessageView::InvalidMove,
            Message::Wins(m) => MessageView::Wins(m),
            Message::Draw => MessageView::Draw,
            Message::OpponentDisconnected => MessageView::OpponentDisconnected,
        }
    }
}

/// The character that shows an empty cell.
pub const PLACEHOLDER: char = '.';

/// The character that shows a mark.
pub open spec fn mark_glyph(m: Mark) -> char {
    match m {
        Mark::X => 'X',
        Mark::O => 'O',
    }
}

/// The character that shows a cell.
pub open spec fn glyph(cell: Option<Mark>) -> char {
    match cell {
        Some(m) => mark_glyph(m),
        None => PLACEHOLDER,
    }
}

/// One row of the grid: a character for each of its cells.
pub open spec fn row_text(cells: Grid, row: int) -> Seq<char> {
    Seq::new(N as nat, |col: int| glyph(at(cells, row, col)))
}

/// The first `rows` rows of the grid, one per line.
pub open spec fn rows_text(cells: Grid, rows: nat) -> Seq<char>
    decreases rows,
{
    if rows == 0 {
        Seq::empty()
    } else if rows == 1 {
        row_text(cells, 0)
    } else {
        rows_text(cells, (rows - 1) as nat) + seq!['\n'] + row_text(cells, rows - 1)
    }
}

/// The grid, one row per line.
pub open spec fn grid_text(cells: Grid) -> Seq<char> {
    rows_text(cells, N as nat)
}

/// The wording of a message.
pub open spec fn text_of(message: MessageView) -> Seq<char> {
    match message {
        MessageView::Menu =>
            "Choose from the following options:\n\t1) Create new room\n\t2) Join existing room\n\t3) Exit"@,
        MessageView::AskRoomName => "Enter game room name: "@,
        MessageView::AskGameType => "Choose game type (Tic Tac Toe / Connect 4): "@,
        MessageView::InvalidOption => "Invalid option. Please try again."@,
        MessageView::InvalidGameType => "Invalid option... Please type the corresponding number..."@,
        MessageView::RoomCreated => "Game room created. Waiting for a second player..."@,
        MessageView::Joined => "You have joined the game room."@,
        MessageView::RoomExists => "room already exists"@,
        MessageView::RoomNotFound => "room does not exist"@,
        MessageView::RoomFull => "room is full"@,
        MessageView::Board(b) => grid_text(b.cells),
        MessageView::YourMove(m) => seq![mark_glyph(m)] + " to move (row column): "@,
        MessageView::InvalidMove => "invalid move"@,
        MessageView::Wins(m) => seq![mark_glyph(m)] + " wins"@,
        MessageView::Draw => "draw"@,
        MessageView::OpponentDisconnected => "opponent disconnected"@,
    }
}

/// The text that shows a mark.
fn mark_text(m: Mark) -> (s: &'static str)
    ensures
        s@ == seq![mark_glyph(m)],
{
    proof {
        reveal_strlit("X");
        reveal_strlit("O");
    }
    let s = match m {
        Mark::X => "X",
        Mark::O => "O",
    };
    assert(s@ =~= seq![mark_glyph(m)]);
    s
}

/// The text that shows a cell.
fn cell_text(cell: Option<Mark>) -> (s: &'static str)
    ensures
        s@ == seq![glyph(cell)],
{
    match cell {
        Some(m) => mark_text(m),
        None => {
            proof {
                reveal_strlit(".");
            }
            let s = ".";
            assert(s@ =~= seq![glyph(cell)]);
            s
        },
    }
}

/// Shows the board as text: one line per row, a character per cell, with
/// [`PLACEHOLDER`] for an empty cell.
pub fn render(board: &Board) -> (text: String)
    ensures
        text@ == grid_text(board@.cells),
{
    let mut text = String::new();
    let mut row: usize = 0;
    while row < N
        invariant
            row <= N,
            text@ == rows_text(board@.cells, row as nat),
        decreases N - row,
    {
        if row > 0 {
            proof {
                reveal_strlit("\n");
            }
            text.append("\n");
            assert(text@ =~= rows_text(board@.cells, row as nat) + seq!['\n']);
        }
        let ghost before = text@;
        let mut col: usize = 0;
        while col < N
            invariant
                row < N,
                col <= N,
                text@ == before + row_text(board@.cells, row as int).take(col as int),
            decreases N - col,
        {
            text.append(cell_text(board.cell(row, col)));
            assert(row_text(board@.cells, row as int).take(col + 1) =~= row_text(
                board@.cells,
                row as int,
            ).take(col as int).push(glyph(at(board@.cells, row as int, col as int))));
            col += 1;
        }
        assert(row_text(board@.cells, row as int).take(N as int) =~= row_text(
            board@.cells,
            row as int,
        ));
        assert(text@ =~= rows_text(board@.cells, (row + 1) as nat));
        row += 1;
    }
    text
}

impl Message {
    /// The wording of the message.
    pub fn text(&self) -> (text: String)
        ensures
            text@ == text_of(self@),
    {
        match self {
            Message::Menu =>
                "Choose from the following options:\n\t1) Create new room\n\t2) Join existing room\n\t3) Exit".to_owned(),
            Message::AskRoomName => "Enter game room name: ".to_owned(),
            Message::AskGameType => "Choose game type (Tic Tac Toe / Connect 4): ".to_owned(),
            Message::InvalidOption => "Invalid option. Please try again.".to_owned(),
            Message::InvalidGameType => "Invalid option... Please type the corresponding number...".to_owned(),
            Message::RoomCreated => "Game room created. Waiting for a second player...".to_owned(),
            Message::Joined => "You have joined the game room.".to_owned(),
            Message::RoomExists => "room already exists".to_owned(),
            Message::RoomNotFound => "room does not exist".to_owned(),
            Message::RoomFull => "room is full".to_owned(),
            Message::Board(b) => render(b),
            Message::YourMove(m) => {
                let mut text = mark_text(*m).to_owned();
                text.append(" to move (row column): ");
                text
            },
            Message::InvalidMove => "invalid move".to_owned(),
            Message::Wins(m) => {
                let mut text = mark_text(*m).to_owned();
                text.append(" wins");
                text
            },
            Message::Draw => "draw".to_owned(),
            Message::OpponentDisconnected => "opponent disconnected".to_owned(),
        }
    }
}

} // verus!
