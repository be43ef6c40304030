//! The board engine: one game of marks on a square grid.
//!
//! A [`Board`] is a small state machine. Two players place marks in turn; the
//! game ends when one mark fills a row, a column or a diagonal, or when the
//! grid is full. The model of a board is a [`BoardView`].

use vstd::prelude::*;

verus! {

/// Side length of the grid.
pub const N: usize = 3;

/// Number of cells of the grid.
pub const CELLS: usize = 9;

/// One of the two symbols that players place on the grid.
#[derive(Clone, Copy, Debug, PartialEq, Eq, Structural)]
pub enum Mark {
    X,
    O,
}

impl Mark {
    /// The opposing mark.
    pub open spec fn spec_other(self) -> Mark {
        match self {
            Mark::X => Mark::O,
            Mark::O => Mark::X,
        }
    }

    /// The opposing mark.
    #[verifier::when_used_as_spec(spec_other)]
    pub fn other(self) -> (m: Mark)
        ensures
            m == self.spec_other(),
    {
        match self {
            Mark::X => Mark::O,
            Mark::O => Mark::X,
        }
    }
}

/// What a look at the grid tells about the game.
#[derive(Clone, Copy, Debug, PartialEq, Eq, Structural)]
pub enum Outcome {
    /// No complete line, and at least one cell is empty.
    InProgress,
    /// The given mark fills a row, a column or a diagonal.
    Won(Mark),
    /// The grid is full and no mark fills a line.
    Draw,
}

/// Why a move was turned down.
#[derive(Clone, Copy, Debug, PartialEq, Eq, Structural)]
pub enum MoveError {
    /// A coordinate is not below [`N`].
    OutOfRange,
    /// The game has already been won or drawn.
    GameOver,
    /// The target cell already holds a mark.
    Occupied,
}

/// The cells of a grid in row-major order.
pub type Grid = Seq<Option<Mark>>;

/// Whether `(row, col)` names a cell of the grid.
pub open spec fn in_range(row: int, col: int) -> bool {
    0 <= row < N && 0 <= col < N
}

/// What the cell at `(row, col)` holds.
pub open spec fn at(cells: Grid, row: int, col: int) -> Option<Mark> {
    cells[row * N + col]
}

/// How many cells hold `v`.
pub open spec fn count(cells: Grid, v: Option<Mark>) -> nat
    decreases cells.len(),
{
    if cells.len() == 0 {
        0
    } else {
        count(cells.drop_last(), v) + if cells.last() == v {
            1nat
        } else {
            0nat
        }
    }
}

/// `m` fills row `row`.
pub open spec fn row_won(cells: Grid, m: Mark, row: int) -> bool {
    forall|col: int| 0 <= col < N ==> #[trigger] at(cells, row, col) == Some(m)
}

/// `m` fills column `col`.
pub open spec fn col_won(cells: Grid, m: Mark, col: int) -> bool {
    forall|row: int| 0 <= row < N ==> #[trigger] at(cells, row, col) == Some(m)
}

/// `m` fills the diagonal that starts in the top left corner.
pub open spec fn diagonal_won(cells: Grid, m: Mark) -> bool {
    forall|i: int| 0 <= i < N ==> #[trigger] at(cells, i, i) == Some(m)
}

/// `m` fills the diagonal that starts in the top right corner.
pub open spec fn anti_diagonal_won(cells: Grid, m: Mark) -> bool {
    forall|row: int, col: int|
        in_range(row, col) && row + col == N - 1 ==> #[trigger] at(cells, row, col) == Some(m)
}

/// `m` fills at least one row, column or diagonal.
pub open spec fn has_line(cells: Grid, m: Mark) -> bool {
    ||| exists|row: int| 0 <= row < N && #[trigger] row_won(cells, m, row)
    ||| exists|col: int| 0 <= col < N && #[trigger] col_won(cells, m, col)
    ||| diagonal_won(cells, m)
    ||| anti_diagonal_won(cells, m)
}

/// No cell is empty.
pub open spec fn is_full(cells: Grid) -> bool {
    forall|i: int| 0 <= i < cells.len() ==> (#[trigger] cells[i]) is Some
}

/// The outcome that a grid shows.
pub open spec fn outcome_of(cells: Grid) -> Outcome {
    if has_line(cells, Mark::X) {
        Outcome::Won(Mark::X)
    } else if has_line(cells, Mark::O) {
        Outcome::Won(Mark::O)
    } else if is_full(cells) {
        Outcome::Draw
    } else {
        Outcome::InProgress
    }
}

/// The model of a [`Board`].
pub struct BoardView {
    /// The cells in row-major order.
    pub cells: Grid,
    /// The mark that moves next.
    pub turn: Mark,
    /// How many moves have been accepted.
    pub move_count: nat,
}

impl BoardView {
    /// The board before the first move: empty, with `X` to move.
    pub open spec fn initial() -> BoardView {
        BoardView { cells: Seq::new(CELLS as nat, |i: int| None), turn: Mark::X, move_count: 0 }
    }

    /// What every board that is reached by moves from the initial one satisfies:
    /// the move count is the number of marks on the grid, `X` has placed as
    /// many marks as `O` or one more, according to whose turn it is, and the
    /// mark that is to move has no complete line.
    pub open spec fn valid(self) -> bool {
        &&& self.cells.len() == CELLS
        &&& self.move_count == count(self.cells, Some(Mark::X)) + count(self.cells, Some(Mark::O))
        &&& count(self.cells, Some(Mark::X)) == count(self.cells, Some(Mark::O)) + if self.turn
            == Mark::O {
            1nat
        } else {
            0nat
        }
        &&& !has_line(self.cells, self.turn)
    }

    /// The outcome that the board shows.
    pub open spec fn outcome(self) -> Outcome {
        outcome_of(self.cells)
    }

    /// Why a move to `(row, col)` is turned down, if it is.
    pub open spec fn rejection(self, row: int, col: int) -> Option<MoveError> {
        if !in_range(row, col) {
            Some(MoveError::OutOfRange)
        } else if self.outcome() != Outcome::InProgress {
            Some(MoveError::GameOver)
        } else if at(self.cells, row, col) is Some {
            Some(MoveError::Occupied)
        } else {
            None
        }
    }

    /// Whether a move to `(row, col)` is accepted.
    pub open spec fn accepts(self, row: int, col: int) -> bool {
        self.rejection(row, col) is None
    }

    /// The board with the mover's mark placed at `(row, col)`.
    pub open spec fn place(self, row: int, col: int) -> BoardView {
        BoardView {
            cells: self.cells.update(row * N + col, Some(self.turn)),
            turn: self.turn.other(),
            move_count: self.move_count + 1,
        }
    }

    /// The board after a move to `(row, col)` was attempted: the mark is
    /// placed where the move is accepted, and nothing changes where it is not.
    pub open spec fn after_move(self, row: int, col: int) -> BoardView {
        if self.accepts(row, col) {
            self.place(row, col)
        } else {
            self
        }
    }
}

/// One game: the grid, the mark that moves next, and the number of moves made.
///
/// Every board satisfies [`BoardView::valid`]. All changes go through
/// [`Board::attempt_move`]; the board does no locking of its own, so callers
/// that share one serialise their calls.
#[derive(Clone, Copy, Debug, PartialEq, Eq)]
pub struct Board {
    cells: [Option<Mark>; CELLS],
    turn: Mark,
    move_count: usize,
}

impl View for Board {
    type V = BoardView;

    closed spec fn view(&self) -> BoardView {
        BoardView { cells: self.cells@, turn: self.turn, move_count: self.move_count as nat }
    }
}

impl Board {
    #[verifier::type_invariant]
    spec fn inv(self) -> bool {
        self@.valid()
    }

    /// An empty board on which `X` moves first.
    pub fn new() -> (b: Board)
        ensures
            b@ == BoardView::initial(),
            b@.valid(),
    {
        let cells: [Option<Mark>; CELLS] = [None; CELLS];
        proof {
            lemma_initial_valid();
            assert(cells@ =~= BoardView::initial().cells);
        }
        Board { cells, turn: Mark::X, move_count: 0 }
    }

    /// The mark that moves next.
    pub fn turn(&self) -> (m: Mark)
        ensures
            m == self@.turn,
    {
        self.turn
    }

    /// The number of moves accepted so far.
    pub fn move_count(&self) -> (n: usize)
        ensures
            n == self@.move_count,
    {
        self.move_count
    }

    /// What the cell at `(row, col)` holds; `None` for an empty cell and for
    /// coordinates outside the grid.
    pub fn cell(&self, row: usize, col: usize) -> (c: Option<Mark>)
        ensures
            c == if in_range(row as int, col as int) {
                at(self@.cells, row as int, col as int)
            } else {
                None
            },
    {
        if row < N && col < N {
            self.cells[row * N + col]
        } else {
            None
        }
    }

    /// Whether `m` fills row `row`.
    fn row_complete(&self, m: Mark, row: usize) -> (full: bool)
        requires
            row < N,
        ensures
            full == row_won(self@.cells, m, row as int),
    {
        let mut col: usize = 0;
        while col < N
            invariant
                row < N,
                col <= N,
                forall|c: int| 0 <= c < col ==> #[trigger] at(self@.cells, row as int, c) == Some(m),
            decreases N - col,
        {
            if self.cells[row * N + col] != Some(m) {
                assert(at(self@.cells, row as int, col as int) != Some(m));
                return false;
            }
            col += 1;
        }
        true
    }

    /// Whether `m` fills column `col`.
    fn col_complete(&self, m: Mark, col: usize) -> (full: bool)
        requires
            col < N,
        ensures
            full == col_won(self@.cells, m, col as int),
    {
        let mut row: usize = 0;
        while row < N
            invariant
                col < N,
                row <= N,
                forall|r: int| 0 <= r < row ==> #[trigger] at(self@.cells, r, col as int) == Some(m),
            decreases N - row,
        {
            if self.cells[row * N + col] != Some(m) {
                assert(at(self@.cells, row as int, col as int) != Some(m));
                return false;
            }
            row += 1;
        }
        true
    }

    /// Whether `m` fills the diagonal from the top left corner.
    fn diagonal_complete(&self, m: Mark) -> (full: bool)
        ensures
            full == diagonal_won(self@.cells, m),
    {
        let mut i: usize = 0;
        while i < N
            invariant
                i <= N,
                forall|k: int| 0 <= k < i ==> #[trigger] at(self@.cells, k, k) == Some(m),
            decreases N - i,
        {
            if self.cells[i * N + i] != Some(m) {
                assert(at(self@.cells, i as int, i as int) != Some(m));
                return false;
            }
            i += 1;
        }
        true
    }

    /// Whether `m` fills the diagonal from the top right corner.
    fn anti_diagonal_complete(&self, m: Mark) -> (full: bool)
        ensures
            full == anti_diagonal_won(self@.cells, m),
    {
        let mut row: usize = 0;
        while row < N
            invariant
                row <= N,
                forall|r: int, c: int|
                    0 <= r < row && in_range(r, c) && r + c == N - 1 ==> #[trigger] at(
                        self@.cells,
                        r,
                        c,
                    ) == Some(m),
            decreases N - row,
        {
            let col: usize = N - 1 - row;
            if self.cells[row * N + col] != Some(m) {
                assert(at(self@.cells, row as int, col as int) != Some(m));
                return false;
            }
            row += 1;
        }
        true
    }

    /// Whether `m` fills a row, a column or a diagonal.
    pub fn has_won(&self, m: Mark) -> (won: bool)
        ensures
            won == has_line(self@.cells, m),
    {
        let mut i: usize = 0;
        while i < N
            invariant
                i <= N,
                forall|r: int| 0 <= r < i ==> !#[trigger] row_won(self@.cells, m, r),
                forall|c: int| 0 <= c < i ==> !#[trigger] col_won(self@.cells, m, c),
            decreases N - i,
        {
            if self.row_complete(m, i) || self.col_complete(m, i) {
                return true;
            }
            i += 1;
        }
        self.diagonal_complete(m) || self.anti_diagonal_complete(m)
    }

    /// Looks at the grid: the winner if a mark fills a row, a column or a
    /// diagonal; a draw if the grid is full without one; in progress otherwise.
    /// At most one mark has a line on a valid board, so the order of the scan
    /// does not matter.
    pub fn evaluate_outcome(&self) -> (outcome: Outcome)
        ensures
            outcome == self@.outcome(),
            self@.valid(),
    {
        proof {
            use_type_invariant(self);
            lemma_full_iff_all_moved(self@);
        }
        if self.has_won(Mark::X) {
            Outcome::Won(Mark::X)
        } else if self.has_won(Mark::O) {
            Outcome::Won(Mark::O)
        } else if self.move_count == CELLS {
            Outcome::Draw
        } else {
            Outcome::InProgress
        }
    }

    /// Attempts a move of the mark whose turn it is to `(row, col)`.
    ///
    /// The move is accepted if both coordinates are below [`N`], the game is
    /// still in progress and the cell is empty. Then the cell takes the mark,
    /// the move count grows by one and the turn passes to the other mark. A
    /// move that is turned down changes nothing.
    pub fn attempt_move(&mut self, row: usize, col: usize) -> (res: Result<(), MoveError>)
        ensures
            res == match old(self)@.rejection(row as int, col as int) {
                Some(e) => Err::<(), MoveError>(e),
                None => Ok(()),
            },
            final(self)@ == old(self)@.after_move(row as int, col as int),
            res is Err ==> final(self)@ == old(self)@,
            final(self)@.valid(),
    {
        proof {
            use_type_invariant(&*self);
        }
        if row >= N || col >= N {
            return Err(MoveError::OutOfRange);
        }
        if self.evaluate_outcome() != Outcome::InProgress {
            return Err(MoveError::GameOver);
        }
        let i: usize = row * N + col;
        if self.cells[i].is_some() {
            return Err(MoveError::Occupied);
        }
        proof {
            lemma_full_iff_all_moved(self@);
            lemma_place_valid(self@, row as int, col as int);
        }
        let mut cells = self.cells;
        cells[i] = Some(self.turn);
        *self = Board { cells, turn: self.turn.other(), move_count: self.move_count + 1 };
        assert(self@.cells =~= old(self)@.place(row as int, col as int).cells);
        Ok(())
    }
}

/// Replacing the content of one cell changes two counts by one at most: that
/// of what the cell held, and that of what it holds now.
proof fn lemma_count_update(cells: Grid, i: int, v: Option<Mark>, w: Option<Mark>)
    requires
        0 <= i < cells.len(),
    ensures
        count(cells.update(i, v), w) + (if cells[i] == w { 1nat } else { 0nat })
            == count(cells, w) + (if v == w { 1nat } else { 0nat }),
    decreases cells.len(),
{
    let updated = cells.update(i, v);
    if i == cells.len() - 1 {
        assert(updated.drop_last() =~= cells.drop_last());
    } else {
        assert(updated.drop_last() =~= cells.drop_last().update(i, v));
        lemma_count_update(cells.drop_last(), i, v, w);
    }
}

/// Every cell is empty or holds one of the two marks.
proof fn lemma_count_total(cells: Grid)
    ensures
        count(cells, None) + count(cells, Some(Mark::X)) + count(cells, Some(Mark::O))
            == cells.len(),
    decreases cells.len(),
{
    if cells.len() > 0 {
        lemma_count_total(cells.drop_last());
        let last = cells.last();
        assert(last == None::<Mark> || last == Some(Mark::X) || last == Some(Mark::O));
    }
}

/// A grid is full exactly when no cell counts as empty.
proof fn lemma_full_iff_none_empty(cells: Grid)
    ensures
        is_full(cells) <==> count(cells, None) == 0,
    decreases cells.len(),
{
    if cells.len() > 0 {
        let front = cells.drop_last();
        lemma_full_iff_none_empty(front);
        if is_full(cells) {
            assert forall|i: int| 0 <= i < front.len() implies (#[trigger] front[i]) is Some by {
                assert(cells[i] is Some);
            }
            assert(cells.last() is Some);
        }
        if count(cells, None) == 0 {
            assert forall|i: int| 0 <= i < cells.len() implies (#[trigger] cells[i]) is Some by {
                if i < front.len() {
                    assert(front[i] is Some);
                }
            }
        }
    }
}

/// On a valid board the grid is full exactly when as many moves were made as
/// there are cells, and never more were made.
pub proof fn lemma_full_iff_all_moved(b: BoardView)
    requires
        b.valid(),
    ensures
        b.move_count <= CELLS,
        is_full(b.cells) <==> b.move_count == CELLS,
{
    lemma_count_total(b.cells);
    lemma_full_iff_none_empty(b.cells);
}

/// A mark placed on the grid completes no line of the other mark.
proof fn lemma_place_keeps_lines(cells: Grid, row: int, col: int, placed: Mark, m: Mark)
    requires
        cells.len() == CELLS,
        in_range(row, col),
        placed != m,
        has_line(cells.update(row * N + col, Some(placed)), m),
    ensures
        has_line(cells, m),
{
    let after = cells.update(row * N + col, Some(placed));
    assert forall|r: int, c: int| in_range(r, c) && #[trigger] at(after, r, c) == Some(m) implies at(
        cells,
        r,
        c,
    ) == Some(m) by {}
    if exists|r: int| 0 <= r < N && #[trigger] row_won(after, m, r) {
        let r = choose|r: int| 0 <= r < N && #[trigger] row_won(after, m, r);
        assert forall|c: int| 0 <= c < N implies #[trigger] at(cells, r, c) == Some(m) by {
            assert(at(after, r, c) == Some(m));
        }
        assert(row_won(cells, m, r));
    } else if exists|c: int| 0 <= c < N && #[trigger] col_won(after, m, c) {
        let c = choose|c: int| 0 <= c < N && #[trigger] col_won(after, m, c);
        assert forall|r: int| 0 <= r < N implies #[trigger] at(cells, r, c) == Some(m) by {
            assert(at(after, r, c) == Some(m));
        }
        assert(col_won(cells, m, c));
    } else if diagonal_won(after, m) {
        assert forall|i: int| 0 <= i < N implies #[trigger] at(cells, i, i) == Some(m) by {
            assert(at(after, i, i) == Some(m));
        }
    } else {
        assert forall|r: int, c: int| in_range(r, c) && r + c == N - 1 implies #[trigger] at(
            cells,
            r,
            c,
        ) == Some(m) by {
            assert(at(after, r, c) == Some(m));
        }
    }
}

/// The initial board is valid, and its game is in progress.
pub proof fn lemma_initial_valid()
    ensures
        BoardView::initial().valid(),
        BoardView::initial().outcome() == Outcome::InProgress,
{
    let b = BoardView::initial();
    lemma_all_empty(b.cells);
    lemma_no_line_without_marks(b.cells, Mark::X);
    lemma_no_line_without_marks(b.cells, Mark::O);
    assert(b.cells[0] is None);
}

/// A grid of empty cells holds no mark.
proof fn lemma_all_empty(cells: Grid)
    requires
        forall|i: int| 0 <= i < cells.len() ==> (#[trigger] cells[i]) is None,
    ensures
        count(cells, Some(Mark::X)) == 0,
        count(cells, Some(Mark::O)) == 0,
    decreases cells.len(),
{
    if cells.len() > 0 {
        let front = cells.drop_last();
        assert forall|i: int| 0 <= i < front.len() implies (#[trigger] front[i]) is None by {
            assert(cells[i] is None);
        }
        lemma_all_empty(front);
        assert(cells.last() is None);
    }
}

/// A mark that is nowhere on the main diagonal fills no line.
proof fn lemma_no_line_without_marks(cells: Grid, m: Mark)
    requires
        forall|i: int| 0 <= i < N ==> #[trigger] at(cells, i, i) != Some(m),
    ensures
        !has_line(cells, m),
{
    assert forall|r: int| 0 <= r < N implies !#[trigger] row_won(cells, m, r) by {
        assert(at(cells, r, r) != Some(m));
    }
    assert forall|c: int| 0 <= c < N implies !#[trigger] col_won(cells, m, c) by {
        assert(at(cells, c, c) != Some(m));
    }
    assert(at(cells, 0, 0) != Some(m));
    assert(at(cells, 1, 1) != Some(m));
}

/// An accepted move leads from a valid board to a valid board.
pub proof fn lemma_place_valid(b: BoardView, row: int, col: int)
    requires
        b.valid(),
        b.accepts(row, col),
    ensures
        b.place(row, col).valid(),
{
    let after = b.place(row, col);
    let i = row * N + col;
    lemma_count_update(b.cells, i, Some(b.turn), Some(Mark::X));
    lemma_count_update(b.cells, i, Some(b.turn), Some(Mark::O));
    if has_line(after.cells, after.turn) {
        lemma_place_keeps_lines(b.cells, row, col, b.turn, after.turn);
    }
}


/// On a valid board at most one mark has a complete line, and the outcome
/// names a winner exactly when that mark has one; it is a draw exactly when
/// the grid is full and neither mark has a line, and in progress exactly when
/// a cell is empty and neither mark has a line.
pub proof fn lemma_outcome_exact(b: BoardView)
    requires
        b.valid(),
    ensures
        !(has_line(b.cells, Mark::X) && has_line(b.cells, Mark::O)),
        forall|m: Mark| b.outcome() == Outcome::Won(m) <==> #[trigger] has_line(b.cells, m),
        b.outcome() == Outcome::Draw <==> is_full(b.cells) && !has_line(b.cells, Mark::X)
            && !has_line(b.cells, Mark::O),
        b.outcome() == Outcome::InProgress <==> !is_full(b.cells) && !has_line(b.cells, Mark::X)
            && !has_line(b.cells, Mark::O),
        b.outcome() matches Outcome::Won(m) ==> m == b.turn.other(),
{
}

/// On a valid board `X` is to move exactly when the number of moves is even.
pub proof fn lemma_turn_parity(b: BoardView)
    requires
        b.valid(),
    ensures
        b.turn == Mark::X <==> b.move_count % 2 == 0,
{
}

/// The board after each move of `moves` was attempted in order, from `b` on.
pub open spec fn after_moves(b: BoardView, moves: Seq<(int, int)>) -> BoardView
    decreases moves.len(),
{
    if moves.len() == 0 {
        b
    } else {
        after_moves(b, moves.drop_last()).after_move(moves.last().0, moves.last().1)
    }
}

/// How many moves of `moves` are accepted when they are attempted in order,
/// from `b` on.
pub open spec fn accepted_moves(b: BoardView, moves: Seq<(int, int)>) -> nat
    decreases moves.len(),
{
    if moves.len() == 0 {
        0
    } else {
        accepted_moves(b, moves.drop_last()) + if after_moves(b, moves.drop_last()).accepts(
            moves.last().0,
            moves.last().1,
        ) {
            1nat
        } else {
            0nat
        }
    }
}

/// Whatever moves are attempted from the initial board on, the board stays
/// valid, its move count is the number of moves that were accepted, and `X`,
/// who moves first, is to move exactly when that number is even.
pub proof fn lemma_moves_are_counted(moves: Seq<(int, int)>)
    ensures
        after_moves(BoardView::initial(), moves).valid(),
        after_moves(BoardView::initial(), moves).move_count == accepted_moves(
            BoardView::initial(),
            moves,
        ),
        after_moves(BoardView::initial(), moves).turn == Mark::X <==> accepted_moves(
            BoardView::initial(),
            moves,
        ) % 2 == 0,
    decreases moves.len(),
{
    if moves.len() == 0 {
        lemma_initial_valid();
    } else {
        let before = after_moves(BoardView::initial(), moves.drop_last());
        lemma_moves_are_counted(moves.drop_last());
        if before.accepts(moves.last().0, moves.last().1) {
            lemma_place_valid(before, moves.last().0, moves.last().1);
        }
        lemma_turn_parity(after_moves(BoardView::initial(), moves));
    }
}

} // verus!
