//! What clients send: one line of text per request, read as a menu choice, a
//! room name, a game type or a move.
//!
//! A line is taken without regard to the whitespace around it. Whitespace is
//! what Unicode calls `White_Space`.

use crate::room::GameType;
use vstd::prelude::*;

verus! {

/// Whether `c` is whitespace.
pub open spec fn is_space(c: char) -> bool {
    let u = c as u32;
    ||| 0x09 <= u <= 0x0D
    ||| u == 0x20
    ||| u == 0x85
    ||| u == 0xA0
    ||| u == 0x1680
    ||| 0x2000 <= u <= 0x200A
    ||| u == 0x2028
    ||| u == 0x2029
    ||| u == 0x202F
    ||| u == 0x205F
    ||| u == 0x3000
}

/// Whether `c` is a decimal digit.
pub open spec fn is_digit(c: char) -> bool {
    '0' <= c <= '9'
}

/// The number that the digit `c` stands for.
pub open spec fn digit_value(c: char) -> nat {
    (c as u32 - '0' as u32) as nat
}

/// How many whitespace characters `s` starts with.
pub open spec fn leading_spaces(s: Seq<char>) -> nat
    decreases s.len(),
{
    if s.len() > 0 && is_space(s[0]) {
        1 + leading_spaces(s.drop_first())
    } else {
        0
    }
}

/// How many whitespace characters `s` ends with.
pub open spec fn trailing_spaces(s: Seq<char>) -> nat
    decreases s.len(),
{
    if s.len() > 0 && is_space(s.last()) {
        1 + trailing_spaces(s.drop_last())
    } else {
        0
    }
}

/// How many characters other than whitespace `s` starts with.
pub open spec fn token_len(s: Seq<char>) -> nat
    decreases s.len(),
{
    if s.len() > 0 && !is_space(s[0]) {
        1 + token_len(s.drop_first())
    } else {
        0
    }
}

/// `s` without the whitespace it starts with.
pub open spec fn trim_start(s: Seq<char>) -> Seq<char> {
    s.skip(leading_spaces(s) as int)
}

/// `s` without the whitespace it ends with.
pub open spec fn trim_end(s: Seq<char>) -> Seq<char> {
    s.take(s.len() - trailing_spaces(s))
}

/// `s` without the whitespace around it.
pub open spec fn trim(s: Seq<char>) -> Seq<char> {
    trim_end(trim_start(s))
}

/// Whether `s` is a non-empty run of decimal digits.
pub open spec fn is_number(s: Seq<char>) -> bool {
    s.len() > 0 && forall|i: int| 0 <= i < s.len() ==> is_digit(#[trigger] s[i])
}

/// The number that the digits of `s` write in base ten.
pub open spec fn number_value(s: Seq<char>) -> nat
    decreases s.len(),
{
    if s.len() == 0 {
        0
    } else {
        10 * number_value(s.drop_last()) + digit_value(s.last())
    }
}

/// The number that `s` writes, if `s` is a run of digits and the number fits
/// a `usize`.
pub open spec fn number_of(s: Seq<char>) -> Option<usize> {
    if is_number(s) && number_value(s) <= usize::MAX {
        Some(number_value(s) as usize)
    } else {
        None
    }
}

/// A choice from the menu.
#[derive(Clone, Copy, Debug, PartialEq, Eq, Structural)]
pub enum MenuChoice {
    Create,
    Join,
    Exit,
}

/// The menu choice that a line makes: `1` creates a room, `2` joins one, `3`
/// leaves. Anything else is no choice.
pub open spec fn menu_choice_of(line: Seq<char>) -> Option<MenuChoice> {
    let t = trim(line);
    if t == seq!['1'] {
        Some(MenuChoice::Create)
    } else if t == seq!['2'] {
        Some(MenuChoice::Join)
    } else if t == seq!['3'] {
        Some(MenuChoice::Exit)
    } else {
        None
    }
}

/// The game type that a line selects: `1` is Tic Tac Toe, `2` is Connect 4.
/// Anything else selects none.
pub open spec fn game_type_of(line: Seq<char>) -> Option<GameType> {
    let t = trim(line);
    if t == seq!['1'] {
        Some(GameType::TicTacToe)
    } else if t == seq!['2'] {
        Some(GameType::ConnectFour)
    } else {
        None
    }
}

/// The room name that a line gives: the line without the whitespace around
/// it, unless nothing is left.
pub open spec fn room_name_of(line: Seq<char>) -> Option<Seq<char>> {
    if trim(line).len() > 0 {
        Some(trim(line))
    } else {
        None
    }
}

/// The move that a line asks for: row and column, where the line holds two
/// numbers with whitespace between them, and nothing else.
pub open spec fn move_of(line: Seq<char>) -> Option<(usize, usize)> {
    let t = trim(line);
    let first = t.take(token_len(t) as int);
    let second = trim_start(t.skip(token_len(t) as int));
    match (number_of(first), number_of(second)) {
        (Some(row), Some(col)) => Some((row, col)),
        _ => None,
    }
}

/// Whether `c` is whitespace.
pub fn is_whitespace(c: char) -> (b: bool)
    ensures
        b == is_space(c),
{
    let u: u32 = c as u32;
    (0x09 <= u && u <= 0x0D) || u == 0x20 || u == 0x85 || u == 0xA0 || u == 0x1680 || (0x2000 <= u
        && u <= 0x200A) || u == 0x2028 || u == 0x2029 || u == 0x202F || u == 0x205F || u == 0x3000
}

/// The characters of `line`.
fn chars_of(line: &str) -> (chars: Vec<char>)
    ensures
        chars@ == line@,
{
    let mut chars: Vec<char> = Vec::new();
    for c in it: line.chars()
        invariant
            it.seq() == line@,
            chars@ == it.seq().take(it.index() as int),
    {
        chars.push(c);
        assert(it.seq().take(it.index() + 1) =~= it.seq().take(it.index() as int).push(c));
    }
    assert(chars@ =~= line@);
    chars
}

/// The end of the whitespace that starts at `from`, in the window that ends
/// at `end`.
fn skip_spaces(chars: &Vec<char>, from: usize, end: usize) -> (to: usize)
    requires
        from <= end <= chars.len(),
    ensures
        from <= to <= end,
        to - from == leading_spaces(chars@.subrange(from as int, end as int)),
{
    let mut i: usize = from;
    while i < end && is_whitespace(chars[i])
        invariant
            from <= i <= end <= chars.len(),
            leading_spaces(chars@.subrange(from as int, end as int)) == (i - from) + leading_spaces(
                chars@.subrange(i as int, end as int),
            ),
        decreases end - i,
    {
        assert(chars@.subrange(i as int, end as int).drop_first() =~= chars@.subrange(
            i + 1,
            end as int,
        ));
        i += 1;
    }
    i
}

/// The end of the run without whitespace that starts at `from`, in the window
/// that ends at `end`.
fn skip_token(chars: &Vec<char>, from: usize, end: usize) -> (to: usize)
    requires
        from <= end <= chars.len(),
    ensures
        from <= to <= end,
        to - from == token_len(chars@.subrange(from as int, end as int)),
{
    let mut i: usize = from;
    while i < end && !is_whitespace(chars[i])
        invariant
            from <= i <= end <= chars.len(),
            token_len(chars@.subrange(from as int, end as int)) == (i - from) + token_len(
                chars@.subrange(i as int, end as int),
            ),
        decreases end - i,
    {
        assert(chars@.subrange(i as int, end as int).drop_first() =~= chars@.subrange(
            i + 1,
            end as int,
        ));
        i += 1;
    }
    i
}

/// The start of the whitespace that ends at `end`, in the window that starts
/// at `from`.
fn skip_spaces_back(chars: &Vec<char>, from: usize, end: usize) -> (to: usize)
    requires
        from <= end <= chars.len(),
    ensures
        from <= to <= end,
        end - to == trailing_spaces(chars@.subrange(from as int, end as int)),
{
    let mut i: usize = end;
    while i > from && is_whitespace(chars[i - 1])
        invariant
            from <= i <= end <= chars.len(),
            trailing_spaces(chars@.subrange(from as int, end as int)) == (end - i)
                + trailing_spaces(chars@.subrange(from as int, i as int)),
        decreases i - from,
    {
        assert(chars@.subrange(from as int, i as int).drop_last() =~= chars@.subrange(
            from as int,
            i - 1,
        ));
        i -= 1;
    }
    i
}

/// Where `chars` starts and ends once the whitespace around it is left out.
fn trim_bounds(chars: &Vec<char>) -> (bounds: (usize, usize))
    ensures
        bounds.0 <= bounds.1 <= chars.len(),
        chars@.subrange(bounds.0 as int, bounds.1 as int) == trim(chars@),
{
    let end: usize = chars.len();
    let start = skip_spaces(chars, 0, end);
    let stop = skip_spaces_back(chars, start, end);
    proof {
        assert(chars@.subrange(0, end as int) =~= chars@);
        assert(chars@.subrange(start as int, end as int) =~= trim_start(chars@));
        assert(chars@.subrange(start as int, stop as int) =~= trim(chars@));
    }
    (start, stop)
}

/// The value of a prefix is at most the value of the whole.
proof fn lemma_number_value_grows(s: Seq<char>, k: int)
    requires
        0 <= k <= s.len(),
    ensures
        number_value(s.take(k)) <= number_value(s),
    decreases s.len(),
{
    if k == s.len() {
        assert(s.take(k) =~= s);
    } else {
        assert(s.drop_last().take(k) =~= s.take(k));
        lemma_number_value_grows(s.drop_last(), k);
    }
}

/// The number that the window from `from` to `end` writes.
fn read_number(chars: &Vec<char>, from: usize, end: usize) -> (n: Option<usize>)
    requires
        from <= end <= chars.len(),
    ensures
        n == number_of(chars@.subrange(from as int, end as int)),
{
    let ghost s = chars@.subrange(from as int, end as int);
    if from == end {
        return None;
    }
    let mut value: usize = 0;
    let mut i: usize = from;
    while i < end
        invariant
            from <= i <= end <= chars.len(),
            s == chars@.subrange(from as int, end as int),
            forall|k: int| 0 <= k < i - from ==> is_digit(#[trigger] s[k]),
            value == number_value(s.take(i - from)),
        decreases end - i,
    {
        let c = chars[i];
        if !('0' <= c && c <= '9') {
            assert(!is_digit(s[i - from]));
            return None;
        }
        let d: usize = (c as u32 - '0' as u32) as usize;
        proof {
            assert(s.take(i - from + 1).drop_last() =~= s.take(i - from));
            assert(number_value(s.take(i - from + 1)) == 10 * value + d);
            lemma_number_value_grows(s, i - from + 1);
        }
        if value > (usize::MAX - d) / 10 {
            return None;
        }
        value = 10 * value + d;
        i += 1;
    }
    assert(s.take(i - from) =~= s);
    Some(value)
}

/// Whether the window from `start` to `end` holds the one character `c`.
fn is_single(chars: &Vec<char>, start: usize, end: usize, c: char) -> (yes: bool)
    requires
        start <= end <= chars.len(),
    ensures
        yes == (chars@.subrange(start as int, end as int) == seq![c]),
{
    let yes = end - start == 1 && chars[start] == c;
    proof {
        let s = chars@.subrange(start as int, end as int);
        if yes {
            assert(s =~= seq![c]);
        } else if s == seq![c] {
            assert(s.len() == 1);
            assert(s[0] == c);
        }
    }
    yes
}

/// Reads a line as a choice from the menu.
pub fn parse_menu_choice(line: &str) -> (choice: Option<MenuChoice>)
    ensures
        choice == menu_choice_of(line@),
{
    let chars = chars_of(line);
    let (start, end) = trim_bounds(&chars);
    if is_single(&chars, start, end, '1') {
        Some(MenuChoice::Create)
    } else if is_single(&chars, start, end, '2') {
        Some(MenuChoice::Join)
    } else if is_single(&chars, start, end, '3') {
        Some(MenuChoice::Exit)
    } else {
        None
    }
}

/// Reads a line as the selection of a game type.
pub fn parse_game_type(line: &str) -> (game_type: Option<GameType>)
    ensures
        game_type == game_type_of(line@),
{
    let chars = chars_of(line);
    let (start, end) = trim_bounds(&chars);
    if is_single(&chars, start, end, '1') {
        Some(GameType::TicTacToe)
    } else if is_single(&chars, start, end, '2') {
        Some(GameType::ConnectFour)
    } else {
        None
    }
}

/// Reads a line as a room name.
pub fn parse_room_name(line: &str) -> (name: Option<String>)
    ensures
        match name {
            Some(n) => room_name_of(line@) == Some(n@),
            None => room_name_of(line@) is None,
        },
{
    let chars = chars_of(line);
    let (start, end) = trim_bounds(&chars);
    if start == end {
        None
    } else {
        Some(line.substring_char(start, end).to_owned())
    }
}

/// Reads a line as a move: row, then column.
pub fn parse_move(line: &str) -> (cell: Option<(usize, usize)>)
    ensures
        cell == move_of(line@),
{
    let chars = chars_of(line);
    let (start, end) = trim_bounds(&chars);
    let mid = skip_token(&chars, start, end);
    let next = skip_spaces(&chars, mid, end);
    proof {
        let t = trim(line@);
        assert(t.take(token_len(t) as int) =~= chars@.subrange(start as int, mid as int));
        assert(t.skip(token_len(t) as int) =~= chars@.subrange(mid as int, end as int));
        assert(trim_start(chars@.subrange(mid as int, end as int)) =~= chars@.subrange(
            next as int,
            end as int,
        ));
    }
    match (read_number(&chars, start, mid), read_number(&chars, next, end)) {
        (Some(row), Some(col)) => Some((row, col)),
        _ => None,
    }
}

} // verus!
