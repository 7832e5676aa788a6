//! Commands: how a line of input is normalized and read.
//!
//! A line is stripped of all whitespace and lower-cased. What is left must
//! be `q` followed by anything, or one of the letters `g`, `f`, `r` followed
//! by exactly two decimal digits, the row and the column.

use crate::slot::GameState;
use crate::std_specs::{lowercase, white_space};
use crate::view::in_bounds;
use vstd::prelude::*;
use vstd::string::StrSliceExecFns;

verus! {

/// A command of the player.
#[derive(Clone, Copy, Debug, PartialEq, Eq, Structural)]
pub enum Command {
    /// Mark the cell at (row, column) as a guess.
    Guess(usize, usize),
    /// Flag the cell at (row, column).
    Flag(usize, usize),
    /// Reveal the cell at (row, column).
    Reveal(usize, usize),
    /// Leave the game.
    Quit,
}

impl Command {
    /// The command names a cell of the board, or is `Quit`.
    pub open spec fn wf(self) -> bool {
        match self {
            Command::Guess(r, c) => in_bounds(r as int, c as int),
            Command::Flag(r, c) => in_bounds(r as int, c as int),
            Command::Reveal(r, c) => in_bounds(r as int, c as int),
            Command::Quit => true,
        }
    }
}

/// What the caller of `Game::play_line` has to do next.
#[derive(Clone, Copy, Debug, PartialEq, Eq, Structural)]
pub enum InputOutcome {
    /// The line held no command. Nothing has changed; ask again.
    Invalid,
    /// A guess was marked. The turn goes on; ask again.
    Guessed,
    /// The turn is over and the game has the given status.
    TurnEnded(GameState),
}

impl InputOutcome {
    /// The outcome of `command` in a game that has the status `state`
    /// afterwards.
    pub open spec fn of(command: Command, state: GameState) -> InputOutcome {
        match command {
            Command::Guess(_, _) => InputOutcome::Guessed,
            _ => InputOutcome::TurnEnded(state),
        }
    }
}

/// A line without its whitespace.
pub open spec fn stripped(line: Seq<char>) -> Seq<char> {
    line.filter(|c: char| !white_space(c))
}

/// A line as the parser sees it: without whitespace, in lower case.
pub open spec fn normalized(line: Seq<char>) -> Seq<char> {
    lowercase(stripped(line))
}

/// The decimal digits `'0'` to `'9'`.
pub open spec fn is_digit(c: char) -> bool {
    '0' <= c <= '9'
}

/// The number a decimal digit stands for.
pub open spec fn digit_value(c: char) -> int {
    c as int - '0' as int
}

/// The command that a normalized line holds, if it holds one.
pub open spec fn parse(text: Seq<char>) -> Option<Command> {
    if text.len() == 0 {
        None
    } else if text[0] == 'q' {
        Some(Command::Quit)
    } else if text.len() != 3 || !is_digit(text[1]) || !is_digit(text[2]) {
        None
    } else if text[0] == 'g' {
        Some(Command::Guess(digit_value(text[1]) as usize, digit_value(text[2]) as usize))
    } else if text[0] == 'f' {
        Some(Command::Flag(digit_value(text[1]) as usize, digit_value(text[2]) as usize))
    } else if text[0] == 'r' {
        Some(Command::Reveal(digit_value(text[1]) as usize, digit_value(text[2]) as usize))
    } else {
        None
    }
}

/// Removes every whitespace character from `line`.
pub fn strip_whitespace(line: &str) -> (text: String)
    ensures
        text@ == stripped(line@),
{
    let mut text = String::new();
    for c in it: line.chars()
        invariant
            it.seq() == line@,
            text@ == stripped(line@.take(it.index() as int)),
    {
        proof {
            reveal(Seq::filter);
            assert(line@.take(it.index() + 1).drop_last() =~= line@.take(it.index() as int));
        }
        if !c.is_whitespace() {
            text.push(c);
        }
    }
    proof {
        reveal(Seq::filter);
        assert(line@.take(line@.len() as int) =~= line@);
    }
    text
}

/// Strips all whitespace from `line` and lower-cases what is left.
pub fn normalize(line: &str) -> (text: String)
    ensures
        text@ == normalized(line@),
{
    let text = strip_whitespace(line);
    text.as_str().to_lowercase()
}

/// The value of a decimal digit.
fn digit_of(c: char) -> (value: usize)
    requires
        is_digit(c),
    ensures
        value == digit_value(c),
        value <= 9,
{
    (c as u32 - '0' as u32) as usize
}

/// Reads the command of a normalized line. `None` stands for a line that
/// holds no command: an empty line, an unknown command letter, or a
/// command other than `q` that is not followed by exactly two digits.
pub fn parse_command(text: &str) -> (command: Option<Command>)
    ensures
        command == parse(text@),
        command matches Some(c) ==> c.wf(),
{
    let len = text.unicode_len();
    if len == 0 {
        return None;
    }
    let letter = text.get_char(0);
    if letter == 'q' {
        return Some(Command::Quit);
    }
    if len != 3 {
        return None;
    }
    let row = text.get_char(1);
    let col = text.get_char(2);
    if !('0' <= row && row <= '9' && '0' <= col && col <= '9') {
        return None;
    }
    let y = digit_of(row);
    let x = digit_of(col);
    if letter == 'g' {
        Some(Command::Guess(y, x))
    } else if letter == 'f' {
        Some(Command::Flag(y, x))
    } else if letter == 'r' {
        Some(Command::Reveal(y, x))
    } else {
        None
    }
}

} // verus!
