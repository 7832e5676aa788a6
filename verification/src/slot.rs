//! Cells of the board and the status of a game.

use vstd::prelude::*;

verus! {

/// Symbol of a cell that has not been touched yet.
pub const HIDDEN: char = '-';

/// Symbol of a cell the player marked as a guess.
pub const GUESSED: char = 'g';

/// Symbol of a cell the player flagged.
pub const FLAGGED: char = 'f';

/// Status of a game. `Neutral` is the only status in which play continues.
#[derive(Clone, Copy, Debug, PartialEq, Eq, Structural)]
pub enum GameState {
    Neutral,
    Quit,
    Win,
    Loss,
}

/// One cell of the board.
#[derive(Clone, Copy, Debug, PartialEq, Eq, Structural)]
pub struct Slot {
    /// What the board shows for this cell.
    pub character: char,
    pub has_bomb: bool,
    pub has_flag: bool,
    pub is_revealed: bool,
}

/// The symbols `'0'` to `'8'`: a revealed cell shows the number of bombs
/// around it.
pub open spec fn is_count_symbol(c: char) -> bool {
    '0' <= c <= '8'
}

/// The display alphabet of the board.
pub open spec fn is_symbol(c: char) -> bool {
    c == HIDDEN || c == GUESSED || c == FLAGGED || is_count_symbol(c)
}

/// The decimal digit for `n`, meant for `0 <= n <= 9`.
pub open spec fn digit_symbol(n: int) -> char {
    ('0' as int + n) as char
}

impl Slot {
    /// A cell shows a symbol of the alphabet, and a cell that shows a bomb
    /// count is revealed and has no flag.
    pub open spec fn wf(self) -> bool {
        &&& is_symbol(self.character)
        &&& is_count_symbol(self.character) ==> self.is_revealed && !self.has_flag
    }

    /// The untouched, bomb-free cell every game starts from.
    pub open spec fn blank() -> Slot {
        Slot { character: HIDDEN, has_bomb: false, has_flag: false, is_revealed: false }
    }
}

/// The digit character for a count between 0 and 9.
pub fn digit_char(n: usize) -> (c: char)
    requires
        n <= 9,
    ensures
        c == digit_symbol(n as int),
        '0' <= c <= '9',
{
    ('0' as u8 + n as u8) as char
}

} // verus!
