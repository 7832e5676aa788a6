//! What the game shows: the board and the closing message, as text.

use crate::command::InputOutcome;
use crate::game::Game;
use crate::slot::{digit_char, digit_symbol, GameState};
use crate::view::{GameView, NUM_COLS, NUM_ROWS};
use vstd::prelude::*;
use vstd::string::StringExecFns;

verus! {

/// The decimal numeral of `n`, without leading zeros.
pub open spec fn decimal(n: nat) -> Seq<char>
    decreases n,
{
    if n < 10 {
        seq![digit_symbol(n as int)]
    } else {
        decimal(n / 10).push(digit_symbol((n % 10) as int))
    }
}

/// The first `n` cells of row `r`, each as its symbol followed by `" | "`.
pub open spec fn cells_text(v: GameView, r: int, n: int) -> Seq<char>
    decreases n,
{
    if n <= 0 {
        Seq::empty()
    } else {
        cells_text(v, r, n - 1) + seq![v.cell(r, n - 1).character, ' ', '|', ' ']
    }
}

/// Row `r`: a line break, the row's index, `"| "`, and the cells.
pub open spec fn row_text(v: GameView, r: int) -> Seq<char> {
    seq!['\n', digit_symbol(r), '|', ' '] + cells_text(v, r, NUM_COLS as int)
}

/// The first `n` rows.
pub open spec fn rows_text(v: GameView, n: int) -> Seq<char>
    decreases n,
{
    if n <= 0 {
        Seq::empty()
    } else {
        rows_text(v, n - 1) + row_text(v, n - 1)
    }
}

/// The footer up to column `n`: a line break, three blanks, and each column
/// index followed by three blanks.
pub open spec fn footer_text(n: int) -> Seq<char>
    decreases n,
{
    if n <= 0 {
        seq!['\n', ' ', ' ', ' ']
    } else {
        footer_text(n - 1) + seq![digit_symbol(n - 1), ' ', ' ', ' ']
    }
}

/// The board as text: the rows from 0 to 9, then the footer with the column
/// indices.
pub open spec fn board_text(v: GameView) -> Seq<char> {
    rows_text(v, NUM_ROWS as int) + footer_text(NUM_COLS as int)
}

/// The message that closes a game.
pub open spec fn end_text(v: GameView) -> Seq<char> {
    match v.state {
        GameState::Win => "You Won in: "@ + decimal(v.turns) + seq!['!'],
        GameState::Loss => "Game Over :("@,
        GameState::Quit => "Quitting Game...."@,
        GameState::Neutral => "Error: GameState On Neutral"@,
    }
}

/// What the player sees when a turn begins: the board and the prompt while
/// the game goes on, the closing message and a line break once it is over.
pub open spec fn screen_text(v: GameView) -> Seq<char> {
    if v.state == GameState::Neutral {
        board_text(v) + "\nEnter your command: "@
    } else {
        end_text(v) + seq!['\n']
    }
}

/// What is shown in answer to a line of input that had the given outcome
/// and led to the game `v`. A line without a command is answered by a
/// complaint and the prompt, a guess by the prompt alone; once the turn has
/// ended the screen is cleared and shown anew.
pub open spec fn reply_text(v: GameView, outcome: InputOutcome) -> Seq<char> {
    match outcome {
        InputOutcome::Invalid => "Invalid Command Try Again\n"@ + "\nEnter your command: "@,
        InputOutcome::Guessed => "\nEnter your command: "@,
        InputOutcome::TurnEnded(_) => "\x1B[2J"@ + screen_text(v),
    }
}

/// Appends the decimal numeral of `n` to `text`.
pub fn push_decimal(text: &mut String, n: u64)
    ensures
        final(text)@ == old(text)@ + decimal(n as nat),
    decreases n,
{
    if n >= 10 {
        push_decimal(text, n / 10);
    }
    text.push(digit_char((n % 10) as usize));
}

impl Game {
    /// The board as text, ready to be printed.
    pub fn render_board(&self) -> (text: String)
        ensures
            text@ == board_text(self@),
    {
        let mut text = String::new();
        for r in 0..NUM_ROWS
            invariant
                text@ == rows_text(self@, r as int),
        {
            text.push('\n');
            text.push(digit_char(r));
            text.push('|');
            text.push(' ');
            let ghost head = text@;
            for c in 0..NUM_COLS
                invariant
                    r < NUM_ROWS,
                    text@ == head + cells_text(self@, r as int, c as int),
            {
                text.push(self.slot((r, c)).character);
                text.push(' ');
                text.push('|');
                text.push(' ');
            }
        }
        text.push('\n');
        text.push(' ');
        text.push(' ');
        text.push(' ');
        let ghost rows = rows_text(self@, NUM_ROWS as int);
        for c in 0..NUM_COLS
            invariant
                text@ == rows + footer_text(c as int),
        {
            text.push(digit_char(c));
            text.push(' ');
            text.push(' ');
            text.push(' ');
        }
        text
    }

    /// The message that closes the game: the number of turns it took to
    /// win, or that the game is lost or was left.
    pub fn end_message(&self) -> (text: String)
        ensures
            text@ == end_text(self@),
    {
        match self.state() {
            GameState::Win => {
                let mut text = String::from_str("You Won in: ");
                push_decimal(&mut text, self.turns());
                text.push('!');
                text
            },
            GameState::Loss => String::from_str("Game Over :("),
            GameState::Quit => String::from_str("Quitting Game...."),
            GameState::Neutral => String::from_str("Error: GameState On Neutral"),
        }
    }

    /// What the player sees when a turn begins.
    pub fn screen(&self) -> (text: String)
        ensures
            text@ == screen_text(self@),
    {
        match self.state() {
            GameState::Neutral => {
                let mut text = self.render_board();
                text.append("\nEnter your command: ");
                text
            },
            _ => {
                let mut text = self.end_message();
                text.push('\n');
                text
            },
        }
    }

    /// What is shown in answer to a line of input, given the outcome that
    /// `play_line` returned for it.
    pub fn reply(&self, outcome: InputOutcome) -> (text: String)
        ensures
            text@ == reply_text(self@, outcome),
    {
        match outcome {
            InputOutcome::Invalid => {
                let mut text = String::from_str("Invalid Command Try Again\n");
                text.append("\nEnter your command: ");
                text
            },
            InputOutcome::Guessed => String::from_str("\nEnter your command: "),
            InputOutcome::TurnEnded(_) => {
                let mut text = String::from_str("\x1B[2J");
                let screen = self.screen();
                text.append(screen.as_str());
                text
            },
        }
    }
}

} // verus!
