//! A single-player Minesweeper engine on a fixed 10x10 board.
//!
//! The crate holds the whole game state machine: the board and its cells,
//! bomb placement with the first-reveal safety relocation, the flood-fill
//! reveal, win detection, command parsing and the text rendering of the
//! board. Reading commands and printing is left to the caller.

pub mod command;
pub mod fill;
pub mod game;
pub mod laws;
pub mod lemmas;
pub mod random;
pub mod slot;
pub mod std_specs;
pub mod text;
pub mod view;

pub use command::{Command, InputOutcome};
pub use game::Game;
pub use slot::{GameState, Slot};
pub use view::{GameView, NUM_BOMBS, NUM_COLS, NUM_ROWS};
