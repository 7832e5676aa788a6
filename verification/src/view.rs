//! The mathematical model of a game. Every contract of the engine is stated
//! over a `GameView` and the spec functions of this module.

use crate::command::Command;
use crate::slot::{digit_symbol, GameState, Slot, FLAGGED, GUESSED};
use vstd::prelude::*;

verus! {

/// Number of rows of the board.
pub const NUM_ROWS: usize = 10;

/// Number of columns of the board.
pub const NUM_COLS: usize = 10;

/// Number of bombs of a game.
pub const NUM_BOMBS: usize = 15;

/// The eight king's-move steps, in the order the flood fill tries them.
pub const OFFSET: [(isize, isize); 8] = [
    (1, 0),
    (-1, 0),
    (0, 1),
    (0, -1),
    (-1, -1),
    (1, -1),
    (-1, 1),
    (1, 1),
];

/// `(r, c)` names a cell of the board.
pub open spec fn in_bounds(r: int, c: int) -> bool {
    0 <= r < NUM_ROWS && 0 <= c < NUM_COLS
}

/// Position of cell `(r, c)` in the row-major board.
pub open spec fn cell_index(r: int, c: int) -> int {
    r * NUM_COLS + c
}

/// Two different coordinates a king's move apart.
pub open spec fn adjacent(a: (int, int), b: (int, int)) -> bool {
    a != b && -1 <= a.0 - b.0 <= 1 && -1 <= a.1 - b.1 <= 1
}

/// The `k`-th neighbour of `(r, c)` in the order of `OFFSET`; it may lie off
/// the board.
pub open spec fn neighbor(r: int, c: int, k: int) -> (int, int) {
    (r + OFFSET@[k].0, c + OFFSET@[k].1)
}

/// A game as a mathematical value.
pub struct GameView {
    /// The cells in row-major order: cell `(r, c)` stands at `cell_index(r, c)`.
    pub board: Seq<Slot>,
    /// The coordinates that hold a bomb, in the order they were placed.
    pub bombs: Seq<(int, int)>,
    pub state: GameState,
    /// How many turn-ending commands (flag, reveal, quit) have been accepted.
    pub turns: nat,
}

impl GameView {
    /// The cell at row `r`, column `c`.
    pub open spec fn cell(self, r: int, c: int) -> Slot {
        self.board[cell_index(r, c)]
    }

    /// The game with `slot` as the cell at `(r, c)`.
    pub open spec fn with_cell(self, r: int, c: int, slot: Slot) -> GameView {
        GameView { board: self.board.update(cell_index(r, c), slot), ..self }
    }

    /// The board is full, and the bomb list names exactly the cells that
    /// hold a bomb, each of them once.
    pub open spec fn bombs_listed(self) -> bool {
        &&& self.board.len() == NUM_ROWS * NUM_COLS
        &&& forall|i: int|
            0 <= i < self.bombs.len() ==> in_bounds((#[trigger] self.bombs[i]).0, self.bombs[i].1)
        &&& forall|i: int, j: int|
            0 <= i < j < self.bombs.len() ==> #[trigger] self.bombs[i] != #[trigger] self.bombs[j]
        &&& forall|r: int, c: int|
            in_bounds(r, c) ==> ((#[trigger] self.cell(r, c)).has_bomb <==> self.bombs.contains(
                (r, c),
            ))
    }

    /// The invariant of every game: a full board of well-formed cells, and a
    /// list of at most `NUM_BOMBS` distinct coordinates that names exactly
    /// the cells with a bomb.
    pub open spec fn wf(self) -> bool {
        &&& forall|i: int| 0 <= i < self.board.len() ==> (#[trigger] self.board[i]).wf()
        &&& self.bombs.len() <= NUM_BOMBS
        &&& self.bombs_listed()
    }

    /// All `NUM_BOMBS` bombs are on the board.
    pub open spec fn armed(self) -> bool {
        self.bombs.len() == NUM_BOMBS
    }

    /// A game before bomb placement: blank cells, no bombs, no turn played.
    pub open spec fn fresh() -> GameView {
        GameView {
            board: Seq::new((NUM_ROWS * NUM_COLS) as nat, |i: int| Slot::blank()),
            bombs: Seq::empty(),
            state: GameState::Neutral,
            turns: 0,
        }
    }

    // ---- bomb placement ----

    /// Number of bomb-free cells among the first `n` cells of the board.
    pub open spec fn free_before(self, n: int) -> int
        decreases n,
    {
        if n <= 0 {
            0
        } else {
            self.free_before(n - 1) + if self.board[n - 1].has_bomb {
                0int
            } else {
                1int
            }
        }
    }

    /// `(r, c)` is bomb-free and exactly `n` bomb-free cells come before it
    /// in row-major order.
    pub open spec fn is_nth_free(self, n: int, r: int, c: int) -> bool {
        &&& in_bounds(r, c)
        &&& !self.cell(r, c).has_bomb
        &&& self.free_before(cell_index(r, c)) == n
    }

    /// A bomb may be put on `(r, c)`.
    pub open spec fn can_place(self, r: int, c: int) -> bool {
        in_bounds(r, c) && !self.cell(r, c).has_bomb && self.bombs.len() < NUM_BOMBS
    }

    /// The game with one more bomb, on `(r, c)`.
    pub open spec fn place_bomb(self, r: int, c: int) -> GameView {
        GameView {
            board: self.board.update(cell_index(r, c), Slot { has_bomb: true, ..self.cell(r, c) }),
            bombs: self.bombs.push((r, c)),
            ..self
        }
    }

    /// The game with the bomb of `from` moved to `to`; the bomb keeps its
    /// place in the list.
    pub open spec fn relocate(self, from: (int, int), to: (int, int)) -> GameView {
        GameView {
            board: self.board.update(
                cell_index(from.0, from.1),
                Slot { has_bomb: false, ..self.cell(from.0, from.1) },
            ).update(cell_index(to.0, to.1), Slot { has_bomb: true, ..self.cell(to.0, to.1) }),
            bombs: Seq::new(
                self.bombs.len(),
                |i: int|
                    if self.bombs[i] == from {
                        to
                    } else {
                        self.bombs[i]
                    },
            ),
            ..self
        }
    }

    // ---- guess and flag ----

    /// The game after marking `(r, c)` as a guess: only the symbol changes.
    pub open spec fn guess(self, r: int, c: int) -> GameView {
        self.with_cell(r, c, Slot { character: GUESSED, ..self.cell(r, c) })
    }

    /// The game after flagging `(r, c)`: the cell shows the flag, is flagged
    /// and is no longer revealed.
    pub open spec fn flag(self, r: int, c: int) -> GameView {
        self.with_cell(
            r,
            c,
            Slot { character: FLAGGED, has_flag: true, is_revealed: false, ..self.cell(r, c) },
        )
    }

    // ---- win evaluation ----

    /// Every one of the `NUM_BOMBS` bombs is on the board and flagged.
    pub open spec fn all_bombs_flagged(self) -> bool {
        &&& self.bombs.len() == NUM_BOMBS
        &&& forall|i: int|
            0 <= i < self.bombs.len() ==> self.cell(
                (#[trigger] self.bombs[i]).0,
                self.bombs[i].1,
            ).has_flag
    }

    /// The status that win evaluation gives.
    pub open spec fn verdict(self) -> GameState {
        if self.all_bombs_flagged() {
            GameState::Win
        } else {
            GameState::Neutral
        }
    }

    // ---- reveal ----

    /// 1 if `(r, c)` is a cell with a bomb, 0 if it has none or lies off the
    /// board.
    pub open spec fn bomb_at(self, r: int, c: int) -> int {
        if in_bounds(r, c) && self.cell(r, c).has_bomb {
            1
        } else {
            0
        }
    }

    /// Number of bombs on the eight neighbours of `(r, c)`.
    pub open spec fn adjacent_bombs(self, r: int, c: int) -> int {
        self.bomb_at(r + 1, c) + self.bomb_at(r - 1, c) + self.bomb_at(r, c + 1) + self.bomb_at(
            r,
            c - 1,
        ) + self.bomb_at(r - 1, c - 1) + self.bomb_at(r + 1, c - 1) + self.bomb_at(r - 1, c + 1)
            + self.bomb_at(r + 1, c + 1)
    }

    /// What `(r, c)` holds once the flood fill has revealed it: its bomb
    /// count as symbol, revealed, no flag.
    pub open spec fn shown(self, r: int, c: int) -> Slot {
        Slot {
            character: digit_symbol(self.adjacent_bombs(r, c)),
            has_bomb: self.cell(r, c).has_bomb,
            has_flag: false,
            is_revealed: true,
        }
    }

    /// The fill may step from `path[i]` to `path[i + 1]`: the two are
    /// neighbours and `path[i]` has no bomb around it.
    pub open spec fn fill_step(self, path: Seq<(int, int)>, i: int) -> bool {
        adjacent(path[i], path[i + 1]) && self.adjacent_bombs(path[i].0, path[i].1) == 0
    }

    /// `path` is a way the flood fill can take from `start`: it stays on the
    /// board, moves on only from cells with no bomb around them, and enters
    /// only cells that are not revealed yet.
    pub open spec fn fill_path(self, start: (int, int), path: Seq<(int, int)>) -> bool {
        &&& path.len() > 0
        &&& path[0] == start
        &&& forall|i: int| 0 <= i < path.len() ==> in_bounds((#[trigger] path[i]).0, path[i].1)
        &&& forall|i: int|
            0 < i < path.len() ==> !self.cell((#[trigger] path[i]).0, path[i].1).is_revealed
        &&& forall|i: int| 0 <= i < path.len() - 1 ==> #[trigger] self.fill_step(path, i)
    }

    /// The flood fill started at `start` reveals `target`.
    pub open spec fn fill_reaches(self, start: (int, int), target: (int, int)) -> bool {
        exists|path: Seq<(int, int)>| #[trigger]
            self.fill_path(start, path) && path.last() == target
    }

    /// The game after the flood fill from `(r, c)`: every cell the fill
    /// reaches shows its bomb count, every other cell is as before.
    pub open spec fn flood(self, r: int, c: int) -> GameView {
        GameView {
            board: Seq::new(
                self.board.len(),
                |i: int|
                    if self.fill_reaches((r, c), (i / NUM_COLS as int, i % NUM_COLS as int)) {
                        self.shown(i / NUM_COLS as int, i % NUM_COLS as int)
                    } else {
                        self.board[i]
                    },
            ),
            ..self
        }
    }

    /// Number of cells that are not revealed among the first `n` cells of
    /// the board.
    pub open spec fn hidden_before(self, n: int) -> int
        decreases n,
    {
        if n <= 0 {
            0
        } else {
            self.hidden_before(n - 1) + if self.board[n - 1].is_revealed {
                0int
            } else {
                1int
            }
        }
    }

    /// Number of cells of the board that are not revealed.
    pub open spec fn hidden_cells(self) -> int {
        self.hidden_before(self.board.len() as int)
    }

    /// The game after marking `(r, c)` revealed.
    pub open spec fn uncover(self, r: int, c: int) -> GameView {
        self.with_cell(r, c, Slot { is_revealed: true, ..self.cell(r, c) })
    }

    /// The reveal of `(r, c)` is the first turn of the game and would hit a
    /// bomb: the bomb is moved away before anything else happens.
    pub open spec fn first_reveal_hits_bomb(self, r: int, c: int) -> bool {
        self.turns == 1 && self.cell(r, c).has_bomb
    }

    /// Game and status after revealing `(r, c)`, where `dest` is the cell
    /// that takes the bomb if the first-reveal rule applies.
    pub open spec fn reveal_cell(self, r: int, c: int, dest: (int, int)) -> (GameView, GameState) {
        let marked = self.uncover(r, c);
        let safe = if self.first_reveal_hits_bomb(r, c) {
            marked.relocate((r, c), dest)
        } else {
            marked
        };
        if safe.cell(r, c).has_bomb {
            (safe, GameState::Loss)
        } else {
            (safe.flood(r, c), safe.flood(r, c).verdict())
        }
    }

    /// Revealing `(r, c)` may lead to the game `next` with the status
    /// `state`: that is the outcome of `reveal_cell` for some cell `dest`
    /// which, where the bomb has to move, is a cell without a bomb.
    pub open spec fn reveals_to(self, r: int, c: int, next: GameView, state: GameState) -> bool {
        exists|dest: (int, int)|
            (self.first_reveal_hits_bomb(r, c) ==> in_bounds(dest.0, dest.1) && !self.cell(
                dest.0,
                dest.1,
            ).has_bomb) && #[trigger] self.reveal_cell(r, c, dest) == (next, state)
    }

    // ---- turns ----

    /// The game with the turn counter moved on by one. The counter stops at
    /// the largest value a `u64` holds.
    pub open spec fn next_turn(self) -> GameView {
        GameView {
            turns: if self.turns < u64::MAX {
                self.turns + 1
            } else {
                self.turns
            },
            ..self
        }
    }

    /// Executing `command` would reveal a bomb on the first turn, so that
    /// the bomb has to move to another cell first.
    pub open spec fn needs_refuge(self, command: Command) -> bool {
        command matches Command::Reveal(r, c) && self.next_turn().first_reveal_hits_bomb(
            r as int,
            c as int,
        )
    }

    /// The game after `command`, where `dest` is the cell that takes the
    /// bomb if `needs_refuge` holds.
    ///
    /// A guess changes the symbol of its cell and nothing else. Flag, reveal
    /// and quit end the turn: they move the turn counter on and set the
    /// status, to the outcome of the win evaluation, of the reveal, or to
    /// `Quit`.
    pub open spec fn execute(self, command: Command, dest: (int, int)) -> GameView {
        match command {
            Command::Guess(r, c) => self.guess(r as int, c as int),
            Command::Flag(r, c) => {
                let flagged = self.next_turn().flag(r as int, c as int);
                GameView { state: flagged.verdict(), ..flagged }
            },
            Command::Reveal(r, c) => {
                let (revealed, state) = self.next_turn().reveal_cell(r as int, c as int, dest);
                GameView { state: state, ..revealed }
            },
            Command::Quit => GameView { state: GameState::Quit, ..self.next_turn() },
        }
    }

    /// `command` may lead to the game `next`: that is the outcome of
    /// `execute` for some cell `dest` which, where a bomb has to move, is a
    /// cell without a bomb.
    pub open spec fn leads_to(self, command: Command, next: GameView) -> bool {
        exists|dest: (int, int)|
            (self.needs_refuge(command) ==> in_bounds(dest.0, dest.1) && !self.cell(
                dest.0,
                dest.1,
            ).has_bomb) && #[trigger] self.execute(command, dest) == next
    }
}

} // verus!
