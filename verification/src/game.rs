//! The game engine: the board, the bombs and the operations of a turn.

use crate::command::{normalize, normalized, parse, parse_command, Command, InputOutcome};
use crate::fill::{
    fill_invariant, lemma_complete_is_flood, lemma_fill_extend, lemma_fill_grows, lemma_fill_start,
    lemma_fill_wf, lemma_flood_is_complete, lemma_hidden_cells, lemma_neighbors, revealed,
};
use crate::lemmas::{
    bombs_among, lemma_bombs_among_all, lemma_free_before_bounds, lemma_free_count,
    lemma_index_cell, lemma_place_bomb, lemma_relocate, lemma_same_board, lemma_with_cell,
};
use crate::random::random_in_range;
use crate::slot::{digit_char, GameState, Slot, FLAGGED, GUESSED, HIDDEN};
use crate::view::{
    adjacent, cell_index, in_bounds, neighbor, GameView, NUM_BOMBS, NUM_COLS, NUM_ROWS, OFFSET,
};
use vstd::prelude::*;

verus! {

/// Number of cells of the board.
pub const NUM_CELLS: usize = NUM_ROWS * NUM_COLS;

/// A game of Minesweeper.
#[derive(Debug)]
pub struct Game {
    board: [Slot; NUM_CELLS],
    bomb_coords: Vec<(usize, usize)>,
    game_state: GameState,
    turns: u64,
}

impl View for Game {
    type V = GameView;

    closed spec fn view(&self) -> GameView {
        GameView {
            board: self.board@,
            bombs: self.bomb_coords@.map_values(|p: (usize, usize)| (p.0 as int, p.1 as int)),
            state: self.game_state,
            turns: self.turns as nat,
        }
    }
}

/// Position of an in-bounds coordinate in the board.
fn index(coord: (usize, usize)) -> (i: usize)
    requires
        in_bounds(coord.0 as int, coord.1 as int),
    ensures
        i == cell_index(coord.0 as int, coord.1 as int),
        i < NUM_CELLS,
{
    coord.0 * NUM_COLS + coord.1
}

impl Game {
    /// The invariant of a game, see `GameView::wf`.
    pub open spec fn wf(&self) -> bool {
        self@.wf()
    }

    /// A game before bomb placement.
    pub fn new() -> (game: Game)
        ensures
            game.wf(),
            game@ == GameView::fresh(),
    {
        let blank = Slot {
            character: HIDDEN,
            has_bomb: false,
            has_flag: false,
            is_revealed: false,
        };
        let game = Game {
            board: [blank; NUM_CELLS],
            bomb_coords: Vec::new(),
            game_state: GameState::Neutral,
            turns: 0,
        };
        proof {
            assert(game@.board =~= GameView::fresh().board);
            assert(game@.bombs =~= GameView::fresh().bombs);
        }
        game
    }

    /// The status of the game.
    pub fn state(&self) -> (state: GameState)
        ensures
            state == self@.state,
    {
        self.game_state
    }

    /// How many turns have ended so far.
    pub fn turns(&self) -> (turns: u64)
        ensures
            turns == self@.turns,
    {
        self.turns
    }

    /// The cell at `coord`.
    pub fn slot(&self, coord: (usize, usize)) -> (slot: Slot)
        requires
            in_bounds(coord.0 as int, coord.1 as int),
        ensures
            slot == self@.cell(coord.0 as int, coord.1 as int),
    {
        self.board[index(coord)]
    }

    /// The coordinates that hold a bomb, in the order they were placed.
    pub fn bombs(&self) -> (bombs: Vec<(usize, usize)>)
        ensures
            bombs@.len() == self@.bombs.len(),
            forall|i: int|
                0 <= i < bombs@.len() ==> self@.bombs[i] == (
                    (#[trigger] bombs@[i]).0 as int,
                    bombs@[i].1 as int,
                ),
    {
        let mut bombs: Vec<(usize, usize)> = Vec::new();
        for k in 0..self.bomb_coords.len()
            invariant
                bombs@ == self.bomb_coords@.take(k as int),
        {
            bombs.push(self.bomb_coords[k]);
        }
        bombs
    }

    /// Marks `coord` as a guess.
    pub fn guess(&mut self, coord: (usize, usize))
        requires
            old(self).wf(),
            in_bounds(coord.0 as int, coord.1 as int),
        ensures
            final(self).wf(),
            final(self)@ == old(self)@.guess(coord.0 as int, coord.1 as int),
    {
        let i = index(coord);
        self.board[i].character = GUESSED;
        proof {
            let (r, c) = (coord.0 as int, coord.1 as int);
            lemma_with_cell(old(self)@, r, c, Slot { character: GUESSED, ..old(self)@.cell(r, c) });
        }
    }

    /// Flags `coord` and evaluates the win condition. Flagging a revealed
    /// cell hides it again.
    pub fn flag(&mut self, coord: (usize, usize)) -> (state: GameState)
        requires
            old(self).wf(),
            in_bounds(coord.0 as int, coord.1 as int),
        ensures
            final(self).wf(),
            final(self)@ == old(self)@.flag(coord.0 as int, coord.1 as int),
            state == final(self)@.verdict(),
    {
        let i = index(coord);
        self.board[i].character = FLAGGED;
        self.board[i].has_flag = true;
        self.board[i].is_revealed = false;
        proof {
            let (r, c) = (coord.0 as int, coord.1 as int);
            let cell = old(self)@.cell(r, c);
            lemma_with_cell(
                old(self)@,
                r,
                c,
                Slot { character: FLAGGED, has_flag: true, is_revealed: false, ..cell },
            );
            assert(self@.board =~= old(self)@.flag(r, c).board);
        }
        self.check_win()
    }

    /// Win evaluation: the game is won when all `NUM_BOMBS` bombs are placed
    /// and every one of them is flagged; flags on other cells do not count.
    pub fn check_win(&self) -> (state: GameState)
        requires
            self.wf(),
        ensures
            state == self@.verdict(),
    {
        let mut count: usize = 0;
        let mut k: usize = 0;
        while k < self.bomb_coords.len()
            invariant
                self.wf(),
                k <= self.bomb_coords.len(),
                count <= k,
                count == k <==> forall|i: int|
                    0 <= i < k ==> self@.cell(
                        (#[trigger] self@.bombs[i]).0,
                        self@.bombs[i].1,
                    ).has_flag,
            decreases self.bomb_coords.len() - k,
        {
            let coord = self.bomb_coords[k];
            assert(self@.bombs[k as int] == (coord.0 as int, coord.1 as int));
            if self.board[index(coord)].has_flag {
                count += 1;
            }
            k += 1;
        }
        if count == NUM_BOMBS {
            GameState::Win
        } else {
            GameState::Neutral
        }
    }

    /// Number of bombs on the eight neighbours of `coord`; neighbours off
    /// the board do not count.
    pub fn set_adjacent(&self, coord: (usize, usize)) -> (bomb_count: i32)
        requires
            in_bounds(coord.0 as int, coord.1 as int),
        ensures
            bomb_count == self@.adjacent_bombs(coord.0 as int, coord.1 as int),
            0 <= bomb_count <= 8,
    {
        let mut bomb_count: i32 = 0;
        for k in 0usize..8
            invariant
                in_bounds(coord.0 as int, coord.1 as int),
                0 <= bomb_count <= k,
                bomb_count == bombs_among(self@, coord.0 as int, coord.1 as int, k as int),
        {
            let offset = OFFSET[k];
            let y = coord.0 as isize + offset.0;
            let x = coord.1 as isize + offset.1;
            if !(y < 0 || x < 0 || y >= NUM_ROWS as isize || x >= NUM_COLS as isize) {
                if self.board[index((y as usize, x as usize))].has_bomb {
                    bomb_count += 1;
                }
            }
        }
        proof {
            lemma_bombs_among_all(self@, coord.0 as int, coord.1 as int);
        }
        bomb_count
    }

    /// The flood fill from `coord`: the cell shows its bomb count, and if
    /// that count is zero the fill goes on, in the order of `OFFSET`, to
    /// every neighbour on the board that is not revealed yet. Flags on the
    /// cells it reveals are taken away; bombs are never touched.
    pub fn recusive_reveal(&mut self, coord: (usize, usize))
        requires
            old(self).wf(),
            in_bounds(coord.0 as int, coord.1 as int),
        ensures
            final(self).wf(),
            final(self)@ == old(self)@.flood(coord.0 as int, coord.1 as int),
        decreases
            old(self)@.hidden_cells() + if old(self)@.cell(
                coord.0 as int,
                coord.1 as int,
            ).is_revealed {
                1int
            } else {
                0int
            },
    {
        let ghost start = (coord.0 as int, coord.1 as int);
        let bomb_count = self.set_adjacent(coord);
        let i = index(coord);
        self.board[i].is_revealed = true;
        self.board[i].has_flag = false;
        self.board[i].character = digit_char(bomb_count as usize);
        proof {
            let first = old(self)@.with_cell(start.0, start.1, old(self)@.shown(start.0, start.1));
            assert(self@.board =~= first.board);
            lemma_fill_start(old(self)@, start);
            lemma_fill_grows(old(self)@, self@, start);
            lemma_hidden_cells(old(self)@, self@, start);
        }
        if bomb_count == 0 {
            for k in 0usize..8
                invariant
                    old(self).wf(),
                    start == (coord.0 as int, coord.1 as int),
                    in_bounds(start.0, start.1),
                    old(self)@.adjacent_bombs(start.0, start.1) == 0,
                    fill_invariant(old(self)@, self@, start),
                    forall|m: int|
                        0 <= m < k && in_bounds(
                            (#[trigger] neighbor(start.0, start.1, m)).0,
                            neighbor(start.0, start.1, m).1,
                        ) ==> revealed(self@, neighbor(start.0, start.1, m)),
                    0 <= self@.hidden_cells() <= old(self)@.hidden_cells(),
                    !revealed(old(self)@, start) ==> self@.hidden_cells() < old(
                        self,
                    )@.hidden_cells(),
            {
                let offset = OFFSET[k];
                let y = coord.0 as isize + offset.0;
                let x = coord.1 as isize + offset.1;
                let ghost n = neighbor(start.0, start.1, k as int);
                let ghost cur = self@;
                if !(y < 0 || x < 0 || y >= NUM_ROWS as isize || x >= NUM_COLS as isize) {
                    proof {
                        lemma_fill_wf(old(self)@, cur, start);
                    }
                    if !self.board[index((y as usize, x as usize))].is_revealed {
                        self.recusive_reveal((y as usize, x as usize));
                        proof {
                            lemma_neighbors(start, n);
                            lemma_flood_is_complete(cur, n);
                            lemma_fill_extend(old(self)@, cur, self@, start, n);
                            lemma_hidden_cells(cur, self@, n);
                        }
                    }
                }
            }
        }
        proof {
            if bomb_count == 0 {
                assert forall|q: (int, int)|
                    adjacent(start, q) && in_bounds(q.0, q.1) implies #[trigger] revealed(
                    self@,
                    q,
                ) by {
                    lemma_neighbors(start, q);
                }
            }
            lemma_fill_wf(old(self)@, self@, start);
            lemma_complete_is_flood(old(self)@, self@, start);
        }
    }

    /// The bomb-free cell that has exactly `n` bomb-free cells before it in
    /// row-major order.
    pub fn nth_free_slot(&self, n: usize) -> (coord: (usize, usize))
        requires
            self.wf(),
            n + self@.bombs.len() < NUM_CELLS,
        ensures
            self@.is_nth_free(n as int, coord.0 as int, coord.1 as int),
    {
        proof {
            lemma_free_count(self@);
        }
        let mut i: usize = 0;
        let mut seen: usize = 0;
        while self.board[i].has_bomb || seen < n
            invariant
                i < NUM_CELLS,
                seen == self@.free_before(i as int),
                seen <= n,
                n < self@.free_before(NUM_CELLS as int),
            decreases NUM_CELLS - i,
        {
            if !self.board[i].has_bomb {
                seen += 1;
            }
            i += 1;
            proof {
                lemma_free_before_bounds(self@, i as int, NUM_CELLS as int);
            }
        }
        proof {
            lemma_index_cell(i as int);
        }
        (i / NUM_COLS, i % NUM_COLS)
    }

    /// Puts a bomb on `coord` if that is a cell without a bomb and fewer
    /// than `NUM_BOMBS` bombs are placed; otherwise the game stays as it is.
    pub fn place_bomb(&mut self, coord: (usize, usize)) -> (placed: bool)
        requires
            old(self).wf(),
        ensures
            final(self).wf(),
            placed == old(self)@.can_place(coord.0 as int, coord.1 as int),
            final(self)@ == if placed {
                old(self)@.place_bomb(coord.0 as int, coord.1 as int)
            } else {
                old(self)@
            },
    {
        if coord.0 >= NUM_ROWS || coord.1 >= NUM_COLS || self.bomb_coords.len() >= NUM_BOMBS {
            return false;
        }
        let i = index(coord);
        if self.board[i].has_bomb {
            return false;
        }
        self.board[i].has_bomb = true;
        self.bomb_coords.push(coord);
        proof {
            let (r, c) = (coord.0 as int, coord.1 as int);
            lemma_place_bomb(old(self)@, r, c);
            assert(self@.bombs =~= old(self)@.place_bomb(r, c).bombs);
        }
        true
    }

    /// Bomb placement: puts bombs on cells drawn at random among the cells
    /// without one, until `NUM_BOMBS` bombs are on the board. Nothing but
    /// the bombs changes.
    pub fn make_bombs(&mut self)
        requires
            old(self).wf(),
        ensures
            final(self).wf(),
            final(self)@.armed(),
            final(self)@.state == old(self)@.state,
            final(self)@.turns == old(self)@.turns,
            final(self)@.bombs.take(old(self)@.bombs.len() as int) == old(self)@.bombs,
            forall|r: int, c: int|
                in_bounds(r, c) ==> #[trigger] final(self)@.cell(r, c) == (Slot {
                    has_bomb: final(self)@.bombs.contains((r, c)),
                    ..old(self)@.cell(r, c)
                }),
    {
        while self.bomb_coords.len() < NUM_BOMBS
            invariant
                self.wf(),
                self@.state == old(self)@.state,
                self@.turns == old(self)@.turns,
                old(self)@.bombs.len() <= self@.bombs.len() <= NUM_BOMBS,
                self@.bombs.len() == self.bomb_coords.len(),
                self@.bombs.take(old(self)@.bombs.len() as int) == old(self)@.bombs,
                forall|r: int, c: int|
                    in_bounds(r, c) ==> #[trigger] self@.cell(r, c) == (Slot {
                        has_bomb: self@.cell(r, c).has_bomb,
                        ..old(self)@.cell(r, c)
                    }),
            decreases NUM_BOMBS - self.bomb_coords.len(),
        {
            let ghost before = self@;
            let n = random_in_range(0, NUM_CELLS - self.bomb_coords.len() - 1);
            let coord = self.nth_free_slot(n);
            self.place_bomb(coord);
            proof {
                lemma_place_bomb(before, coord.0 as int, coord.1 as int);
            }
        }
    }

    /// Moves the bomb of `from` to the bomb-free cell `to`.
    fn relocate_bomb(&mut self, from: (usize, usize), to: (usize, usize))
        requires
            old(self).wf(),
            in_bounds(from.0 as int, from.1 as int),
            in_bounds(to.0 as int, to.1 as int),
            old(self)@.cell(from.0 as int, from.1 as int).has_bomb,
            !old(self)@.cell(to.0 as int, to.1 as int).has_bomb,
        ensures
            final(self).wf(),
            final(self)@ == old(self)@.relocate(
                (from.0 as int, from.1 as int),
                (to.0 as int, to.1 as int),
            ),
    {
        let ghost source = (from.0 as int, from.1 as int);
        let ghost target = (to.0 as int, to.1 as int);
        let mut k: usize = 0;
        while k < self.bomb_coords.len()
            invariant
                k <= self.bomb_coords.len(),
                self.bomb_coords.len() == old(self).bomb_coords.len(),
                self.board == old(self).board,
                self.game_state == old(self).game_state,
                self.turns == old(self).turns,
                source == (from.0 as int, from.1 as int),
                target == (to.0 as int, to.1 as int),
                forall|i: int|
                    0 <= i < self.bomb_coords.len() ==> #[trigger] self@.bombs[i] == if i < k
                        && old(self)@.bombs[i] == source {
                        target
                    } else {
                        old(self)@.bombs[i]
                    },
            decreases self.bomb_coords.len() - k,
        {
            let listed = self.bomb_coords[k];
            assert(self@.bombs[k as int] == (listed.0 as int, listed.1 as int));
            if listed.0 == from.0 && listed.1 == from.1 {
                let ghost prior = self@;
                self.bomb_coords[k] = to;
                assert forall|i: int| 0 <= i < self.bomb_coords.len() implies #[trigger]
                    self@.bombs[i] == if i < k + 1 && old(self)@.bombs[i] == source {
                    target
                } else {
                    old(self)@.bombs[i]
                } by {
                    if i != k {
                        assert(self@.bombs[i] == prior.bombs[i]);
                    }
                }
            }
            k += 1;
        }
        let ghost listed = self@.bombs;
        let i = index(from);
        let j = index(to);
        self.board[i].has_bomb = false;
        self.board[j].has_bomb = true;
        proof {
            lemma_relocate(old(self)@, source, target);
            assert(self@.bombs == listed);
            assert(self@.bombs =~= old(self)@.relocate(source, target).bombs);
        }
    }

    /// Reveals `coord`, with `dest` as the cell that takes the bomb if the
    /// first-reveal rule applies.
    ///
    /// The cell is marked revealed. If this is the first turn and the cell
    /// holds a bomb, the bomb moves to `dest`. If the cell then still holds a
    /// bomb the game is lost and nothing else changes. Otherwise the flood
    /// fill runs from the cell and the win condition is evaluated. A flagged
    /// cell is revealed like any other.
    pub fn reveal_cell_with(&mut self, coord: (usize, usize), dest: (usize, usize)) -> (state:
        GameState)
        requires
            old(self).wf(),
            in_bounds(coord.0 as int, coord.1 as int),
            old(self)@.first_reveal_hits_bomb(coord.0 as int, coord.1 as int) ==> in_bounds(
                dest.0 as int,
                dest.1 as int,
            ) && !old(self)@.cell(dest.0 as int, dest.1 as int).has_bomb,
        ensures
            final(self).wf(),
            (final(self)@, state) == old(self)@.reveal_cell(
                coord.0 as int,
                coord.1 as int,
                (dest.0 as int, dest.1 as int),
            ),
    {
        let ghost (r, c) = (coord.0 as int, coord.1 as int);
        let i = index(coord);
        self.board[i].is_revealed = true;
        proof {
            lemma_with_cell(old(self)@, r, c, Slot { is_revealed: true, ..old(self)@.cell(r, c) });
        }
        if self.turns == 1 && self.board[i].has_bomb {
            proof {
                lemma_relocate(self@, (r, c), (dest.0 as int, dest.1 as int));
            }
            self.relocate_bomb(coord, dest);
        }
        if self.board[i].has_bomb {
            return GameState::Loss;
        }
        self.recusive_reveal(coord);
        self.check_win()
    }

    /// Reveals `coord`. Where the first-reveal rule applies, the bomb moves
    /// to a cell drawn at random among the cells without a bomb.
    pub fn reveal_cell(&mut self, coord: (usize, usize)) -> (state: GameState)
        requires
            old(self).wf(),
            in_bounds(coord.0 as int, coord.1 as int),
        ensures
            final(self).wf(),
            old(self)@.reveals_to(coord.0 as int, coord.1 as int, final(self)@, state),
    {
        if self.turns == 1 && self.board[index(coord)].has_bomb {
            let n = random_in_range(0, NUM_CELLS - self.bomb_coords.len() - 1);
            let dest = self.nth_free_slot(n);
            self.reveal_cell_with(coord, dest)
        } else {
            self.reveal_cell_with(coord, coord)
        }
    }

    /// Executes one command of a game that is still going on.
    ///
    /// A guess is marked and the turn goes on. Flag, reveal and quit end the
    /// turn: the turn counter moves on first, so that a reveal on the first
    /// turn finds the counter at 1, and the status of the game is set.
    pub fn execute(&mut self, command: Command) -> (outcome: InputOutcome)
        requires
            old(self).wf(),
            old(self)@.state == GameState::Neutral,
            command.wf(),
        ensures
            final(self).wf(),
            old(self)@.leads_to(command, final(self)@),
            outcome == InputOutcome::of(command, final(self)@.state),
    {
        match command {
            Command::Guess(y, x) => {
                self.guess((y, x));
                assert(old(self)@.execute(command, (0, 0)) == self@);
                InputOutcome::Guessed
            },
            Command::Flag(y, x) => {
                self.begin_turn();
                let state = self.flag((y, x));
                self.set_state(state);
                assert(old(self)@.execute(command, (0, 0)) == self@);
                InputOutcome::TurnEnded(state)
            },
            Command::Reveal(y, x) => {
                self.begin_turn();
                let ghost started = self@;
                let state = self.reveal_cell((y, x));
                let ghost revealed = self@;
                self.set_state(state);
                proof {
                    let dest = choose|dest: (int, int)|
                        (started.first_reveal_hits_bomb(y as int, x as int) ==> in_bounds(
                            dest.0,
                            dest.1,
                        ) && !started.cell(dest.0, dest.1).has_bomb)
                            && #[trigger] started.reveal_cell(y as int, x as int, dest) == (
                            revealed,
                            state,
                        );
                    assert(old(self)@.execute(command, dest) == self@);
                }
                InputOutcome::TurnEnded(state)
            },
            Command::Quit => {
                self.begin_turn();
                self.set_state(GameState::Quit);
                assert(old(self)@.execute(command, (0, 0)) == self@);
                InputOutcome::TurnEnded(GameState::Quit)
            },
        }
    }

    /// Sets the status of the game.
    fn set_state(&mut self, state: GameState)
        requires
            old(self).wf(),
        ensures
            final(self).wf(),
            final(self)@ == (GameView { state: state, ..old(self)@ }),
    {
        self.game_state = state;
        proof {
            lemma_same_board(old(self)@, self@);
        }
    }

    /// Moves the turn counter on by one.
    fn begin_turn(&mut self)
        requires
            old(self).wf(),
        ensures
            final(self).wf(),
            final(self)@ == old(self)@.next_turn(),
    {
        if self.turns < u64::MAX {
            self.turns += 1;
        }
        proof {
            lemma_same_board(old(self)@, self@);
        }
    }

    /// Takes one line of input of a game that is still going on: normalizes
    /// it, reads the command and executes it. A line that holds no command
    /// changes nothing.
    pub fn play_line(&mut self, line: &str) -> (outcome: InputOutcome)
        requires
            old(self).wf(),
            old(self)@.state == GameState::Neutral,
        ensures
            final(self).wf(),
            match parse(normalized(line@)) {
                None => outcome == InputOutcome::Invalid && final(self)@ == old(self)@,
                Some(command) => old(self)@.leads_to(command, final(self)@) && outcome
                    == InputOutcome::of(command, final(self)@.state),
            },
    {
        let text = normalize(line);
        match parse_command(text.as_str()) {
            None => InputOutcome::Invalid,
            Some(command) => self.execute(command),
        }
    }
}

} // verus!
