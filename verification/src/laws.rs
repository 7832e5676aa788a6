//! Laws of the game, proved over the model.

use crate::command::Command;
use crate::fill::{
    lemma_fill_wf, lemma_flood_cell, lemma_flood_is_complete, lemma_path_push,
    lemma_reaches_start, lemma_revealed_unreached,
};
use crate::lemmas::{
    lemma_cell_index, lemma_free_before_bounds, lemma_free_count, lemma_relocate,
    lemma_same_board, lemma_with_cell,
};
use crate::slot::{digit_symbol, is_count_symbol, is_symbol, GameState, Slot, FLAGGED, GUESSED};
use crate::view::{adjacent, cell_index, in_bounds, GameView, NUM_BOMBS, NUM_COLS, NUM_ROWS};
use vstd::prelude::*;

verus! {

/// Once all bombs are placed, the bomb list holds `NUM_BOMBS` different
/// cells of the board, each of them with a bomb, and no other cell has one:
/// of the 100 cells exactly 85 are free.
pub proof fn law_armed_board(v: GameView)
    requires
        v.wf(),
        v.armed(),
    ensures
        v.bombs.len() == NUM_BOMBS,
        v.bombs.no_duplicates(),
        forall|i: int|
            0 <= i < v.bombs.len() ==> in_bounds((#[trigger] v.bombs[i]).0, v.bombs[i].1) && v.cell(
                v.bombs[i].0,
                v.bombs[i].1,
            ).has_bomb,
        forall|r: int, c: int|
            in_bounds(r, c) && (#[trigger] v.cell(r, c)).has_bomb ==> v.bombs.contains((r, c)),
        v.free_before(NUM_ROWS * NUM_COLS) == NUM_ROWS * NUM_COLS - NUM_BOMBS,
{
    lemma_free_count(v);
}

/// Counting the bomb-free cells in row-major order names each of them
/// once: no two cells are the `n`-th free cell.
pub proof fn law_nth_free_is_unique(v: GameView, n: int, p: (int, int), q: (int, int))
    requires
        v.is_nth_free(n, p.0, p.1),
        v.is_nth_free(n, q.0, q.1),
    ensures
        p == q,
{
    let i = cell_index(p.0, p.1);
    let j = cell_index(q.0, q.1);
    lemma_cell_index(p.0, p.1);
    lemma_cell_index(q.0, q.1);
    if i < j {
        lemma_free_before_bounds(v, i + 1, j);
    }
    if j < i {
        lemma_free_before_bounds(v, j + 1, i);
    }
}

/// The game is won exactly when all bombs are placed and every cell with a
/// bomb is flagged. Flags on cells without a bomb neither help nor hurt.
pub proof fn law_win_iff_every_bomb_flagged(v: GameView)
    requires
        v.wf(),
        v.armed(),
    ensures
        v.verdict() == GameState::Win <==> forall|r: int, c: int|
            in_bounds(r, c) && (#[trigger] v.cell(r, c)).has_bomb ==> v.cell(r, c).has_flag,
        v.verdict() == GameState::Win || v.verdict() == GameState::Neutral,
{
}

/// Flagging the last bomb that has no flag wins the game.
pub proof fn law_flagging_last_bomb_wins(v: GameView, r: int, c: int)
    requires
        v.wf(),
        v.armed(),
        in_bounds(r, c),
        forall|r2: int, c2: int|
            in_bounds(r2, c2) && (r2, c2) != (r, c) && (#[trigger] v.cell(r2, c2)).has_bomb
                ==> v.cell(r2, c2).has_flag,
    ensures
        v.flag(r, c).verdict() == GameState::Win,
{
    let slot = Slot { character: FLAGGED, has_flag: true, is_revealed: false, ..v.cell(r, c) };
    lemma_with_cell(v, r, c, slot);
    law_win_iff_every_bomb_flagged(v.flag(r, c));
}

/// As long as a bomb is left without a flag, flagging another cell leaves
/// the game going.
pub proof fn law_unflagged_bomb_blocks_win(v: GameView, r: int, c: int, r2: int, c2: int)
    requires
        v.wf(),
        in_bounds(r, c),
        in_bounds(r2, c2),
        (r2, c2) != (r, c),
        v.cell(r2, c2).has_bomb,
        !v.cell(r2, c2).has_flag,
    ensures
        v.flag(r, c).verdict() == GameState::Neutral,
{
    let slot = Slot { character: FLAGGED, has_flag: true, is_revealed: false, ..v.cell(r, c) };
    lemma_with_cell(v, r, c, slot);
}

/// A flagged cell never shows a bomb count: a cell that shows one is
/// revealed and has no flag.
pub proof fn law_flagged_cell_shows_no_count(v: GameView, r: int, c: int)
    requires
        v.wf(),
        in_bounds(r, c),
    ensures
        v.cell(r, c).has_flag ==> !is_count_symbol(v.cell(r, c).character),
        is_count_symbol(v.cell(r, c).character) ==> v.cell(r, c).is_revealed,
        is_symbol(v.cell(r, c).character),
{
    lemma_cell_index(r, c);
}

/// Flagging a cell makes it show the flag and hides it if it was revealed;
/// its bomb and every other cell stay as they are.
pub proof fn law_flag_hides_cell(v: GameView, r: int, c: int)
    requires
        v.wf(),
        in_bounds(r, c),
    ensures
        v.flag(r, c).wf(),
        v.flag(r, c).cell(r, c) == (Slot {
            character: FLAGGED,
            has_bomb: v.cell(r, c).has_bomb,
            has_flag: true,
            is_revealed: false,
        }),
        forall|r2: int, c2: int|
            in_bounds(r2, c2) && (r2, c2) != (r, c) ==> #[trigger] v.flag(r, c).cell(r2, c2)
                == v.cell(r2, c2),
        v.flag(r, c).bombs == v.bombs,
{
    let slot = Slot { character: FLAGGED, has_flag: true, is_revealed: false, ..v.cell(r, c) };
    lemma_with_cell(v, r, c, slot);
}

/// A reveal on the first turn is never lost. If the revealed cell holds a
/// bomb, the bomb moves to `dest`, a cell other than the revealed one that
/// held no bomb; every other bomb stays where it is, and the number of
/// bombs stays the same.
pub proof fn law_first_reveal_is_safe(v: GameView, r: int, c: int, dest: (int, int))
    requires
        v.wf(),
        in_bounds(r, c),
        v.turns == 1,
        v.cell(r, c).has_bomb ==> in_bounds(dest.0, dest.1) && !v.cell(dest.0, dest.1).has_bomb,
    ensures
        v.reveal_cell(r, c, dest).1 != GameState::Loss,
        v.reveal_cell(r, c, dest).0.bombs.len() == v.bombs.len(),
        !v.reveal_cell(r, c, dest).0.cell(r, c).has_bomb,
        v.cell(r, c).has_bomb ==> {
            &&& dest != (r, c)
            &&& !v.bombs.contains(dest)
            &&& v.reveal_cell(r, c, dest).0.cell(dest.0, dest.1).has_bomb
            &&& forall|r2: int, c2: int|
                in_bounds(r2, c2) && (r2, c2) != (r, c) && (r2, c2) != dest ==> (
                #[trigger] v.reveal_cell(r, c, dest).0.cell(r2, c2)).has_bomb == v.cell(
                    r2,
                    c2,
                ).has_bomb
        },
{
    let marked = v.uncover(r, c);
    let slot = Slot { is_revealed: true, ..v.cell(r, c) };
    lemma_with_cell(v, r, c, slot);
    let safe = if v.first_reveal_hits_bomb(r, c) {
        marked.relocate((r, c), dest)
    } else {
        marked
    };
    if v.cell(r, c).has_bomb {
        lemma_relocate(marked, (r, c), dest);
    }
    let done = safe.flood(r, c);
    assert forall|r2: int, c2: int| in_bounds(r2, c2) implies (#[trigger] done.cell(
        r2,
        c2,
    )).has_bomb == safe.cell(r2, c2).has_bomb by {
        lemma_flood_cell(safe, (r, c), r2, c2);
    }
}

/// A reveal of a bomb on any turn but the first loses the game at once:
/// the cell is marked revealed and nothing else changes.
pub proof fn law_later_reveal_of_bomb_is_lost(v: GameView, r: int, c: int, dest: (int, int))
    requires
        v.wf(),
        in_bounds(r, c),
        v.turns != 1,
        v.cell(r, c).has_bomb,
    ensures
        v.reveal_cell(r, c, dest).1 == GameState::Loss,
        v.reveal_cell(r, c, dest).0 == v.uncover(r, c),
        v.reveal_cell(r, c, dest).0.bombs == v.bombs,
        forall|r2: int, c2: int|
            in_bounds(r2, c2) && (r2, c2) != (r, c) ==> #[trigger] v.reveal_cell(r, c, dest).0.cell(
                r2,
                c2,
            ) == v.cell(r2, c2),
{
    let slot = Slot { is_revealed: true, ..v.cell(r, c) };
    lemma_with_cell(v, r, c, slot);
}

/// The flood fill never goes back to a cell that was revealed before it
/// started: but for the cell it starts from, such a cell stays as it is.
pub proof fn law_flood_keeps_revealed_cells(v: GameView, start: (int, int), r: int, c: int)
    requires
        v.wf(),
        in_bounds(start.0, start.1),
        in_bounds(r, c),
        v.cell(r, c).is_revealed,
        (r, c) != start,
    ensures
        v.flood(start.0, start.1).cell(r, c) == v.cell(r, c),
{
    lemma_revealed_unreached(v, start, (r, c));
    lemma_flood_cell(v, start, r, c);
}

/// The flood fill changes nothing but cells it reveals, and a cell it
/// reveals shows the number of bombs around it.
pub proof fn law_flood_shows_counts(v: GameView, start: (int, int), r: int, c: int)
    requires
        v.wf(),
        in_bounds(start.0, start.1),
        in_bounds(r, c),
    ensures
        v.flood(start.0, start.1).cell(start.0, start.1) == v.shown(start.0, start.1),
        v.flood(start.0, start.1).cell(r, c) == v.cell(r, c) || v.flood(start.0, start.1).cell(r, c)
            == v.shown(r, c),
        v.shown(r, c).character == digit_symbol(v.adjacent_bombs(r, c)),
        is_count_symbol(v.shown(r, c).character),
        v.flood(start.0, start.1).bombs == v.bombs,
{
    lemma_reaches_start(v, start);
    lemma_flood_cell(v, start, start.0, start.1);
    lemma_flood_cell(v, start, r, c);
}

/// A cell with a bomb around it stops the fill: revealing such a cell
/// changes no other cell.
pub proof fn law_flood_stops_at_numbered_cell(v: GameView, start: (int, int), r: int, c: int)
    requires
        v.wf(),
        in_bounds(start.0, start.1),
        in_bounds(r, c),
        v.adjacent_bombs(start.0, start.1) != 0,
        (r, c) != start,
    ensures
        v.flood(start.0, start.1).cell(r, c) == v.cell(r, c),
{
    lemma_flood_cell(v, start, r, c);
    if v.fill_reaches(start, (r, c)) {
        let path = choose|path: Seq<(int, int)>| #[trigger]
            v.fill_path(start, path) && path.last() == (r, c);
        assert(v.fill_step(path, 0));
    }
}

/// The fill reveals the whole region of cells with no bomb around them
/// that it can walk from its start, and the cells that border the region:
/// where the fill reaches a cell with no bomb around it, every neighbour of
/// that cell is revealed afterwards, and a neighbour that was hidden shows
/// its count.
pub proof fn law_flood_reveals_region(
    v: GameView,
    start: (int, int),
    p: (int, int),
    q: (int, int),
)
    requires
        v.wf(),
        in_bounds(start.0, start.1),
        in_bounds(p.0, p.1),
        v.fill_reaches(start, p),
        v.adjacent_bombs(p.0, p.1) == 0,
        adjacent(p, q),
        in_bounds(q.0, q.1),
    ensures
        v.flood(start.0, start.1).cell(p.0, p.1) == v.shown(p.0, p.1),
        v.flood(start.0, start.1).cell(q.0, q.1).is_revealed,
        !v.cell(q.0, q.1).is_revealed ==> v.fill_reaches(start, q) && v.flood(
            start.0,
            start.1,
        ).cell(q.0, q.1) == v.shown(q.0, q.1),
{
    lemma_flood_cell(v, start, p.0, p.1);
    lemma_flood_cell(v, start, q.0, q.1);
    if !v.cell(q.0, q.1).is_revealed {
        let path = choose|path: Seq<(int, int)>| #[trigger]
            v.fill_path(start, path) && path.last() == p;
        lemma_path_push(v, start, path, q);
    }
}

/// On a board where no cell is revealed, the fill reveals every cell at
/// the end of a king's walk from its start that leaves only cells with no
/// bomb around them.
pub proof fn law_flood_on_hidden_board(v: GameView, start: (int, int), walk: Seq<(int, int)>)
    requires
        v.wf(),
        forall|r: int, c: int| in_bounds(r, c) ==> !(#[trigger] v.cell(r, c)).is_revealed,
        walk.len() > 0,
        walk[0] == start,
        forall|i: int| 0 <= i < walk.len() ==> in_bounds((#[trigger] walk[i]).0, walk[i].1),
        forall|i: int|
            0 <= i < walk.len() - 1 ==> adjacent(#[trigger] walk[i], walk[i + 1])
                && v.adjacent_bombs(walk[i].0, walk[i].1) == 0,
    ensures
        v.fill_reaches(start, walk.last()),
        v.flood(start.0, start.1).cell(walk.last().0, walk.last().1) == v.shown(
            walk.last().0,
            walk.last().1,
        ),
{
    assert(v.fill_path(start, walk));
    lemma_flood_cell(v, start, walk.last().0, walk.last().1);
}

/// A reveal keeps the game well-formed and the bombs in number.
pub proof fn law_reveal_keeps_game_sound(v: GameView, r: int, c: int, dest: (int, int))
    requires
        v.wf(),
        in_bounds(r, c),
        v.first_reveal_hits_bomb(r, c) ==> in_bounds(dest.0, dest.1) && !v.cell(
            dest.0,
            dest.1,
        ).has_bomb,
    ensures
        v.reveal_cell(r, c, dest).0.wf(),
        v.reveal_cell(r, c, dest).0.bombs.len() == v.bombs.len(),
        v.reveal_cell(r, c, dest).0.turns == v.turns,
        v.reveal_cell(r, c, dest).0.state == v.state,
{
    let marked = v.uncover(r, c);
    lemma_with_cell(v, r, c, Slot { is_revealed: true, ..v.cell(r, c) });
    let safe = if v.first_reveal_hits_bomb(r, c) {
        marked.relocate((r, c), dest)
    } else {
        marked
    };
    if v.first_reveal_hits_bomb(r, c) {
        lemma_relocate(marked, (r, c), dest);
    }
    if !safe.cell(r, c).has_bomb {
        lemma_flood_is_complete(safe, (r, c));
        lemma_fill_wf(safe, safe.flood(r, c), (r, c));
    }
}

/// Whatever the command, the game stays well-formed and keeps its bombs in
/// number. A guess leaves the turn counter and the status as they are;
/// flag, reveal and quit move the counter on by one.
pub proof fn law_command_keeps_game_sound(v: GameView, command: Command, dest: (int, int))
    requires
        v.wf(),
        command.wf(),
        v.needs_refuge(command) ==> in_bounds(dest.0, dest.1) && !v.cell(dest.0, dest.1).has_bomb,
    ensures
        v.execute(command, dest).wf(),
        v.execute(command, dest).bombs.len() == v.bombs.len(),
        command is Guess ==> v.execute(command, dest).turns == v.turns && v.execute(
            command,
            dest,
        ).state == v.state,
        !(command is Guess) ==> v.execute(command, dest).turns == v.next_turn().turns,
        v.turns < u64::MAX ==> v.next_turn().turns == v.turns + 1,
{
    let next = v.next_turn();
    lemma_same_board(v, next);
    match command {
        Command::Guess(r, c) => {
            lemma_with_cell(
                v,
                r as int,
                c as int,
                Slot { character: GUESSED, ..v.cell(r as int, c as int) },
            );
        },
        Command::Flag(r, c) => {
            law_flag_hides_cell(next, r as int, c as int);
            lemma_same_board(next.flag(r as int, c as int), v.execute(command, dest));
        },
        Command::Reveal(r, c) => {
            law_reveal_keeps_game_sound(next, r as int, c as int, dest);
            let revealed = next.reveal_cell(r as int, c as int, dest).0;
            lemma_same_board(revealed, v.execute(command, dest));
        },
        Command::Quit => {
            lemma_same_board(v, v.execute(command, dest));
        },
    }
}

/// A reveal as the first turn-ending command of a game never loses it.
pub proof fn law_opening_reveal_is_safe(v: GameView, r: usize, c: usize, dest: (int, int))
    requires
        v.wf(),
        v.turns == 0,
        in_bounds(r as int, c as int),
        v.cell(r as int, c as int).has_bomb ==> in_bounds(dest.0, dest.1) && !v.cell(
            dest.0,
            dest.1,
        ).has_bomb,
    ensures
        v.execute(Command::Reveal(r, c), dest).state != GameState::Loss,
        !v.execute(Command::Reveal(r, c), dest).cell(r as int, c as int).has_bomb,
{
    let next = v.next_turn();
    lemma_same_board(v, next);
    law_first_reveal_is_safe(next, r as int, c as int, dest);
}

/// Once a turn has ended, a reveal of a bomb loses the game: the cell is
/// marked revealed, the turn counter moves on, and nothing else changes.
pub proof fn law_reveal_of_bomb_after_opening_is_lost(
    v: GameView,
    r: usize,
    c: usize,
    dest: (int, int),
)
    requires
        v.wf(),
        v.turns >= 1,
        in_bounds(r as int, c as int),
        v.cell(r as int, c as int).has_bomb,
    ensures
        v.execute(Command::Reveal(r, c), dest).state == GameState::Loss,
        v.execute(Command::Reveal(r, c), dest).board == v.uncover(r as int, c as int).board,
        v.execute(Command::Reveal(r, c), dest).bombs == v.bombs,
{
    let next = v.next_turn();
    lemma_same_board(v, next);
    law_later_reveal_of_bomb_is_lost(next, r as int, c as int, dest);
}

} // verus!
