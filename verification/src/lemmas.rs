//! Proofs about the model that the engine's functions rest on.

use crate::slot::Slot;
use crate::view::{cell_index, in_bounds, neighbor, GameView, NUM_COLS, NUM_ROWS};
use vstd::prelude::*;

verus! {

/// Different cells of the board stand at different positions.
pub proof fn lemma_cell_index(r: int, c: int)
    requires
        in_bounds(r, c),
    ensures
        0 <= cell_index(r, c) < NUM_ROWS * NUM_COLS,
        cell_index(r, c) / NUM_COLS as int == r,
        cell_index(r, c) % NUM_COLS as int == c,
{
}

/// Every position of the board is the position of exactly one cell.
pub proof fn lemma_index_cell(i: int)
    requires
        0 <= i < NUM_ROWS * NUM_COLS,
    ensures
        in_bounds(i / NUM_COLS as int, i % NUM_COLS as int),
        cell_index(i / NUM_COLS as int, i % NUM_COLS as int) == i,
{
}

/// Number of bombs on the first `k` neighbours of `(r, c)`.
pub open spec fn bombs_among(v: GameView, r: int, c: int, k: int) -> int
    decreases k,
{
    if k <= 0 {
        0
    } else {
        bombs_among(v, r, c, k - 1) + v.bomb_at(neighbor(r, c, k - 1).0, neighbor(r, c, k - 1).1)
    }
}

/// The eight neighbours of `OFFSET` are the eight that `adjacent_bombs`
/// counts.
pub proof fn lemma_bombs_among_all(v: GameView, r: int, c: int)
    ensures
        bombs_among(v, r, c, 8) == v.adjacent_bombs(r, c),
        0 <= v.adjacent_bombs(r, c) <= 8,
{
    reveal_with_fuel(bombs_among, 9);
}

/// Well-formedness depends on the board and the bombs only.
pub proof fn lemma_same_board(v: GameView, w: GameView)
    requires
        v.wf(),
        w.board == v.board,
        w.bombs == v.bombs,
    ensures
        w.wf(),
{
    assert forall|r: int, c: int| in_bounds(r, c) implies ((#[trigger] w.cell(r, c)).has_bomb
        <==> w.bombs.contains((r, c))) by {
        assert(v.cell(r, c).has_bomb <==> v.bombs.contains((r, c)));
    }
}

/// Replacing one cell by a well-formed cell with the same bomb keeps the
/// game well-formed and leaves every other cell alone.
pub proof fn lemma_with_cell(v: GameView, r: int, c: int, slot: Slot)
    requires
        v.wf(),
        in_bounds(r, c),
        slot.wf(),
        slot.has_bomb == v.cell(r, c).has_bomb,
    ensures
        v.with_cell(r, c, slot).wf(),
        v.with_cell(r, c, slot).cell(r, c) == slot,
        forall|r2: int, c2: int|
            in_bounds(r2, c2) && (r2, c2) != (r, c) ==> #[trigger] v.with_cell(r, c, slot).cell(
                r2,
                c2,
            ) == v.cell(r2, c2),
{
    let w = v.with_cell(r, c, slot);
    lemma_cell_index(r, c);
    assert forall|r2: int, c2: int| in_bounds(r2, c2) implies (#[trigger] w.cell(r2, c2)).has_bomb
        == v.cell(r2, c2).has_bomb by {
        lemma_cell_index(r2, c2);
    }
    assert forall|r2: int, c2: int|
        in_bounds(r2, c2) && (r2, c2) != (r, c) implies #[trigger] w.cell(r2, c2) == v.cell(
        r2,
        c2,
    ) by {
        lemma_cell_index(r2, c2);
    }
}

/// Putting a bomb on the free cell at position `i` takes one from the count
/// of free cells behind it.
pub proof fn lemma_free_before_update(v: GameView, w: GameView, i: int, n: int)
    requires
        0 <= i < v.board.len(),
        0 <= n <= v.board.len(),
        !v.board[i].has_bomb,
        w.board == v.board.update(i, Slot { has_bomb: true, ..v.board[i] }),
    ensures
        w.free_before(n) == v.free_before(n) - if i < n {
            1int
        } else {
            0int
        },
    decreases n,
{
    if n > 0 {
        lemma_free_before_update(v, w, i, n - 1);
    }
}

/// The count of free cells is at least 0 and grows by at most 1 per cell.
pub proof fn lemma_free_before_bounds(v: GameView, m: int, n: int)
    requires
        0 <= m <= n,
    ensures
        0 <= v.free_before(m) <= v.free_before(n) <= v.free_before(m) + (n - m),
    decreases n - m,
{
    if m < n {
        lemma_free_before_bounds(v, m, n - 1);
    } else {
        lemma_free_before_zero(v, m);
    }
}

/// Among `n` cells at most `n` are free.
pub proof fn lemma_free_before_zero(v: GameView, n: int)
    requires
        0 <= n,
    ensures
        0 <= v.free_before(n) <= n,
    decreases n,
{
    if n > 0 {
        lemma_free_before_zero(v, n - 1);
    }
}

/// On a board without bombs every cell is free.
proof fn lemma_free_before_empty(v: GameView, n: int)
    requires
        0 <= n <= v.board.len(),
        forall|i: int| 0 <= i < v.board.len() ==> !(#[trigger] v.board[i]).has_bomb,
    ensures
        v.free_before(n) == n,
    decreases n,
{
    if n > 0 {
        lemma_free_before_empty(v, n - 1);
    }
}

/// Every cell is free or on the bomb list: the free cells and the listed
/// bombs add up to the board.
pub proof fn lemma_free_count(v: GameView)
    requires
        v.bombs_listed(),
    ensures
        v.free_before(NUM_ROWS * NUM_COLS) + v.bombs.len() == NUM_ROWS * NUM_COLS,
    decreases v.bombs.len(),
{
    if v.bombs.len() == 0 {
        assert forall|i: int| 0 <= i < v.board.len() implies !(#[trigger] v.board[i]).has_bomb by {
            lemma_index_cell(i);
            let (r, c) = (i / NUM_COLS as int, i % NUM_COLS as int);
            assert(v.cell(r, c) == v.board[i]);
        }
        lemma_free_before_empty(v, v.board.len() as int);
    } else {
        let p = v.bombs.last();
        let i = cell_index(p.0, p.1);
        lemma_cell_index(p.0, p.1);
        let less = GameView {
            board: v.board.update(i, Slot { has_bomb: false, ..v.board[i] }),
            bombs: v.bombs.drop_last(),
            ..v
        };
        assert(v.cell(p.0, p.1).has_bomb);
        assert forall|r: int, c: int| in_bounds(r, c) implies ((#[trigger] less.cell(r, c)).has_bomb
            <==> less.bombs.contains((r, c))) by {
            lemma_cell_index(r, c);
            assert(v.cell(r, c).has_bomb <==> v.bombs.contains((r, c)));
            if (r, c) != p && v.bombs.contains((r, c)) {
                let k = choose|k: int| 0 <= k < v.bombs.len() && v.bombs[k] == (r, c);
                assert(less.bombs[k] == (r, c));
            }
        }
        lemma_free_count(less);
        assert(v.board =~= less.board.update(i, Slot { has_bomb: true, ..less.board[i] }));
        lemma_free_before_update(less, v, i, NUM_ROWS * NUM_COLS);
    }
}

/// A bomb put on a free cell keeps the game well-formed.
pub proof fn lemma_place_bomb(v: GameView, r: int, c: int)
    requires
        v.wf(),
        v.can_place(r, c),
    ensures
        v.place_bomb(r, c).wf(),
        v.place_bomb(r, c).cell(r, c) == (Slot { has_bomb: true, ..v.cell(r, c) }),
        forall|r2: int, c2: int|
            in_bounds(r2, c2) && (r2, c2) != (r, c) ==> #[trigger] v.place_bomb(r, c).cell(r2, c2)
                == v.cell(r2, c2),
{
    let w = v.place_bomb(r, c);
    lemma_cell_index(r, c);
    assert forall|r2: int, c2: int|
        in_bounds(r2, c2) && (r2, c2) != (r, c) implies #[trigger] w.cell(r2, c2) == v.cell(
        r2,
        c2,
    ) by {
        lemma_cell_index(r2, c2);
    }
    assert forall|r2: int, c2: int| in_bounds(r2, c2) implies ((#[trigger] w.cell(r2, c2)).has_bomb
        <==> w.bombs.contains((r2, c2))) by {
        lemma_cell_index(r2, c2);
        if (r2, c2) == (r, c) {
            assert(w.bombs[v.bombs.len() as int] == (r, c));
        } else if v.bombs.contains((r2, c2)) {
            let k = choose|k: int| 0 <= k < v.bombs.len() && v.bombs[k] == (r2, c2);
            assert(w.bombs[k] == (r2, c2));
        }
    }
}

/// A bomb moved from its cell to a free cell keeps the game well-formed.
pub proof fn lemma_relocate(v: GameView, from: (int, int), to: (int, int))
    requires
        v.wf(),
        in_bounds(from.0, from.1),
        in_bounds(to.0, to.1),
        v.cell(from.0, from.1).has_bomb,
        !v.cell(to.0, to.1).has_bomb,
    ensures
        v.relocate(from, to).wf(),
        v.relocate(from, to).cell(from.0, from.1) == (Slot {
            has_bomb: false,
            ..v.cell(from.0, from.1)
        }),
        v.relocate(from, to).cell(to.0, to.1) == (Slot { has_bomb: true, ..v.cell(to.0, to.1) }),
        forall|r: int, c: int|
            in_bounds(r, c) && (r, c) != from && (r, c) != to ==> #[trigger] v.relocate(
                from,
                to,
            ).cell(r, c) == v.cell(r, c),
{
    let w = v.relocate(from, to);
    lemma_cell_index(from.0, from.1);
    lemma_cell_index(to.0, to.1);
    let at = choose|k: int| 0 <= k < v.bombs.len() && v.bombs[k] == from;
    assert forall|r: int, c: int|
        in_bounds(r, c) && (r, c) != from && (r, c) != to implies #[trigger] w.cell(r, c)
            == v.cell(r, c) by {
        lemma_cell_index(r, c);
    }
    assert forall|r: int, c: int| in_bounds(r, c) implies ((#[trigger] w.cell(r, c)).has_bomb
        <==> w.bombs.contains((r, c))) by {
        lemma_cell_index(r, c);
        if (r, c) == to {
            assert(w.bombs[at] == to);
        } else if (r, c) != from && v.bombs.contains((r, c)) {
            let k = choose|k: int| 0 <= k < v.bombs.len() && v.bombs[k] == (r, c);
            assert(w.bombs[k] == (r, c));
        }
    }
}

} // verus!
