//! Why the recursive flood fill reveals exactly the cells that
//! `GameView::flood` names.
//!
//! The fill is a depth-first search. While it runs, the board satisfies
//! `fill_invariant`; when it returns, the board satisfies `fill_complete`,
//! which holds of one board only: the flood of the board it started from.

use crate::lemmas::{lemma_cell_index, lemma_index_cell};
use crate::view::{adjacent, cell_index, in_bounds, neighbor, GameView, NUM_COLS, NUM_ROWS};
use vstd::prelude::*;

verus! {

/// Cell `p` is revealed.
pub open spec fn revealed(v: GameView, p: (int, int)) -> bool {
    v.cell(p.0, p.1).is_revealed
}

/// `p` was revealed on the way from `old` to `new`.
pub open spec fn newly(old: GameView, new: GameView, p: (int, int)) -> bool {
    !revealed(old, p) && revealed(new, p)
}

/// Every neighbour of `p` on the board is revealed.
pub open spec fn surrounded(v: GameView, p: (int, int)) -> bool {
    forall|q: (int, int)| adjacent(p, q) && in_bounds(q.0, q.1) ==> #[trigger] revealed(v, q)
}

/// The two boards hold bombs on the same cells.
pub open spec fn same_bombs(a: GameView, b: GameView) -> bool {
    forall|r: int, c: int|
        in_bounds(r, c) ==> (#[trigger] a.cell(r, c)).has_bomb == b.cell(r, c).has_bomb
}

/// What holds of cell `p` while a fill from `start` turns `old` into `new`:
/// the cell is untouched or shows its count; a cell that was revealed
/// before is untouched unless it is `start`; a cell revealed by the fill is
/// one the fill reaches, and if it has no bomb around it and is not `start`,
/// the fill is done with it: its neighbours are revealed.
pub open spec fn cell_filled(
    old: GameView,
    new: GameView,
    start: (int, int),
    p: (int, int),
) -> bool {
    &&& new.cell(p.0, p.1) == old.cell(p.0, p.1) || new.cell(p.0, p.1) == old.shown(p.0, p.1)
    &&& revealed(old, p) && p != start ==> new.cell(p.0, p.1) == old.cell(p.0, p.1)
    &&& newly(old, new, p) ==> old.fill_reaches(start, p)
    &&& newly(old, new, p) && p != start && old.adjacent_bombs(p.0, p.1) == 0 ==> surrounded(
        new,
        p,
    )
}

/// What holds while a fill from `start` turns `old` into `new`: nothing but
/// the board has changed, `start` shows its count, and every cell is as
/// `cell_filled` says.
pub open spec fn fill_invariant(old: GameView, new: GameView, start: (int, int)) -> bool {
    &&& new.bombs == old.bombs
    &&& new.state == old.state
    &&& new.turns == old.turns
    &&& new.board.len() == old.board.len()
    &&& new.cell(start.0, start.1) == old.shown(start.0, start.1)
    &&& forall|r: int, c: int| in_bounds(r, c) ==> #[trigger] cell_filled(old, new, start, (r, c))
}

/// What holds when the fill from `start` has returned: the invariant, and
/// the fill is done with `start` too.
pub open spec fn fill_complete(old: GameView, new: GameView, start: (int, int)) -> bool {
    &&& fill_invariant(old, new, start)
    &&& old.adjacent_bombs(start.0, start.1) == 0 ==> surrounded(new, start)
}

/// Boards with the same bombs give every cell the same count.
pub proof fn lemma_same_counts(a: GameView, b: GameView, r: int, c: int)
    requires
        same_bombs(a, b),
    ensures
        a.adjacent_bombs(r, c) == b.adjacent_bombs(r, c),
        in_bounds(r, c) ==> a.shown(r, c) == b.shown(r, c),
{
}

/// A fill neither moves a bomb nor hides a cell.
pub proof fn lemma_fill_grows(old: GameView, new: GameView, start: (int, int))
    requires
        fill_invariant(old, new, start),
    ensures
        same_bombs(old, new),
        forall|p: (int, int)|
            in_bounds(p.0, p.1) && revealed(old, p) ==> #[trigger] revealed(new, p),
{
    assert forall|r: int, c: int| in_bounds(r, c) implies (#[trigger] old.cell(r, c)).has_bomb
        == new.cell(r, c).has_bomb by {
        assert(cell_filled(old, new, start, (r, c)));
    }
    assert forall|p: (int, int)| in_bounds(p.0, p.1) && revealed(old, p) implies #[trigger]
        revealed(new, p) by {
        assert(cell_filled(old, new, start, (p.0, p.1)));
    }
}

/// The start of a fill is reached by the fill.
pub proof fn lemma_reaches_start(v: GameView, start: (int, int))
    requires
        in_bounds(start.0, start.1),
    ensures
        v.fill_reaches(start, start),
{
    let path = seq![start];
    assert(v.fill_path(start, path));
}

/// A fill path that ends on a cell with no bomb around it goes on to any
/// neighbour that is not revealed.
pub proof fn lemma_path_push(v: GameView, start: (int, int), path: Seq<(int, int)>, q: (int, int))
    requires
        v.fill_path(start, path),
        v.adjacent_bombs(path.last().0, path.last().1) == 0,
        adjacent(path.last(), q),
        in_bounds(q.0, q.1),
        !revealed(v, q),
    ensures
        v.fill_path(start, path.push(q)),
        v.fill_reaches(start, q),
{
    let longer = path.push(q);
    assert forall|i: int| 0 <= i < longer.len() - 1 implies #[trigger] v.fill_step(longer, i) by {
        if i < path.len() - 1 {
            assert(v.fill_step(path, i));
        }
    }
    assert(v.fill_path(start, longer));
}

/// A fill path of a later board that starts on a neighbour of `start` is,
/// with `start` put in front, a fill path of the earlier board.
pub proof fn lemma_path_prepend(
    old: GameView,
    cur: GameView,
    start: (int, int),
    n: (int, int),
    path: Seq<(int, int)>,
)
    requires
        fill_invariant(old, cur, start),
        in_bounds(start.0, start.1),
        old.adjacent_bombs(start.0, start.1) == 0,
        adjacent(start, n),
        !revealed(cur, n),
        cur.fill_path(n, path),
    ensures
        old.fill_path(start, seq![start] + path),
        old.fill_reaches(start, path.last()),
{
    lemma_fill_grows(old, cur, start);
    let longer = seq![start] + path;
    assert forall|i: int| 0 < i < longer.len() implies !old.cell(
        (#[trigger] longer[i]).0,
        longer[i].1,
    ).is_revealed by {
        assert(!revealed(cur, path[i - 1]));
    }
    assert forall|i: int| 0 <= i < longer.len() - 1 implies #[trigger] old.fill_step(longer, i) by {
        if i > 0 {
            assert(cur.fill_step(path, i - 1));
            lemma_same_counts(old, cur, path[i - 1].0, path[i - 1].1);
        }
    }
    assert(old.fill_path(start, longer));
}

/// The first step of a fill: `start` shows its count.
pub proof fn lemma_fill_start(old: GameView, start: (int, int))
    requires
        old.wf(),
        in_bounds(start.0, start.1),
    ensures
        fill_invariant(
            old,
            old.with_cell(start.0, start.1, old.shown(start.0, start.1)),
            start,
        ),
{
    let new = old.with_cell(start.0, start.1, old.shown(start.0, start.1));
    lemma_cell_index(start.0, start.1);
    lemma_reaches_start(old, start);
    assert forall|r: int, c: int| in_bounds(r, c) implies #[trigger] cell_filled(
        old,
        new,
        start,
        (r, c),
    ) by {
        lemma_cell_index(r, c);
    }
}

/// One recursive call of the fill, on a neighbour `n` of `start` that was
/// not revealed, keeps the invariant of the fill from `start`.
pub proof fn lemma_fill_extend(
    old: GameView,
    cur: GameView,
    new: GameView,
    start: (int, int),
    n: (int, int),
)
    requires
        fill_invariant(old, cur, start),
        in_bounds(start.0, start.1),
        old.adjacent_bombs(start.0, start.1) == 0,
        adjacent(start, n),
        in_bounds(n.0, n.1),
        !revealed(cur, n),
        fill_complete(cur, new, n),
    ensures
        fill_invariant(old, new, start),
        revealed(new, n),
        forall|p: (int, int)|
            in_bounds(p.0, p.1) && revealed(cur, p) ==> #[trigger] revealed(new, p),
{
    lemma_fill_grows(old, cur, start);
    lemma_fill_grows(cur, new, n);
    assert(cell_filled(cur, new, n, (start.0, start.1)));
    assert forall|r: int, c: int| in_bounds(r, c) implies #[trigger] cell_filled(
        old,
        new,
        start,
        (r, c),
    ) by {
        let p = (r, c);
        assert(cell_filled(old, cur, start, p));
        assert(cell_filled(cur, new, n, p));
        lemma_same_counts(old, cur, r, c);
        if newly(old, new, p) {
            if revealed(cur, p) {
                // the fill had revealed `p` before this call: what was
                // revealed around it still is
                if p != start && old.adjacent_bombs(r, c) == 0 {
                    assert(surrounded(new, p));
                }
            } else {
                // this call revealed `p`, on a path from `n`
                let path = choose|path: Seq<(int, int)>| #[trigger]
                    cur.fill_path(n, path) && path.last() == p;
                lemma_path_prepend(old, cur, start, n, path);
            }
        }
    }
}

/// The flood of a board, cell by cell.
pub proof fn lemma_flood_cell(v: GameView, start: (int, int), r: int, c: int)
    requires
        v.board.len() == NUM_ROWS * NUM_COLS,
        in_bounds(r, c),
    ensures
        v.flood(start.0, start.1).cell(r, c) == if v.fill_reaches(start, (r, c)) {
            v.shown(r, c)
        } else {
            v.cell(r, c)
        },
{
    lemma_cell_index(r, c);
}

/// A revealed cell other than the start is out of the fill's reach.
pub proof fn lemma_revealed_unreached(v: GameView, start: (int, int), p: (int, int))
    requires
        revealed(v, p),
        p != start,
    ensures
        !v.fill_reaches(start, p),
{
    if v.fill_reaches(start, p) {
        // a path to `p` enters it, and the fill enters hidden cells only
        let path = choose|path: Seq<(int, int)>| #[trigger]
            v.fill_path(start, path) && path.last() == p;
        assert(path.len() > 1);
    }
}

/// The flood of a board is a complete fill of it.
pub proof fn lemma_flood_is_complete(v: GameView, start: (int, int))
    requires
        v.board.len() == NUM_ROWS * NUM_COLS,
        in_bounds(start.0, start.1),
    ensures
        fill_complete(v, v.flood(start.0, start.1), start),
{
    let new = v.flood(start.0, start.1);
    lemma_reaches_start(v, start);
    lemma_flood_cell(v, start, start.0, start.1);
    assert forall|p: (int, int)|
        in_bounds(p.0, p.1) && v.fill_reaches(start, p) && v.adjacent_bombs(p.0, p.1)
            == 0 implies surrounded(new, p) by {
        assert forall|q: (int, int)| adjacent(p, q) && in_bounds(q.0, q.1) implies #[trigger]
            revealed(new, q) by {
            lemma_flood_cell(v, start, q.0, q.1);
            if !revealed(v, q) {
                let path = choose|path: Seq<(int, int)>| #[trigger]
                    v.fill_path(start, path) && path.last() == p;
                lemma_path_push(v, start, path, q);
            }
        }
    }
    assert forall|r: int, c: int| in_bounds(r, c) implies #[trigger] cell_filled(
        v,
        new,
        start,
        (r, c),
    ) by {
        let p = (r, c);
        lemma_flood_cell(v, start, r, c);
        if revealed(v, p) && p != start {
            lemma_revealed_unreached(v, start, p);
        }
    }
}

/// A complete fill reveals every cell at the end of a fill path.
pub proof fn lemma_complete_reaches(
    old: GameView,
    new: GameView,
    start: (int, int),
    path: Seq<(int, int)>,
)
    requires
        fill_complete(old, new, start),
        old.fill_path(start, path),
    ensures
        new.cell(path.last().0, path.last().1) == old.shown(path.last().0, path.last().1),
        path.last() == start || newly(old, new, path.last()),
    decreases path.len(),
{
    if path.len() > 1 {
        let shorter = path.drop_last();
        let q = shorter.last();
        let p = path.last();
        assert forall|i: int| 0 <= i < shorter.len() - 1 implies #[trigger] old.fill_step(
            shorter,
            i,
        ) by {
            assert(old.fill_step(path, i));
        }
        lemma_complete_reaches(old, new, start, shorter);
        assert(old.fill_step(path, path.len() - 2));
        assert(cell_filled(old, new, start, (q.0, q.1)));
        assert(revealed(new, p));
        assert(cell_filled(old, new, start, (p.0, p.1)));
    }
}

/// A complete fill of a board is its flood.
pub proof fn lemma_complete_is_flood(old: GameView, new: GameView, start: (int, int))
    requires
        old.board.len() == NUM_ROWS * NUM_COLS,
        in_bounds(start.0, start.1),
        fill_complete(old, new, start),
    ensures
        new == old.flood(start.0, start.1),
{
    let flood = old.flood(start.0, start.1);
    assert forall|i: int| 0 <= i < new.board.len() implies new.board[i] == flood.board[i] by {
        lemma_index_cell(i);
        let p = (i / NUM_COLS as int, i % NUM_COLS as int);
        assert(cell_filled(old, new, start, (p.0, p.1)));
        if old.fill_reaches(start, p) {
            let path = choose|path: Seq<(int, int)>| #[trigger]
                old.fill_path(start, path) && path.last() == p;
            lemma_complete_reaches(old, new, start, path);
        } else {
            lemma_reaches_start(old, start);
        }
    }
    assert(new.board =~= flood.board);
}

/// A fill keeps the game well-formed.
pub proof fn lemma_fill_wf(old: GameView, new: GameView, start: (int, int))
    requires
        old.wf(),
        fill_invariant(old, new, start),
    ensures
        new.wf(),
{
    assert forall|i: int| 0 <= i < new.board.len() implies (#[trigger] new.board[i]).wf() by {
        lemma_index_cell(i);
        let (r, c) = (i / NUM_COLS as int, i % NUM_COLS as int);
        assert(cell_filled(old, new, start, (r, c)));
    }
    assert forall|r: int, c: int| in_bounds(r, c) implies ((#[trigger] new.cell(r, c)).has_bomb
        <==> new.bombs.contains((r, c))) by {
        assert(cell_filled(old, new, start, (r, c)));
    }
}

/// The neighbours of a cell are the eight that `neighbor` lists.
pub proof fn lemma_neighbors(p: (int, int), q: (int, int))
    ensures
        adjacent(p, q) <==> exists|k: int| 0 <= k < 8 && #[trigger] neighbor(p.0, p.1, k) == q,
{
    if adjacent(p, q) {
        let d = (q.0 - p.0, q.1 - p.1);
        let k: int = if d == (1int, 0int) {
            0
        } else if d == (-1int, 0int) {
            1
        } else if d == (0int, 1int) {
            2
        } else if d == (0int, -1int) {
            3
        } else if d == (-1int, -1int) {
            4
        } else if d == (1int, -1int) {
            5
        } else if d == (-1int, 1int) {
            6
        } else {
            7
        };
        assert(neighbor(p.0, p.1, k) == q);
    }
}

/// Revealing cells never raises the number of hidden cells, and lowers it
/// when cell `i` goes from hidden to revealed.
pub proof fn lemma_hidden_before(a: GameView, b: GameView, n: int, i: int)
    requires
        a.board.len() == b.board.len(),
        0 <= n <= a.board.len(),
        forall|j: int| 0 <= j < a.board.len() && a.board[j].is_revealed ==> b.board[j].is_revealed,
    ensures
        0 <= b.hidden_before(n) <= a.hidden_before(n) <= n,
        0 <= i < n && !a.board[i].is_revealed && b.board[i].is_revealed ==> b.hidden_before(n)
            < a.hidden_before(n),
    decreases n,
{
    if n > 0 {
        lemma_hidden_before(a, b, n - 1, i);
    }
}

/// A fill never raises the number of hidden cells, and lowers it when it
/// reveals `p`.
pub proof fn lemma_hidden_cells(a: GameView, b: GameView, p: (int, int))
    requires
        a.board.len() == NUM_ROWS * NUM_COLS,
        b.board.len() == a.board.len(),
        forall|q: (int, int)| in_bounds(q.0, q.1) && revealed(a, q) ==> #[trigger] revealed(b, q),
    ensures
        0 <= b.hidden_cells() <= a.hidden_cells(),
        in_bounds(p.0, p.1) && newly(a, b, p) ==> b.hidden_cells() < a.hidden_cells(),
{
    assert forall|j: int|
        0 <= j < a.board.len() && a.board[j].is_revealed implies b.board[j].is_revealed by {
        lemma_index_cell(j);
        let q = (j / NUM_COLS as int, j % NUM_COLS as int);
        assert(revealed(b, q));
    }
    if in_bounds(p.0, p.1) {
        lemma_cell_index(p.0, p.1);
    }
    lemma_hidden_before(a, b, a.board.len() as int, cell_index(p.0, p.1));
}

} // verus!
