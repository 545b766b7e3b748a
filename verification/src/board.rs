//! The board, and the step from one generation to the next.

use crate::rule::{alive_or_dead, lemma_live_count_splits, live_count, rule, states_of};
use crate::status::Status;
use crate::torus::{after, before, neighbor_coords, torus_neighbors};
use vstd::prelude::*;

verus! {

/// A board of `R` rows by `C` columns. Its shape is part of its type, so a
/// board never changes size and every coordinate within `R` by `C` holds
/// exactly one state.
pub type Board<const R: usize, const C: usize> = [[Status; C]; R];

/// A board as a mathematical grid: the sequence of its rows, each the
/// sequence of the states in it.
pub open spec fn grid<const R: usize, const C: usize>(board: &Board<R, C>) -> Seq<Seq<Status>> {
    Seq::new(R as nat, |r: int| board[r]@)
}

/// A grid with `rows` rows of `cols` cells each.
pub open spec fn is_grid(g: Seq<Seq<Status>>, rows: nat, cols: nat) -> bool {
    &&& g.len() == rows
    &&& forall|r: int| 0 <= r < rows ==> (#[trigger] g[r]).len() == cols
}

/// The states of the eight cells around `(row, col)` in `g`, in the order of
/// `torus_neighbors`.
pub open spec fn neighborhood(g: Seq<Seq<Status>>, row: int, col: int) -> Seq<Status> {
    torus_neighbors(g.len() as int, g[row].len() as int, row, col).map_values(
        |at: (int, int)| g[at.0][at.1],
    )
}

/// The state of the cell at `(row, col)` one step after `g`.
pub open spec fn next_status(g: Seq<Seq<Status>>, row: int, col: int) -> Status {
    rule(live_count(neighborhood(g, row, col)))
}

/// The grid one step after `g`: every cell takes the state that the rule
/// gives it for its neighbours in `g`.
pub open spec fn next(g: Seq<Seq<Status>>) -> Seq<Seq<Status>> {
    Seq::new(g.len(), |r: int| Seq::new(g[r].len(), |c: int| next_status(g, r, c)))
}

/// A grid that a step leaves as it is.
pub open spec fn is_still_life(g: Seq<Seq<Status>>) -> bool {
    next(g) == g
}

/// The eight cells around `(row, col)`, borrowed from the board: the three
/// above from left to right, the one to the left, the one to the right, the
/// three below from left to right.
pub fn neighbors_of<'a, const R: usize, const C: usize>(
    board: &'a Board<R, C>,
    row: usize,
    col: usize,
) -> (neighbors: [&'a Status; 8])
    requires
        row < R,
        col < C,
    ensures
        states_of(neighbors@) == neighborhood(grid(board), row as int, col as int),
{
    let at = neighbor_coords(R, C, row, col);
    let neighbors = [
        &board[at[0].0][at[0].1],
        &board[at[1].0][at[1].1],
        &board[at[2].0][at[2].1],
        &board[at[3].0][at[3].1],
        &board[at[4].0][at[4].1],
        &board[at[5].0][at[5].1],
        &board[at[6].0][at[6].1],
        &board[at[7].0][at[7].1],
    ];
    assert(states_of(neighbors@) =~= neighborhood(grid(board), row as int, col as int));
    neighbors
}

/// The state that the cell at `(row, col)` takes in the next step.
pub fn update_status<const R: usize, const C: usize>(
    board: &Board<R, C>,
    row: usize,
    col: usize,
) -> (status: Status)
    requires
        row < R,
        col < C,
    ensures
        status == next_status(grid(board), row as int, col as int),
{
    alive_or_dead(&neighbors_of(board, row, col))
}

/// The board one step later. Every cell is computed from `board` alone, which
/// is left as it was, so the cells change together and the order in which
/// they are visited does not show in the outcome.
pub fn update_board<const R: usize, const C: usize>(board: &Board<R, C>) -> (new_board: Board<
    R,
    C,
>)
    ensures
        grid(&new_board) == next(grid(board)),
        is_grid(grid(&new_board), R as nat, C as nat),
        forall|r: int, c: int|
            0 <= r < R && 0 <= c < C ==> #[trigger] new_board[r][c] == next_status(
                grid(board),
                r,
                c,
            ),
{
    let mut new_board: Board<R, C> = [[Status::Dead; C]; R];
    for row in 0..R
        invariant
            forall|r: int, c: int|
                0 <= r < row && 0 <= c < C ==> #[trigger] new_board[r][c] == next_status(
                    grid(board),
                    r,
                    c,
                ),
    {
        for col in 0..C
            invariant
                row < R,
                forall|r: int, c: int|
                    0 <= r < row && 0 <= c < C ==> #[trigger] new_board[r][c] == next_status(
                        grid(board),
                        r,
                        c,
                    ),
                forall|c: int|
                    0 <= c < col ==> #[trigger] new_board[row as int][c] == next_status(
                        grid(board),
                        row as int,
                        c,
                    ),
        {
            new_board[row][col] = update_status(board, row, col);
        }
    }
    assert(grid(&new_board) =~~= next(grid(board)));
    new_board
}

/// A board is no more than its cells: two boards with the same grid are the
/// same board. So a contract that fixes the grid of a board fixes the board.
pub proof fn lemma_grid_is_the_board<const R: usize, const C: usize>(
    a: &Board<R, C>,
    b: &Board<R, C>,
)
    requires
        grid(a) == grid(b),
    ensures
        *a == *b,
{
    assert forall|r: int| 0 <= r < R implies a[r] == b[r] by {
        assert(grid(a)[r] == grid(b)[r]);
    }
    assert(*a =~= *b);
}

/// The grid of a board has the board's shape.
pub proof fn lemma_grid_has_the_shape<const R: usize, const C: usize>(board: &Board<R, C>)
    ensures
        is_grid(grid(board), R as nat, C as nat),
{
}

/// Wraparound reaches the count. The three cells below a cell of the last
/// row are the cells of the first row in its own column and in the columns
/// beside it, and each of them that is alive is among the cell's live
/// neighbours.
pub proof fn lemma_last_row_sees_first_row(g: Seq<Seq<Status>>, rows: nat, cols: nat, col: int)
    requires
        is_grid(g, rows, cols),
        rows >= 1,
        0 <= col < cols,
    ensures
        neighborhood(g, rows - 1, col).len() == 8,
        neighborhood(g, rows - 1, col)[5] == g[0][before(col, cols as int)],
        neighborhood(g, rows - 1, col)[6] == g[0][col],
        neighborhood(g, rows - 1, col)[7] == g[0][after(col, cols as int)],
        live_count(neighborhood(g, rows - 1, col)) >= live_count(
            seq![g[0][before(col, cols as int)], g[0][col], g[0][after(col, cols as int)]],
        ),
{
    let around = neighborhood(g, rows - 1, col);
    assert(around =~= around.subrange(0, 5) + around.subrange(5, 8));
    assert(around.subrange(5, 8) == seq![around[5], around[6], around[7]]);
    lemma_live_count_splits(around.subrange(0, 5), around.subrange(5, 8));
}

/// A step keeps the shape of the grid: as many rows, and as many cells in
/// each.
pub proof fn lemma_next_keeps_shape(g: Seq<Seq<Status>>)
    ensures
        next(g).len() == g.len(),
        forall|r: int| 0 <= r < g.len() ==> (#[trigger] next(g)[r]).len() == g[r].len(),
        forall|rows: nat, cols: nat| is_grid(g, rows, cols) ==> is_grid(next(g), rows, cols),
{
}

/// The cells of a step may be computed in any order: a grid of the shape of
/// `g` in which every cell holds what the rule gives it for its neighbours in
/// `g` is the grid one step after `g`, however it was filled.
pub proof fn lemma_next_is_order_independent(g: Seq<Seq<Status>>, h: Seq<Seq<Status>>)
    requires
        h.len() == g.len(),
        forall|r: int| 0 <= r < g.len() ==> (#[trigger] h[r]).len() == g[r].len(),
        forall|r: int, c: int|
            0 <= r < g.len() && 0 <= c < g[r].len() ==> #[trigger] h[r][c] == next_status(g, r, c),
    ensures
        h == next(g),
{
    assert(h =~~= next(g));
}

/// A still life stays: stepping it twice gives the same grid both times, the
/// one that was there to begin with.
pub proof fn lemma_still_life_stays(g: Seq<Seq<Status>>)
    requires
        is_still_life(g),
    ensures
        next(next(g)) == next(g),
        next(next(g)) == g,
{
}

} // verus!
