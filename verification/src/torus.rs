//! Addressing on a board whose edges are joined: which cells lie around a
//! cell.

use vstd::prelude::*;

verus! {

/// The index before `i` on a ring of `n` indices: the last index comes before
/// the first.
pub open spec fn before(i: int, n: int) -> int {
    if i > 0 {
        i - 1
    } else {
        n - 1
    }
}

/// The index after `i` on a ring of `n` indices: the first index comes after
/// the last.
pub open spec fn after(i: int, n: int) -> int {
    if i < n - 1 {
        i + 1
    } else {
        0
    }
}

/// The eight positions around `(row, col)` on a torus of `rows` by `cols`
/// cells, row by row from the one above and to the left to the one below and
/// to the right, the centre left out.
pub open spec fn torus_neighbors(rows: int, cols: int, row: int, col: int) -> Seq<(int, int)> {
    let above = before(row, rows);
    let below = after(row, rows);
    let left = before(col, cols);
    let right = after(col, cols);
    seq![
        (above, left),
        (above, col),
        (above, right),
        (row, left),
        (row, right),
        (below, left),
        (below, col),
        (below, right),
    ]
}

/// Machine coordinates as mathematical positions.
pub open spec fn positions(coords: Seq<(usize, usize)>) -> Seq<(int, int)> {
    coords.map_values(|at: (usize, usize)| (at.0 as int, at.1 as int))
}

/// The coordinates of the eight neighbours of `(row, col)` on a board of
/// `rows` by `cols` cells that wraps at every edge.
pub fn neighbor_coords(rows: usize, cols: usize, row: usize, col: usize) -> (coords: [(
    usize,
    usize,
); 8])
    requires
        row < rows,
        col < cols,
    ensures
        positions(coords@) == torus_neighbors(rows as int, cols as int, row as int, col as int),
        forall|k: int| 0 <= k < 8 ==> (#[trigger] coords[k]).0 < rows && coords[k].1 < cols,
{
    let left_col: usize = if col > 0 {
        col - 1
    } else {
        cols - 1
    };
    let right_col: usize = if col < cols - 1 {
        col + 1
    } else {
        0
    };
    let row_above: usize = if row > 0 {
        row - 1
    } else {
        rows - 1
    };
    let row_below: usize = if row < rows - 1 {
        row + 1
    } else {
        0
    };
    let coords = [
        (row_above, left_col),
        (row_above, col),
        (row_above, right_col),
        (row, left_col),
        (row, right_col),
        (row_below, left_col),
        (row_below, col),
        (row_below, right_col),
    ];
    assert(positions(coords@) =~= torus_neighbors(
        rows as int,
        cols as int,
        row as int,
        col as int,
    ));
    coords
}

/// On a ring, stepping back or forth is subtracting or adding one modulo the
/// ring's length.
pub proof fn lemma_ring_steps_are_modular(i: int, n: int)
    requires
        0 <= i < n,
    ensures
        before(i, n) == (i - 1) % n,
        after(i, n) == (i + 1) % n,
        0 <= before(i, n) < n,
        0 <= after(i, n) < n,
{
    if i > 0 {
        vstd::arithmetic::div_mod::lemma_small_mod((i - 1) as nat, n as nat);
    } else {
        assert((-1int) % n == n - 1) by (nonlinear_arith)
            requires
                n > 0,
        ;
    }
    if i < n - 1 {
        vstd::arithmetic::div_mod::lemma_small_mod((i + 1) as nat, n as nat);
    } else {
        assert(n % n == 0) by (nonlinear_arith)
            requires
                n > 0,
        ;
    }
}

/// The neighbours of a cell are the cells one step away in each of the eight
/// directions, every coordinate taken modulo the board's extent: a cell in
/// the last row has the first row below it, a cell in the first column has
/// the last column to its left, and no neighbour falls off the board.
pub proof fn lemma_neighbors_wrap_around(rows: int, cols: int, row: int, col: int)
    requires
        0 <= row < rows,
        0 <= col < cols,
    ensures
        torus_neighbors(rows, cols, row, col) == seq![
            ((row - 1) % rows, (col - 1) % cols),
            ((row - 1) % rows, col),
            ((row - 1) % rows, (col + 1) % cols),
            (row, (col - 1) % cols),
            (row, (col + 1) % cols),
            ((row + 1) % rows, (col - 1) % cols),
            ((row + 1) % rows, col),
            ((row + 1) % rows, (col + 1) % cols),
        ],
        forall|k: int|
            0 <= k < 8 ==> (0 <= (#[trigger] torus_neighbors(rows, cols, row, col)[k]).0 < rows
                && 0 <= torus_neighbors(rows, cols, row, col)[k].1 < cols),
{
    lemma_ring_steps_are_modular(row, rows);
    lemma_ring_steps_are_modular(col, cols);
}

} // verus!
