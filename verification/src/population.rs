//! Which cells of a board are alive.

use crate::board::Board;
use crate::status::Status;
use vstd::prelude::*;

verus! {

/// Reading order on coordinates: `a` comes before `b` if it lies in an
/// earlier row, or in the same row and an earlier column.
pub open spec fn reads_before(a: (usize, usize), b: (usize, usize)) -> bool {
    a.0 < b.0 || (a.0 == b.0 && a.1 < b.1)
}

/// The coordinates of the live cells of `board`, each once, in reading order.
/// They are what a renderer has to paint.
pub fn live_cells<const R: usize, const C: usize>(board: &Board<R, C>) -> (cells: Vec<
    (usize, usize),
>)
    ensures
        forall|k: int|
            0 <= k < cells.len() ==> (#[trigger] cells[k]).0 < R && cells[k].1 < C
                && board[cells[k].0 as int][cells[k].1 as int] == Status::Alive,
        forall|r: int, c: int|
            0 <= r < R && 0 <= c < C && #[trigger] board[r][c] == Status::Alive
                ==> cells@.contains((r as usize, c as usize)),
        forall|j: int, k: int|
            0 <= j < k < cells.len() ==> reads_before(#[trigger] cells[j], #[trigger] cells[k]),
{
    let mut cells: Vec<(usize, usize)> = Vec::new();
    for row in 0..R
        invariant
            forall|k: int|
                0 <= k < cells.len() ==> (#[trigger] cells[k]).0 < row && cells[k].1 < C
                    && board[cells[k].0 as int][cells[k].1 as int] == Status::Alive,
            forall|r: int, c: int|
                0 <= r < row && 0 <= c < C && #[trigger] board[r][c] == Status::Alive
                    ==> cells@.contains((r as usize, c as usize)),
            forall|j: int, k: int|
                0 <= j < k < cells.len() ==> reads_before(
                    #[trigger] cells[j],
                    #[trigger] cells[k],
                ),
    {
        for col in 0..C
            invariant
                row < R,
                forall|k: int|
                    0 <= k < cells.len() ==> reads_before(#[trigger] cells[k], (row, col))
                        && cells[k].1 < C && board[cells[k].0 as int][cells[k].1 as int]
                        == Status::Alive,
                forall|r: int, c: int|
                    0 <= r < R && 0 <= c < C && reads_before((r as usize, c as usize), (row, col))
                        && #[trigger] board[r][c] == Status::Alive ==> cells@.contains(
                        (r as usize, c as usize),
                    ),
                forall|j: int, k: int|
                    0 <= j < k < cells.len() ==> reads_before(
                        #[trigger] cells[j],
                        #[trigger] cells[k],
                    ),
        {
            if board[row][col] == Status::Alive {
                let ghost found = cells@;
                cells.push((row, col));
                assert forall|r: int, c: int|
                    0 <= r < R && 0 <= c < C && reads_before(
                        (r as usize, c as usize),
                        (row, (col + 1) as usize),
                    ) && #[trigger] board[r][c] == Status::Alive implies cells@.contains(
                    (r as usize, c as usize),
                ) by {
                    if r == row && c == col {
                        assert(cells@[found.len() as int] == (row, col));
                    } else {
                        let k = found.index_of((r as usize, c as usize));
                        assert(cells@[k] == (r as usize, c as usize));
                    }
                }
            }
        }
    }
    cells
}

} // verus!
