//! The two states of a cell.

use vstd::prelude::*;

verus! {

/// The state of one cell: every cell of a board is in exactly one of the two.
#[derive(Clone, Copy, Debug, PartialEq, Eq, Structural)]
pub enum Status {
    Dead,
    Alive,
}

} // verus!
