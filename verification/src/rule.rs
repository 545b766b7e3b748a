//! The rule that decides a cell's next state from its neighbours.

use crate::status::Status;
use vstd::prelude::*;

verus! {

/// The states that a sequence of borrowed cells points at, in the same order.
pub open spec fn states_of(cells: Seq<&Status>) -> Seq<Status> {
    cells.map_values(|cell: &Status| *cell)
}

/// The number of cells in `cells` that are alive.
pub open spec fn live_count(cells: Seq<Status>) -> nat {
    cells.filter(|status: Status| status == Status::Alive).len()
}

/// The state that a cell takes when `n` of its neighbours are alive.
///
/// Two or three live neighbours make the cell alive; any other count makes it
/// dead. The cell's own previous state plays no part: a dead cell with two
/// live neighbours comes alive just as a live one stays alive.
pub open spec fn rule(n: nat) -> Status {
    if n == 2 || n == 3 {
        Status::Alive
    } else {
        Status::Dead
    }
}

/// The next state of a cell, given the states of its eight neighbours.
pub fn alive_or_dead(surroundings: &[&Status; 8]) -> (status: Status)
    ensures
        status == rule(live_count(states_of(surroundings@))),
        status == Status::Alive <==> (live_count(states_of(surroundings@)) == 2
            || live_count(states_of(surroundings@)) == 3),
{
    let ghost cells = states_of(surroundings@);
    let mut sum: usize = 0;
    for i in 0..8
        invariant
            cells == states_of(surroundings@),
            sum == live_count(cells.take(i as int)),
            sum <= i,
    {
        proof {
            assert(cells.take(i + 1).drop_last() == cells.take(i as int));
            reveal(Seq::filter);
        }
        if *surroundings[i] == Status::Alive {
            sum = sum + 1;
        }
    }
    proof {
        assert(cells.take(8) == cells);
    }
    match sum {
        2 | 3 => Status::Alive,
        _ => Status::Dead,
    }
}

/// Live cells add up over a split: the count of a sequence is the count of
/// its front plus the count of its back.
pub proof fn lemma_live_count_splits(front: Seq<Status>, back: Seq<Status>)
    ensures
        live_count(front + back) == live_count(front) + live_count(back),
{
    Seq::filter_distributes_over_add(front, back, |status: Status| status == Status::Alive);
}

/// The rule answers for every count that eight neighbours can have: there
/// are between none and eight live ones among them, two or three give a live
/// cell, and each of the other counts gives a dead one.
pub proof fn lemma_rule_is_total(neighbors: Seq<Status>)
    requires
        neighbors.len() == 8,
    ensures
        0 <= live_count(neighbors) <= 8,
        rule(live_count(neighbors)) == Status::Alive <==> (live_count(neighbors) == 2
            || live_count(neighbors) == 3),
        rule(live_count(neighbors)) == Status::Dead <==> (live_count(neighbors) <= 1
            || 4 <= live_count(neighbors) <= 8),
{
    neighbors.lemma_filter_len(|status: Status| status == Status::Alive);
}

} // verus!
