//! Random boards to start from.

use crate::board::Board;
use crate::status::Status;
use rand::rngs::ThreadRng;
use rand::Rng;
use vstd::prelude::*;

verus! {

/// `rand::rngs::ThreadRng`, the handle to the random number generator of the
/// current thread. Nothing is known of what is inside.
#[verifier::external_type_specification]
#[verifier::external_body]
pub struct ExThreadRng(ThreadRng);

/// `rand::thread_rng`: hands out the generator of the current thread.
/// Nothing is claimed of the handle. The generator is seeded from the
/// operating system on first use in a thread, and the call panics if the
/// system supplies no seed.
pub assume_specification[ rand::thread_rng ]() -> (rng: ThreadRng);

/// `rand::Rng::gen_range` on the generator of the current thread, for `u8`
/// bounds: the number drawn is at least `low` and less than `high`. Which
/// number it is differs from call to call. The call panics unless
/// `low < high`.
#[verifier::external_body]
fn gen_range(rng: &mut ThreadRng, low: u8, high: u8) -> (number: u8)
    requires
        low < high,
    ensures
        low <= number < high,
{
    rng.gen_range(low, high)
}

/// The state that a drawn number stands for: a one is a live cell, any other
/// number a dead one.
pub open spec fn status_of_draw(number: u8) -> Status {
    if number == 1 {
        Status::Alive
    } else {
        Status::Dead
    }
}

/// Whether `status` can come out of a draw below `ratio`.
pub open spec fn may_draw(ratio: u8, status: Status) -> bool {
    exists|number: u8| number < ratio && #[trigger] status_of_draw(number) == status
}

/// The state that a drawn number stands for.
pub fn status_from_draw(number: u8) -> (status: Status)
    ensures
        status == status_of_draw(number),
{
    match number {
        1 => Status::Alive,
        _ => Status::Dead,
    }
}

/// A random state: alive for one draw in `ratio`, dead for the others.
///
/// The draw is made anew at each call, so all that holds of every outcome is
/// that some number below `ratio` stands for it.
pub fn random_status(ratio: u8) -> (status: Status)
    requires
        ratio > 0,
    ensures
        may_draw(ratio, status),
{
    let mut rng = rand::thread_rng();
    let number: u8 = gen_range(&mut rng, 0, ratio);
    status_from_draw(number)
}

/// A board on which every cell holds a random state of its own.
pub fn random_board<const R: usize, const C: usize>(ratio: u8) -> (board: Board<R, C>)
    requires
        ratio > 0,
    ensures
        forall|r: int, c: int| 0 <= r < R && 0 <= c < C ==> may_draw(ratio, #[trigger] board[r][c]),
{
    let mut board: Board<R, C> = [[Status::Dead; C]; R];
    for row in 0..R
        invariant
            ratio > 0,
            forall|r: int, c: int|
                0 <= r < row && 0 <= c < C ==> may_draw(ratio, #[trigger] board[r][c]),
    {
        for col in 0..C
            invariant
                ratio > 0,
                row < R,
                forall|r: int, c: int|
                    0 <= r < row && 0 <= c < C ==> may_draw(ratio, #[trigger] board[r][c]),
                forall|c: int| 0 <= c < col ==> may_draw(ratio, #[trigger] board[row as int][c]),
        {
            board[row][col] = random_status(ratio);
        }
    }
    board
}

/// What a draw below `ratio` can give: a dead cell whenever there is a number
/// to draw, a live one only if the one is among the numbers.
pub proof fn lemma_may_draw(ratio: u8)
    ensures
        may_draw(ratio, Status::Dead) <==> ratio >= 1,
        may_draw(ratio, Status::Alive) <==> ratio >= 2,
{
    if ratio >= 1 {
        assert(status_of_draw(0) == Status::Dead);
    }
    if ratio >= 2 {
        assert(status_of_draw(1) == Status::Alive);
    }
}

} // verus!
