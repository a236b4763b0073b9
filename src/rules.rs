//! The transition rule of the Game of Life.

use vstd::prelude::*;

verus! {

/// Whether a cell lives in the next generation, given whether it lives now
/// and how many of its eight neighbours live.
pub open spec fn next_alive(alive: bool, count: int) -> bool {
    if alive {
        count == 2 || count == 3
    } else {
        count == 3
    }
}

/// A live cell survives with two or three live neighbours; a dead cell comes
/// alive with exactly three.
pub fn next_state(alive: bool, count: u8) -> (r: bool)
    ensures
        r == next_alive(alive, count as int),
{
    if alive {
        count == 2 || count == 3
    } else {
        count == 3
    }
}

/// Survival and birth: a live cell with fewer than two or more than three
/// live neighbours dies, one with two or three lives on, and a dead cell
/// comes alive exactly when it has three.
pub proof fn lemma_life_rule(count: int)
    ensures
        (count < 2 || count > 3) ==> !next_alive(true, count),
        (count == 2 || count == 3) ==> next_alive(true, count),
        next_alive(false, count) <==> count == 3,
{
}

} // verus!
