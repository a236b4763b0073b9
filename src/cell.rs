//! One square of the board, as the renderer sees it.

use vstd::prelude::*;

verus! {

/// A cell at grid position (`x`, `y`), with its neighbour count and its
/// state in this generation and the next.
#[derive(Clone, Copy)]
pub struct Cell {
    pub x: u32,
    pub y: u32,
    pub n: i32,
    pub alive: bool,
    pub alive_next: bool,
}

impl Cell {
    /// A dead cell at the origin with no neighbours counted.
    pub fn new() -> (r: Self)
        ensures
            r.x == 0,
            r.y == 0,
            r.n == 0,
            !r.alive,
            !r.alive_next,
    {
        Self { x: 0, y: 0, n: 0, alive: false, alive_next: false }
    }
}

} // verus!
