//! What holds of every board and every generation.

use crate::state::next_generation;
use crate::torus::{
    alive_at, bit, index, lemma_coords_in_bounds, lemma_wrap_edges, lemma_wrapped_in_bounds,
    neighbor_count,
};
use vstd::prelude::*;

verus! {

/// A board on which every cell is dead stays dead: no cell has the three
/// live neighbours that a birth needs.
pub proof fn lemma_dead_board_stays_dead(w: int, h: int)
    requires
        w > 0,
        h > 0,
    ensures
        next_generation(Seq::new((w * h) as nat, |k: int| false), w, h) == Seq::new(
            (w * h) as nat,
            |k: int| false,
        ),
{
    let dead = Seq::new((w * h) as nat, |k: int| false);
    assert forall|x: int, y: int| !#[trigger] alive_at(dead, w, h, x, y) by {
        lemma_wrapped_in_bounds(w, h, x, y);
    }
    assert(next_generation(dead, w, h) =~= dead);
}

/// The fate of each cell in the next generation: a live cell with fewer
/// than two or more than three live neighbours dies, one with two or three
/// survives, and a dead cell comes alive exactly when it has three.
pub proof fn lemma_fate_of_cell(cells: Seq<bool>, w: int, h: int, k: int)
    requires
        w > 0,
        h > 0,
        cells.len() == w * h,
        0 <= k < cells.len(),
    ensures
        ({
            let c = neighbor_count(cells, w, h, k % w, k / w);
            let next = next_generation(cells, w, h)[k];
            &&& 0 <= c <= 8
            &&& cells[k] && (c < 2 || c > 3) ==> !next
            &&& cells[k] && (c == 2 || c == 3) ==> next
            &&& !cells[k] ==> (next <==> c == 3)
        }),
{
    lemma_coords_in_bounds(k, w, h);
}

/// The torus wraps at every edge: the cell at the origin counts as its
/// neighbours the last column, the last row and the far corner, and the far
/// corner counts the origin.
pub proof fn lemma_origin_wraps(cells: Seq<bool>, w: int, h: int)
    requires
        w >= 2,
        h >= 2,
        cells.len() == w * h,
    ensures
        alive_at(cells, w, h, -1, -1) == cells[index(w, w - 1, h - 1)],
        alive_at(cells, w, h, -1, 0) == cells[index(w, w - 1, 0)],
        alive_at(cells, w, h, 0, -1) == cells[index(w, 0, h - 1)],
        alive_at(cells, w, h, w, h) == cells[index(w, 0, 0)],
        neighbor_count(cells, w, h, 0, 0) == bit(cells[index(w, w - 1, h - 1)]) + bit(
            cells[index(w, 0, h - 1)],
        ) + bit(cells[index(w, 1, h - 1)]) + bit(cells[index(w, w - 1, 0)]) + bit(
            cells[index(w, 1, 0)],
        ) + bit(cells[index(w, w - 1, 1)]) + bit(cells[index(w, 0, 1)]) + bit(
            cells[index(w, 1, 1)],
        ),
{
    lemma_wrap_edges(w);
    lemma_wrap_edges(h);
}

} // verus!
