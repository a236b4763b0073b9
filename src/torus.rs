//! Wrap-around arithmetic for a toroidal grid.

use vstd::arithmetic::div_mod::{
    lemma_fundamental_div_mod, lemma_mod_multiples_vanish, lemma_small_mod,
};
use vstd::prelude::*;

verus! {

/// The coordinate `v` brought back into `0..dim`, the way a torus wraps.
pub open spec fn wrap(v: int, dim: int) -> int {
    v % dim
}

/// Position of (`x`, `y`) in a row-major board `w` cells wide.
pub open spec fn index(w: int, x: int, y: int) -> int {
    y * w + x
}

/// The cell at (`x`, `y`) of a `w` by `h` board, both coordinates wrapped.
pub open spec fn alive_at(cells: Seq<bool>, w: int, h: int, x: int, y: int) -> bool {
    cells[index(w, wrap(x, w), wrap(y, h))]
}

/// One for a live cell, zero for a dead one.
pub open spec fn bit(b: bool) -> int {
    if b {
        1
    } else {
        0
    }
}

/// Live cells among (`x`-1, `y`), (`x`, `y`) and (`x`+1, `y`), wrapped.
pub open spec fn row_sum(cells: Seq<bool>, w: int, h: int, x: int, y: int) -> int {
    bit(alive_at(cells, w, h, x - 1, y)) + bit(alive_at(cells, w, h, x, y)) + bit(
        alive_at(cells, w, h, x + 1, y),
    )
}

/// Live cells in the 3 by 3 block around (`x`, `y`), the centre left out.
pub open spec fn neighbor_count(cells: Seq<bool>, w: int, h: int, x: int, y: int) -> int {
    row_sum(cells, w, h, x, y - 1) + row_sum(cells, w, h, x, y) + row_sum(cells, w, h, x, y + 1)
        - bit(alive_at(cells, w, h, x, y))
}

/// A cell inside a `w` by `h` board lies inside its row-major sequence.
pub proof fn lemma_index_in_bounds(w: int, h: int, x: int, y: int)
    requires
        0 <= x < w,
        0 <= y < h,
    ensures
        0 <= index(w, x, y) < w * h,
{
    assert(0 <= y * w + x < w * h) by (nonlinear_arith)
        requires
            0 <= x < w,
            0 <= y < h,
    ;
}

/// A position in a row-major board of `w` columns and `h` rows splits into
/// a column and a row inside the board.
pub proof fn lemma_coords_in_bounds(k: int, w: int, h: int)
    requires
        0 <= k < w * h,
        w > 0,
    ensures
        0 <= k % w < w,
        0 <= k / w < h,
        index(w, k % w, k / w) == k,
{
    lemma_fundamental_div_mod(k, w);
    assert(0 <= k / w < h) by (nonlinear_arith)
        requires
            k == w * (k / w) + k % w,
            0 <= k % w < w,
            0 <= k < w * h,
            w > 0,
    ;
    assert(index(w, k % w, k / w) == k) by (nonlinear_arith)
        requires
            k == w * (k / w) + k % w,
    ;
}

/// The wrapped cell lies inside the board.
pub proof fn lemma_wrapped_in_bounds(w: int, h: int, x: int, y: int)
    requires
        w > 0,
        h > 0,
    ensures
        0 <= index(w, wrap(x, w), wrap(y, h)) < w * h,
{
    lemma_index_in_bounds(w, h, wrap(x, w), wrap(y, h));
}

/// Wrapping a negative coordinate counts back from the far edge.
proof fn lemma_wrap_negative(b: int, n: int)
    requires
        b > 0,
        n > 0,
    ensures
        wrap(-b, n) == if b % n == 0 { 0 } else { n - b % n },
{
    let q = b / n;
    let m = b % n;
    lemma_fundamental_div_mod(b, n);
    if m == 0 {
        assert(-b == n * (-q) + 0) by (nonlinear_arith)
            requires
                b == n * q + m,
                m == 0,
        ;
        lemma_mod_multiples_vanish(-q, 0, n);
        lemma_small_mod(0, n as nat);
    } else {
        assert(-b == n * (-q - 1) + (n - m)) by (nonlinear_arith)
            requires
                b == n * q + m,
        ;
        lemma_mod_multiples_vanish(-q - 1, n - m, n);
        lemma_small_mod((n - m) as nat, n as nat);
    }
}

/// Stepping off one edge lands on the opposite one: -1 wraps to the last
/// coordinate and `n` to the first, while 0, 1 and `n`-1 stay where they are.
pub proof fn lemma_wrap_edges(n: int)
    requires
        n >= 2,
    ensures
        wrap(-1, n) == n - 1,
        wrap(0, n) == 0,
        wrap(1, n) == 1,
        wrap(n - 1, n) == n - 1,
        wrap(n, n) == 0,
{
    lemma_small_mod(0, n as nat);
    lemma_small_mod(1, n as nat);
    lemma_small_mod((n - 1) as nat, n as nat);
    lemma_wrap_negative(1, n);
    lemma_mod_multiples_vanish(1, 0, n);
}

/// `a` modulo `max`, always in `0..max`, also for negative `a`.
pub fn mod_floor(a: i32, max: usize) -> (r: usize)
    requires
        0 < max <= i32::MAX,
    ensures
        r as int == wrap(a as int, max as int),
        r < max,
{
    let n = max as i32;
    let rem = a % n;
    proof {
        if a < 0 {
            lemma_wrap_negative(-(a as int), n as int);
        }
    }
    if rem < 0 {
        (rem + n) as usize
    } else {
        rem as usize
    }
}

} // verus!
