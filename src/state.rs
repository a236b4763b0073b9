//! The board: two buffers of cells, the current generation and the next,
//! and the pause flag that gates the simulation.

use crate::rules::{next_alive, next_state};
use crate::torus::{
    alive_at, index, lemma_coords_in_bounds, lemma_index_in_bounds, mod_floor, neighbor_count,
    row_sum,
};
use vstd::prelude::*;

verus! {

/// Whether a board `w` cells wide and `h` cells high can be held: both sides
/// positive and small enough for wrapped coordinates to fit in an `i32`.
pub open spec fn valid_dims(w: int, h: int) -> bool {
    &&& 0 < w <= i32::MAX
    &&& 0 < h <= i32::MAX
    &&& w * h <= usize::MAX
}

/// The generation that follows `cells` on a `w` by `h` torus.
pub open spec fn next_generation(cells: Seq<bool>, w: int, h: int) -> Seq<bool> {
    Seq::new(
        cells.len(),
        |k: int| next_alive(cells[k], neighbor_count(cells, w, h, k % w, k / w)),
    )
}

/// What a board holds: its size, both buffers in row-major order, and
/// whether it is paused.
pub struct LifeView {
    pub width: nat,
    pub height: nat,
    pub cells: Seq<bool>,
    pub next: Seq<bool>,
    pub paused: bool,
}

/// A key press that the board reacts to.
#[derive(Clone, Copy, PartialEq, Eq, Structural, Debug)]
pub enum Key {
    /// Pauses a running board, or resumes a paused one.
    Pause,
    /// Gives every cell a fresh random state.
    Randomize,
    /// Asks for the program to end.
    Quit,
    /// Any other key: nothing happens.
    Other,
}

/// A toroidal Game of Life board.
pub struct State {
    width: usize,
    height: usize,
    board: Vec<bool>,
    board_next: Vec<bool>,
    paused: bool,
}

impl View for State {
    type V = LifeView;

    closed spec fn view(&self) -> LifeView {
        LifeView {
            width: self.width as nat,
            height: self.height as nat,
            cells: self.board@,
            next: self.board_next@,
            paused: self.paused,
        }
    }
}

/// Relies on rand::random::<bool>: a fresh value from the thread's generator;
/// nothing is known of which one.
#[verifier::external_body]
fn random_bool() -> (r: bool) {
    rand::random::<bool>()
}

/// `n` cells, each alive or dead at random.
fn random_cells(n: usize) -> (r: Vec<bool>)
    ensures
        r@.len() == n,
{
    let mut v: Vec<bool> = Vec::new();
    let mut k: usize = 0;
    while k < n
        invariant
            k <= n,
            v@.len() == k,
        decreases n - k,
    {
        v.push(random_bool());
        k = k + 1;
    }
    v
}

impl State {
    /// Both sides valid and each buffer holding one cell per square.
    pub open spec fn wf(&self) -> bool {
        &&& valid_dims(self@.width as int, self@.height as int)
        &&& self@.cells.len() == self@.width * self@.height
        &&& self@.next.len() == self@.width * self@.height
    }

    /// A paused board of `width` by `height` cells, each alive or dead at
    /// random, with the next buffer equal to the current one.
    pub fn new(width: usize, height: usize) -> (r: Self)
        requires
            valid_dims(width as int, height as int),
        ensures
            r.wf(),
            r@.width == width,
            r@.height == height,
            r@.paused,
            r@.next == r@.cells,
    {
        let cells = random_cells(width * height);
        State { width, height, board: cells.clone(), board_next: cells, paused: true }
    }

    /// A paused board of `width` by `height` cells holding `cells` in
    /// row-major order, in both buffers; `None` where the sides are not
    /// valid or `cells` does not hold one cell per square.
    pub fn from_cells(width: usize, height: usize, cells: Vec<bool>) -> (r: Option<Self>)
        ensures
            r.is_some() <==> (valid_dims(width as int, height as int) && cells@.len() == width
                * height),
            r.is_some() ==> r.unwrap().wf(),
            r.is_some() ==> r.unwrap()@ == (LifeView {
                width: width as nat,
                height: height as nat,
                cells: cells@,
                next: cells@,
                paused: true,
            }),
    {
        if width == 0 || height == 0 || width > i32::MAX as usize || height > i32::MAX as usize {
            return None;
        }
        match width.checked_mul(height) {
            None => None,
            Some(n) => {
                if cells.len() != n {
                    None
                } else {
                    let next = cells.clone();
                    proof {
                        assert(next@ =~= cells@);
                    }
                    Some(State { width, height, board: cells, board_next: next, paused: true })
                }
            },
        }
    }

    /// Whether the cell at (`x`, `y`), wrapped onto the board, is alive.
    fn alive_wrapped(&self, x: i32, y: i32) -> (r: bool)
        requires
            self.wf(),
        ensures
            r == alive_at(self@.cells, self@.width as int, self@.height as int, x as int, y as int),
    {
        let i = mod_floor(x, self.width);
        let j = mod_floor(y, self.height);
        proof {
            lemma_index_in_bounds(self.width as int, self.height as int, i as int, j as int);
        }
        self.board[j * self.width + i]
    }

    /// Live cells among (`x`-1, `y`), (`x`, `y`) and (`x`+1, `y`), wrapped.
    fn row_count(&self, x: i32, y: i32) -> (r: u8)
        requires
            self.wf(),
            x < i32::MAX,
            x > i32::MIN,
        ensures
            r as int == row_sum(self@.cells, self@.width as int, self@.height as int, x as int, y as int),
    {
        let mut count: u8 = 0;
        if self.alive_wrapped(x - 1, y) {
            count = count + 1;
        }
        if self.alive_wrapped(x, y) {
            count = count + 1;
        }
        if self.alive_wrapped(x + 1, y) {
            count = count + 1;
        }
        count
    }

    /// The number of live neighbours of the cell at (`x`, `y`), counted on
    /// the torus: the 3 by 3 block around it, less the cell itself.
    pub fn count_neighbours(&self, x: usize, y: usize) -> (r: u8)
        requires
            self.wf(),
            x < self@.width,
            y < self@.height,
        ensures
            r as int == neighbor_count(
                self@.cells,
                self@.width as int,
                self@.height as int,
                x as int,
                y as int,
            ),
            r <= 8,
    {
        let xi = x as i32;
        let yi = y as i32;
        let count = self.row_count(xi, yi - 1) + self.row_count(xi, yi) + self.row_count(xi, yi + 1);
        if self.alive_wrapped(xi, yi) {
            count - 1
        } else {
            count
        }
    }

    /// Fills the next buffer with the generation that follows the current
    /// one; the current buffer is left as it is.
    pub fn check_neighbours(&mut self)
        requires
            old(self).wf(),
        ensures
            final(self).wf(),
            final(self)@.width == old(self)@.width,
            final(self)@.height == old(self)@.height,
            final(self)@.paused == old(self)@.paused,
            final(self)@.cells == old(self)@.cells,
            final(self)@.next == next_generation(
                old(self)@.cells,
                old(self)@.width as int,
                old(self)@.height as int,
            ),
    {
        let n = self.board.len();
        let ghost w = self.width as int;
        let ghost h = self.height as int;
        let mut k: usize = 0;
        while k < n
            invariant
                self.wf(),
                self@.width == old(self)@.width,
                self@.height == old(self)@.height,
                self@.paused == old(self)@.paused,
                self@.cells == old(self)@.cells,
                n == self@.cells.len(),
                w == self@.width,
                h == self@.height,
                k <= n,
                forall|m: int|
                    0 <= m < k ==> self@.next[m] == next_generation(self@.cells, w, h)[m],
            decreases n - k,
        {
            let x = k % self.width;
            let y = k / self.width;
            proof {
                lemma_coords_in_bounds(k as int, w, h);
            }
            let count = self.count_neighbours(x, y);
            let alive = self.board[k];
            self.board_next.set(k, next_state(alive, count));
            k = k + 1;
        }
        proof {
            assert(self@.next =~= next_generation(self@.cells, w, h));
        }
    }

    /// Makes the next buffer the current one.
    pub fn update_state(&mut self)
        requires
            old(self).wf(),
        ensures
            final(self).wf(),
            final(self)@.width == old(self)@.width,
            final(self)@.height == old(self)@.height,
            final(self)@.paused == old(self)@.paused,
            final(self)@.cells == old(self)@.next,
            final(self)@.next == old(self)@.next,
    {
        let n = self.board.len();
        let mut k: usize = 0;
        while k < n
            invariant
                self.wf(),
                self@.width == old(self)@.width,
                self@.height == old(self)@.height,
                self@.paused == old(self)@.paused,
                self@.next == old(self)@.next,
                n == self@.cells.len(),
                k <= n,
                forall|m: int| 0 <= m < k ==> self@.cells[m] == self@.next[m],
            decreases n - k,
        {
            let alive = self.board_next[k];
            self.board.set(k, alive);
            k = k + 1;
        }
        proof {
            assert(self@.cells =~= self@.next);
        }
    }

    /// Advances the board by one generation, computed wholly from the
    /// current one; afterwards both buffers hold the new generation.
    pub fn tick(&mut self)
        requires
            old(self).wf(),
        ensures
            final(self).wf(),
            final(self)@.width == old(self)@.width,
            final(self)@.height == old(self)@.height,
            final(self)@.paused == old(self)@.paused,
            final(self)@.cells == next_generation(
                old(self)@.cells,
                old(self)@.width as int,
                old(self)@.height as int,
            ),
            final(self)@.next == final(self)@.cells,
    {
        self.check_neighbours();
        self.update_state();
    }

    /// Advances the board by one generation unless it is paused.
    pub fn update(&mut self)
        requires
            old(self).wf(),
        ensures
            final(self).wf(),
            old(self)@.paused ==> final(self)@ == old(self)@,
            !old(self)@.paused ==> final(self)@ == (LifeView {
                cells: next_generation(
                    old(self)@.cells,
                    old(self)@.width as int,
                    old(self)@.height as int,
                ),
                next: next_generation(
                    old(self)@.cells,
                    old(self)@.width as int,
                    old(self)@.height as int,
                ),
                ..old(self)@
            }),
    {
        if !self.paused {
            self.tick();
        }
    }

    /// Flips the cell at column `x`, row `y`, and no other; a position off
    /// the board changes nothing. Returns whether a cell was flipped.
    pub fn toggle_cell(&mut self, x: usize, y: usize) -> (r: bool)
        requires
            old(self).wf(),
        ensures
            final(self).wf(),
            r == (x < old(self)@.width && y < old(self)@.height),
            r ==> final(self)@ == (LifeView {
                cells: old(self)@.cells.update(
                    index(old(self)@.width as int, x as int, y as int),
                    !old(self)@.cells[index(old(self)@.width as int, x as int, y as int)],
                ),
                ..old(self)@
            }),
            !r ==> final(self)@ == old(self)@,
    {
        if x >= self.width || y >= self.height {
            return false;
        }
        proof {
            lemma_index_in_bounds(self.width as int, self.height as int, x as int, y as int);
        }
        let k = y * self.width + x;
        let alive = self.board[k];
        self.board.set(k, !alive);
        true
    }

    /// Flips the cell under the pixel (`px`, `py`) of a board drawn with
    /// cells `cell_w` by `cell_h` pixels; a pixel off the board changes
    /// nothing. Returns whether a cell was flipped.
    pub fn click(&mut self, px: usize, py: usize, cell_w: usize, cell_h: usize) -> (r: bool)
        requires
            old(self).wf(),
            cell_w > 0,
            cell_h > 0,
        ensures
            final(self).wf(),
            r == (px / cell_w < old(self)@.width && py / cell_h < old(self)@.height),
            r ==> final(self)@ == (LifeView {
                cells: old(self)@.cells.update(
                    index(old(self)@.width as int, (px / cell_w) as int, (py / cell_h) as int),
                    !old(self)@.cells[index(
                        old(self)@.width as int,
                        (px / cell_w) as int,
                        (py / cell_h) as int,
                    )],
                ),
                ..old(self)@
            }),
            !r ==> final(self)@ == old(self)@,
    {
        self.toggle_cell(px / cell_w, py / cell_h)
    }

    /// Puts `cells` into both buffers, so that the current and the next
    /// generation agree.
    pub fn load_cells(&mut self, cells: &Vec<bool>)
        requires
            old(self).wf(),
            cells@.len() == old(self)@.width * old(self)@.height,
        ensures
            final(self).wf(),
            final(self)@ == (LifeView { cells: cells@, next: cells@, ..old(self)@ }),
    {
        let n = self.board.len();
        let mut k: usize = 0;
        while k < n
            invariant
                self.wf(),
                self@.width == old(self)@.width,
                self@.height == old(self)@.height,
                self@.paused == old(self)@.paused,
                n == self@.cells.len(),
                n == cells@.len(),
                k <= n,
                forall|m: int| 0 <= m < k ==> self@.cells[m] == cells@[m],
                forall|m: int| 0 <= m < k ==> self@.next[m] == cells@[m],
            decreases n - k,
        {
            let alive = cells[k];
            self.board.set(k, alive);
            self.board_next.set(k, alive);
            k = k + 1;
        }
        proof {
            assert(self@.cells =~= cells@);
            assert(self@.next =~= cells@);
        }
    }

    /// Gives every cell a random state, the same in both buffers.
    pub fn randomize(&mut self)
        requires
            old(self).wf(),
        ensures
            final(self).wf(),
            final(self)@.width == old(self)@.width,
            final(self)@.height == old(self)@.height,
            final(self)@.paused == old(self)@.paused,
            final(self)@.next == final(self)@.cells,
    {
        let cells = random_cells(self.board.len());
        self.load_cells(&cells);
    }

    /// Pauses the board, or lets it run.
    pub fn set_paused(&mut self, paused: bool)
        requires
            old(self).wf(),
        ensures
            final(self).wf(),
            final(self)@ == (LifeView { paused, ..old(self)@ }),
    {
        self.paused = paused;
    }

    /// Reacts to a key press: `Pause` flips the pause flag, `Randomize`
    /// gives every cell a random state in both buffers, other keys leave the
    /// board as it is. Returns whether the key asks to quit.
    pub fn key_down_event(&mut self, key: Key) -> (quit: bool)
        requires
            old(self).wf(),
        ensures
            final(self).wf(),
            quit == (key == Key::Quit),
            key == Key::Pause ==> final(self)@ == (LifeView {
                paused: !old(self)@.paused,
                ..old(self)@
            }),
            key == Key::Randomize ==> {
                &&& final(self)@.width == old(self)@.width
                &&& final(self)@.height == old(self)@.height
                &&& final(self)@.paused == old(self)@.paused
                &&& final(self)@.next == final(self)@.cells
            },
            (key == Key::Quit || key == Key::Other) ==> final(self)@ == old(self)@,
    {
        match key {
            Key::Pause => {
                let paused = !self.paused;
                self.set_paused(paused);
                false
            },
            Key::Randomize => {
                self.randomize();
                false
            },
            Key::Quit => true,
            Key::Other => false,
        }
    }

    /// Columns of the board.
    pub fn width(&self) -> (r: usize)
        ensures
            r == self@.width,
    {
        self.width
    }

    /// Rows of the board.
    pub fn height(&self) -> (r: usize)
        ensures
            r == self@.height,
    {
        self.height
    }

    /// Whether the board is paused.
    pub fn is_paused(&self) -> (r: bool)
        ensures
            r == self@.paused,
    {
        self.paused
    }

    /// Whether the cell at column `x`, row `y` is alive now.
    pub fn is_alive(&self, x: usize, y: usize) -> (r: bool)
        requires
            self.wf(),
            x < self@.width,
            y < self@.height,
        ensures
            r == self@.cells[index(self@.width as int, x as int, y as int)],
    {
        proof {
            lemma_index_in_bounds(self.width as int, self.height as int, x as int, y as int);
        }
        self.board[y * self.width + x]
    }

    /// The current generation, row by row.
    pub fn cells(&self) -> (r: Vec<bool>)
        ensures
            r@ == self@.cells,
    {
        let r = self.board.clone();
        proof {
            assert(r@ =~= self@.cells);
        }
        r
    }

    /// The next buffer, row by row.
    pub fn next_cells(&self) -> (r: Vec<bool>)
        ensures
            r@ == self@.next,
    {
        let r = self.board_next.clone();
        proof {
            assert(r@ =~= self@.next);
        }
        r
    }
}

} // verus!
