//! Seed-pattern builder: stamps classical starting patterns into a fresh
//! grid buffer before the coordinator takes over.

use vstd::prelude::*;

use crate::grid::{BMatrixVector, GridView, GRID_SIZE};
use vstd::arithmetic::div_mod::lemma_fundamental_div_mod_converse;

verus! {

/// Relies on `rand::random::<bool>()`: draws from the thread-local
/// generator; nothing is promised of the outcome.
#[verifier::external_body]
fn random_bool() -> bool {
    rand::random()
}

/// Whether flat index `idx` of an `n`-wide grid lies in the rectangle of
/// width `w` and height `h` whose top-left cell is `start`.
pub open spec fn spec_in_rect(n: int, start: (int, int), w: int, h: int, idx: int) -> bool {
    &&& start.0 <= idx % n < start.0 + w
    &&& start.1 <= idx / n < start.1 + h
}

/// Builder over a default-extent, initially all-dead buffer.
pub struct PatternBuilder {
    vec: BMatrixVector,
}

impl View for PatternBuilder {
    type V = GridView;

    closed spec fn view(&self) -> GridView {
        self.vec@
    }
}

impl PatternBuilder {
    /// Starts from an all-dead default-extent buffer.
    pub fn new() -> (r: Self)
        ensures
            r@.wf(),
            r@.n == GRID_SIZE,
            forall|idx: int| 0 <= idx < r@.cells.len() ==> !r@.cells[idx],
    {
        let vec = BMatrixVector::default();
        PatternBuilder { vec }
    }

    /// Hands the finished buffer over.
    pub fn build(self) -> (r: BMatrixVector)
        ensures
            r@ == self@,
    {
        self.vec
    }

    /// Stamps a 2x2 block with its top-left corner at `(init_x, init_y)`.
    pub fn make_square(self, init_x: i32, init_y: i32) -> (r: Self)
        requires
            self@.wf(),
            0 <= init_x,
            init_x + 1 < self@.n,
            0 <= init_y,
            init_y + 1 < self@.n,
        ensures
            r@.wf(),
            r@.n == self@.n,
            r@.cells == self@.cells.update((init_y as int) * self@.n + init_x as int, true)
                .update((init_y as int) * self@.n + init_x as int + 1, true)
                .update((init_y as int + 1) * self@.n + init_x as int + 1, true)
                .update((init_y as int + 1) * self@.n + init_x as int, true),
    {
        let mut s = self;
        s.vec.set_cell(init_x, init_y, true);
        s.vec.set_cell(init_x + 1, init_y, true);
        s.vec.set_cell(init_x + 1, init_y + 1, true);
        s.vec.set_cell(init_x, init_y + 1, true);
        s
    }

    /// Stamps a vertical blinker starting at `(init_x, init_y)`.
    pub fn make_blinker(self, init_x: i32, init_y: i32) -> (r: Self)
        requires
            self@.wf(),
            0 <= init_x < self@.n,
            0 <= init_y,
            init_y + 2 < self@.n,
        ensures
            r@.wf(),
            r@.n == self@.n,
            r@.cells == self@.cells.update((init_y as int) * self@.n + init_x as int, true)
                .update((init_y as int + 1) * self@.n + init_x as int, true)
                .update((init_y as int + 2) * self@.n + init_x as int, true),
    {
        let mut s = self;
        s.vec.set_cell(init_x, init_y, true);
        s.vec.set_cell(init_x, init_y + 1, true);
        s.vec.set_cell(init_x, init_y + 2, true);
        s
    }

    /// Stamps a T tetromino with its bounding box at `(init_x, init_y)`.
    pub fn make_t(self, init_x: i32, init_y: i32) -> (r: Self)
        requires
            self@.wf(),
            0 <= init_x,
            init_x + 2 < self@.n,
            0 <= init_y,
            init_y + 1 < self@.n,
        ensures
            r@.wf(),
            r@.n == self@.n,
            r@.cells == self@.cells.update((init_y as int) * self@.n + init_x as int, false)
                .update((init_y as int) * self@.n + init_x as int + 1, true)
                .update((init_y as int) * self@.n + init_x as int + 2, false)
                .update((init_y as int + 1) * self@.n + init_x as int, true)
                .update((init_y as int + 1) * self@.n + init_x as int + 1, true)
                .update((init_y as int + 1) * self@.n + init_x as int + 2, true),
    {
        let mut s = self;
        s.vec.set_cell(init_x, init_y, false);
        s.vec.set_cell(init_x + 1, init_y, true);
        s.vec.set_cell(init_x + 2, init_y, false);
        s.vec.set_cell(init_x, init_y + 1, true);
        s.vec.set_cell(init_x + 1, init_y + 1, true);
        s.vec.set_cell(init_x + 2, init_y + 1, true);
        s
    }

    /// Stamps an R-pentomino with its bounding box at `(init_x, init_y)`.
    pub fn make_r_pentomino(self, init_x: i32, init_y: i32) -> (r: Self)
        requires
            self@.wf(),
            0 <= init_x,
            init_x + 2 < self@.n,
            0 <= init_y,
            init_y + 2 < self@.n,
        ensures
            r@.wf(),
            r@.n == self@.n,
            r@.cells == self@.cells.update((init_y as int) * self@.n + init_x as int, false)
                .update((init_y as int + 1) * self@.n + init_x as int, true)
                .update((init_y as int + 2) * self@.n + init_x as int, false)
                .update((init_y as int) * self@.n + init_x as int + 1, true)
                .update((init_y as int + 1) * self@.n + init_x as int + 1, true)
                .update((init_y as int + 2) * self@.n + init_x as int + 1, true)
                .update((init_y as int) * self@.n + init_x as int + 2, true)
                .update((init_y as int + 1) * self@.n + init_x as int + 2, false)
                .update((init_y as int + 2) * self@.n + init_x as int + 2, false),
    {
        let mut s = self;
        s.vec.set_cell(init_x, init_y, false);
        s.vec.set_cell(init_x, init_y + 1, true);
        s.vec.set_cell(init_x, init_y + 2, false);
        s.vec.set_cell(init_x + 1, init_y, true);
        s.vec.set_cell(init_x + 1, init_y + 1, true);
        s.vec.set_cell(init_x + 1, init_y + 2, true);
        s.vec.set_cell(init_x + 2, init_y, true);
        s.vec.set_cell(init_x + 2, init_y + 1, false);
        s.vec.set_cell(init_x + 2, init_y + 2, false);
        s
    }

    /// Stamps a glider with its bounding box at `(init_x, init_y)`.
    pub fn make_glider(self, init_x: i32, init_y: i32) -> (r: Self)
        requires
            self@.wf(),
            0 <= init_x,
            init_x + 2 < self@.n,
            0 <= init_y,
            init_y + 2 < self@.n,
        ensures
            r@.wf(),
            r@.n == self@.n,
            r@.cells == self@.cells.update((init_y as int) * self@.n + init_x as int, true)
                .update((init_y as int) * self@.n + init_x as int + 1, true)
                .update((init_y as int) * self@.n + init_x as int + 2, true)
                .update((init_y as int + 1) * self@.n + init_x as int, true)
                .update((init_y as int + 1) * self@.n + init_x as int + 1, false)
                .update((init_y as int + 1) * self@.n + init_x as int + 2, false)
                .update((init_y as int + 2) * self@.n + init_x as int, false)
                .update((init_y as int + 2) * self@.n + init_x as int + 1, true)
                .update((init_y as int + 2) * self@.n + init_x as int + 2, false),
    {
        let mut s = self;
        s.vec.set_cell(init_x, init_y, true);
        s.vec.set_cell(init_x + 1, init_y, true);
        s.vec.set_cell(init_x + 2, init_y, true);
        s.vec.set_cell(init_x, init_y + 1, true);
        s.vec.set_cell(init_x + 1, init_y + 1, false);
        s.vec.set_cell(init_x + 2, init_y + 1, false);
        s.vec.set_cell(init_x, init_y + 2, false);
        s.vec.set_cell(init_x + 1, init_y + 2, true);
        s.vec.set_cell(init_x + 2, init_y + 2, false);
        s
    }

    /// Randomly turns cells on inside the `width` by `height` rectangle at
    /// `start_point`: each cell in the rectangle either keeps its value or
    /// becomes alive; cells outside it are untouched.
    pub fn make_random(self, start_point: (i32, i32), width: i32, height: i32) -> (r: Self)
        requires
            self@.wf(),
            0 <= start_point.0,
            0 <= start_point.1,
            0 <= width,
            0 <= height,
            start_point.0 + width <= self@.n,
            start_point.1 + height <= self@.n,
        ensures
            r@.wf(),
            r@.n == self@.n,
            r@.cells.len() == self@.cells.len(),
            forall|idx: int|
                0 <= idx < r@.cells.len() && !spec_in_rect(
                    self@.n,
                    (start_point.0 as int, start_point.1 as int),
                    width as int,
                    height as int,
                    idx,
                ) ==> r@.cells[idx] == self@.cells[idx],
            forall|idx: int| 0 <= idx < r@.cells.len() ==> (r@.cells[idx] == self@.cells[idx]
                || r@.cells[idx] == true),
    {
        let mut s = self;
        let ghost orig = s@;
        let ghost n = s@.n;
        let ghost rect = (start_point.0 as int, start_point.1 as int);
        let mut j: i32 = 0;
        while j < height
            invariant
                s@.wf(),
                s@.n == n,
                s@.cells.len() == orig.cells.len(),
                0 <= start_point.0,
                0 <= start_point.1,
                0 <= width,
                0 <= j <= height,
                start_point.0 + width <= n,
                start_point.1 + height <= n,
                rect == (start_point.0 as int, start_point.1 as int),
                forall|idx: int| 0 <= idx < s@.cells.len() ==> (s@.cells[idx]
                    == orig.cells[idx] || (spec_in_rect(
                    n,
                    rect,
                    width as int,
                    height as int,
                    idx,
                ) && s@.cells[idx] == true)),
            decreases height - j,
        {
            let mut i: i32 = 0;
            while i < width
                invariant
                    s@.wf(),
                    s@.n == n,
                    s@.cells.len() == orig.cells.len(),
                    0 <= start_point.0,
                    0 <= start_point.1,
                    0 <= i <= width,
                    0 <= j < height,
                    start_point.0 + width <= n,
                    start_point.1 + height <= n,
                    rect == (start_point.0 as int, start_point.1 as int),
                    forall|idx: int| 0 <= idx < s@.cells.len() ==> (s@.cells[idx]
                        == orig.cells[idx] || (spec_in_rect(
                        n,
                        rect,
                        width as int,
                        height as int,
                        idx,
                    ) && s@.cells[idx] == true)),
                decreases width - i,
            {
                if random_bool() {
                    let x = start_point.0 + i;
                    let y = start_point.1 + j;
                    proof {
                        crate::grid::lemma_row_major_index_in_range(n, x as int, y as int);
                        lemma_fundamental_div_mod_converse(
                            (y as int) * n + x as int,
                            n,
                            y as int,
                            x as int,
                        );
                    }
                    s.vec.set_cell(x, y, true);
                    proof {
                        assert(spec_in_rect(
                            n,
                            rect,
                            width as int,
                            height as int,
                            (y as int) * n + x as int,
                        ));
                    }
                }
                i = i + 1;
            }
            j = j + 1;
        }
        s
    }
}

} // verus!
