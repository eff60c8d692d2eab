//! Flat boolean grid buffer with a bounds-checked 2D accessor.
//!
//! The buffer owns `n * n` cells in row-major order: coordinate
//! `(i, j)` (column `i`, row `j`) lives at index `j * n + i`.

use vstd::prelude::*;

verus! {

/// Default grid extent used by [`BMatrixVector::default`].
pub const GRID_SIZE: i32 = 2000;

/// Largest extent whose cell count `n * n` still fits in `i32` index math.
pub const MAX_GRID_SIZE: i32 = 46340;

/// Why a 2D access was rejected.
#[derive(Clone, Copy, Debug, PartialEq, Eq, Structural)]
pub enum GridError {
    /// `i < 0` or `j < 0`: coordinates are never wrapped.
    IndexNegative,
    /// `i >= n` or `j >= n`: off-grid on the high side.
    IndexOutOfRange,
}

impl GridError {
    /// A short description for diagnostics.
    pub fn message(&self) -> (m: &'static str) {
        match self {
            GridError::IndexNegative => "IndexError: i and j must be nonnegative",
            GridError::IndexOutOfRange => "IndexError: i and j must be less than the grid extent",
        }
    }
}

/// Mathematical model of a grid buffer: its extent and its cells.
pub ghost struct GridView {
    /// Grid extent (number of columns, equal to the number of rows).
    pub n: int,
    /// Row-major cell contents; `cells.len() == n * n` for a well-formed grid.
    pub cells: Seq<bool>,
}

impl GridView {
    /// A well-formed grid: positive extent, bounded index arithmetic, square.
    pub open spec fn wf(self) -> bool {
        &&& 1 <= self.n <= MAX_GRID_SIZE
        &&& self.cells.len() == self.n * self.n
    }

    /// Whether `(i, j)` names a cell of this grid.
    pub open spec fn in_bounds(self, i: int, j: int) -> bool {
        0 <= i < self.n && 0 <= j < self.n
    }

    /// The cell at `(i, j)`; meaningful only when `in_bounds(i, j)`.
    pub open spec fn at(self, i: int, j: int) -> bool {
        self.cells[j * self.n + i]
    }
}

/// What the bounds-checked accessor returns for `(i, j)`, including the
/// order in which the two rejection cases are distinguished.
pub open spec fn spec_at(g: GridView, i: int, j: int) -> Result<bool, GridError> {
    if g.in_bounds(i, j) {
        Ok(g.at(i, j))
    } else if i >= g.n || j >= g.n {
        Err(GridError::IndexOutOfRange)
    } else {
        Err(GridError::IndexNegative)
    }
}

/// Flat row-major store of `n * n` boolean cells.
pub struct BMatrixVector {
    pub(crate) n: i32,
    pub(crate) cells: Vec<bool>,
}

impl View for BMatrixVector {
    type V = GridView;

    closed spec fn view(&self) -> GridView {
        GridView { n: self.n as int, cells: self.cells@ }
    }
}

impl BMatrixVector {
    /// Well-formedness of the underlying representation.
    pub open spec fn wf(&self) -> bool {
        self@.wf()
    }

    /// Relates the abstract view to the concrete fields for in-crate proofs.
    pub(crate) proof fn lemma_view(&self)
        ensures
            self@.n == self.n as int,
            self@.cells == self.cells@,
    {
    }

    /// An all-dead square buffer of the given extent.
    pub fn new(n: i32) -> (r: Self)
        requires
            1 <= n <= MAX_GRID_SIZE,
        ensures
            r.wf(),
            r@.n == n,
            forall|idx: int| 0 <= idx < r@.cells.len() ==> !r@.cells[idx],
    {
        proof {
            assert(n * n <= MAX_GRID_SIZE * MAX_GRID_SIZE) by (nonlinear_arith)
                requires 1 <= n <= MAX_GRID_SIZE;
            assert(n * n >= 1) by (nonlinear_arith)
                requires 1 <= n;
        }
        let total: usize = (n as usize) * (n as usize);
        let mut cells: Vec<bool> = Vec::new();
        let mut k: usize = 0;
        while k < total
            invariant
                k <= total,
                cells@.len() == k,
                forall|idx: int| 0 <= idx < k ==> !cells@[idx],
            decreases total - k,
        {
            cells.push(false);
            k = k + 1;
        }
        BMatrixVector { n, cells }
    }

    /// Wraps an arbitrary cell vector, keeping the default extent.
    ///
    /// The result is well formed only when the vector happens to hold
    /// `GRID_SIZE * GRID_SIZE` cells; the partitioner does not care, which
    /// is what the tests exercise.
    pub fn new_for_test(vec: Vec<bool>) -> (r: Self)
        ensures
            r@.n == GRID_SIZE,
            r@.cells == vec@,
    {
        BMatrixVector { n: GRID_SIZE, cells: vec }
    }

    /// The grid extent `n`.
    pub fn width(&self) -> (r: i32)
        ensures
            r == self@.n,
    {
        self.n
    }

    /// Number of cells in the underlying store.
    pub fn len(&self) -> (r: usize)
        ensures
            r == self@.cells.len(),
    {
        self.cells.len()
    }

    /// Reads the cell at `(i, j)`, rejecting off-grid coordinates instead of
    /// panicking: negative coordinates and too-large ones are distinguished.
    pub fn at(&self, i: i32, j: i32) -> (r: Result<bool, GridError>)
        requires
            self.wf(),
        ensures
            r == spec_at(self@, i as int, j as int),
    {
        if i >= 0 && j >= 0 && i < self.n && j < self.n {
            proof {
                lemma_row_major_index_in_range(self@.n, i as int, j as int);
            }
            Ok(self.cells[(j * self.n + i) as usize])
        } else if i >= self.n || j >= self.n {
            Err(GridError::IndexOutOfRange)
        } else {
            Err(GridError::IndexNegative)
        }
    }

    /// Grants mutable access to the cell at `(i, j)` under the same bounds
    /// check as [`Self::at`].
    pub fn at_mut(&mut self, i: i32, j: i32) -> (r: Result<&mut bool, GridError>)
        requires
            old(self).wf(),
        ensures
            old(self)@.in_bounds(i as int, j as int) ==> (
                r matches Ok(cell)
                    && *cell == old(self)@.at(i as int, j as int)
                    && final(self)@.n == old(self)@.n
                    && final(self)@.cells == old(self)@.cells.update(
                    (j as int) * old(self)@.n + (i as int),
                    *final(cell),
                )
            ),
            !old(self)@.in_bounds(i as int, j as int) ==> (
                *final(self) == *old(self)
                && (r matches Err(e) && Err::<bool, GridError>(e) == spec_at(
                    old(self)@,
                    i as int,
                    j as int,
                ))
            ),
    {
        if i >= 0 && j >= 0 && i < self.n && j < self.n {
            proof {
                lemma_row_major_index_in_range(self@.n, i as int, j as int);
            }
            let idx: usize = (j * self.n + i) as usize;
            Ok(&mut self.cells[idx])
        } else if i >= self.n || j >= self.n {
            Err(GridError::IndexOutOfRange)
        } else {
            Err(GridError::IndexNegative)
        }
    }

    /// Overwrites the cell at the in-bounds coordinate `(i, j)`.
    pub(crate) fn set_cell(&mut self, i: i32, j: i32, value: bool)
        requires
            old(self).wf(),
            old(self)@.in_bounds(i as int, j as int),
        ensures
            final(self).wf(),
            final(self)@.n == old(self)@.n,
            final(self)@.cells == old(self)@.cells.update(
                (j as int) * old(self)@.n + (i as int),
                value,
            ),
    {
        proof {
            self.lemma_view();
            lemma_row_major_index_in_range(self@.n, i as int, j as int);
        }
        let idx: usize = (j * self.n + i) as usize;
        self.cells[idx] = value;
        proof {
            self.lemma_view();
        }
    }
}

impl Clone for BMatrixVector {
    /// The clone holds the same extent and the same cells.
    fn clone(&self) -> (r: Self)
        ensures
            r@ == self@,
    {
        let mut cells: Vec<bool> = Vec::new();
        let mut idx: usize = 0;
        let end: usize = self.cells.len();
        while idx < end
            invariant
                idx <= end,
                end == self.cells@.len(),
                cells@ == self.cells@.take(idx as int),
            decreases end - idx,
        {
            let cell = self.cells[idx];
            cells.push(cell);
            proof {
                assert(cells@ == self.cells@.take(idx as int + 1));
            }
            idx = idx + 1;
        }
        proof {
            assert(cells@ == self.cells@);
        }
        BMatrixVector { n: self.n, cells }
    }
}

impl Default for BMatrixVector {
    /// An all-dead buffer of the default extent [`GRID_SIZE`].
    fn default() -> (r: Self)
        ensures
            r.wf(),
            r@.n == GRID_SIZE,
            forall|idx: int| 0 <= idx < r@.cells.len() ==> !r@.cells[idx],
    {
        BMatrixVector::new(GRID_SIZE)
    }
}

/// Row-major indexing stays within both the buffer and `i32` range.
pub(crate) proof fn lemma_row_major_index_in_range(n: int, i: int, j: int)
    requires
        1 <= n <= MAX_GRID_SIZE,
        0 <= i < n,
        0 <= j < n,
    ensures
        0 <= j * n + i < n * n,
        j * n + i <= (MAX_GRID_SIZE - 1) * MAX_GRID_SIZE + (MAX_GRID_SIZE - 1),
{
    assert(0 <= j * n + i < n * n) by (nonlinear_arith)
        requires 1 <= n, 0 <= i < n, 0 <= j < n;
    assert(j * n + i <= (MAX_GRID_SIZE - 1) * MAX_GRID_SIZE + (MAX_GRID_SIZE - 1))
        by (nonlinear_arith)
        requires 1 <= n <= MAX_GRID_SIZE, 0 <= i < n, 0 <= j < n;
}

} // verus!

