//! Update engines: four interchangeable backends that compute a full next
//! generation from a source buffer into a destination buffer.
//!
//! All computing backends share one postcondition — every destination cell
//! equals the transition rule applied to the corresponding source cell — so
//! the choice of backend is a performance choice, never a semantics choice.

use vstd::prelude::*;
use vstd::arithmetic::div_mod::lemma_fundamental_div_mod;

use crate::grid::{BMatrixVector, GridView, MAX_GRID_SIZE};
use crate::partition::{region_spans, RegionPoolIterMut};
use crate::rule::{get_count, new_cell_value, spec_count, spec_next_state};
use rayon::iter::{IndexedParallelIterator, IntoParallelRefMutIterator, ParallelIterator};

verus! {

/// Next state of the cell stored at flat index `idx` of grid `g`.
pub open spec fn spec_next_cell(g: GridView, idx: int) -> bool {
    spec_next_state(g.cells[idx], spec_count(g, idx % g.n, idx / g.n))
}

/// The full next generation of grid `g`, cell by cell.
pub open spec fn spec_next_gen(g: GridView) -> Seq<bool> {
    Seq::new(g.cells.len(), |idx: int| spec_next_cell(g, idx))
}

/// The next states of the `len` cells starting at flat offset `off`.
pub open spec fn spec_region_cells(g: GridView, off: int, len: int) -> Seq<bool> {
    Seq::new(len as nat, |r: int| spec_next_cell(g, off + r))
}

/// Flat index decomposition: for `0 <= idx < n * n`, the coordinates
/// `(idx % n, idx / n)` are on the grid and recompose to `idx`.
pub(crate) proof fn lemma_idx_decompose(n: int, idx: int)
    requires
        1 <= n,
        0 <= idx < n * n,
    ensures
        0 <= idx % n < n,
        0 <= idx / n < n,
        (idx / n) * n + idx % n == idx,
{
    lemma_fundamental_div_mod(idx, n);
    assert(n * (idx / n) == (idx / n) * n) by (nonlinear_arith);
    assert(idx / n < n) by (nonlinear_arith)
        requires 1 <= n, 0 <= idx < n * n, idx == n * (idx / n) + idx % n, 0 <= idx % n < n;
    assert(0 <= idx / n) by (nonlinear_arith)
        requires 1 <= n, 0 <= idx, idx == n * (idx / n) + idx % n, 0 <= idx % n < n;
}

/// A well-formed grid's cell count fits comfortably in `i32`.
pub(crate) proof fn lemma_wf_len_fits(g: GridView)
    requires
        g.wf(),
    ensures
        g.cells.len() <= i32::MAX,
{
    assert(g.n * g.n <= MAX_GRID_SIZE * MAX_GRID_SIZE) by (nonlinear_arith)
        requires 1 <= g.n <= MAX_GRID_SIZE;
}

/// Recovers grid coordinates `(i, j)` from a flat row-major index:
/// `i = idx mod n`, `j = idx div n`.
pub fn get_location_from_idx(idx: usize, n: i32) -> (r: (i32, i32))
    requires
        1 <= n,
        idx <= i32::MAX,
    ensures
        r.0 == idx as int % n as int,
        r.1 == idx as int / n as int,
{
    let idx_i = idx as i32;
    let i = idx_i % n;
    let j = idx_i / n;
    (i, j)
}

/// Computes the next state of the cell at flat index `idx`: recovers its
/// coordinates, surveys its neighborhood, and applies the transition rule.
pub(crate) fn next_cell(old_vec: &BMatrixVector, idx: usize) -> (r: bool)
    requires
        old_vec.wf(),
        idx < old_vec@.cells.len(),
    ensures
        r == spec_next_cell(old_vec@, idx as int),
{
    proof {
        lemma_wf_len_fits(old_vec@);
        lemma_idx_decompose(old_vec@.n, idx as int);
    }
    let n = old_vec.width();
    let (i, j) = get_location_from_idx(idx, n);
    let count = get_count(i, j, old_vec);
    let state = old_vec.at(i, j).unwrap();
    new_cell_value(state, count, old_vec)
}

/// Computes the next states of the `len` cells starting at offset `off`,
/// into a fresh buffer of exactly `len` cells.
pub(crate) fn compute_region(old_vec: &BMatrixVector, off: usize, len: usize) -> (r: Vec<bool>)
    requires
        old_vec.wf(),
        off + len <= old_vec@.cells.len(),
    ensures
        r@ == spec_region_cells(old_vec@, off as int, len as int),
{
    proof {
        lemma_wf_len_fits(old_vec@);
    }
    let mut out: Vec<bool> = Vec::new();
    let mut k: usize = 0;
    while k < len
        invariant
            old_vec.wf(),
            old_vec@.cells.len() <= i32::MAX,
            off + len <= old_vec@.cells.len(),
            k <= len,
            out@.len() == k,
            forall|r: int| 0 <= r < k ==> out@[r] == spec_next_cell(old_vec@, off + r),
        decreases len - k,
    {
        let cell = next_cell(old_vec, off + k);
        out.push(cell);
        k = k + 1;
    }
    proof {
        assert(out@ =~= spec_region_cells(old_vec@, off as int, len as int));
    }
    out
}

/// Baseline backend: one thread walks the whole destination cell by cell.
/// Also the correctness oracle the other backends are held to.
pub struct SingleThreadEngine;

impl SingleThreadEngine {
    /// Creates the sequential backend.
    pub fn new() -> (r: Self) {
        SingleThreadEngine {  }
    }

    /// Writes the next generation of `old_vec` into `new_vec`.
    pub fn next_b_matrix(&mut self, old_vec: &BMatrixVector, new_vec: &mut BMatrixVector)
        requires
            old_vec.wf(),
            old(new_vec)@.n == old_vec@.n,
            old(new_vec)@.cells.len() == old_vec@.cells.len(),
        ensures
            final(new_vec)@.n == old(new_vec)@.n,
            final(new_vec)@.cells == spec_next_gen(old_vec@),
    {
        proof {
            lemma_wf_len_fits(old_vec@);
        }
        let ghost n0 = old(new_vec)@.n;
        let total = old_vec.len();
        let n = old_vec.width();
        let mut idx: usize = 0;
        while idx < total
            invariant
                old_vec.wf(),
                n == old_vec@.n,
                total == old_vec@.cells.len(),
                total <= i32::MAX,
                new_vec@.n == n0,
                n0 == old_vec@.n,
                new_vec@.cells.len() == total,
                idx <= total,
                forall|k: int| 0 <= k < idx ==> new_vec@.cells[k] == spec_next_cell(old_vec@, k),
            decreases total - idx,
        {
            proof {
                lemma_idx_decompose(n as int, idx as int);
            }
            let value = next_cell(old_vec, idx);
            let (i, j) = get_location_from_idx(idx, n);
            let cell_ptr = new_vec.at_mut(i, j).unwrap();
            *cell_ptr = value;
            idx = idx + 1;
        }
        proof {
            assert(new_vec@.cells =~= spec_next_gen(old_vec@));
        }
    }
}

/// Relies on rayon's `par_iter_mut().enumerate().for_each`: the closure
/// runs exactly once for every cell of the destination, paired with that
/// cell's index, and `for_each` returns only after all of them ran. Each
/// closure stores the value the verified [`next_cell`] computes for its
/// index.
#[verifier::external_body]
fn par_fill_next(old_vec: &BMatrixVector, new_vec: &mut BMatrixVector)
    requires
        old_vec.wf(),
        old(new_vec)@.cells.len() == old_vec@.cells.len(),
    ensures
        final(new_vec)@.n == old(new_vec)@.n,
        final(new_vec)@.cells == spec_next_gen(old_vec@),
{
    new_vec.cells.par_iter_mut().enumerate().for_each(|(idx, cell_ptr)| {
        *cell_ptr = next_cell(old_vec, idx);
    });
}

/// Data-parallel backend: delegates partitioning and scheduling to rayon,
/// but blocks until every destination cell is written.
pub struct RayonEngine;

impl RayonEngine {
    /// Creates the data-parallel backend.
    pub fn new() -> (r: Self) {
        RayonEngine {  }
    }

    /// Writes the next generation of `old_vec` into `new_vec`, computing
    /// cells in parallel.
    pub fn next_b_matrix(&mut self, old_vec: &BMatrixVector, new_vec: &mut BMatrixVector)
        requires
            old_vec.wf(),
            old(new_vec)@.n == old_vec@.n,
            old(new_vec)@.cells.len() == old_vec@.cells.len(),
        ensures
            final(new_vec)@.n == old(new_vec)@.n,
            final(new_vec)@.cells == spec_next_gen(old_vec@),
    {
        par_fill_next(old_vec, new_vec);
    }
}

#[verifier::external_type_specification]
#[verifier::external_body]
pub struct ExPool(scoped_threadpool::Pool);

/// Relies on `scoped_threadpool::Pool::new`: allocates a pool of `n`
/// threads; `n` of zero would panic on the crate's own assertion.
#[verifier::external_body]
fn pool_new(n: u32) -> scoped_threadpool::Pool
    requires
        n >= 1,
{
    scoped_threadpool::Pool::new(n)
}

/// Relies on `Pool::scoped` and `Scope::execute`: every queued job runs
/// exactly once on some pool thread, and `scoped` returns only after all
/// jobs finished. Each job fills its own output slot with what the
/// verified [`compute_region`] returns for its span.
#[verifier::external_body]
fn pool_compute_regions(
    pool: &mut scoped_threadpool::Pool,
    old_vec: &BMatrixVector,
    spans: &Vec<(usize, usize)>,
    out: &mut Vec<Vec<bool>>,
)
    requires
        old_vec.wf(),
        old(out)@.len() == spans@.len(),
        forall|k: int| 0 <= k < spans@.len() ==> #[trigger] spans@[k].0 + spans@[k].1
            <= old_vec@.cells.len(),
    ensures
        final(out)@.len() == spans@.len(),
        forall|k: int| 0 <= k < spans@.len() ==> #[trigger] final(out)@[k]@ == spec_region_cells(
            old_vec@,
            spans@[k].0 as int,
            spans@[k].1 as int,
        ),
{
    pool.scoped(|scope| {
        for (slot, span) in out.iter_mut().zip(spans.iter()) {
            let (off, len) = (span.0, span.1);
            scope.execute(move || {
                *slot = compute_region(old_vec, off, len);
            });
        }
    });
}

/// Region-parallel backend: partitions the destination into disjoint
/// contiguous regions and dispatches one task per region to a bounded
/// thread pool, joining all of them before returning.
pub struct MultiThreadedEngine {
    threadpool: scoped_threadpool::Pool,
    worker_count: i32,
}

impl MultiThreadedEngine {
    /// The configured worker count.
    pub closed spec fn workers(&self) -> int {
        self.worker_count as int
    }

    /// A usable engine has at least one worker.
    pub open spec fn wf(&self) -> bool {
        self.workers() >= 1
    }

    /// Creates the region-parallel backend with `worker_count` pool
    /// threads.
    pub fn new(worker_count: i32) -> (r: Self)
        requires
            1 <= worker_count,
        ensures
            r.wf(),
            r.workers() == worker_count,
    {
        let threadpool = pool_new(worker_count as u32);
        MultiThreadedEngine { threadpool, worker_count }
    }

    /// Starts the lazy region splitter over the destination's cells for
    /// the configured worker count.
    pub fn create_iter_mut(&mut self, vector: &BMatrixVector) -> (r: RegionPoolIterMut)
        requires
            old(self).wf(),
            vector@.cells.len() <= i32::MAX,
        ensures
            *final(self) == *old(self),
            r.wf(),
            r.buffer_len() == vector@.cells.len(),
            r.worker_count() == old(self).workers(),
            r.emitted() == 0,
            r.remaining() == vector@.cells,
    {
        RegionPoolIterMut::start(vector, self.worker_count)
    }

    /// Writes the next generation of `old_vec` into `new_vec`: one pool
    /// task per disjoint region, all joined before this returns.
    pub fn next_b_matrix(&mut self, old_vec: &BMatrixVector, new_vec: &mut BMatrixVector)
        requires
            old(self).wf(),
            old_vec.wf(),
            old(new_vec)@.n == old_vec@.n,
            old(new_vec)@.cells.len() == old_vec@.cells.len(),
        ensures
            final(self).wf(),
            final(self).workers() == old(self).workers(),
            final(new_vec)@.n == old(new_vec)@.n,
            final(new_vec)@.cells == spec_next_gen(old_vec@),
    {
        proof {
            lemma_wf_len_fits(old_vec@);
        }
        let ghost l = old_vec@.cells.len() as int;
        let len = old_vec.len();
        let spans = region_spans(len, self.worker_count as usize);
        let mut out: Vec<Vec<bool>> = Vec::new();
        let mut k: usize = 0;
        let span_count = spans.len();
        while k < span_count
            invariant
                k <= span_count,
                span_count == spans@.len(),
                out@.len() == k,
            decreases span_count - k,
        {
            out.push(Vec::new());
            k = k + 1;
        }
        pool_compute_regions(&mut self.threadpool, old_vec, &spans, &mut out);
        proof {
            let w = self.worker_count as int;
            let c = crate::partition::spec_chunk(l, w);
            assert(0 * c == 0) by (nonlinear_arith);
            assert forall|kk: int| 0 <= kk < spans@.len() - 1 implies #[trigger] spans@[kk + 1].0
                == spans@[kk].0 + spans@[kk].1 by {
                assert((kk + 1) * c == kk * c + c) by (nonlinear_arith);
            }
        }
        splice_regions(new_vec, &spans, &out, Ghost(old_vec@));
    }
}

/// Copies the per-region results back into the destination buffer at each
/// region's absolute offset, reconstituting the full next generation.
fn splice_regions(
    new_vec: &mut BMatrixVector,
    spans: &Vec<(usize, usize)>,
    out: &Vec<Vec<bool>>,
    Ghost(src): Ghost<GridView>,
)
    requires
        src.wf(),
        old(new_vec)@.n == src.n,
        old(new_vec)@.cells.len() == src.cells.len(),
        spans@.len() >= 1,
        out@.len() == spans@.len(),
        spans@[0].0 == 0,
        forall|k: int| 0 <= k < spans@.len() - 1 ==> #[trigger] spans@[k + 1].0 == spans@[k].0
            + spans@[k].1,
        spans@[spans@.len() - 1].0 + spans@[spans@.len() - 1].1 == src.cells.len(),
        forall|k: int| 0 <= k < spans@.len() ==> #[trigger] out@[k]@ == spec_region_cells(
            src,
            spans@[k].0 as int,
            spans@[k].1 as int,
        ),
    ensures
        final(new_vec)@.n == old(new_vec)@.n,
        final(new_vec)@.cells == spec_next_gen(src),
{
    proof {
        new_vec.lemma_view();
        lemma_wf_len_fits(src);
    }
    let ghost n0 = old(new_vec)@.n;
    let ghost total = src.cells.len() as int;
    let span_count = spans.len();
    let mut k: usize = 0;
    while k < span_count
        invariant
            span_count == spans@.len(),
            out@.len() == spans@.len(),
            span_count >= 1,
            k <= span_count,
            src.wf(),
            total == src.cells.len(),
            total <= i32::MAX,
            new_vec.n as int == n0,
            n0 == src.n,
            new_vec.cells@.len() == total,
            spans@[0].0 == 0,
            forall|kk: int| 0 <= kk < spans@.len() - 1 ==> #[trigger] spans@[kk + 1].0
                == spans@[kk].0 + spans@[kk].1,
            spans@[spans@.len() - 1].0 + spans@[spans@.len() - 1].1 == total,
            forall|kk: int| 0 <= kk < spans@.len() ==> #[trigger] out@[kk]@ == spec_region_cells(
                src,
                spans@[kk].0 as int,
                spans@[kk].1 as int,
            ),
            k < span_count ==> forall|idx: int| 0 <= idx < spans@[k as int].0
                ==> new_vec.cells@[idx] == spec_next_cell(src, idx),
            k == span_count ==> forall|idx: int| 0 <= idx < total ==> new_vec.cells@[idx]
                == spec_next_cell(src, idx),
        decreases span_count - k,
    {
        proof {
            lemma_span_prefix_bound(spans@, k as int, total);
        }
        let (off, seg_len) = (spans[k].0, spans[k].1);
        let seg: &Vec<bool> = &out[k];
        let mut r: usize = 0;
        while r < seg_len
            invariant
                r <= seg_len,
                src.wf(),
                total == src.cells.len(),
                total <= i32::MAX,
                off + seg_len <= total,
                new_vec.n as int == n0,
                new_vec.cells@.len() == total,
                seg@ == spec_region_cells(src, off as int, seg_len as int),
                forall|idx: int| 0 <= idx < off + r ==> new_vec.cells@[idx] == spec_next_cell(
                    src,
                    idx,
                ),
            decreases seg_len - r,
        {
            let value = seg[r];
            new_vec.cells[off + r] = value;
            r = r + 1;
        }
        k = k + 1;
        proof {
            if k < span_count {
                assert(spans@[k as int].0 == spans@[k as int - 1].0 + spans@[k as int - 1].1);
            }
        }
    }
    proof {
        new_vec.lemma_view();
        assert(new_vec@.cells =~= spec_next_gen(src));
    }
}

/// Each span's end stays within the buffer, because consecutive spans tile
/// it and the last one ends exactly at the buffer's length.
proof fn lemma_span_prefix_bound(spans: Seq<(usize, usize)>, k: int, total: int)
    requires
        spans.len() >= 1,
        0 <= k < spans.len(),
        forall|kk: int| 0 <= kk < spans.len() - 1 ==> #[trigger] spans[kk + 1].0 == spans[kk].0
            + spans[kk].1,
        spans[spans.len() - 1].0 + spans[spans.len() - 1].1 == total,
    ensures
        spans[k].0 + spans[k].1 <= total,
    decreases spans.len() - k,
{
    if k < spans.len() - 1 {
        lemma_span_prefix_bound(spans, k + 1, total);
        assert(spans[k + 1].0 == spans[k].0 + spans[k].1);
    }
}

/// Backend selector handed to [`create_engine`].
#[derive(Clone, Copy, Debug, PartialEq, Eq, Structural)]
pub enum Backend {
    /// One thread, cell by cell.
    Single,
    /// A bounded thread pool with the given number of workers.
    MultiThreaded(i32),
    /// Data-parallel iteration.
    Rayon,
    /// Freeze the simulation.
    Skip,
}

/// An update engine: one of the four backends behind a single `advance`
/// entry point.
pub enum Engine {
    /// Sequential baseline.
    Single(SingleThreadEngine),
    /// Region-parallel thread pool.
    MultiThreaded(MultiThreadedEngine),
    /// Data-parallel.
    Rayon(RayonEngine),
    /// No-op.
    Skip(SkipEngine),
}

impl Engine {
    /// A usable engine: its worker count, if it has one, is positive.
    pub open spec fn wf(&self) -> bool {
        match self {
            Engine::MultiThreaded(e) => e.wf(),
            _ => true,
        }
    }

    /// Whether this is the frozen backend, which never writes.
    pub open spec fn is_skip(&self) -> bool {
        self matches Engine::Skip(_)
    }

    /// Advances one generation: reads `old_vec`, writes `new_vec`.
    ///
    /// Every backend but [`Backend::Skip`] leaves the destination holding
    /// exactly the next generation of the source — backends are
    /// output-equivalent by contract. The frozen backend leaves the
    /// destination untouched.
    pub fn next_b_matrix(&mut self, old_vec: &BMatrixVector, new_vec: &mut BMatrixVector)
        requires
            old(self).wf(),
            old_vec.wf(),
            old(new_vec)@.n == old_vec@.n,
            old(new_vec)@.cells.len() == old_vec@.cells.len(),
        ensures
            final(self).wf(),
            final(self).is_skip() == old(self).is_skip(),
            !old(self).is_skip() ==> final(new_vec)@.n == old(new_vec)@.n
                && final(new_vec)@.cells == spec_next_gen(old_vec@),
            old(self).is_skip() ==> *final(new_vec) == *old(new_vec),
    {
        match self {
            Engine::Single(e) => e.next_b_matrix(old_vec, new_vec),
            Engine::MultiThreaded(e) => e.next_b_matrix(old_vec, new_vec),
            Engine::Rayon(e) => e.next_b_matrix(old_vec, new_vec),
            Engine::Skip(e) => e.next_b_matrix(old_vec, new_vec),
        }
    }
}

/// Builds the engine for the requested backend. A region-parallel backend
/// needs a positive worker count; the other backends ignore it.
pub fn create_engine(update_method: Backend) -> (r: Engine)
    requires
        update_method matches Backend::MultiThreaded(w) ==> 1 <= w,
    ensures
        r.wf(),
        r.is_skip() <==> update_method == Backend::Skip,
        update_method == Backend::Single ==> r matches Engine::Single(_),
        update_method matches Backend::MultiThreaded(w) ==> (r matches Engine::MultiThreaded(e)
            && e.workers() == w),
        update_method == Backend::Rayon ==> r matches Engine::Rayon(_),
{
    match update_method {
        Backend::Single => Engine::Single(SingleThreadEngine::new()),
        Backend::MultiThreaded(worker_count) => Engine::MultiThreaded(
            MultiThreadedEngine::new(worker_count),
        ),
        Backend::Rayon => Engine::Rayon(RayonEngine::new()),
        Backend::Skip => Engine::Skip(SkipEngine::new()),
    }
}

/// Determinism across backends: the advance contract pins the destination
/// to exactly `spec_next_gen` of the source, so any two backends that meet
/// it — sequential, region-parallel with any worker count, or
/// data-parallel — produce bit-identical buffers for the same source.
pub proof fn lemma_backends_agree(src: GridView, d1: Seq<bool>, d2: Seq<bool>)
    requires
        d1 == spec_next_gen(src),
        d2 == spec_next_gen(src),
    ensures
        d1 == d2,
{
}

/// Dead-state idempotence: advancing an all-dead grid of any extent yields
/// an all-dead grid — no cell can be born without live neighbors.
pub proof fn lemma_dead_grid_stays_dead(g: GridView)
    requires
        g.wf(),
        forall|idx: int| 0 <= idx < g.cells.len() ==> !g.cells[idx],
    ensures
        spec_next_gen(g).len() == g.cells.len(),
        forall|idx: int| 0 <= idx < g.cells.len() ==> !spec_next_gen(g)[idx],
{
    assert forall|idx: int| 0 <= idx < g.cells.len() implies !spec_next_gen(g)[idx] by {
        lemma_idx_decompose(g.n, idx);
        lemma_dead_count(g, idx % g.n, idx / g.n);
    }
}

/// On an all-dead grid every neighbor survey comes back zero.
proof fn lemma_dead_count(g: GridView, i: int, j: int)
    requires
        g.wf(),
        forall|idx: int| 0 <= idx < g.cells.len() ==> !g.cells[idx],
    ensures
        spec_count(g, i, j) == 0,
{
    lemma_dead_live(g, i + 1, j);
    lemma_dead_live(g, i + 1, j + 1);
    lemma_dead_live(g, i, j + 1);
    lemma_dead_live(g, i - 1, j + 1);
    lemma_dead_live(g, i - 1, j);
    lemma_dead_live(g, i - 1, j - 1);
    lemma_dead_live(g, i, j - 1);
    lemma_dead_live(g, i + 1, j - 1);
}

/// On an all-dead grid no probed cell contributes to the count.
proof fn lemma_dead_live(g: GridView, i: int, j: int)
    requires
        g.wf(),
        forall|idx: int| 0 <= idx < g.cells.len() ==> !g.cells[idx],
    ensures
        crate::rule::spec_live(g, i, j) == 0,
{
    if g.in_bounds(i, j) {
        crate::grid::lemma_row_major_index_in_range(g.n, i, j);
    }
}

/// No-op backend: freezes the simulation without disturbing the pipeline.
pub struct SkipEngine;

impl SkipEngine {
    /// Creates the frozen backend.
    pub fn new() -> (r: Self) {
        SkipEngine {  }
    }

    /// Leaves the destination untouched.
    pub fn next_b_matrix(&mut self, old_vec: &BMatrixVector, new_vec: &mut BMatrixVector)
        ensures
            *final(new_vec) == *old(new_vec),
    {
    }
}

} // verus!
