//! Region partitioner: splits a buffer of length `L` into `W` disjoint
//! contiguous partitions, each tagged with its absolute starting offset.
//!
//! With `chunk = L / W`, partitions `0 .. W-2` each span `chunk` cells at
//! offsets `0, chunk, 2*chunk, ...`; the final partition absorbs the
//! remainder. The lazy splitter hands partitions out one at a time and is
//! not restartable: each emission consumes part of the remaining range.

use vstd::prelude::*;
use vstd::arithmetic::div_mod::lemma_fundamental_div_mod;

use crate::grid::BMatrixVector;

verus! {

/// Length of each leading partition: `l / w` by integer division.
pub open spec fn spec_chunk(l: int, w: int) -> int {
    l / w
}

/// How many partitions the splitter emits: `w`, except that a zero chunk
/// (more workers than cells) collapses everything into one partition.
pub open spec fn spec_region_count(l: int, w: int) -> int {
    if spec_chunk(l, w) == 0 {
        1
    } else {
        w
    }
}

/// Absolute starting offset of partition `k`.
pub open spec fn spec_region_offset(l: int, w: int, k: int) -> int {
    k * spec_chunk(l, w)
}

/// Length of partition `k`: `chunk` for every partition but the last,
/// which runs to the end of the buffer.
pub open spec fn spec_region_len(l: int, w: int, k: int) -> int {
    if k == spec_region_count(l, w) - 1 {
        l - spec_region_offset(l, w, k)
    } else {
        spec_chunk(l, w)
    }
}

/// Sum of the lengths of the first `k` partitions.
pub open spec fn spec_region_len_sum(l: int, w: int, k: int) -> int
    decreases k,
{
    if k <= 0 {
        0
    } else {
        spec_region_len_sum(l, w, k - 1) + spec_region_len(l, w, k - 1)
    }
}

/// Division facts the partition arithmetic rests on.
proof fn lemma_chunk_bounds(l: int, w: int)
    requires
        1 <= w,
        0 <= l,
    ensures
        0 <= spec_chunk(l, w),
        spec_chunk(l, w) * w <= l,
        l < spec_chunk(l, w) * w + w,
        1 <= w <= l ==> 1 <= spec_chunk(l, w),
{
    lemma_fundamental_div_mod(l, w);
    let c = l / w;
    assert(0 <= l % w < w);
    assert(c * w == w * c) by (nonlinear_arith);
    assert(0 <= c) by (nonlinear_arith)
        requires 1 <= w, 0 <= l, l == w * c + l % w, 0 <= l % w < w;
    if w <= l && c == 0 {
        assert(w * c == 0) by (nonlinear_arith)
            requires c == 0;
        assert(l == l % w);
        assert(false);
    }
}

/// Number of cells each worker gets before the remainder is handed out.
pub fn get_num_elems_each_time(vector: &BMatrixVector, worker_count: i32) -> (r: i32)
    requires
        1 <= worker_count,
        vector@.cells.len() <= i32::MAX,
    ensures
        r == spec_chunk(vector@.cells.len() as int, worker_count as int),
{
    (vector.len() as i32) / worker_count
}

/// Computes all partitions of a buffer of length `len` for `workers`
/// workers, as `(offset, length)` pairs in emission order.
pub fn region_spans(len: usize, workers: usize) -> (r: Vec<(usize, usize)>)
    requires
        1 <= workers,
        len <= i32::MAX,
    ensures
        r@.len() == spec_region_count(len as int, workers as int),
        forall|k: int| 0 <= k < r@.len() ==> #[trigger] r@[k].0 == spec_region_offset(
            len as int,
            workers as int,
            k,
        ),
        forall|k: int| 0 <= k < r@.len() ==> #[trigger] r@[k].1 == spec_region_len(
            len as int,
            workers as int,
            k,
        ),
        forall|k: int| 0 <= k < r@.len() ==> #[trigger] r@[k].0 + #[trigger] r@[k].1 <= len,
{
    let ghost l = len as int;
    let ghost w = workers as int;
    proof {
        lemma_chunk_bounds(l, w);
    }
    let chunk: usize = len / workers;
    let mut spans: Vec<(usize, usize)> = Vec::new();
    if chunk == 0 {
        spans.push((0, len));
        return spans;
    }
    proof {
        assert(w <= (chunk as int) * w) by (nonlinear_arith)
            requires 1 <= chunk as int, 1 <= w;
        assert((chunk as int) * w <= l);
    }
    let mut k: usize = 0;
    while k < workers - 1
        invariant
            1 <= workers <= len <= i32::MAX,
            chunk == spec_chunk(l, w),
            1 <= chunk,
            l == len as int,
            w == workers as int,
            k <= workers - 1,
            spans@.len() == k,
            (chunk as int) * w <= l,
            forall|kk: int| 0 <= kk < k ==> #[trigger] spans@[kk].0 == kk * (chunk as int),
            forall|kk: int| 0 <= kk < k ==> #[trigger] spans@[kk].1 == chunk as int,
            forall|kk: int| 0 <= kk < k ==> #[trigger] spans@[kk].0 + spans@[kk].1 <= l,
        decreases workers - 1 - k,
    {
        proof {
            assert((k as int) * (chunk as int) + chunk as int == (k as int + 1) * (chunk as int))
                by (nonlinear_arith);
            assert((k as int + 1) * (chunk as int) <= (chunk as int) * (workers as int))
                by (nonlinear_arith)
                requires 0 <= chunk as int, k as int + 1 <= workers as int;
        }
        spans.push((k * chunk, chunk));
        k = k + 1;
    }
    proof {
        assert((workers as int - 1) * (chunk as int) <= (chunk as int) * (workers as int))
            by (nonlinear_arith)
            requires 0 <= chunk as int, 1 <= workers as int;
    }
    let last_offset: usize = (workers - 1) * chunk;
    spans.push((last_offset, len - last_offset));
    proof {
        assert(spec_region_count(l, w) == w);
        assert forall|kk: int| 0 <= kk < spans@.len() implies #[trigger] spans@[kk].0
            == spec_region_offset(l, w, kk) && #[trigger] spans@[kk].1 == spec_region_len(l, w, kk)
            && spans@[kk].0 + spans@[kk].1 <= l by {
            if kk == w - 1 {
                assert(spans@[kk].0 == (w - 1) * (chunk as int));
            }
        }
    }
    spans
}

/// Lazy, non-restartable partition splitter.
///
/// Each call to [`Self::next`] irrevocably takes the next disjoint leading
/// sub-range out of the remaining cells together with its absolute offset,
/// so no two emitted partitions can ever alias the same cells.
pub struct RegionPoolIterMut {
    rest: Vec<bool>,
    offset: i32,
    num_elems_each_time: i32,
    max_offset: i32,
    total: Ghost<int>,
    workers: Ghost<int>,
    emitted: Ghost<int>,
}

impl RegionPoolIterMut {
    /// Length of the buffer this splitter was started on.
    pub closed spec fn buffer_len(self) -> int {
        self.total@
    }

    /// Worker count this splitter was built for.
    pub closed spec fn worker_count(self) -> int {
        self.workers@
    }

    /// Partitions handed out so far.
    pub closed spec fn emitted(self) -> int {
        self.emitted@
    }

    /// The cells not yet handed out, in order.
    pub closed spec fn remaining(self) -> Seq<bool> {
        self.rest@
    }

    /// Internal consistency of the splitter state.
    pub closed spec fn wf(self) -> bool {
        let l = self.total@;
        let w = self.workers@;
        let k = self.emitted@;
        let c = self.num_elems_each_time as int;
        let cnt = spec_region_count(l, w);
        &&& 1 <= w
        &&& 0 <= l <= i32::MAX
        &&& c == spec_chunk(l, w)
        &&& self.max_offset as int == c * (w - 1)
        &&& c * w <= l
        &&& 0 <= k
        &&& (k < cnt ==> self.offset as int == k * c && self.rest@.len() == l - k * c)
        &&& (k >= cnt ==> self.rest@.len() == 0 && (if c == 0 {
            self.offset as int == 0
        } else {
            self.offset as int == c * w
        }))
    }

    /// Builds a splitter over a copy of the buffer's cells.
    pub(crate) fn start(vector: &BMatrixVector, worker_count: i32) -> (r: Self)
        requires
            1 <= worker_count,
            vector@.cells.len() <= i32::MAX,
        ensures
            r.wf(),
            r.buffer_len() == vector@.cells.len(),
            r.worker_count() == worker_count,
            r.emitted() == 0,
            r.remaining() == vector@.cells,
    {
        let ghost l = vector@.cells.len() as int;
        let ghost w = worker_count as int;
        proof {
            lemma_chunk_bounds(l, w);
        }
        let num_elems_each_time = get_num_elems_each_time(vector, worker_count);
        proof {
            assert((num_elems_each_time as int) * (w - 1) <= (num_elems_each_time as int) * w)
                by (nonlinear_arith)
                requires 0 <= num_elems_each_time as int, 1 <= w;
            assert(0 <= (num_elems_each_time as int) * (w - 1)) by (nonlinear_arith)
                requires 0 <= num_elems_each_time as int, 1 <= w;
        }
        let max_offset = num_elems_each_time * (worker_count - 1);
        let mut rest: Vec<bool> = Vec::new();
        let mut idx: usize = 0;
        proof {
            vector.lemma_view();
        }
        let end: usize = vector.len();
        while idx < end
            invariant
                idx <= end,
                end == vector@.cells.len(),
                vector@.cells == vector.cells@,
                vector@.cells.len() <= i32::MAX,
                rest@ == vector@.cells.take(idx as int),
            decreases end - idx,
        {
            let cell = vector.cells[idx];
            rest.push(cell);
            proof {
                assert(rest@ == vector@.cells.take(idx as int + 1));
            }
            idx = idx + 1;
        }
        proof {
            assert(rest@ == vector@.cells);
        }
        RegionPoolIterMut {
            rest,
            offset: 0,
            num_elems_each_time,
            max_offset,
            total: Ghost(l),
            workers: Ghost(w),
            emitted: Ghost(0),
        }
    }

    /// Takes the next partition: its cells and its absolute offset.
    ///
    /// Partition `k` (for `k` below the partition count) is exactly
    /// `spec_region_len` cells starting at `spec_region_offset`. Once every
    /// partition is out, a positive chunk yields `None` forever, while a
    /// zero chunk (more workers than cells) keeps yielding empty partitions
    /// at offset 0, as the splitting arithmetic dictates.
    pub fn next(&mut self) -> (r: Option<(Vec<bool>, i32)>)
        requires
            old(self).wf(),
        ensures
            final(self).wf(),
            final(self).buffer_len() == old(self).buffer_len(),
            final(self).worker_count() == old(self).worker_count(),
            ({
                let l = old(self).buffer_len();
                let w = old(self).worker_count();
                let k = old(self).emitted();
                let cnt = spec_region_count(l, w);
                if k < cnt {
                    let rlen = spec_region_len(l, w, k);
                    &&& final(self).emitted() == k + 1
                    &&& r matches Some(p)
                    &&& p.1 == spec_region_offset(l, w, k)
                    &&& p.0@ == old(self).remaining().take(rlen)
                    &&& final(self).remaining() == old(self).remaining().skip(rlen)
                } else if spec_chunk(l, w) == 0 {
                    &&& final(self).emitted() == k + 1
                    &&& r matches Some(p)
                    &&& p.1 == 0
                    &&& p.0@.len() == 0
                    &&& final(self).remaining().len() == 0
                } else {
                    &&& *final(self) == *old(self)
                    &&& r is None
                }
            }),
    {
        let ghost l = self.total@;
        let ghost w = self.workers@;
        let ghost k = self.emitted@;
        let ghost c = self.num_elems_each_time as int;
        proof {
            lemma_chunk_bounds(l, w);
        }
        let old_offset = self.offset;
        if old_offset > self.max_offset {
            proof {
                if k < spec_region_count(l, w) {
                    assert(k * c <= (w - 1) * c) by (nonlinear_arith)
                        requires 0 <= c, k <= w - 1;
                    assert((w - 1) * c == c * (w - 1)) by (nonlinear_arith);
                }
            }
            None
        } else if old_offset == self.max_offset {
            let out = self.rest.split_off(0);
            proof {
                assert(c * (w - 1) + c == c * w) by (nonlinear_arith);
                assert(0 <= c * (w - 1)) by (nonlinear_arith)
                    requires 0 <= c, 1 <= w;
                if k < spec_region_count(l, w) {
                    if c == 0 {
                        assert(spec_region_count(l, w) == 1);
                        assert(k == 0);
                        assert(k * c == 0) by (nonlinear_arith)
                            requires c == 0;
                    } else {
                        assert(self.offset as int == k * c);
                        assert(k == w - 1) by (nonlinear_arith)
                            requires 1 <= c, 0 <= k < w, k * c == c * (w - 1);
                        assert((w - 1) * c == c * (w - 1)) by (nonlinear_arith);
                        assert((w - 1) * c + c == c * w) by (nonlinear_arith);
                    }
                    assert(out@ == old(self).remaining().take(
                        spec_region_len(l, w, k),
                    ));
                }
            }
            self.offset = old_offset + self.num_elems_each_time;
            proof {
                self.emitted@ = k + 1;
            }
            Some((out, old_offset))
        } else {
            proof {
                assert(k < spec_region_count(l, w)) by {
                    if k >= spec_region_count(l, w) {
                        if c > 0 {
                            assert(c * w == c * (w - 1) + c) by (nonlinear_arith);
                        }
                    }
                };
                assert(self.offset as int == k * c);
                assert(k < w - 1) by (nonlinear_arith)
                    requires 0 <= c, 0 <= k, k * c < c * (w - 1);
                assert(1 <= c) by (nonlinear_arith)
                    requires k * c < c * (w - 1), 0 <= c;
                assert(k * c + c == (k + 1) * c) by (nonlinear_arith);
                assert((k + 1) * c <= (w - 1) * c) by (nonlinear_arith)
                    requires 0 <= c, k + 1 <= w - 1;
                assert((w - 1) * c <= c * w) by (nonlinear_arith)
                    requires 0 <= c, 1 <= w;
                assert((w - 1) * c == c * (w - 1)) by (nonlinear_arith);
                assert(spec_region_count(l, w) == w);
            }
            let take_n: usize = self.num_elems_each_time as usize;
            let mut tail = self.rest.split_off(take_n);
            core::mem::swap(&mut self.rest, &mut tail);
            self.offset = old_offset + self.num_elems_each_time;
            proof {
                self.emitted@ = k + 1;
            }
            Some((tail, old_offset))
        }
    }
}

/// Partition coverage law: when every worker gets at least one cell
/// (`w <= l`), the partitioner emits exactly `w` partitions; the first
/// starts at offset 0, offsets strictly increase, consecutive partitions
/// tile the buffer with no gap or overlap, the last partition ends exactly
/// at `l`, and the partition lengths sum to `l`.
pub proof fn lemma_partition_coverage(l: int, w: int)
    requires
        1 <= w <= l,
    ensures
        spec_region_count(l, w) == w,
        spec_region_offset(l, w, 0) == 0,
        forall|k: int| 0 <= k < w ==> #[trigger] spec_region_len(l, w, k) >= 1,
        forall|k: int| 0 <= k < w - 1 ==> #[trigger] spec_region_offset(l, w, k + 1)
            == spec_region_offset(l, w, k) + spec_region_len(l, w, k),
        forall|k: int| 0 <= k < w - 1 ==> spec_region_offset(l, w, k)
            < #[trigger] spec_region_offset(l, w, k + 1),
        spec_region_offset(l, w, w - 1) + spec_region_len(l, w, w - 1) == l,
        spec_region_len_sum(l, w, w) == l,
{
    lemma_chunk_bounds(l, w);
    let c = spec_chunk(l, w);
    assert(forall|k: int| 0 <= k < w - 1 ==> #[trigger] ((k + 1) * c) == k * c + c)
        by (nonlinear_arith);
    assert forall|k: int| 0 <= k < w implies #[trigger] spec_region_len(l, w, k) >= 1 by {
        if k == w - 1 {
            assert((w - 1) * c + c == w * c) by (nonlinear_arith);
            assert(w * c == c * w) by (nonlinear_arith);
            assert(l - (w - 1) * c >= c);
        }
    }
    assert((w - 1) * c + c == w * c) by (nonlinear_arith);
    lemma_region_len_sum_prefix(l, w, w - 1);
}

/// The first `k` leading partitions (all of length `chunk`) cover exactly
/// `k * chunk` cells.
proof fn lemma_region_len_sum_prefix(l: int, w: int, k: int)
    requires
        1 <= w <= l,
        0 <= k <= w - 1,
    ensures
        spec_region_len_sum(l, w, k) == k * spec_chunk(l, w),
    decreases k,
{
    lemma_chunk_bounds(l, w);
    let c = spec_chunk(l, w);
    if k == 0 {
        assert(0 * c == 0) by (nonlinear_arith);
    } else {
        lemma_region_len_sum_prefix(l, w, k - 1);
        assert((k - 1) * c + c == k * c) by (nonlinear_arith);
        assert(spec_region_count(l, w) == w);
        assert(spec_region_len(l, w, k - 1) == c);
    }
}

} // verus!
