//! Double-buffer coordinator: the admission-control state machine between
//! the consumer loop and the producer of the next generation.
//!
//! The coordinator owns a consumer-visible "current" buffer and a
//! producer-owned "destination" buffer, plus a two-state flag. A request
//! for the next generation is honored only while idle: it swaps the two
//! buffers in O(1), marks the coordinator busy, and asks for the producer
//! to be woken. A request that finds the coordinator busy is dropped whole
//! — never queued, never blocking. The producer's step fills the
//! destination with the next generation of the current buffer and marks
//! the coordinator idle again.

use vstd::prelude::*;

use crate::engine::{create_engine, spec_next_gen, Backend, Engine};
use crate::grid::{BMatrixVector, GridView};

verus! {

/// Whether a generation is being computed right now.
#[derive(Clone, Copy, Debug, PartialEq, Eq, Structural)]
pub enum WorkFlag {
    /// The producer is computing; new requests are dropped.
    InProgress,
    /// The destination holds a fully formed generation; a request will
    /// swap it in.
    Done,
}

/// Mathematical model of the coordinator: its flag and its two buffers.
pub ghost struct CoordView {
    /// Admission flag.
    pub status: WorkFlag,
    /// The consumer-visible buffer.
    pub current: GridView,
    /// The producer-owned buffer.
    pub dest: GridView,
}

/// What one `request_next_generation` call does to the coordinator state:
/// idle means swap-and-go-busy, busy means the request is dropped.
pub open spec fn spec_request(c: CoordView) -> CoordView {
    if c.status == WorkFlag::Done {
        CoordView { status: WorkFlag::InProgress, current: c.dest, dest: c.current }
    } else {
        c
    }
}

/// The double-buffer coordinator.
pub struct Coordinator {
    status: WorkFlag,
    current: BMatrixVector,
    dest: BMatrixVector,
    engine: Engine,
}

impl View for Coordinator {
    type V = CoordView;

    closed spec fn view(&self) -> CoordView {
        CoordView { status: self.status, current: self.current@, dest: self.dest@ }
    }
}

impl Coordinator {
    /// Both buffers are well-formed squares of the same extent and the
    /// engine is usable.
    pub open spec fn wf(&self) -> bool {
        &&& self@.current.wf()
        &&& self@.dest.wf()
        &&& self@.current.n == self@.dest.n
        &&& self.engine_wf()
    }

    /// The engine's own well-formedness (worker count positive).
    pub closed spec fn engine_wf(&self) -> bool {
        self.engine.wf()
    }

    /// Whether the configured backend is the frozen one.
    pub closed spec fn engine_is_skip(&self) -> bool {
        self.engine.is_skip()
    }

    /// Builds an idle coordinator whose both buffers start as copies of
    /// the seed pattern.
    pub fn new(init: BMatrixVector, update_method: Backend) -> (r: Self)
        requires
            init.wf(),
            update_method matches Backend::MultiThreaded(w) ==> 1 <= w,
        ensures
            r.wf(),
            r@.status == WorkFlag::Done,
            r@.current == init@,
            r@.dest == init@,
            r.engine_is_skip() <==> update_method == Backend::Skip,
    {
        let dest = init.clone();
        let engine = create_engine(update_method);
        Coordinator { status: WorkFlag::Done, current: init, dest, engine }
    }

    /// Read access to the latest published generation.
    pub fn current_snapshot(&self) -> (r: &BMatrixVector)
        ensures
            r@ == self@.current,
    {
        &self.current
    }

    /// Whether the producer is computing right now.
    pub fn status(&self) -> (r: WorkFlag)
        ensures
            r == self@.status,
    {
        self.status
    }

    /// Non-blocking request for the next generation.
    ///
    /// Idle: swaps the buffers in O(1), goes busy, and returns `true` —
    /// the caller must wake the producer. Busy: the request is dropped
    /// whole and `false` comes back; the in-flight computation is neither
    /// interrupted nor queued behind.
    pub fn request_next_generation(&mut self) -> (wake: bool)
        requires
            old(self).wf(),
        ensures
            final(self).wf(),
            final(self)@ == spec_request(old(self)@),
            wake == (old(self)@.status == WorkFlag::Done),
            final(self).engine_is_skip() == old(self).engine_is_skip(),
    {
        match self.status {
            WorkFlag::Done => {
                core::mem::swap(&mut self.current, &mut self.dest);
                self.status = WorkFlag::InProgress;
                true
            },
            WorkFlag::InProgress => false,
        }
    }

    /// The producer's half of the protocol: when busy, fill the
    /// destination with the next generation of the current buffer and go
    /// idle. When idle (spurious wakeup), do nothing.
    pub fn producer_step(&mut self)
        requires
            old(self).wf(),
        ensures
            final(self).wf(),
            final(self)@.current == old(self)@.current,
            final(self).engine_is_skip() == old(self).engine_is_skip(),
            old(self)@.status == WorkFlag::Done ==> *final(self) == *old(self),
            old(self)@.status == WorkFlag::InProgress ==> final(self)@.status == WorkFlag::Done,
            old(self)@.status == WorkFlag::InProgress && !old(self).engine_is_skip() ==> (
                final(self)@.dest.n == old(self)@.dest.n
                && final(self)@.dest.cells == spec_next_gen(old(self)@.current)
            ),
            old(self)@.status == WorkFlag::InProgress && old(self).engine_is_skip()
                ==> final(self)@.dest == old(self)@.dest,
    {
        match self.status {
            WorkFlag::InProgress => {
                proof {
                    let n = self@.current.n;
                    assert(self@.current.cells.len() == self@.dest.cells.len());
                }
                self.engine.next_b_matrix(&self.current, &mut self.dest);
                self.status = WorkFlag::Done;
            },
            WorkFlag::Done => {},
        }
    }
}

/// Busy-skip backpressure: `request_next_generation` always leaves the
/// coordinator busy, and a second request issued right after a first one
/// changes nothing at all — the state stays busy and the producer's
/// destination buffer is exactly what the first request left there.
pub proof fn lemma_busy_skip(c: CoordView)
    ensures
        spec_request(c).status == WorkFlag::InProgress,
        spec_request(spec_request(c)) == spec_request(c),
{
}

} // verus!
