//! Per-band running computation of positive spectral energy change between
//! consecutive frames.

use vstd::prelude::*;

verus! {

/// Positive part of the change from `prev[i]` to `cur[i]`.
pub open spec fn positive_diff(cur: u32, prev: u32) -> int {
    if cur > prev {
        cur - prev
    } else {
        0
    }
}

/// Spectral flux between two frames restricted to one band: the sum over all
/// bins of the positive part of the magnitude change (half-wave
/// rectification; only energy increases count).
pub open spec fn flux_of(cur: Seq<u32>, prev: Seq<u32>) -> int
    recommends
        cur.len() == prev.len(),
    decreases cur.len(),
{
    if cur.len() == 0 {
        0
    } else {
        flux_of(cur.drop_last(), prev.drop_last()) + positive_diff(
            cur.last(),
            prev.last(),
        )
    }
}

/// Half-wave rectification invariant: the flux is never negative.
pub proof fn lemma_flux_nonneg(cur: Seq<u32>, prev: Seq<u32>)
    ensures
        flux_of(cur, prev) >= 0,
    decreases cur.len(),
{
    if cur.len() > 0 {
        lemma_flux_nonneg(cur.drop_last(), prev.drop_last());
    }
}

/// No change means no flux: two identical frames have flux zero.  After a
/// `compute` call the stored previous frame equals its input, so feeding the
/// same frame again returns zero.
pub proof fn lemma_flux_identical(frame: Seq<u32>)
    ensures
        flux_of(frame, frame) == 0,
    decreases frame.len(),
{
    if frame.len() > 0 {
        lemma_flux_identical(frame.drop_last());
    }
}

/// A frame of silence over a silent previous frame has flux zero.
pub proof fn lemma_flux_all_zero(cur: Seq<u32>, prev: Seq<u32>)
    requires
        cur.len() == prev.len(),
        forall|i: int| 0 <= i < cur.len() ==> cur[i] == 0,
        forall|i: int| 0 <= i < prev.len() ==> prev[i] == 0,
    ensures
        flux_of(cur, prev) == 0,
    decreases cur.len(),
{
    if cur.len() > 0 {
        lemma_flux_all_zero(cur.drop_last(), prev.drop_last());
    }
}

/// Running spectral-flux estimator for one band of `size` bins.  `previous`
/// holds the prior frame's magnitude per bin; it starts all zero, so the
/// first frame contributes its full positive energy as flux.
#[derive(Debug)]
pub struct SpectralFlux {
    size: usize,
    previous: Vec<u32>,
}

impl SpectralFlux {
    /// Number of bins this estimator was fixed to at construction.
    pub closed spec fn spec_size(&self) -> usize {
        self.size
    }

    /// The stored previous-frame magnitudes.
    pub closed spec fn spec_previous(&self) -> Seq<u32> {
        self.previous@
    }

    /// The stored frame always has exactly `size` bins, and the bin count is
    /// small enough that a frame's total flux fits the accumulator.
    pub open spec fn wf(&self) -> bool {
        &&& self.spec_previous().len() == self.spec_size()
        &&& self.spec_size() <= u32::MAX as usize
    }

    /// Creates an estimator for `size` bins with an all-zero previous frame.
    pub fn new(size: usize) -> (r: Self)
        requires
            size <= u32::MAX as usize,
        ensures
            r.wf(),
            r.spec_size() == size,
            r.spec_previous() == Seq::new(size as nat, |i: int| 0u32),
    {
        let mut previous: Vec<u32> = Vec::new();
        let mut i: usize = 0;
        while i < size
            invariant
                i <= size,
                previous@ == Seq::new(i as nat, |j: int| 0u32),
            decreases size - i,
        {
            previous.push(0);
            assert(previous@ =~= Seq::new((i + 1) as nat, |j: int| 0u32));
            i += 1;
        }
        SpectralFlux { size, previous }
    }

    /// Sums the positive magnitude changes from the stored previous frame to
    /// `input`, then replaces the stored frame with `input`.  The input length
    /// must equal the size fixed at construction; a mismatch is a
    /// misconfiguration, excluded here rather than tolerated.
    pub fn compute(&mut self, input: &Vec<u32>) -> (r: u64)
        requires
            old(self).wf(),
            input@.len() == old(self).spec_size(),
        ensures
            final(self).wf(),
            final(self).spec_size() == old(self).spec_size(),
            final(self).spec_previous() == input@,
            r == flux_of(input@, old(self).spec_previous()),
    {
        let ghost prev = self.previous@;
        let mut result: u64 = 0;
        let mut i: usize = 0;
        while i < self.size
            invariant
                self.wf(),
                self.spec_size() == old(self).spec_size(),
                input@.len() == self.spec_size(),
                i <= self.size,
                prev.len() == self.spec_size(),
                self.spec_previous() =~= input@.take(i as int) + prev.skip(i as int),
                result == flux_of(input@.take(i as int), prev.take(i as int)),
                result <= i * (u32::MAX as int),
            decreases self.size - i,
        {
            let current = input[i];
            let before = self.previous[i];
            let diff: u32 = if current > before {
                current - before
            } else {
                0
            };
            assert((i + 1) * (u32::MAX as int) == i * (u32::MAX as int) + (u32::MAX as int))
                by (nonlinear_arith);
            result = result + diff as u64;
            self.previous[i] = current;
            proof {
                assert(input@.take(i + 1).drop_last() =~= input@.take(i as int));
                assert(prev.take(i + 1).drop_last() =~= prev.take(i as int));
                assert(self.spec_previous() =~= input@.take(i + 1) + prev.skip(i + 1));
            }
            i += 1;
        }
        proof {
            assert(input@.take(self.size as int) =~= input@);
            assert(prev.take(self.size as int) =~= prev);
            assert(self.spec_previous() =~= input@);
        }
        result
    }
}

} // verus!
