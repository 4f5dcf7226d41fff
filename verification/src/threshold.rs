//! Per-band running local-average estimator over a centered sliding window of
//! past flux values, scaled by a sensitivity factor.

use vstd::prelude::*;
use crate::ring::{ring_push_contents, ring_run, lemma_ring_run_len, Ring};

verus! {

/// Largest accepted window half-size; keeps the centered window short enough
/// that the sum of its flux values stays inside the accumulator.
pub const WINDOW_LIMIT: usize = 1000000;

/// Largest accepted sensitivity; keeps the scaled sum inside the accumulator.
pub const SENSITIVITY_LIMIT: u32 = 1000000;

/// Sensitivity is expressed in thousandths: a sensitivity of 1500 scales the
/// local average by one and a half.
pub const SENSITIVITY_SCALE: u32 = 1000;

/// Sum of a history of flux values.
pub open spec fn sum_of(s: Seq<u64>) -> int
    decreases s.len(),
{
    if s.len() == 0 {
        0
    } else {
        sum_of(s.drop_last()) + s.last()
    }
}

/// The sum of a history is bounded by its length times the largest flux.
pub proof fn lemma_sum_bound(s: Seq<u64>)
    ensures
        0 <= sum_of(s) <= s.len() * (u64::MAX as int),
    decreases s.len(),
{
    if s.len() > 0 {
        lemma_sum_bound(s.drop_last());
        assert((s.len() - 1) * (u64::MAX as int) + (u64::MAX as int) == s.len() * (
        u64::MAX as int)) by (nonlinear_arith);
    }
}

/// A history of silence sums to zero.
pub proof fn lemma_sum_all_zero(s: Seq<u64>)
    requires
        forall|i: int| 0 <= i < s.len() ==> s[i] == 0,
    ensures
        sum_of(s) == 0,
    decreases s.len(),
{
    if s.len() > 0 {
        lemma_sum_all_zero(s.drop_last());
    }
}

/// The threshold value over a history: the mean of the history scaled by the
/// sensitivity (in thousandths), saturated to the result type.
pub open spec fn threshold_of(history: Seq<u64>, sensitivity: u32) -> int
    recommends
        history.len() > 0,
{
    let scaled = sensitivity * sum_of(history) / (SENSITIVITY_SCALE * history.len());
    if scaled > u64::MAX {
        u64::MAX as int
    } else {
        scaled
    }
}

/// The emitted offset after `n` pushes into a centered window of `cap`
/// values: one per push from the push that first fills the window on.
pub open spec fn offset_run(cap: nat, n: nat) -> nat
    decreases n,
{
    if n == 0 {
        0
    } else {
        offset_run(cap, (n - 1) as nat) + if n >= cap {
            1nat
        } else {
            0nat
        }
    }
}

/// Warm-up law: after `n` pushes into a fresh threshold with half-size `k`,
/// the history holds `min(n, 2k+1)` values, so the estimator has enough
/// history if and only if `n >= 2k+1` -- false until exactly `2k+1` values
/// were pushed, true for every push thereafter, for any `k >= 0`.
pub proof fn lemma_threshold_warmup(k: nat, values: Seq<u64>)
    ensures
        forall|n: int|
            0 <= n <= values.len() ==> (#[trigger] ring_run(2 * k + 1, values.take(n)).len() >= 2
                * k + 1 <==> n >= 2 * k + 1),
{
    assert forall|n: int| 0 <= n <= values.len() implies (#[trigger] ring_run(
        2 * k + 1,
        values.take(n),
    ).len() >= 2 * k + 1 <==> n >= 2 * k + 1) by {
        lemma_ring_run_len(2 * k + 1, values.take(n));
    }
}

/// Monotone-offset law: once the centered window of `cap` values is full,
/// the emitted offset advances by exactly one per push; after `n >= cap`
/// pushes it equals `n - cap + 1`, and before that it is zero.
pub proof fn lemma_threshold_offset(cap: nat, n: nat)
    requires
        cap >= 1,
    ensures
        offset_run(cap, n) == if n >= cap {
            n - cap + 1
        } else {
            0
        },
        n + 1 >= cap ==> offset_run(cap, n + 1) == offset_run(cap, n) + 1,
    decreases n,
{
    if n > 0 {
        lemma_threshold_offset(cap, (n - 1) as nat);
    }
}

/// Locally adaptive threshold over a centered ring of the `2k+1` most recent
/// flux values.  Once the ring is full, every push advances `offset` by one;
/// that offset aligns a ring position with a frame count.
#[derive(Debug)]
pub struct Threshold {
    size: usize,
    sensitivity: u32,
    offset: usize,
    fluxes: Ring<u64>,
}

impl Threshold {
    /// The window half-size `k` the threshold was created with.
    pub closed spec fn spec_size(&self) -> usize {
        self.size
    }

    /// The sensitivity, in thousandths.
    pub closed spec fn spec_sensitivity(&self) -> u32 {
        self.sensitivity
    }

    /// Count of pushes since the history first reached full capacity,
    /// that push included.
    pub closed spec fn spec_offset(&self) -> usize {
        self.offset
    }

    /// The history ring itself, for well-formedness statements.
    pub closed spec fn spec_ring(&self) -> Ring<u64> {
        self.fluxes
    }

    /// The retained flux history, oldest first.
    pub open spec fn spec_history(&self) -> Seq<u64> {
        self.spec_ring()@
    }

    /// The history ring has capacity `2k+1`; the offset is zero before the
    /// ring first fills and positive from then on.
    pub open spec fn wf(&self) -> bool {
        &&& self.spec_ring().wf()
        &&& self.spec_ring().capacity() == 2 * self.spec_size() + 1
        &&& self.spec_size() <= WINDOW_LIMIT
        &&& self.spec_sensitivity() <= SENSITIVITY_LIMIT
        &&& self.spec_history().len() == 2 * self.spec_size() + 1 ==> self.spec_offset() >= 1
        &&& self.spec_history().len() < 2 * self.spec_size() + 1 ==> self.spec_offset() == 0
    }

    /// Whether the history holds `2k+1` values.
    pub open spec fn spec_is_enough(&self) -> bool {
        self.spec_history().len() >= 2 * self.spec_size() + 1
    }

    /// Creates a threshold with window half-size `size` and the given
    /// sensitivity in thousandths.
    pub fn new(size: usize, sensitivity: u32) -> (r: Self)
        requires
            size <= WINDOW_LIMIT,
            sensitivity <= SENSITIVITY_LIMIT,
        ensures
            r.wf(),
            r.spec_size() == size,
            r.spec_sensitivity() == sensitivity,
            r.spec_offset() == 0,
            r.spec_history() == Seq::<u64>::empty(),
    {
        Threshold { size, sensitivity, offset: 0, fluxes: Ring::new(size * 2 + 1) }
    }

    /// True once `2k+1` values have been pushed.
    pub fn is_enough(&self) -> (r: bool)
        requires
            self.wf(),
        ensures
            r == self.spec_is_enough(),
    {
        self.fluxes.len() >= self.size * 2 + 1
    }

    /// Inserts a flux value into the centered history; once the history is
    /// full, advances the emitted offset by one.
    pub fn push(&mut self, flux: u64)
        requires
            old(self).wf(),
            old(self).spec_offset() < usize::MAX,
        ensures
            final(self).wf(),
            final(self).spec_size() == old(self).spec_size(),
            final(self).spec_sensitivity() == old(self).spec_sensitivity(),
            final(self).spec_history() == ring_push_contents(
                old(self).spec_history(),
                (2 * old(self).spec_size() + 1) as nat,
                flux,
            ),
            final(self).spec_offset() == old(self).spec_offset() + if final(self).spec_is_enough() {
                1int
            } else {
                0int
            },
    {
        self.fluxes.push(flux);
        if self.fluxes.len() >= self.size * 2 + 1 {
            self.offset = self.offset + 1;
        }
    }

    /// The frame offset `k + emittedOffset` paired with the current threshold
    /// value: the mean of the history scaled by the sensitivity.  The caller
    /// compensates the `k`-frame lag of the centered window when converting
    /// the frame offset to wall-clock time.
    pub fn current(&self) -> (r: (usize, u64))
        requires
            self.wf(),
            self.spec_history().len() > 0,
            self.spec_size() + self.spec_offset() <= usize::MAX,
        ensures
            r.0 == self.spec_size() + self.spec_offset(),
            r.1 == threshold_of(self.spec_history(), self.spec_sensitivity()),
    {
        let ghost history = self.fluxes@;
        let len = self.fluxes.len();
        let mut sum: u128 = 0;
        let mut i: usize = 0;
        while i < len
            invariant
                self.wf(),
                len == history.len(),
                history == self.fluxes@,
                i <= len,
                sum == sum_of(history.take(i as int)),
                sum <= i * (u64::MAX as int),
            decreases len - i,
        {
            assert((i + 1) * (u64::MAX as int) == i * (u64::MAX as int) + (u64::MAX as int))
                by (nonlinear_arith);
            let value = *self.fluxes.get(i);
            proof {
                assert(history.take(i + 1).drop_last() =~= history.take(i as int));
            }
            sum = sum + value as u128;
            i += 1;
        }
        proof {
            assert(history.take(len as int) =~= history);
            lemma_sum_bound(history);
            assert(sum <= (2 * WINDOW_LIMIT + 1) * (u64::MAX as int)) by {
                assert(history.len() * (u64::MAX as int) <= (2 * WINDOW_LIMIT + 1) * (
                u64::MAX as int)) by (nonlinear_arith)
                    requires
                        history.len() <= 2 * WINDOW_LIMIT + 1,
                ;
            }
            assert((self.spec_sensitivity() as int) * (sum as int) <= (SENSITIVITY_LIMIT as int) * (
            (2 * WINDOW_LIMIT + 1) * (u64::MAX as int))) by (nonlinear_arith)
                requires
                    self.spec_sensitivity() <= SENSITIVITY_LIMIT,
                    0 <= sum <= (2 * WINDOW_LIMIT + 1) * (u64::MAX as int),
            ;
        }
        let scaled: u128 = (self.sensitivity as u128) * sum / ((SENSITIVITY_SCALE as u128) * (
        len as u128));
        let value: u64 = if scaled > u64::MAX as u128 {
            u64::MAX
        } else {
            scaled as u64
        };
        (self.size + self.offset, value)
    }
}

impl Default for Threshold {
    /// The default threshold: window half-size 25, sensitivity one and a
    /// half.
    fn default() -> (r: Self)
        ensures
            r.wf(),
            r.spec_size() == 25,
            r.spec_sensitivity() == 1500,
            r.spec_offset() == 0,
            r.spec_history() == Seq::<u64>::empty(),
    {
        Threshold::new(25, 1500)
    }
}

} // verus!
