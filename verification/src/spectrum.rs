//! Mapping from a frequency in Hz to the index of the spectrum bin that
//! covers it, for an analysis frame of a given size and sample rate.
//!
//! A frame of `size` samples taken at `rate` Hz yields bins of width
//! `rate / size` Hz.  Frequencies inside the lowest half-bin map to bin 0,
//! frequencies inside the highest half-bin map to bin `size / 2`, and
//! everything between maps to the nearest bin `size * frequency / rate`.

use vstd::prelude::*;
use vstd::arithmetic::div_mod::{
    lemma_div_is_ordered, lemma_div_is_ordered_by_denominator, lemma_div_denominator,
    lemma_div_multiples_vanish, lemma_div_pos_is_pos, lemma_fundamental_div_mod,
    lemma_multiply_divide_le, lemma_basic_div,
};
use vstd::arithmetic::mul::lemma_mul_inequality;

verus! {

/// Largest accepted frame size; keeps every intermediate of the index
/// computation inside its machine word.
pub const FRAME_LIMIT: usize = 0x10000000;

/// The bin index for `frequency` Hz in a frame of `size` samples at `rate`
/// Hz: 0 inside the lowest half-bin, `size / 2` inside the highest half-bin,
/// and the nearest bin `size * frequency / rate` (rounded half up) between.
pub open spec fn index_spec(frequency: int, size: int, rate: int) -> int
    recommends
        size >= 1,
        rate >= 1,
{
    if frequency < rate / (2 * size) {
        0
    } else if frequency > (rate * (size - 1)) / (2 * size) {
        size / 2
    } else {
        (2 * size * frequency + rate) / (2 * rate)
    }
}

/// The bin index never exceeds half the frame size.
pub proof fn lemma_index_spec_bound(frequency: int, size: int, rate: int)
    requires
        size >= 1,
        rate >= 1,
        frequency >= 0,
    ensures
        0 <= index_spec(frequency, size, rate) <= size / 2,
{
    let upper = (rate * (size - 1)) / (2 * size);
    if frequency < rate / (2 * size) {
    } else if frequency > upper {
        lemma_div_pos_is_pos(size, 2);
    } else {
        lemma_fundamental_div_mod(rate * (size - 1), 2 * size);
        assert(2 * size * upper <= rate * (size - 1));
        lemma_mul_inequality(frequency, upper, 2 * size);
        assert(frequency * (2 * size) == 2 * size * frequency) by (nonlinear_arith);
        assert(upper * (2 * size) == 2 * size * upper) by (nonlinear_arith);
        assert(2 * size * frequency + rate <= rate * size) by {
            assert(rate * (size - 1) + rate == rate * size) by (nonlinear_arith);
        }
        lemma_div_is_ordered(2 * size * frequency + rate, rate * size, 2 * rate);
        assert((rate * size) / (2 * rate) == size / 2) by {
            lemma_div_denominator(rate * size, rate, 2);
            assert((rate * size) / rate == size) by {
                lemma_div_multiples_vanish(size, rate);
            }
            assert(rate * 2 == 2 * rate) by (nonlinear_arith);
        }
        lemma_div_pos_is_pos(2 * size * frequency + rate, 2 * rate);
    }
}

/// For any configuration where each bin is at most one hertz wide, the full
/// audible range maps onto the full bin range: frequency 0 maps to bin 0 and
/// the Nyquist frequency `rate / 2` maps to bin `size / 2`.
pub proof fn lemma_index_spec_full_range(size: int, rate: int)
    requires
        size >= 1,
        rate >= 2 * size,
    ensures
        index_spec(0, size, rate) == 0,
        index_spec(rate / 2, size, rate) == size / 2,
{
    let upper = (rate * (size - 1)) / (2 * size);
    assert(rate / (2 * size) >= 1) by {
        lemma_div_is_ordered(2 * size, rate, 2 * size);
        lemma_div_multiples_vanish(1, 2 * size);
        assert((2 * size) * 1 == 2 * size) by (nonlinear_arith);
    }
    assert(index_spec(0, size, rate) == 0);
    let f = rate / 2;
    assert(f >= size) by {
        lemma_div_is_ordered(2 * size, rate, 2);
        lemma_div_multiples_vanish(size, 2);
        assert(2 * size == size * 2) by (nonlinear_arith);
    }
    assert(f >= rate / (2 * size)) by {
        lemma_div_is_ordered_by_denominator(rate, 2, 2 * size);
    }
    assert(f > upper) by {
        lemma_fundamental_div_mod(rate * (size - 1), 2 * size);
        assert(2 * size * upper <= rate * (size - 1));
        assert(rate * (size - 1) <= size * (rate - 2)) by (nonlinear_arith)
            requires
                rate >= 2 * size,
                size >= 1,
        ;
        assert(2 * size * upper == (2 * upper) * size) by (nonlinear_arith);
        assert((2 * upper) * size <= (rate - 2) * size) by {
            assert(size * (rate - 2) == (rate - 2) * size) by (nonlinear_arith);
        }
        assert(2 * upper <= rate - 2) by (nonlinear_arith)
            requires
                (2 * upper) * size <= (rate - 2) * size,
                size >= 1,
        ;
        assert(2 * (upper + 1) <= rate);
        lemma_div_is_ordered(2 * (upper + 1), rate, 2);
        lemma_div_multiples_vanish(upper + 1, 2);
        assert(upper + 1 <= f);
    }
}

/// Frequency zero always maps to bin zero.
pub proof fn lemma_index_spec_zero(size: int, rate: int)
    requires
        size >= 1,
        rate >= 1,
    ensures
        index_spec(0, size, rate) == 0,
{
    lemma_div_pos_is_pos(rate * (size - 1), 2 * size);
    assert(rate * (size - 1) >= 0) by (nonlinear_arith)
        requires
            size >= 1,
            rate >= 1,
    ;
    if 0 < rate / (2 * size) {
    } else {
        assert((2 * size * 0 + rate) / (2 * rate) == 0) by {
            lemma_basic_div(rate, 2 * rate);
        }
    }
}

/// Computes the bin index for `frequency` Hz in a frame of `size` samples at
/// `rate` Hz.
pub fn index_for(frequency: u32, size: usize, rate: u32) -> (r: usize)
    requires
        1 <= size <= FRAME_LIMIT,
        rate >= 1,
    ensures
        r == index_spec(frequency as int, size as int, rate as int),
        r <= size / 2,
{
    proof {
        lemma_index_spec_bound(frequency as int, size as int, rate as int);
    }
    let s = size as u64;
    let rt = rate as u64;
    let f = frequency as u64;
    proof {
        assert((rt as int) * ((s as int) - 1) < 0x1000000000000000int) by (nonlinear_arith)
            requires
                rt <= 0xffffffffu64,
                1 <= s <= 0x10000000u64,
        ;
        assert(2 * (s as int) * (f as int) + (rt as int) < 0x4000000000000000int)
            by (nonlinear_arith)
            requires
                rt <= 0xffffffffu64,
                f <= 0xffffffffu64,
                1 <= s <= 0x10000000u64,
        ;
    }
    if f < rt / (2 * s) {
        return 0;
    }
    if f > (rt * (s - 1)) / (2 * s) {
        return size / 2;
    }
    ((2 * s * f + rt) / (2 * rt)) as usize
}

} // verus!
