//! An immutable frequency interval `[low, high)` in Hz carrying an optional
//! user payload, with slicing of a spectrum to the bins it covers.

use vstd::prelude::*;
use crate::spectrum::{index_for, index_spec, lemma_index_spec_full_range, FRAME_LIMIT};

verus! {

/// A frequency band `[low, high)` in Hz.  The payload is inert user metadata
/// (a label, an identifier) carried alongside so that downstream consumers
/// can tell which band an event came from; equality ignores it.  The range
/// invariant `low < high` is the caller's responsibility and is never
/// validated here.
#[derive(Clone, Copy, Debug)]
pub struct Band<T> {
    low: u32,
    high: u32,
    payload: T,
}

impl<T> Band<T> {
    /// Lower bound of the interval, inclusive, in Hz.
    pub closed spec fn spec_low(&self) -> u32 {
        self.low
    }

    /// Upper bound of the interval, exclusive, in Hz.
    pub closed spec fn spec_high(&self) -> u32 {
        self.high
    }

    /// The user payload.
    pub closed spec fn spec_payload(&self) -> T {
        self.payload
    }
}

impl<T: Copy + Default> Band<T> {
    /// Creates a band over `[low, high)` with the payload left at its
    /// default.
    pub fn new(low: u32, high: u32) -> (r: Self)
        ensures
            r.spec_low() == low,
            r.spec_high() == high,
    {
        Band { low, high, payload: Default::default() }
    }

    /// Retags the band: same range, new payload (possibly of another type).
    pub fn with<U: Copy + Default>(self, value: U) -> (r: Band<U>)
        ensures
            r.spec_low() == self.spec_low(),
            r.spec_high() == self.spec_high(),
            r.spec_payload() == value,
    {
        Band { low: self.low, high: self.high, payload: value }
    }

    /// Lower bound of the interval, inclusive, in Hz.
    pub fn low(&self) -> (r: u32)
        ensures
            r == self.spec_low(),
    {
        self.low
    }

    /// Upper bound of the interval, exclusive, in Hz.
    pub fn high(&self) -> (r: u32)
        ensures
            r == self.spec_high(),
    {
        self.high
    }

    /// Read access to the payload.
    pub fn payload(&self) -> (r: &T)
        ensures
            *r == self.spec_payload(),
    {
        &self.payload
    }

    /// The bins of `spectrum` whose center frequency falls inside the band.
    /// The spectrum is understood to hold `frameSize / 2` bins, so both ends
    /// are mapped through the index of a frame of `2 * spectrum.len()`
    /// samples; the end is exclusive.  A reversed index pair would underflow
    /// the range and is excluded rather than tolerated.
    pub fn as_slice(&self, spectrum: &Vec<u32>, rate: u32) -> (r: Vec<u32>)
        requires
            rate >= 1,
            1 <= spectrum@.len(),
            2 * spectrum@.len() as int <= FRAME_LIMIT,
            index_spec(self.spec_low() as int, 2 * spectrum@.len() as int, rate as int) <= index_spec(
                self.spec_high() as int,
                2 * spectrum@.len() as int,
                rate as int,
            ),
        ensures
            r@ == spectrum@.subrange(
                index_spec(self.spec_low() as int, 2 * spectrum@.len() as int, rate as int),
                index_spec(self.spec_high() as int, 2 * spectrum@.len() as int, rate as int),
            ),
            r@.len() == index_spec(self.spec_high() as int, 2 * spectrum@.len() as int, rate as int)
                - index_spec(self.spec_low() as int, 2 * spectrum@.len() as int, rate as int),
    {
        let size = 2 * spectrum.len();
        let start = index_for(self.low, size, rate);
        let end = index_for(self.high, size, rate);
        let mut r: Vec<u32> = Vec::new();
        let mut i: usize = start;
        while i < end
            invariant
                start <= i <= end,
                end <= spectrum@.len(),
                r@ == spectrum@.subrange(start as int, i as int),
            decreases end - i,
        {
            r.push(spectrum[i]);
            assert(r@ =~= spectrum@.subrange(start as int, i + 1));
            i += 1;
        }
        r
    }
}

/// Full-coverage law: for a full-spectrum band `[0, rate / 2)` over a
/// spectrum of `len` bins (a frame of `2 * len` samples), the slice runs
/// from bin 0 to bin `len` -- the whole spectrum -- whenever each bin is at
/// most one hertz wide.
pub proof fn lemma_full_band_covers(len: int, rate: int)
    requires
        len >= 1,
        rate >= 4 * len,
    ensures
        index_spec(0, 2 * len, rate) == 0,
        index_spec(rate / 2, 2 * len, rate) == len,
{
    lemma_index_spec_full_range(2 * len, rate);
}

impl<T> PartialEq for Band<T> {
    /// Two bands are equal when they cover the same range; the payload is
    /// ignored.
    fn eq(&self, other: &Band<T>) -> bool {
        self.low == other.low && self.high == other.high
    }
}

impl<T> vstd::std_specs::cmp::PartialEqSpecImpl for Band<T> {
    open spec fn obeys_eq_spec() -> bool {
        true
    }

    open spec fn eq_spec(&self, other: &Band<T>) -> bool {
        self.spec_low() == other.spec_low() && self.spec_high() == other.spec_high()
    }
}

} // verus!
