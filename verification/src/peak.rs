//! Immutable result record for one classified frame of one band.

use vstd::prelude::*;
use crate::band::Band;

verus! {

/// A classification result: the band it came from, the frame offset the
/// verdict refers to, the threshold value in force, and the flux value that
/// was classified.  A value type with no identity beyond its fields.
///
/// The offset counts analysis frames; multiply by the frame advance in
/// samples and divide by the sample rate to obtain seconds.
#[derive(Clone, Copy, Debug)]
pub struct Peak<T> {
    band: Band<T>,
    offset: usize,
    threshold: u64,
    flux: u64,
}

impl<T: Copy + Default> Peak<T> {
    /// The peak value with the given fields, for stating what an analysis
    /// step emits.
    pub closed spec fn spec_new(band: Band<T>, offset: usize, threshold: u64, flux: u64) -> Peak<
        T,
    > {
        Peak { band, offset, threshold, flux }
    }

    /// The band the peak was observed in.
    pub closed spec fn spec_band(&self) -> Band<T> {
        self.band
    }

    /// The frame offset the verdict refers to.
    pub closed spec fn spec_offset(&self) -> usize {
        self.offset
    }

    /// The threshold value in force when the verdict was made.
    pub closed spec fn spec_threshold(&self) -> u64 {
        self.threshold
    }

    /// The flux value that was classified.
    pub closed spec fn spec_flux(&self) -> u64 {
        self.flux
    }

    /// Bundles a classification result.
    pub fn new(band: Band<T>, offset: usize, threshold: u64, flux: u64) -> (r: Self)
        ensures
            r == Self::spec_new(band, offset, threshold, flux),
            r.spec_band() == band,
            r.spec_offset() == offset,
            r.spec_threshold() == threshold,
            r.spec_flux() == flux,
    {
        Peak { band, offset, threshold, flux }
    }

    /// The frame offset the verdict refers to.
    pub fn offset(&self) -> (r: usize)
        ensures
            r == self.spec_offset(),
    {
        self.offset
    }

    /// The band the peak was observed in.
    pub fn band(&self) -> (r: &Band<T>)
        ensures
            *r == self.spec_band(),
    {
        &self.band
    }

    /// The threshold value in force when the verdict was made.
    pub fn threshold(&self) -> (r: u64)
        ensures
            r == self.spec_threshold(),
    {
        self.threshold
    }

    /// The flux value that was classified.
    pub fn flux(&self) -> (r: u64)
        ensures
            r == self.spec_flux(),
    {
        self.flux
    }
}

/// The fields of a peak built by `spec_new` are exactly the given ones.
pub broadcast proof fn lemma_peak_fields<T: Copy + Default>(
    band: Band<T>,
    offset: usize,
    threshold: u64,
    flux: u64,
)
    ensures
        (#[trigger] Peak::spec_new(band, offset, threshold, flux)).spec_band() == band,
        Peak::spec_new(band, offset, threshold, flux).spec_offset() == offset,
        Peak::spec_new(band, offset, threshold, flux).spec_threshold() == threshold,
        Peak::spec_new(band, offset, threshold, flux).spec_flux() == flux,
{
}

} // verus!
