//! Discrete beat extractor: emits only confirmed local flux maxima, found on
//! the falling edge of an outlier run.

use vstd::prelude::*;
use crate::band::Band;
use crate::flux::{flux_of, lemma_flux_all_zero, SpectralFlux};
use crate::ring::{ring_push_contents, Ring};
use crate::spectrum::{
    index_for, index_spec, lemma_index_spec_bound, lemma_index_spec_zero, FRAME_LIMIT,
};
use crate::threshold::{
    lemma_sum_all_zero, threshold_of, Threshold, SENSITIVITY_LIMIT, SENSITIVITY_SCALE, WINDOW_LIMIT,
};
use crate::onset::{all_zero_u32, all_zero_u64};
use crate::window::Window;
use vstd::arithmetic::div_mod::lemma_div_of0;
use vstd::arithmetic::mul::lemma_mul_strictly_positive;

verus! {

/// A confirmed beat: the frame offset it happened at (one frame before the
/// falling edge), the band it was found in, and its intensity -- the tracked
/// rising height normalized by the threshold value.
pub type BeatEvent<T> = (usize, Band<T>, u64);

/// Per-band tracking state of the extractor: the centered-flux history ring
/// and the tracked rising height of the current outlier candidate.
#[derive(Debug)]
pub struct State {
    fluxes: Ring<u64>,
    previous: u64,
}

impl State {
    /// The centered-flux history ring.
    pub closed spec fn spec_fluxes(&self) -> Ring<u64> {
        self.fluxes
    }

    /// The tracked rising height of the current candidate, zero when no
    /// candidate is active.
    pub closed spec fn spec_previous(&self) -> u64 {
        self.previous
    }

    /// Creates tracking state for a threshold window half-size of `size`:
    /// the history ring holds one value more, so its front is the centered
    /// flux.
    pub fn new(size: usize) -> (r: Self)
        requires
            size < usize::MAX,
        ensures
            r.spec_fluxes()@ == Seq::<u64>::empty(),
            r.spec_fluxes().capacity() == size + 1,
            r.spec_fluxes().wf(),
            r.spec_previous() == 0,
    {
        State { fluxes: Ring::new(size + 1), previous: 0 }
    }
}

impl Default for State {
    /// Tracking state for the default threshold window half-size of 25.
    fn default() -> (r: Self)
        ensures
            r.spec_fluxes()@ == Seq::<u64>::empty(),
            r.spec_fluxes().capacity() == 26,
            r.spec_fluxes().wf(),
            r.spec_previous() == 0,
    {
        State::new(25)
    }
}

/// The bins of `channel` covered by `band`.
pub open spec fn band_bins_of<T>(band: Band<T>, channel: Seq<u32>, size: int, rate: int) -> Seq<
    u32,
> {
    channel.subrange(
        index_spec(band.spec_low() as int, size, rate),
        index_spec(band.spec_high() as int, size, rate),
    )
}

/// One band's components are well formed and sized consistently.
pub open spec fn band_state_wf<T>(
    band: Band<T>,
    spectral: SpectralFlux,
    threshold: Threshold,
    state: State,
    size: int,
    rate: int,
) -> bool {
    &&& spectral.wf()
    &&& threshold.wf()
    &&& state.spec_fluxes().wf()
    &&& state.spec_fluxes().capacity() == threshold.spec_size() + 1
    &&& 0 <= index_spec(band.spec_low() as int, size, rate)
    &&& index_spec(band.spec_low() as int, size, rate) <= index_spec(
        band.spec_high() as int,
        size,
        rate,
    )
    &&& index_spec(band.spec_high() as int, size, rate) <= size / 2
    &&& spectral.spec_size() == index_spec(band.spec_high() as int, size, rate) - index_spec(
        band.spec_low() as int,
        size,
        rate,
    )
}

/// How one extraction step changes one band's running state.
pub open spec fn beat_stepped<T>(
    band: Band<T>,
    pre_spectral: SpectralFlux,
    pre_threshold: Threshold,
    pre_state: State,
    post_spectral: SpectralFlux,
    post_threshold: Threshold,
    post_state: State,
    channel: Seq<u32>,
    size: int,
    rate: int,
) -> bool {
    let fl = flux_of(band_bins_of(band, channel, size, rate), pre_spectral.spec_previous()) as u64;
    let k = pre_threshold.spec_size();
    let history = ring_push_contents(pre_threshold.spec_history(), (2 * k + 1) as nat, fl);
    &&& post_spectral.spec_size() == pre_spectral.spec_size()
    &&& post_spectral.spec_previous() == band_bins_of(band, channel, size, rate)
    &&& post_threshold.spec_size() == k
    &&& post_threshold.spec_sensitivity() == pre_threshold.spec_sensitivity()
    &&& post_threshold.spec_history() == history
    &&& post_threshold.spec_offset() == pre_threshold.spec_offset() + if post_threshold.spec_is_enough() {
        1int
    } else {
        0int
    }
    &&& post_state.spec_fluxes()@ == ring_push_contents(pre_state.spec_fluxes()@, (k + 1) as nat, fl)
    &&& post_state.spec_fluxes().capacity() == pre_state.spec_fluxes().capacity()
    &&& post_state.spec_previous() == if history.len() < 2 * k + 1 {
        pre_state.spec_previous() as int
    } else {
        let current = ring_push_contents(pre_state.spec_fluxes()@, (k + 1) as nat, fl)[0];
        let value = threshold_of(history, pre_threshold.spec_sensitivity()) as u64;
        if current > value {
            current - value
        } else {
            0int
        }
    }
}

/// The beat one extraction step emits for one band, if any: once warmed up,
/// a beat is confirmed when the centered flux is an outlier but the tracked
/// rising height already exceeds it -- the peak was passed one frame ago.
/// Its intensity is the rising height normalized by the threshold value.
pub open spec fn beat_emit<T>(
    band: Band<T>,
    spectral: SpectralFlux,
    threshold: Threshold,
    state: State,
    channel: Seq<u32>,
    size: int,
    rate: int,
) -> Option<BeatEvent<T>> {
    let fl = flux_of(band_bins_of(band, channel, size, rate), spectral.spec_previous()) as u64;
    let k = threshold.spec_size();
    let history = ring_push_contents(threshold.spec_history(), (2 * k + 1) as nat, fl);
    if history.len() < 2 * k + 1 {
        None
    } else {
        let current = ring_push_contents(state.spec_fluxes()@, (k + 1) as nat, fl)[0];
        let value = threshold_of(history, threshold.spec_sensitivity()) as u64;
        let frame = k + threshold.spec_offset() + 1;
        if current > value && state.spec_previous() > current {
            Some((((frame - 1) as usize), band, (state.spec_previous() - value) as u64))
        } else {
            None
        }
    }
}

/// The beats of one frame over all registered bands, in band order.
pub open spec fn beats_of<T>(
    bands: Seq<Band<T>>,
    spectrals: Seq<SpectralFlux>,
    thresholds: Seq<Threshold>,
    states: Seq<State>,
    channel: Seq<u32>,
    size: int,
    rate: int,
) -> Seq<BeatEvent<T>>
    decreases bands.len(),
{
    if bands.len() == 0 {
        Seq::empty()
    } else {
        let rest = beats_of(
            bands.drop_last(),
            spectrals.drop_last(),
            thresholds.drop_last(),
            states.drop_last(),
            channel,
            size,
            rate,
        );
        match beat_emit(
            bands.last(),
            spectrals.last(),
            thresholds.last(),
            states.last(),
            channel,
            size,
            rate,
        ) {
            Some(b) => rest.push(b),
            None => rest,
        }
    }
}

/// Discrete beat extractor over registered bands; produces a sparse list of
/// confirmed beats per analyzed frame, at most one per band.
#[derive(Debug)]
pub struct Beat<T> {
    size: usize,
    rate: u32,
    band: Vec<Band<T>>,
    spectral: Vec<SpectralFlux>,
    threshold: Vec<Threshold>,
    state: Vec<State>,
}

impl<T: Copy + Default> Beat<T> {
    /// The frame size in samples, taken from the framer.
    pub closed spec fn spec_size(&self) -> usize {
        self.size
    }

    /// The sample rate in Hz, taken from the framer.
    pub closed spec fn spec_rate(&self) -> u32 {
        self.rate
    }

    /// The registered bands, in registration order.
    pub closed spec fn spec_bands(&self) -> Seq<Band<T>> {
        self.band@
    }

    /// The per-band flux estimators.
    pub closed spec fn spec_spectrals(&self) -> Seq<SpectralFlux> {
        self.spectral@
    }

    /// The per-band thresholds.
    pub closed spec fn spec_thresholds(&self) -> Seq<Threshold> {
        self.threshold@
    }

    /// The per-band tracking states.
    pub closed spec fn spec_states(&self) -> Seq<State> {
        self.state@
    }

    /// The four per-band columns have equal length and each band's
    /// components are well formed.
    pub open spec fn wf(&self) -> bool {
        &&& 1 <= self.spec_size() <= FRAME_LIMIT
        &&& self.spec_rate() >= 1
        &&& self.spec_spectrals().len() == self.spec_bands().len()
        &&& self.spec_thresholds().len() == self.spec_bands().len()
        &&& self.spec_states().len() == self.spec_bands().len()
        &&& forall|i: int|
            0 <= i < self.spec_bands().len() ==> band_state_wf(
                #[trigger] self.spec_bands()[i],
                self.spec_spectrals()[i],
                self.spec_thresholds()[i],
                self.spec_states()[i],
                self.spec_size() as int,
                self.spec_rate() as int,
            )
    }

    /// Creates an extractor for frames of the given framer, with no bands
    /// registered yet.
    pub fn new(window: &Window) -> (r: Self)
        requires
            window.wf(),
        ensures
            r.wf(),
            r.spec_size() == window.spec_size(),
            r.spec_rate() == window.spec_rate(),
            r.spec_bands().len() == 0,
    {
        Beat {
            size: window.size(),
            rate: window.rate(),
            band: Vec::new(),
            spectral: Vec::new(),
            threshold: Vec::new(),
            state: Vec::new(),
        }
    }

    /// Registers a band, with either an explicit threshold configuration
    /// `(windowHalfSize, sensitivity in thousandths)` or the default
    /// `(25, 1500)`.  A band whose ends map to a reversed index pair is
    /// excluded: its flux estimator would have a negative bin count.
    pub fn with_band(self, band: Band<T>, threshold: Option<(usize, u32)>) -> (r: Self)
        requires
            self.wf(),
            index_spec(band.spec_low() as int, self.spec_size() as int, self.spec_rate() as int)
                <= index_spec(
                band.spec_high() as int,
                self.spec_size() as int,
                self.spec_rate() as int,
            ),
            match threshold {
                Some((size, sensitivity)) => size <= WINDOW_LIMIT && sensitivity
                    <= SENSITIVITY_LIMIT,
                None => true,
            },
        ensures
            r.wf(),
            r.spec_size() == self.spec_size(),
            r.spec_rate() == self.spec_rate(),
            r.spec_bands().len() == self.spec_bands().len() + 1,
            forall|i: int|
                0 <= i < self.spec_bands().len() ==> #[trigger] r.spec_bands()[i]
                    == self.spec_bands()[i] && r.spec_spectrals()[i] == self.spec_spectrals()[i]
                    && r.spec_thresholds()[i] == self.spec_thresholds()[i]
                    && r.spec_states()[i] == self.spec_states()[i],
            r.spec_bands().last() == band,
            r.spec_thresholds().last().spec_size() == match threshold {
                Some((size, _)) => size,
                None => 25usize,
            },
            r.spec_thresholds().last().spec_sensitivity() == match threshold {
                Some((_, sensitivity)) => sensitivity,
                None => 1500u32,
            },
            r.spec_thresholds().last().spec_offset() == 0,
            r.spec_thresholds().last().spec_history() == Seq::<u64>::empty(),
            r.spec_states().last().spec_fluxes()@ == Seq::<u64>::empty(),
            r.spec_states().last().spec_previous() == 0,
            r.spec_spectrals().last().spec_previous() == Seq::new(
                r.spec_spectrals().last().spec_size() as nat,
                |i: int| 0u32,
            ),
    {
        proof {
            lemma_index_spec_bound(
                band.spec_high() as int,
                self.spec_size() as int,
                self.spec_rate() as int,
            );
            lemma_index_spec_bound(
                band.spec_low() as int,
                self.spec_size() as int,
                self.spec_rate() as int,
            );
        }
        let mut this = self;
        let start = index_for(band.low(), this.size, this.rate);
        let end = index_for(band.high(), this.size, this.rate);
        this.spectral.push(SpectralFlux::new(end - start));
        match threshold {
            Some((size, sensitivity)) => {
                this.state.push(State::new(size));
                this.threshold.push(Threshold::new(size, sensitivity));
            },
            None => {
                this.state.push(State::default());
                this.threshold.push(Threshold::default());
            },
        }
        this.band.push(band);
        this
    }

    /// Registers the lazy full-spectrum default band `[0, rate / 2)` used
    /// when analysis starts with no band registered.
    fn initialize(&mut self)
        requires
            old(self).wf(),
        ensures
            final(self).wf(),
            final(self).spec_size() == old(self).spec_size(),
            final(self).spec_rate() == old(self).spec_rate(),
            final(self).spec_bands().len() == old(self).spec_bands().len() + 1,
            forall|i: int|
                0 <= i < old(self).spec_bands().len() ==> #[trigger] final(self).spec_bands()[i]
                    == old(self).spec_bands()[i] && final(self).spec_spectrals()[i] == old(
                    self,
                ).spec_spectrals()[i] && final(self).spec_thresholds()[i] == old(
                    self,
                ).spec_thresholds()[i] && final(self).spec_states()[i] == old(
                    self,
                ).spec_states()[i],
            final(self).spec_bands().last().spec_low() == 0,
            final(self).spec_bands().last().spec_high() == old(self).spec_rate() / 2,
            final(self).spec_thresholds().last().spec_size() == 25,
            final(self).spec_thresholds().last().spec_sensitivity() == 1500,
            final(self).spec_thresholds().last().spec_offset() == 0,
            final(self).spec_thresholds().last().spec_history() == Seq::<u64>::empty(),
            final(self).spec_states().last().spec_fluxes()@ == Seq::<u64>::empty(),
            final(self).spec_states().last().spec_previous() == 0,
            all_zero_u32(final(self).spec_spectrals().last().spec_previous()),
    {
        proof {
            lemma_index_spec_zero(self.spec_size() as int, self.spec_rate() as int);
            lemma_index_spec_bound(
                (self.spec_rate() / 2) as int,
                self.spec_size() as int,
                self.spec_rate() as int,
            );
        }
        let band: Band<T> = Band::new(0, self.rate / 2);
        let width = index_for(self.rate / 2, self.size, self.rate);
        self.band.push(band);
        self.spectral.push(SpectralFlux::new(width));
        self.threshold.push(Threshold::default());
        self.state.push(State::default());
    }

    /// Runs one frame of one band, updating its running state and returning
    /// the confirmed beat, if this frame confirms one.
    fn step_band(
        band: Band<T>,
        spectral: &mut SpectralFlux,
        threshold: &mut Threshold,
        state: &mut State,
        channel: &Vec<u32>,
        size: usize,
        rate: u32,
    ) -> (r: Option<BeatEvent<T>>)
        requires
            band_state_wf(band, *old(spectral), *old(threshold), *old(state), size as int, rate as int),
            1 <= size <= FRAME_LIMIT,
            rate >= 1,
            channel@.len() >= size / 2,
            old(threshold).spec_offset() + WINDOW_LIMIT + 1 <= usize::MAX,
        ensures
            band_state_wf(band, *final(spectral), *final(threshold), *final(state), size as int, rate as int),
            beat_stepped(
                band,
                *old(spectral),
                *old(threshold),
                *old(state),
                *final(spectral),
                *final(threshold),
                *final(state),
                channel@,
                size as int,
                rate as int,
            ),
            r == beat_emit(
                band,
                *old(spectral),
                *old(threshold),
                *old(state),
                channel@,
                size as int,
                rate as int,
            ),
    {
        let start = index_for(band.low(), size, rate);
        let end = index_for(band.high(), size, rate);
        let mut bins: Vec<u32> = Vec::new();
        let mut i: usize = start;
        while i < end
            invariant
                start <= i <= end,
                end <= channel@.len(),
                bins@ == channel@.subrange(start as int, i as int),
            decreases end - i,
        {
            bins.push(channel[i]);
            assert(bins@ =~= channel@.subrange(start as int, i + 1));
            i += 1;
        }
        let fl = spectral.compute(&bins);
        state.fluxes.push(fl);
        threshold.push(fl);
        if !threshold.is_enough() {
            return None;
        }
        let current = *state.fluxes.front();
        let (offset, value) = threshold.current();
        let mut result: Option<BeatEvent<T>> = None;
        if current > value {
            if state.previous > current {
                result = Some((offset - 1, band, state.previous - value));
            }
            state.previous = current - value;
        } else {
            state.previous = 0;
        }
        result
    }

    /// Analyzes one frame given as its magnitude spectrum (`size / 2 + 1`
    /// bins) and returns the confirmed beats of this frame, in band order.
    /// With no band registered, a full-spectrum default band is registered
    /// first and receives this frame.
    pub fn analyze(&mut self, channel: &Vec<u32>) -> (r: Vec<BeatEvent<T>>)
        requires
            old(self).wf(),
            channel@.len() == old(self).spec_size() / 2 + 1,
            forall|i: int|
                0 <= i < old(self).spec_thresholds().len() ==> (#[trigger] old(
                    self,
                ).spec_thresholds()[i]).spec_offset() + WINDOW_LIMIT + 1 <= usize::MAX,
        ensures
            final(self).wf(),
            final(self).spec_size() == old(self).spec_size(),
            final(self).spec_rate() == old(self).spec_rate(),
            final(self).spec_bands() == if old(self).spec_bands().len() > 0 {
                old(self).spec_bands()
            } else {
                final(self).spec_bands()
            },
            old(self).spec_bands().len() > 0 ==> {
                &&& final(self).spec_bands().len() == old(self).spec_bands().len()
                &&& forall|i: int|
                    0 <= i < old(self).spec_bands().len() ==> beat_stepped(
                        #[trigger] old(self).spec_bands()[i],
                        old(self).spec_spectrals()[i],
                        old(self).spec_thresholds()[i],
                        old(self).spec_states()[i],
                        final(self).spec_spectrals()[i],
                        final(self).spec_thresholds()[i],
                        final(self).spec_states()[i],
                        channel@,
                        old(self).spec_size() as int,
                        old(self).spec_rate() as int,
                    )
                &&& r@ == beats_of(
                    old(self).spec_bands(),
                    old(self).spec_spectrals(),
                    old(self).spec_thresholds(),
                    old(self).spec_states(),
                    channel@,
                    old(self).spec_size() as int,
                    old(self).spec_rate() as int,
                )
            },
            old(self).spec_bands().len() == 0 ==> {
                &&& final(self).spec_bands().len() == 1
                &&& r@.len() == 0
            },
    {
        let ghost was_empty = self.spec_bands().len() == 0;
        if self.band.len() == 0 {
            self.initialize();
        }
        let ghost bands = self.spec_bands();
        let ghost spectrals = self.spec_spectrals();
        let ghost thresholds = self.spec_thresholds();
        let ghost states = self.spec_states();
        let size = self.size;
        let rate = self.rate;
        let n = self.band.len();
        let mut result: Vec<BeatEvent<T>> = Vec::new();
        let mut i: usize = 0;
        while i < n
            invariant
                i <= n,
                n == self.spec_bands().len(),
                n == self.spec_spectrals().len(),
                n == self.spec_thresholds().len(),
                n == self.spec_states().len(),
                bands.len() == n && spectrals.len() == n && thresholds.len() == n && states.len()
                    == n,
                self.spec_size() == size,
                self.spec_rate() == rate,
                1 <= size <= FRAME_LIMIT,
                rate >= 1,
                channel@.len() >= size / 2,
                self.spec_bands() == bands,
                forall|j: int| i <= j < n ==> self.spec_spectrals()[j] == spectrals[j],
                forall|j: int| i <= j < n ==> self.spec_thresholds()[j] == thresholds[j],
                forall|j: int| i <= j < n ==> self.spec_states()[j] == states[j],
                forall|j: int|
                    i <= j < n ==> band_state_wf(
                        #[trigger] bands[j],
                        spectrals[j],
                        thresholds[j],
                        states[j],
                        size as int,
                        rate as int,
                    ),
                forall|j: int|
                    i <= j < n ==> (#[trigger] thresholds[j]).spec_offset() + WINDOW_LIMIT + 1
                        <= usize::MAX,
                forall|j: int|
                    0 <= j < i ==> band_state_wf(
                        #[trigger] bands[j],
                        self.spec_spectrals()[j],
                        self.spec_thresholds()[j],
                        self.spec_states()[j],
                        size as int,
                        rate as int,
                    ),
                forall|j: int|
                    0 <= j < i ==> beat_stepped(
                        #[trigger] bands[j],
                        spectrals[j],
                        thresholds[j],
                        states[j],
                        self.spec_spectrals()[j],
                        self.spec_thresholds()[j],
                        self.spec_states()[j],
                        channel@,
                        size as int,
                        rate as int,
                    ),
                result@ == beats_of(
                    bands.take(i as int),
                    spectrals.take(i as int),
                    thresholds.take(i as int),
                    states.take(i as int),
                    channel@,
                    size as int,
                    rate as int,
                ),
            decreases n - i,
        {
            proof {
                assert(self.spec_spectrals()[i as int] == spectrals[i as int]);
                assert(band_state_wf(
                    bands[i as int],
                    spectrals[i as int],
                    thresholds[i as int],
                    states[i as int],
                    size as int,
                    rate as int,
                ));
            }
            let band = self.band[i];
            let verdict = Self::step_band(
                band,
                &mut self.spectral[i],
                &mut self.threshold[i],
                &mut self.state[i],
                channel,
                size,
                rate,
            );
            proof {
                assert(bands.take(i + 1).drop_last() =~= bands.take(i as int));
                assert(spectrals.take(i + 1).drop_last() =~= spectrals.take(i as int));
                assert(thresholds.take(i + 1).drop_last() =~= thresholds.take(i as int));
                assert(states.take(i + 1).drop_last() =~= states.take(i as int));
                assert(bands.take(i + 1).last() == bands[i as int]);
                assert(spectrals.take(i + 1).last() == spectrals[i as int]);
                assert(thresholds.take(i + 1).last() == thresholds[i as int]);
                assert(states.take(i + 1).last() == states[i as int]);
            }
            match verdict {
                Some(b) => result.push(b),
                None => {},
            }
            i += 1;
        }
        proof {
            assert(bands.take(n as int) =~= bands);
            assert(spectrals.take(n as int) =~= spectrals);
            assert(thresholds.take(n as int) =~= thresholds);
            assert(states.take(n as int) =~= states);
            if was_empty {
                assert(ring_push_contents(
                    thresholds[0].spec_history(),
                    51nat,
                    flux_of(
                        band_bins_of(bands[0], channel@, size as int, rate as int),
                        spectrals[0].spec_previous(),
                    ) as u64,
                ).len() == 1);
                assert(beat_emit(
                    bands[0],
                    spectrals[0],
                    thresholds[0],
                    states[0],
                    channel@,
                    size as int,
                    rate as int,
                ) is None);
                reveal_with_fuel(beats_of, 3);
                assert(bands.drop_last() =~= Seq::<Band<T>>::empty());
                assert(result@.len() == 0);
            }
        }
        result
    }
}

/// Silence law for the beat extractor: a silent frame over silent running
/// state emits no beat and keeps the state silent, so an all-zero sample
/// stream yields no confirmed beats however long it runs.
pub proof fn lemma_silence_beat<T: Copy + Default>(
    band: Band<T>,
    spectral: SpectralFlux,
    threshold: Threshold,
    state: State,
    channel: Seq<u32>,
    size: int,
    rate: int,
)
    requires
        size >= 1,
        rate >= 1,
        band_state_wf(band, spectral, threshold, state, size, rate),
        all_zero_u32(spectral.spec_previous()),
        all_zero_u64(threshold.spec_history()),
        all_zero_u64(state.spec_fluxes()@),
        state.spec_previous() == 0,
        all_zero_u32(channel),
        channel.len() >= size / 2,
    ensures
        beat_emit(band, spectral, threshold, state, channel, size, rate) is None,
        forall|ps: SpectralFlux, pt: Threshold, pst: State|
            #[trigger] beat_stepped(
                band,
                spectral,
                threshold,
                state,
                ps,
                pt,
                pst,
                channel,
                size,
                rate,
            ) ==> all_zero_u32(ps.spec_previous()) && all_zero_u64(pt.spec_history())
                && all_zero_u64(pst.spec_fluxes()@) && pst.spec_previous() == 0,
{
    let bins = band_bins_of(band, channel, size, rate);
    assert(all_zero_u32(bins));
    lemma_flux_all_zero(bins, spectral.spec_previous());
    let fl = flux_of(bins, spectral.spec_previous()) as u64;
    assert(fl == 0);
    let k = threshold.spec_size();
    let history = ring_push_contents(threshold.spec_history(), (2 * k + 1) as nat, fl);
    assert(all_zero_u64(history));
    assert(all_zero_u64(ring_push_contents(state.spec_fluxes()@, (k + 1) as nat, fl)));
    if history.len() >= 2 * k + 1 {
        lemma_sum_all_zero(history);
        lemma_mul_strictly_positive(SENSITIVITY_SCALE as int, history.len() as int);
        lemma_div_of0((SENSITIVITY_SCALE as int) * history.len());
        assert(threshold_of(history, threshold.spec_sensitivity()) == 0);
        let fluxes = ring_push_contents(state.spec_fluxes()@, (k + 1) as nat, fl);
        assert(fluxes.len() > 0);
        assert(fluxes[0] == 0);
    }
}

/// Silence law over a whole frame: when every band's running state is
/// silent and well formed and the frame is all zero, no beat is emitted at
/// all -- an all-zero sample stream of any length yields zero confirmed
/// beats.
pub proof fn lemma_silence_no_beats<T: Copy + Default>(
    bands: Seq<Band<T>>,
    spectrals: Seq<SpectralFlux>,
    thresholds: Seq<Threshold>,
    states: Seq<State>,
    channel: Seq<u32>,
    size: int,
    rate: int,
)
    requires
        size >= 1,
        rate >= 1,
        spectrals.len() == bands.len(),
        thresholds.len() == bands.len(),
        states.len() == bands.len(),
        forall|i: int|
            0 <= i < bands.len() ==> band_state_wf(
                #[trigger] bands[i],
                spectrals[i],
                thresholds[i],
                states[i],
                size,
                rate,
            ),
        forall|i: int| 0 <= i < bands.len() ==> all_zero_u32((#[trigger] spectrals[i]).spec_previous()),
        forall|i: int| 0 <= i < bands.len() ==> all_zero_u64((#[trigger] thresholds[i]).spec_history()),
        forall|i: int|
            0 <= i < bands.len() ==> all_zero_u64((#[trigger] states[i]).spec_fluxes()@)
                && states[i].spec_previous() == 0,
        all_zero_u32(channel),
        channel.len() >= size / 2,
    ensures
        beats_of(bands, spectrals, thresholds, states, channel, size, rate)
            == Seq::<BeatEvent<T>>::empty(),
    decreases bands.len(),
{
    if bands.len() > 0 {
        lemma_silence_no_beats(
            bands.drop_last(),
            spectrals.drop_last(),
            thresholds.drop_last(),
            states.drop_last(),
            channel,
            size,
            rate,
        );
        lemma_silence_beat(
            bands.last(),
            spectrals.last(),
            thresholds.last(),
            states.last(),
            channel,
            size,
            rate,
        );
    }
}

} // verus!
