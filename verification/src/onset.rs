//! Continuous per-frame peak classifier: one verdict per band per frame once
//! the adaptive threshold has warmed up.

use vstd::prelude::*;
use crate::band::Band;
use crate::flux::{flux_of, lemma_flux_all_zero, SpectralFlux};
use crate::peak::Peak;
use crate::ring::{ring_push_contents, Ring};
use crate::spectrum::{
    index_for, index_spec, lemma_index_spec_bound, lemma_index_spec_zero, FRAME_LIMIT,
};
use crate::threshold::{
    lemma_sum_all_zero, threshold_of, Threshold, SENSITIVITY_LIMIT, SENSITIVITY_SCALE, WINDOW_LIMIT,
};
use crate::window::Window;
use vstd::arithmetic::div_mod::lemma_div_of0;
use vstd::arithmetic::mul::lemma_mul_strictly_positive;
use crate::peak::lemma_peak_fields;

verus! {

/// The verdict for one band and one frame: a confirmed outlier (`Ok`) or an
/// ordinary frame (`Err`), each carrying the peak record for the frame.
pub type Verdict<T> = Result<Peak<T>, Peak<T>>;

/// Every value of the sequence is zero.
pub open spec fn all_zero_u32(s: Seq<u32>) -> bool {
    forall|i: int| 0 <= i < s.len() ==> s[i] == 0
}

/// Every value of the sequence is zero.
pub open spec fn all_zero_u64(s: Seq<u64>) -> bool {
    forall|i: int| 0 <= i < s.len() ==> s[i] == 0
}

/// Per-band analysis state: the band, its flux estimator, its adaptive
/// threshold, and the short history ring whose front is the centered flux
/// value under classification.
pub struct State<T> {
    band: Band<T>,
    spectral: SpectralFlux,
    threshold: Threshold,
    fluxes: Ring<u64>,
}

impl<T> State<T> {
    /// The band this state analyzes.
    pub closed spec fn spec_band(&self) -> Band<T> {
        self.band
    }

    /// The flux estimator.
    pub closed spec fn spec_spectral(&self) -> SpectralFlux {
        self.spectral
    }

    /// The adaptive threshold.
    pub closed spec fn spec_threshold(&self) -> Threshold {
        self.threshold
    }

    /// The centered-flux history ring.
    pub closed spec fn spec_fluxes(&self) -> Ring<u64> {
        self.fluxes
    }

    /// The components are well formed and sized consistently: the flux
    /// estimator covers exactly the bins of the band, and the history ring
    /// holds one more value than the threshold window half-size.
    pub open spec fn wf(&self, size: int, rate: int) -> bool {
        &&& self.spec_spectral().wf()
        &&& self.spec_threshold().wf()
        &&& self.spec_fluxes().wf()
        &&& self.spec_fluxes().capacity() == self.spec_threshold().spec_size() + 1
        &&& 0 <= index_spec(self.spec_band().spec_low() as int, size, rate)
        &&& index_spec(self.spec_band().spec_low() as int, size, rate) <= index_spec(
            self.spec_band().spec_high() as int,
            size,
            rate,
        )
        &&& index_spec(self.spec_band().spec_high() as int, size, rate) <= size / 2
        &&& self.spec_spectral().spec_size() == index_spec(
            self.spec_band().spec_high() as int,
            size,
            rate,
        ) - index_spec(self.spec_band().spec_low() as int, size, rate)
    }
}

/// The bins of `channel` covered by the band of `st`.
pub open spec fn band_bins<T>(st: State<T>, channel: Seq<u32>, size: int, rate: int) -> Seq<u32> {
    channel.subrange(
        index_spec(st.spec_band().spec_low() as int, size, rate),
        index_spec(st.spec_band().spec_high() as int, size, rate),
    )
}

/// The flux one analysis step computes for `st` on `channel`.
pub open spec fn step_flux<T>(st: State<T>, channel: Seq<u32>, size: int, rate: int) -> int {
    flux_of(band_bins(st, channel, size, rate), st.spec_spectral().spec_previous())
}

/// How one analysis step changes the per-band state: the flux of the frame
/// is computed against the stored previous frame, then pushed into both the
/// centered history ring and the threshold.
pub open spec fn stepped<T>(
    pre: State<T>,
    post: State<T>,
    channel: Seq<u32>,
    size: int,
    rate: int,
) -> bool {
    let fl = step_flux(pre, channel, size, rate) as u64;
    let k = pre.spec_threshold().spec_size();
    &&& post.spec_band() == pre.spec_band()
    &&& post.spec_spectral().spec_size() == pre.spec_spectral().spec_size()
    &&& post.spec_spectral().spec_previous() == band_bins(pre, channel, size, rate)
    &&& post.spec_threshold().spec_size() == k
    &&& post.spec_threshold().spec_sensitivity() == pre.spec_threshold().spec_sensitivity()
    &&& post.spec_threshold().spec_history() == ring_push_contents(
        pre.spec_threshold().spec_history(),
        (2 * k + 1) as nat,
        fl,
    )
    &&& post.spec_threshold().spec_offset() == pre.spec_threshold().spec_offset() + if post.spec_threshold().spec_is_enough() {
        1int
    } else {
        0int
    }
    &&& post.spec_fluxes()@ == ring_push_contents(pre.spec_fluxes()@, (k + 1) as nat, fl)
    &&& post.spec_fluxes().capacity() == pre.spec_fluxes().capacity()
}

/// The verdict one analysis step emits for `st` on `channel`: nothing while
/// the threshold history is still warming up; afterwards `Ok` when the
/// centered flux exceeds the threshold value and `Err` otherwise, with the
/// peak carrying the frame offset, the threshold value and the centered
/// flux.
pub open spec fn step_verdict<T: Copy + Default>(
    st: State<T>,
    channel: Seq<u32>,
    size: int,
    rate: int,
) -> Option<Verdict<T>> {
    let fl = step_flux(st, channel, size, rate) as u64;
    let k = st.spec_threshold().spec_size();
    let history = ring_push_contents(st.spec_threshold().spec_history(), (2 * k + 1) as nat, fl);
    if history.len() < 2 * k + 1 {
        None
    } else {
        let current = ring_push_contents(st.spec_fluxes()@, (k + 1) as nat, fl)[0];
        let value = threshold_of(history, st.spec_threshold().spec_sensitivity()) as u64;
        let frame = (k + st.spec_threshold().spec_offset() + 1) as usize;
        let peak = Peak::spec_new(st.spec_band(), frame, value, current);
        if current > value {
            Some(Ok(peak))
        } else {
            Some(Err(peak))
        }
    }
}

/// The verdicts of one frame over a sequence of band states, in band order;
/// bands still warming up contribute nothing.
pub open spec fn verdicts_of<T: Copy + Default>(
    states: Seq<State<T>>,
    channel: Seq<u32>,
    size: int,
    rate: int,
) -> Seq<Verdict<T>>
    decreases states.len(),
{
    if states.len() == 0 {
        Seq::empty()
    } else {
        let rest = verdicts_of(states.drop_last(), channel, size, rate);
        match step_verdict(states.last(), channel, size, rate) {
            Some(v) => rest.push(v),
            None => rest,
        }
    }
}

/// A freshly registered full-spectrum band state with the default threshold
/// configuration, as lazy initialization creates it.
pub open spec fn default_state<T>(st: State<T>, size: int, rate: u32) -> bool {
    &&& st.wf(size, rate as int)
    &&& st.spec_band().spec_low() == 0
    &&& st.spec_band().spec_high() == rate / 2
    &&& st.spec_threshold().spec_size() == 25
    &&& st.spec_threshold().spec_sensitivity() == 1500
    &&& st.spec_threshold().spec_offset() == 0
    &&& st.spec_threshold().spec_history() == Seq::<u64>::empty()
    &&& st.spec_fluxes()@ == Seq::<u64>::empty()
    &&& all_zero_u32(st.spec_spectral().spec_previous())
}

impl<T: Copy + Default> State<T> {
    /// Runs one frame of one band: computes the flux of the band's bins
    /// against the stored previous frame, feeds it to the history ring and
    /// the threshold, and classifies the centered flux once warmed up.
    fn step(&mut self, channel: &Vec<u32>, size: usize, rate: u32) -> (r: Option<Verdict<T>>)
        requires
            old(self).wf(size as int, rate as int),
            1 <= size <= FRAME_LIMIT,
            rate >= 1,
            channel@.len() >= size / 2,
            old(self).spec_threshold().spec_offset() + WINDOW_LIMIT + 1 <= usize::MAX,
        ensures
            final(self).wf(size as int, rate as int),
            stepped(*old(self), *final(self), channel@, size as int, rate as int),
            r == step_verdict(*old(self), channel@, size as int, rate as int),
    {
        let start = index_for(self.band.low(), size, rate);
        let end = index_for(self.band.high(), size, rate);
        let mut bins: Vec<u32> = Vec::new();
        let mut i: usize = start;
        while i < end
            invariant
                start <= i <= end,
                end <= channel@.len(),
                bins@ == channel@.subrange(start as int, i as int),
            decreases end - i,
        {
            bins.push(channel[i]);
            assert(bins@ =~= channel@.subrange(start as int, i + 1));
            i += 1;
        }
        let fl = self.spectral.compute(&bins);
        self.fluxes.push(fl);
        self.threshold.push(fl);
        if !self.threshold.is_enough() {
            return None;
        }
        let current = *self.fluxes.front();
        let (offset, value) = self.threshold.current();
        let peak = Peak::new(self.band, offset, value, current);
        if current > value {
            Some(Ok(peak))
        } else {
            Some(Err(peak))
        }
    }
}

/// Continuous classifier: for every registered band and every frame after
/// warm-up, emits exactly one verdict.
pub struct Onset<T> {
    size: usize,
    rate: u32,
    state: Vec<State<T>>,
}

impl<T: Copy + Default> Onset<T> {
    /// The frame size in samples, taken from the framer.
    pub closed spec fn spec_size(&self) -> usize {
        self.size
    }

    /// The sample rate in Hz, taken from the framer.
    pub closed spec fn spec_rate(&self) -> u32 {
        self.rate
    }

    /// The per-band states, in registration order.
    pub closed spec fn spec_states(&self) -> Seq<State<T>> {
        self.state@
    }

    /// The configuration is in range and every band state is well formed.
    pub open spec fn wf(&self) -> bool {
        &&& 1 <= self.spec_size() <= FRAME_LIMIT
        &&& self.spec_rate() >= 1
        &&& forall|i: int|
            0 <= i < self.spec_states().len() ==> (#[trigger] self.spec_states()[i]).wf(
                self.spec_size() as int,
                self.spec_rate() as int,
            )
    }

    /// Creates a classifier for frames of the given framer, with no bands
    /// registered yet.
    pub fn new(window: &Window) -> (r: Self)
        requires
            window.wf(),
        ensures
            r.wf(),
            r.spec_size() == window.spec_size(),
            r.spec_rate() == window.spec_rate(),
            r.spec_states().len() == 0,
    {
        Onset { size: window.size(), rate: window.rate(), state: Vec::new() }
    }

    /// Registers a band, with either an explicit threshold configuration
    /// `(windowHalfSize, sensitivity in thousandths)` or the default
    /// `(25, 1500)`.  A band whose ends map to a reversed index pair is
    /// excluded: its flux estimator would have a negative bin count.
    pub fn with_band(self, band: Band<T>, threshold: Option<(usize, u32)>) -> (r: Self)
        requires
            self.wf(),
            index_spec(band.spec_low() as int, self.spec_size() as int, self.spec_rate() as int)
                <= index_spec(
                band.spec_high() as int,
                self.spec_size() as int,
                self.spec_rate() as int,
            ),
            match threshold {
                Some((size, sensitivity)) => size <= WINDOW_LIMIT && sensitivity
                    <= SENSITIVITY_LIMIT,
                None => true,
            },
        ensures
            r.wf(),
            r.spec_size() == self.spec_size(),
            r.spec_rate() == self.spec_rate(),
            r.spec_states().len() == self.spec_states().len() + 1,
            forall|i: int|
                0 <= i < self.spec_states().len() ==> r.spec_states()[i] == self.spec_states()[i],
            ({
                let st = r.spec_states().last();
                &&& st.spec_band() == band
                &&& st.spec_threshold().spec_size() == match threshold {
                    Some((size, _)) => size,
                    None => 25usize,
                }
                &&& st.spec_threshold().spec_sensitivity() == match threshold {
                    Some((_, sensitivity)) => sensitivity,
                    None => 1500u32,
                }
                &&& st.spec_threshold().spec_offset() == 0
                &&& st.spec_threshold().spec_history() == Seq::<u64>::empty()
                &&& st.spec_fluxes()@ == Seq::<u64>::empty()
                &&& st.spec_spectral().spec_previous() == Seq::new(
                    st.spec_spectral().spec_size() as nat,
                    |i: int| 0u32,
                )
            }),
    {
        proof {
            lemma_index_spec_bound(
                band.spec_high() as int,
                self.spec_size() as int,
                self.spec_rate() as int,
            );
            lemma_index_spec_bound(
                band.spec_low() as int,
                self.spec_size() as int,
                self.spec_rate() as int,
            );
        }
        let mut this = self;
        let start = index_for(band.low(), this.size, this.rate);
        let end = index_for(band.high(), this.size, this.rate);
        let spectral = SpectralFlux::new(end - start);
        let (thr, cap) = match threshold {
            Some((size, sensitivity)) => (Threshold::new(size, sensitivity), size + 1),
            None => (Threshold::new(25, 1500), 26),
        };
        let st = State { band, spectral, threshold: thr, fluxes: Ring::new(cap) };
        this.state.push(st);
        this
    }

    /// Registers the lazy full-spectrum default band `[0, rate / 2)` used
    /// when analysis starts with no band registered.
    fn initialize(&mut self)
        requires
            old(self).wf(),
        ensures
            final(self).wf(),
            final(self).spec_size() == old(self).spec_size(),
            final(self).spec_rate() == old(self).spec_rate(),
            final(self).spec_states().len() == old(self).spec_states().len() + 1,
            forall|i: int|
                0 <= i < old(self).spec_states().len() ==> final(self).spec_states()[i] == old(
                    self,
                ).spec_states()[i],
            default_state(
                final(self).spec_states().last(),
                old(self).spec_size() as int,
                old(self).spec_rate(),
            ),
    {
        proof {
            lemma_index_spec_zero(self.spec_size() as int, self.spec_rate() as int);
            lemma_index_spec_bound(
                (self.spec_rate() / 2) as int,
                self.spec_size() as int,
                self.spec_rate() as int,
            );
        }
        let band: Band<T> = Band::new(0, self.rate / 2);
        let width = index_for(self.rate / 2, self.size, self.rate);
        let spectral = SpectralFlux::new(width);
        let st = State { band, spectral, threshold: Threshold::new(25, 1500), fluxes: Ring::new(
            26,
        ) };
        self.state.push(st);
    }

    /// Analyzes one frame given as its magnitude spectrum (`size / 2 + 1`
    /// bins) and returns one verdict per warmed-up band, in band order.
    /// With no band registered, a full-spectrum default band is registered
    /// first and receives this frame.
    pub fn analyze(&mut self, channel: &Vec<u32>) -> (r: Vec<Verdict<T>>)
        requires
            old(self).wf(),
            channel@.len() == old(self).spec_size() / 2 + 1,
            forall|i: int|
                0 <= i < old(self).spec_states().len() ==> (#[trigger] old(
                    self,
                ).spec_states()[i]).spec_threshold().spec_offset() + WINDOW_LIMIT + 1
                    <= usize::MAX,
        ensures
            final(self).wf(),
            final(self).spec_size() == old(self).spec_size(),
            final(self).spec_rate() == old(self).spec_rate(),
            old(self).spec_states().len() > 0 ==> {
                &&& final(self).spec_states().len() == old(self).spec_states().len()
                &&& forall|i: int|
                    0 <= i < old(self).spec_states().len() ==> stepped(
                        old(self).spec_states()[i],
                        #[trigger] final(self).spec_states()[i],
                        channel@,
                        old(self).spec_size() as int,
                        old(self).spec_rate() as int,
                    )
                &&& r@ == verdicts_of(
                    old(self).spec_states(),
                    channel@,
                    old(self).spec_size() as int,
                    old(self).spec_rate() as int,
                )
            },
            old(self).spec_states().len() == 0 ==> {
                &&& final(self).spec_states().len() == 1
                &&& r@.len() == 0
                &&& exists|st0: State<T>|
                    default_state(st0, old(self).spec_size() as int, old(self).spec_rate())
                        && #[trigger] stepped(
                        st0,
                        final(self).spec_states()[0],
                        channel@,
                        old(self).spec_size() as int,
                        old(self).spec_rate() as int,
                    )
            },
    {
        let ghost was_empty = self.spec_states().len() == 0;
        if self.state.len() == 0 {
            self.initialize();
        }
        let ghost base = self.spec_states();
        let size = self.size;
        let rate = self.rate;
        let n = self.state.len();
        let mut result: Vec<Verdict<T>> = Vec::new();
        let mut i: usize = 0;
        while i < n
            invariant
                i <= n,
                n == self.spec_states().len(),
                base.len() == n,
                self.spec_size() == size,
                self.spec_rate() == rate,
                1 <= size <= FRAME_LIMIT,
                rate >= 1,
                channel@.len() >= size / 2,
                forall|j: int| i <= j < n ==> self.spec_states()[j] == base[j],
                forall|j: int|
                    i <= j < n ==> (#[trigger] base[j]).wf(size as int, rate as int),
                forall|j: int|
                    i <= j < n ==> (#[trigger] base[j]).spec_threshold().spec_offset()
                        + WINDOW_LIMIT + 1 <= usize::MAX,
                forall|j: int|
                    0 <= j < i ==> stepped(
                        base[j],
                        #[trigger] self.spec_states()[j],
                        channel@,
                        size as int,
                        rate as int,
                    ) && self.spec_states()[j].wf(size as int, rate as int),
                result@ == verdicts_of(base.take(i as int), channel@, size as int, rate as int),
            decreases n - i,
        {
            proof {
                assert(self.spec_states()[i as int] == base[i as int]);
                assert(base[i as int].wf(size as int, rate as int));
                assert(base[i as int].spec_threshold().spec_offset() + WINDOW_LIMIT + 1
                    <= usize::MAX);
            }
            let verdict = self.state[i].step(channel, size, rate);
            proof {
                let t = base.take(i + 1);
                assert(t.drop_last() =~= base.take(i as int));
                assert(t.last() == base[i as int]);
            }
            match verdict {
                Some(v) => result.push(v),
                None => {},
            }
            i += 1;
        }
        proof {
            assert(base.take(n as int) =~= base);
            if was_empty {
                let st0 = base[0];
                assert(default_state(st0, size as int, rate));
                assert(ring_push_contents(
                    st0.spec_threshold().spec_history(),
                    51nat,
                    step_flux(st0, channel@, size as int, rate as int) as u64,
                ).len() == 1);
                assert(base.drop_last() =~= Seq::<State<T>>::empty());
                assert(base.last() == base[0]);
                assert(step_verdict(st0, channel@, size as int, rate as int) is None);
                reveal_with_fuel(verdicts_of, 3);
                assert(verdicts_of(base, channel@, size as int, rate as int).len() == 0);
                assert(stepped(
                    st0,
                    self.spec_states()[0],
                    channel@,
                    size as int,
                    rate as int,
                ));
            }
        }
        result
    }
}

/// Silence law for the continuous classifier: a silent frame over a silent
/// state keeps the state silent and never produces an outlier verdict --
/// once warmed up, the verdict is `Err` with flux zero and threshold zero,
/// so an all-zero stream yields an unbroken stream of `Err` verdicts.
pub proof fn lemma_silence_continuous<T: Copy + Default>(
    pre: State<T>,
    channel: Seq<u32>,
    size: int,
    rate: int,
)
    requires
        size >= 1,
        rate >= 1,
        pre.wf(size, rate),
        silent_state(pre),
        all_zero_u32(channel),
        channel.len() >= size / 2,
    ensures
        forall|post: State<T>|
            #[trigger] stepped(pre, post, channel, size, rate) ==> silent_state(post),
        step_verdict(pre, channel, size, rate) matches Some(v) ==> v matches Err(p)
            && p.spec_flux() == 0 && p.spec_threshold() == 0,
{
    let bins = band_bins(pre, channel, size, rate);
    assert(all_zero_u32(bins));
    lemma_flux_all_zero(bins, pre.spec_spectral().spec_previous());
    let fl = step_flux(pre, channel, size, rate) as u64;
    assert(fl == 0);
    let k = pre.spec_threshold().spec_size();
    let history = ring_push_contents(pre.spec_threshold().spec_history(), (2 * k + 1) as nat, fl);
    assert(all_zero_u64(history));
    assert(all_zero_u64(ring_push_contents(pre.spec_fluxes()@, (k + 1) as nat, fl)));
    if history.len() >= 2 * k + 1 {
        lemma_sum_all_zero(history);
        let denominator = (SENSITIVITY_SCALE as int) * history.len();
        lemma_mul_strictly_positive(SENSITIVITY_SCALE as int, history.len() as int);
        lemma_div_of0(denominator);
        assert(threshold_of(history, pre.spec_threshold().spec_sensitivity()) == 0);
        let fluxes = ring_push_contents(pre.spec_fluxes()@, (k + 1) as nat, fl);
        assert(fluxes.len() > 0);
        let current = fluxes[0];
        assert(current == 0);
        let value = threshold_of(history, pre.spec_threshold().spec_sensitivity()) as u64;
        let frame = (k + pre.spec_threshold().spec_offset() + 1) as usize;
        lemma_peak_fields(pre.spec_band(), frame, value, current);
    }
}

/// A per-band state is silent when its stored previous frame, its threshold
/// history and its centered-flux history hold only zeros; fresh states are
/// silent, and silence persists under silent input.
pub open spec fn silent_state<T>(st: State<T>) -> bool {
    &&& all_zero_u32(st.spec_spectral().spec_previous())
    &&& all_zero_u64(st.spec_threshold().spec_history())
    &&& all_zero_u64(st.spec_fluxes()@)
}

/// Silence law over a whole frame: when every band state is silent and well
/// formed and the frame is all zero, no band's verdict is an outlier.
pub proof fn lemma_silence_frame<T: Copy + Default>(
    states: Seq<State<T>>,
    channel: Seq<u32>,
    size: int,
    rate: int,
)
    requires
        size >= 1,
        rate >= 1,
        forall|i: int| 0 <= i < states.len() ==> (#[trigger] states[i]).wf(size, rate),
        forall|i: int| 0 <= i < states.len() ==> silent_state(#[trigger] states[i]),
        all_zero_u32(channel),
        channel.len() >= size / 2,
    ensures
        forall|i: int|
            0 <= i < verdicts_of(states, channel, size, rate).len() ==> (#[trigger] verdicts_of(
                states,
                channel,
                size,
                rate,
            )[i]) is Err,
    decreases states.len(),
{
    if states.len() > 0 {
        lemma_silence_frame(states.drop_last(), channel, size, rate);
        let last = states.last();
        lemma_silence_continuous(last, channel, size, rate);
    }
}

} // verus!
