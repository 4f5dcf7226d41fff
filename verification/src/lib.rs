//! Beat and onset detection over streamed stereo PCM audio.
//!
//! The crate reframes interleaved stereo samples into fixed-size analysis
//! frames, measures frame-to-frame spectral energy increase (spectral flux)
//! inside configurable frequency bands, and classifies flux spikes against a
//! locally adaptive threshold.  Spectral magnitudes are carried as scaled
//! integers; the forward spectral transform that produces them is an external
//! collaborator and stays outside this crate.

pub mod band;
pub mod beat;
pub mod channels;
pub mod flux;
pub mod onset;
pub mod peak;
pub mod ring;
pub mod spectrum;
pub mod threshold;
pub mod window;

pub use band::{lemma_full_band_covers, Band};
pub use beat::{beat_emit, beat_stepped, beats_of, lemma_silence_beat, lemma_silence_no_beats, Beat,
    BeatEvent};
pub use channels::{Channel, Channels};
pub use flux::{flux_of, lemma_flux_all_zero, lemma_flux_identical, lemma_flux_nonneg,
    SpectralFlux};
pub use onset::{lemma_silence_continuous, lemma_silence_frame, step_verdict, stepped, verdicts_of,
    Onset, Verdict};
pub use peak::Peak;
pub use ring::{lemma_ring_eviction, lemma_ring_run_len, ring_push_contents, ring_push_evicted,
    ring_run, Ring};
pub use spectrum::{index_for, index_spec, lemma_index_spec_bound, lemma_index_spec_full_range,
    FRAME_LIMIT};
pub use threshold::{lemma_threshold_offset, lemma_threshold_warmup, offset_run, sum_of,
    threshold_of, Threshold, SENSITIVITY_LIMIT, SENSITIVITY_SCALE, WINDOW_LIMIT};
pub use window::{mono_mix, Window};
