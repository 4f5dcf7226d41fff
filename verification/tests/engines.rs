use beater::{Band, Beat, Onset, Window};

fn zero_spectrum() -> Vec<u32> {
    // Spectrum of a frame of 8 samples: 8 / 2 + 1 bins.
    vec![0, 0, 0, 0, 0]
}

#[test]
fn onset_silence_gives_err_verdicts() {
    let window = Window::new(8, 100);
    let mut onset: Onset<()> = Onset::new(&window).with_band(Band::new(0, 50), Some((1, 1500)));
    // Warm-up: no verdict for the first 2k = 2 frames.
    assert_eq!(onset.analyze(&zero_spectrum()).len(), 0);
    assert_eq!(onset.analyze(&zero_spectrum()).len(), 0);
    // From the (2k+1)-th frame on, silence yields an unbroken stream of
    // Err verdicts with flux zero and threshold zero.
    for n in 0..20 {
        let verdicts = onset.analyze(&zero_spectrum());
        assert_eq!(verdicts.len(), 1, "frame {}", n);
        let peak = verdicts[0].as_ref().expect_err("silence is never an outlier");
        assert_eq!(peak.flux(), 0);
        assert_eq!(peak.threshold(), 0);
    }
}

#[test]
fn onset_lazy_default_band() {
    let window = Window::new(8, 100);
    let mut onset: Onset<()> = Onset::new(&window);
    // With no band registered, the first analyze registers the default
    // full-spectrum band, whose threshold half-size of 25 needs 51 frames.
    for _ in 0..50 {
        assert_eq!(onset.analyze(&zero_spectrum()).len(), 0);
    }
    assert_eq!(onset.analyze(&zero_spectrum()).len(), 1);
}

#[test]
fn onset_impulse_becomes_outlier() {
    let window = Window::new(8, 100);
    let mut onset: Onset<()> = Onset::new(&window).with_band(Band::new(0, 50), Some((1, 1500)));
    for _ in 0..3 {
        onset.analyze(&zero_spectrum());
    }
    // One frame of broadband energy: the band covers bins 0..4.
    let verdicts = onset.analyze(&vec![10, 10, 10, 10, 0]);
    // The centered flux still lags one frame behind: not an outlier yet.
    assert_eq!(verdicts.len(), 1);
    let lagging = verdicts[0].as_ref().expect_err("the impulse flux is still centered");
    assert_eq!(lagging.flux(), 0);
    assert_eq!(lagging.threshold(), 20);
    // Next frame the impulse flux of 40 reaches the center of the window
    // and exceeds the threshold 1500 * 40 / (1000 * 3) = 20.
    let verdicts = onset.analyze(&zero_spectrum());
    assert_eq!(verdicts.len(), 1);
    let peak = verdicts[0].as_ref().expect("the impulse flux is an outlier");
    assert_eq!(peak.flux(), 40);
    assert_eq!(peak.threshold(), 20);
    assert_eq!(peak.offset(), 4);
    assert_eq!(peak.band().low(), 0);
    assert_eq!(peak.band().high(), 50);
}

#[test]
fn beat_silence_gives_no_beats() {
    let window = Window::new(8, 100);
    let mut beat: Beat<()> = Beat::new(&window).with_band(Band::new(0, 50), Some((2, 1500)));
    for n in 0..40 {
        assert_eq!(beat.analyze(&zero_spectrum()).len(), 0, "frame {}", n);
    }
}

#[test]
fn beat_lazy_default_band() {
    let window = Window::new(8, 100);
    let mut beat: Beat<()> = Beat::new(&window);
    for n in 0..60 {
        assert_eq!(beat.analyze(&zero_spectrum()).len(), 0, "frame {}", n);
    }
}

#[test]
fn beat_single_impulse_yields_one_beat() {
    let window = Window::new(8, 100);
    let mut beat: Beat<u32> = Beat::new(&window).with_band(
        Band::<()>::new(0, 50).with(7u32),
        Some((2, 1500)),
    );
    let mut beats = Vec::new();
    // Silence, one two-frame impulse decaying on its falling edge, silence.
    let frames: Vec<Vec<u32>> = vec![
        zero_spectrum(),
        zero_spectrum(),
        zero_spectrum(),
        zero_spectrum(),
        vec![250, 250, 250, 250, 0],
        vec![358, 357, 357, 357, 0],
        zero_spectrum(),
        zero_spectrum(),
        zero_spectrum(),
        zero_spectrum(),
        zero_spectrum(),
    ];
    for frame in &frames {
        beats.extend(beat.analyze(frame));
    }
    // Exactly one confirmed beat, one frame-offset after the impulse frame,
    // with positive intensity.
    assert_eq!(beats.len(), 1);
    let (offset, band, intensity) = &beats[0];
    assert_eq!(*offset, 5);
    assert_eq!(band.low(), 0);
    assert_eq!(band.high(), 50);
    assert_eq!(*band.payload(), 7);
    assert_eq!(*intensity, 144);
}

#[test]
fn onset_analyzes_bands_independently() {
    let window = Window::new(8, 100);
    let mut onset: Onset<u32> = Onset::new(&window)
        .with_band(Band::<()>::new(0, 25).with(1u32), Some((1, 1500)))
        .with_band(Band::<()>::new(25, 50).with(2u32), Some((1, 1500)));
    for _ in 0..2 {
        assert_eq!(onset.analyze(&zero_spectrum()).len(), 0);
    }
    // Energy only in the upper band: bins 0..2 belong to the lower band,
    // bins 2..4 to the upper one.  The jump to 90 per bin gives the upper
    // band a flux of 180; one frame later that flux reaches the center of
    // its window and exceeds the threshold, while the lower band stays
    // silent.
    onset.analyze(&vec![0, 0, 90, 90, 0]);
    let verdicts = onset.analyze(&vec![0, 0, 90, 90, 0]);
    assert_eq!(verdicts.len(), 2);
    assert!(verdicts[0].is_err(), "the silent band never flags");
    assert_eq!(verdicts[0].as_ref().unwrap_err().band().payload(), &1);
    let upper = verdicts[1].as_ref().expect("the energetic band flags an outlier");
    assert_eq!(*upper.band().payload(), 2);
    assert_eq!(upper.flux(), 180);
    assert_eq!(upper.threshold(), 90);
}

#[test]
fn beat_state_construction() {
    let _explicit = beater::beat::State::new(3);
    let _default = beater::beat::State::default();
}

#[test]
fn end_to_end_silent_stream() {
    // Frame an all-zero interleaved stereo stream; an all-zero frame has an
    // all-zero magnitude spectrum, which the extractor never flags.
    let mut window = Window::new(8, 100);
    let mut beat: Beat<()> = Beat::new(&window.clone()).with_band(Band::new(0, 50), Some((1, 1500)));
    let silence: Vec<i16> = vec![0; 16];
    for _ in 0..30 {
        window.push(&silence);
        let channels = window.next().expect("a full frame per push");
        assert!(channels.mono().samples().iter().all(|&s| s == 0));
        let spectrum: Vec<u32> = vec![0; channels.mono().samples().len() / 2 + 1];
        assert_eq!(beat.analyze(&spectrum).len(), 0);
    }
}
