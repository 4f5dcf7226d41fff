use beater::{Band, Channels, Peak, Ring, SpectralFlux, Threshold, Window};

#[test]
fn ring_eviction() {
    let mut ring: Ring<u32> = Ring::new(3);
    assert_eq!(ring.push(1), None);
    assert_eq!(ring.push(2), None);
    assert_eq!(ring.push(3), None);
    assert_eq!(ring.len(), 3);
    // The (capacity + 1)-th push evicts and returns the first-pushed value.
    assert_eq!(ring.push(4), Some(1));
    assert_eq!(ring.len(), 3);
    assert_eq!(*ring.front(), 2);
    assert_eq!(*ring.get(1), 3);
    assert_eq!(*ring.get(2), 4);
}

#[test]
fn ring_pop() {
    let mut ring: Ring<u32> = Ring::new(2);
    assert_eq!(ring.pop(), None);
    ring.push(7);
    ring.push(9);
    assert_eq!(ring.pop(), Some(7));
    assert_eq!(ring.pop(), Some(9));
    assert_eq!(ring.pop(), None);
}

#[test]
fn flux_first_frame_counts_fully() {
    let mut flux = SpectralFlux::new(3);
    // The previous frame starts all zero, so the first frame contributes
    // its full energy.
    assert_eq!(flux.compute(&vec![5, 2, 7]), 14);
}

#[test]
fn flux_identical_frames_give_zero() {
    let mut flux = SpectralFlux::new(3);
    flux.compute(&vec![5, 2, 7]);
    assert_eq!(flux.compute(&vec![5, 2, 7]), 0);
}

#[test]
fn flux_half_wave_rectification() {
    let mut flux = SpectralFlux::new(3);
    flux.compute(&vec![5, 2, 7]);
    // Only increases count: +1 on the middle bin, decreases are dropped.
    assert_eq!(flux.compute(&vec![4, 3, 0]), 1);
    // A pure decrease yields zero, never a negative value.
    assert_eq!(flux.compute(&vec![0, 0, 0]), 0);
}

#[test]
fn threshold_warm_up() {
    let mut threshold = Threshold::new(2, 1500);
    // is_enough is false until exactly 2k+1 = 5 values were pushed.
    for n in 0..5 {
        assert!(!threshold.is_enough(), "after {} pushes", n);
        threshold.push(1);
    }
    assert!(threshold.is_enough());
    threshold.push(1);
    assert!(threshold.is_enough());
}

#[test]
fn threshold_offset_advances_once_full() {
    let mut threshold = Threshold::new(2, 1000);
    for _ in 0..5 {
        threshold.push(10);
    }
    // frameOffset = k + emittedOffset; the filling push counts.
    assert_eq!(threshold.current().0, 2 + 1);
    threshold.push(10);
    assert_eq!(threshold.current().0, 2 + 2);
    threshold.push(10);
    assert_eq!(threshold.current().0, 2 + 3);
}

#[test]
fn threshold_value_is_scaled_mean() {
    let mut threshold = Threshold::new(1, 2000);
    threshold.push(1);
    threshold.push(2);
    threshold.push(3);
    // value = sensitivity * sum / (1000 * len) = 2000 * 6 / 3000 = 4.
    let (offset, value) = threshold.current();
    assert_eq!(offset, 1 + 1);
    assert_eq!(value, 4);
}

#[test]
fn threshold_default_configuration() {
    let mut threshold = Threshold::default();
    for _ in 0..51 {
        threshold.push(2);
    }
    assert!(threshold.is_enough());
    // 1500 * (51 * 2) / (1000 * 51) = 3.
    assert_eq!(threshold.current(), (25 + 1, 3));
}

#[test]
fn threshold_zero_half_size() {
    // The degenerate half-size k = 0 still works: the window holds one
    // value and warms up on the first push.
    let mut threshold = Threshold::new(0, 1000);
    assert!(!threshold.is_enough());
    threshold.push(8);
    assert!(threshold.is_enough());
    assert_eq!(threshold.current(), (0 + 1, 8));
}

#[test]
fn threshold_value_saturates() {
    let mut threshold = Threshold::new(0, 2000);
    threshold.push(u64::MAX);
    // Twice the largest flux does not fit the result type: the value
    // saturates instead of wrapping.
    assert_eq!(threshold.current().1, u64::MAX);
}

#[test]
fn band_accessors_and_retag() {
    let band: Band<()> = Band::new(100, 250);
    assert_eq!(band.low(), 100);
    assert_eq!(band.high(), 250);
    let tagged: Band<u32> = band.with(7);
    assert_eq!(tagged.low(), 100);
    assert_eq!(tagged.high(), 250);
    assert_eq!(*tagged.payload(), 7);
}

#[test]
fn band_equality_ignores_payload() {
    let a: Band<u32> = Band::<()>::new(10, 20).with(1);
    let b: Band<u32> = Band::<()>::new(10, 20).with(2);
    let c: Band<u32> = Band::<()>::new(10, 30).with(1);
    assert!(a == b);
    assert!(a != c);
}

#[test]
fn index_for_values() {
    assert_eq!(beater::index_for(23, 1024, 44100), 1);
    assert_eq!(beater::index_for(40000, 1024, 44100), 512);
    assert_eq!(beater::index_for(0, 1024, 44100), 0);
    assert_eq!(beater::index_for(22050, 1024, 44100), 512);
}

#[test]
fn full_spectrum_band_covers_whole_slice() {
    // A spectrum of 4 bins stands for a frame of 8 samples.
    let spectrum: Vec<u32> = vec![3, 1, 4, 1];
    let band: Band<()> = Band::new(0, 50);
    let slice = band.as_slice(&spectrum, 100);
    assert_eq!(slice, spectrum);
}

#[test]
fn band_slice_length_matches_indices() {
    let spectrum: Vec<u32> = vec![3, 1, 4, 1];
    // index_for(10, 8, 100) == 1, index_for(30, 8, 100) == 2.
    let band: Band<()> = Band::new(10, 30);
    let slice = band.as_slice(&spectrum, 100);
    assert_eq!(slice, vec![1]);
}

#[test]
fn window_not_enough_samples() {
    let mut window = Window::new(4, 100);
    assert!(window.next().is_err());
    window.push(&[1, 2, 3]);
    assert!(window.next().is_err());
}

#[test]
fn window_splits_and_downmixes() {
    let mut window = Window::new(4, 100);
    window.push(&[10, 20, 30, 40, 50, 60, 70, 72]);
    let channels = window.next().expect("a full frame is buffered");
    assert_eq!(channels.left().samples(), &vec![10, 30, 50, 70]);
    assert_eq!(channels.right().samples(), &vec![20, 40, 60, 72]);
    assert_eq!(channels.mono().samples(), &vec![15, 35, 55, 71]);
    // Without a hop the whole frame is drained.
    assert!(window.next().is_err());
}

#[test]
fn window_downmix_rounds_down() {
    let mut window = Window::new(2, 100);
    window.push(&[-3, 0, 5, 0]);
    let channels = window.next().expect("a full frame is buffered");
    // The average of -3 and 0 rounds down to -2.
    assert_eq!(channels.mono().samples(), &vec![-2, 2]);
}

#[test]
fn window_hop_accounting() {
    let mut window = Window::new(4, 100).with_hop(1);
    window.push(&[1, 2, 3, 4, 5, 6, 7, 8, 9, 10]);
    assert!(window.next().is_ok());
    // The buffer shrinks by exactly 2 * hop interleaved samples, so another
    // frame of 8 is still available.
    assert!(window.next().is_ok());
    assert!(window.next().is_err());
}

#[test]
fn window_hop_overlap_reuses_samples() {
    let mut window = Window::new(2, 100).with_hop(1);
    window.push(&[1, 2, 3, 4, 5, 6]);
    let first = window.next().expect("first frame");
    assert_eq!(first.left().samples(), &vec![1, 3]);
    let second = window.next().expect("second, overlapping frame");
    assert_eq!(second.left().samples(), &vec![3, 5]);
}

#[test]
fn window_getters() {
    let window = Window::new(8, 44100).with_hop(2);
    assert_eq!(window.size(), 8);
    assert_eq!(window.rate(), 44100);
    assert_eq!(window.hop(), Some(2));
    assert_eq!(Window::new(8, 44100).hop(), None);
}

#[test]
fn channels_accessors() {
    let channels = Channels::new(vec![1], vec![2], vec![3]);
    assert_eq!(channels.mono().samples(), &vec![1]);
    assert_eq!(channels.left().samples(), &vec![2]);
    assert_eq!(channels.right().samples(), &vec![3]);
}

#[test]
fn peak_getters() {
    let band: Band<u32> = Band::<()>::new(0, 100).with(9);
    let peak = Peak::new(band, 12, 30, 45);
    assert_eq!(peak.offset(), 12);
    assert_eq!(peak.band().low(), 0);
    assert_eq!(peak.band().high(), 100);
    assert_eq!(*peak.band().payload(), 9);
    assert_eq!(peak.threshold(), 30);
    assert_eq!(peak.flux(), 45);
}
