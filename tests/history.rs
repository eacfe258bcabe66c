use analog_stats::{ReadHistory, Stats, HISTORY_SIZE, MAX_MICROVOLT, MILLIHERTZ_NANOS};

const HALF: u32 = 500_000;
const HIGH: u32 = 900_000;

#[test]
fn new_fills_the_ring_with_the_default() {
    let h = ReadHistory::new(HALF);
    assert_eq!(h.capacity(), HISTORY_SIZE);
    assert_eq!(h.history(), vec![HALF; HISTORY_SIZE]);
    assert_eq!(h.average(), HALF);
    assert_eq!(h.max(), HALF);
    assert_eq!(h.min(), HALF);
    assert_eq!(h.peaked_at(), None);
    assert_eq!(h.frequency(), 0);
    assert_eq!(h.wavelength(), 0);
}

#[test]
fn two_peaks_measure_a_wavelength() {
    let mut h = ReadHistory::with_capacity(HALF, 4);
    h.push(HIGH, 1_000);
    h.push(HALF, 2_000);
    assert_eq!(h.max(), HIGH);
    assert_eq!(h.min(), HALF);
    // the signal left the peak: a cycle is under way
    assert_eq!(h.peaked_at(), Some(2_000));
    assert_eq!(h.wavelength(), 0);
    h.push(HIGH, 52_000);
    // back inside the band: the cycle is complete
    assert_eq!(h.peaked_at(), None);
    assert_eq!(h.wavelength(), 50_000);
    assert!(h.wavelength() > 0);
    assert_eq!(h.frequency(), 20_000_000);
    h.push(HALF, 60_000);
    assert_eq!(h.peaked_at(), Some(60_000));
    assert_eq!(h.wavelength(), 50_000);
    assert_eq!(h.history(), vec![HIGH, HALF, HIGH, HALF]);
}

#[test]
fn frequency_is_the_inverse_of_the_wavelength() {
    let mut h = ReadHistory::with_capacity(HALF, 8);
    h.push(HIGH, 0);
    h.push(HALF, 1_000_000_000);
    h.push(HIGH, 1_250_000_000);
    assert_eq!(h.wavelength(), 250_000_000);
    assert_eq!(h.frequency(), 4_000);
    assert_eq!(h.frequency(), MILLIHERTZ_NANOS / 250_000_000);
}

#[test]
fn a_sample_within_the_band_counts_as_a_peak() {
    // extrema 0 and 1_000_000: the band is 25_000 under the maximum
    let mut h = ReadHistory::with_capacity(0, 4);
    h.push(1_000_000, 0);
    h.push(975_000, 10);
    assert_eq!(h.peaked_at(), None);
    h.push(974_999, 20);
    assert_eq!(h.peaked_at(), Some(20));
    h.push(975_000, 70);
    assert_eq!(h.peaked_at(), None);
    assert_eq!(h.wavelength(), 50);
}

#[test]
fn a_cycle_of_no_duration_is_dropped() {
    let mut h = ReadHistory::with_capacity(HALF, 4);
    h.push(HIGH, 5);
    h.push(HALF, 7);
    h.push(HIGH, 7);
    assert_eq!(h.peaked_at(), None);
    assert_eq!(h.wavelength(), 0);
    assert_eq!(h.frequency(), 0);
}

#[test]
fn a_clock_that_went_back_measures_nothing() {
    let mut h = ReadHistory::with_capacity(HALF, 4);
    h.push(HIGH, 100);
    h.push(HALF, 200);
    h.push(HIGH, 300);
    assert_eq!(h.wavelength(), 100);
    h.push(HALF, 400);
    h.push(HIGH, 150);
    assert_eq!(h.peaked_at(), None);
    assert_eq!(h.wavelength(), 100);
    assert_eq!(h.frequency(), 10_000_000_000);
}

#[test]
fn ring_keeps_the_last_pushed_values() {
    let mut h = ReadHistory::with_capacity(0, 4);
    for (i, v) in [11u32, 12, 13, 14, 15, 16, 17].iter().enumerate() {
        h.push(*v, i as u64);
    }
    assert_eq!(h.history(), vec![14, 15, 16, 17]);
    h.push(18, 100);
    assert_eq!(h.history(), vec![15, 16, 17, 18]);
}

#[test]
fn ring_after_fewer_pushes_than_capacity() {
    let mut h = ReadHistory::with_capacity(7, 5);
    h.push(1, 0);
    h.push(2, 1);
    assert_eq!(h.history(), vec![7, 7, 7, 1, 2]);
}

#[test]
fn average_matches_the_mean_of_the_ring() {
    let mut h = ReadHistory::with_capacity(HALF, 4);
    let values = [100_000u32, 300_000, 800_000, 200_000, 600_000, 0, 999_999];
    for (i, v) in values.iter().enumerate() {
        h.push(*v, i as u64);
        let ring = h.history();
        let sum: u64 = ring.iter().map(|x| *x as u64).sum();
        assert_eq!(h.average() as u64, sum / 4);
    }
    // 200_000 + 600_000 + 0 + 999_999
    assert_eq!(h.average(), 449_999);
}

#[test]
fn average_of_the_largest_levels() {
    let mut h = ReadHistory::with_capacity(u32::MAX, 3);
    h.push(u32::MAX, 0);
    assert_eq!(h.average(), u32::MAX);
    h.push(0, 1);
    assert_eq!(h.average(), ((2 * u32::MAX as u64) / 3) as u32);
}

#[test]
fn watermarks_never_retreat() {
    let mut h = ReadHistory::with_capacity(HALF, 2);
    let values = [600_000u32, 400_000, 500_000, 500_000, 500_000, 700_000, 450_000, 500_000];
    let mut last_max = h.max();
    let mut last_min = h.min();
    for (i, v) in values.iter().enumerate() {
        h.push(*v, i as u64);
        assert!(h.max() >= last_max);
        assert!(h.min() <= last_min);
        last_max = h.max();
        last_min = h.min();
    }
    // 600_000 and 400_000 left the ring long ago; the extrema keep them
    assert_eq!(h.history(), vec![450_000, 500_000]);
    assert_eq!(h.max(), 700_000);
    assert_eq!(h.min(), 400_000);
}

#[test]
fn amplitude_is_half_the_spread_in_microvolts() {
    let mut h = ReadHistory::with_capacity(HALF, 4);
    assert_eq!(h.amplitude(), 0);
    h.push(HIGH, 0);
    h.push(HALF, 1);
    // (0.9 - 0.5) / 2 * 5 V
    assert_eq!(h.amplitude(), 1_000_000);
    h.push(200_000, 2);
    assert_eq!(h.amplitude(), (HIGH - 200_000) as u64 * MAX_MICROVOLT / 2_000_000);
    assert_eq!(h.amplitude(), 1_750_000);
    h.push(200_001, 3);
    h.push(3, 4);
    // an odd spread rounds down
    assert_eq!(h.amplitude(), 2_249_992);
}

#[test]
fn constant_input_never_measures_a_cycle() {
    for v in [HALF, HIGH, 100_000] {
        let mut h = ReadHistory::with_capacity(HALF, 4);
        for i in 0..(4 * 3) {
            h.push(v, i as u64 * 1_000);
            assert_eq!(h.wavelength(), 0);
            assert_eq!(h.frequency(), 0);
        }
    }
}

#[test]
fn snapshot_reads_are_idempotent() {
    let mut h = ReadHistory::with_capacity(HALF, 4);
    h.push(HIGH, 10);
    h.push(HALF, 20);
    h.push(HIGH, 30);
    let a = h.snapshot();
    let b = h.snapshot();
    assert_eq!(a, b);
    assert_eq!(
        a,
        Stats { amplitude: 1_000_000, frequency: 100_000_000_000, wavelength: 10 }
    );
    assert_eq!(a.amplitude, h.amplitude());
    assert_eq!(a.frequency, h.frequency());
    assert_eq!(a.wavelength, h.wavelength());
}

#[test]
fn snapshot_before_any_cycle() {
    let h = ReadHistory::with_capacity(HALF, 1);
    assert_eq!(h.snapshot(), Stats { amplitude: 0, frequency: 0, wavelength: 0 });
}
