use xdrk::frequency::estimate_frequency;
use xdrk::frequency::raw_rate_of;
use xdrk::frequency::snap_frequency;
use xdrk::frequency::timestamp_sum;
use xdrk::resample::narrow;
use xdrk::resample::resample_series;
use xdrk::synchronize::interpolate;
use xdrk::synchronize::is_within;
use xdrk::synchronize::synchronize_series;
use xdrk::synchronize::tolerance_of;

const NOMINAL: [usize; 10] = [1, 2, 5, 10, 20, 50, 100, 200, 500, 1000];

#[test]
fn exact_spacing_is_estimated_at_its_nominal_rate() {
    for f in NOMINAL {
        let period = 1_000_000 / f as i64;
        let timestamps: Vec<i64> = (0..40).map(|i| 3_000_000 + i * period).collect();
        assert_eq!(f, estimate_frequency(&timestamps));
        let three: Vec<i64> = (0..3).map(|i| 100_000 + i * period).collect();
        assert_eq!(f, estimate_frequency(&three));
    }
}

#[test]
fn exact_spacing_too_close_to_zero_has_no_rate() {
    // 1000 Hz from zero: fourteen timestamps add up to 91 ms, fifteen to 105 ms
    let fourteen: Vec<i64> = (0..14).map(|i| i * 1_000).collect();
    assert_eq!(0, estimate_frequency(&fourteen));
    let fifteen: Vec<i64> = (0..15).map(|i| i * 1_000).collect();
    assert_eq!(1000, estimate_frequency(&fifteen));
}

#[test]
fn fewer_than_three_timestamps_have_no_rate() {
    assert_eq!(0, estimate_frequency(&vec![]));
    assert_eq!(0, estimate_frequency(&vec![5_000_000]));
    assert_eq!(0, estimate_frequency(&vec![5_000_000, 5_010_000]));
    assert_eq!(100, estimate_frequency(&vec![5_000_000, 5_010_000, 5_020_000]));
}

#[test]
fn timestamps_that_add_up_to_little_have_no_rate() {
    assert_eq!(0, estimate_frequency(&vec![0, 0, 0, 0]));
    assert_eq!(0, estimate_frequency(&vec![0, 10_000, 20_000]));
    assert_eq!(0, estimate_frequency(&vec![33_333, 33_333, 33_333]));
    assert_eq!(1000, estimate_frequency(&vec![33_333, 33_333, 33_334]));
    assert_eq!(0, estimate_frequency(&vec![-5_000_000, 0, 5_000_000]));
}

#[test]
fn jitter_is_snapped_away() {
    // a 100 Hz channel whose third sample comes 1.3 ms late
    assert_eq!(100, estimate_frequency(&vec![1_000_000, 1_010_400, 1_021_300]));
    // a 20 Hz channel with a sample missing looks like one of 10 Hz
    assert_eq!(10, estimate_frequency(&vec![1_000_000, 1_050_000, 1_150_000, 1_200_000]));
}

#[test]
fn timestamps_that_stand_still_or_go_back_have_a_rate_too() {
    assert_eq!(1000, estimate_frequency(&vec![1_000_000, 1_000_000, 1_000_000]));
    assert_eq!(1, estimate_frequency(&vec![3_000_000, 2_000_000, 1_000_000]));
}

#[test]
fn the_sum_of_timestamps_does_not_overflow() {
    assert_eq!(3 * (i64::MAX as i128), timestamp_sum(&vec![i64::MAX; 3]));
    assert_eq!(2 * (i64::MIN as i128), timestamp_sum(&vec![i64::MIN; 2]));
    assert_eq!(0, timestamp_sum(&vec![]));
    assert_eq!(1000, estimate_frequency(&vec![i64::MAX; 3]));
    assert_eq!(1, estimate_frequency(&vec![i64::MIN, 0, i64::MAX, i64::MAX]));
}

#[test]
fn raw_rate_is_two_seconds_over_the_gap_rounded() {
    assert_eq!(100, raw_rate_of(20_000));
    assert_eq!(2_000_000, raw_rate_of(1));
    assert_eq!(1, raw_rate_of(2_000_000));
    // 2 s / 1.6 s = 1.25, 2 s / 1.3 s = 1.54
    assert_eq!(1, raw_rate_of(1_600_000));
    assert_eq!(2, raw_rate_of(1_300_000));
    // halves round away from zero: 2 s / 0.8 s = 2.5, 2 s / 4 s = 0.5
    assert_eq!(3, raw_rate_of(800_000));
    assert_eq!(1, raw_rate_of(4_000_000));
    assert_eq!(0, raw_rate_of(4_000_001));
    assert_eq!(-3, raw_rate_of(-800_000));
    assert_eq!(-100, raw_rate_of(-20_000));
    assert_eq!(0, raw_rate_of(-4_000_001));
    assert_eq!(2_147_483_647, raw_rate_of(0));
    assert_eq!(0, raw_rate_of((1i128 << 64) - 1));
}

#[test]
fn snapping_picks_the_nearest_nominal_rate() {
    for f in NOMINAL {
        assert_eq!(f, snap_frequency(f as i64));
    }
    assert_eq!(1, snap_frequency(0));
    assert_eq!(1, snap_frequency(-40));
    assert_eq!(1, snap_frequency(i64::MIN));
    assert_eq!(2, snap_frequency(3));
    assert_eq!(5, snap_frequency(4));
    assert_eq!(5, snap_frequency(7));
    assert_eq!(10, snap_frequency(8));
    assert_eq!(100, snap_frequency(97));
    assert_eq!(100, snap_frequency(149));
    assert_eq!(200, snap_frequency(151));
    assert_eq!(1000, snap_frequency(751));
    assert_eq!(1000, snap_frequency(2_000_000));
    assert_eq!(1000, snap_frequency(i64::MAX));
}

#[test]
fn snapping_between_two_rates_picks_the_lower() {
    assert_eq!(10, snap_frequency(15));
    assert_eq!(20, snap_frequency(35));
    assert_eq!(50, snap_frequency(75));
    assert_eq!(100, snap_frequency(150));
    assert_eq!(200, snap_frequency(350));
    assert_eq!(500, snap_frequency(750));
}

#[test]
fn tolerance_is_half_a_period() {
    assert_eq!(None, tolerance_of(0));
    assert_eq!(Some(500_000), tolerance_of(1));
    assert_eq!(Some(5_000), tolerance_of(100));
    assert_eq!(Some(500), tolerance_of(1000));
    assert_eq!(Some(166_666), tolerance_of(3));
    assert_eq!(Some(0), tolerance_of(500_001));
}

#[test]
fn within_compares_the_distance_with_the_tolerance() {
    assert!(is_within(10, 15, Some(5)));
    assert!(is_within(15, 10, Some(5)));
    assert!(!is_within(10, 16, Some(5)));
    assert!(is_within(i64::MIN, i64::MAX, None));
    assert!(!is_within(i64::MIN, i64::MAX, Some(i64::MAX)));
    assert!(is_within(7, 7, Some(0)));
}

#[test]
fn interpolation_follows_the_line_and_rounds_down() {
    assert_eq!(5_000_000, interpolate(10_000_000, 0, 20_000_000, 10_000_000, 15_000_000));
    assert_eq!(7, interpolate(0, 7, 10, 17, 0));
    assert_eq!(16, interpolate(0, 7, 10, 17, 9));
    // 10 / 3 = 3.33 and 20 / 3 = 6.67
    assert_eq!(3, interpolate(0, 0, 3, 10, 1));
    assert_eq!(6, interpolate(0, 0, 3, 10, 2));
    // -10 / 3 = -3.33 and -20 / 3 = -6.67
    assert_eq!(-4, interpolate(0, 0, 3, -10, 1));
    assert_eq!(-7, interpolate(0, 0, 3, -10, 2));
    assert_eq!(4, interpolate(100, 4, 200, 4, 150));
}

#[test]
fn interpolation_spans_the_whole_range_of_values() {
    assert_eq!(-1, interpolate(i64::MIN, i64::MIN, i64::MAX, i64::MAX, -1));
    assert_eq!(i64::MAX - 1, interpolate(i64::MIN, i64::MIN, i64::MAX, i64::MAX, i64::MAX - 1));
    assert_eq!(i64::MIN + 1, interpolate(i64::MIN, i64::MAX, i64::MAX, i64::MIN, i64::MAX - 1));
    assert_eq!(i64::MAX, interpolate(i64::MIN, i64::MAX, i64::MAX, i64::MIN, i64::MIN));
    assert_eq!(0, interpolate(i64::MIN, i64::MAX, i64::MAX, i64::MIN, -1));
}

#[test]
fn series_are_synchronized_whatever_their_length() {
    // one sample: every instant holds it
    assert_eq!(vec![9i64, 9, 9], synchronize_series(&vec![5], &vec![9], &vec![1, 5, 8], Some(0)));
    assert_eq!(
        Vec::<i64>::new(),
        synchronize_series(&vec![5], &vec![9], &vec![], Some(0))
    );
    // subject (0 s, 0), (10 s, 0), (20 s, 10), (30 s, 10); one reference timestamp at 15 s
    assert_eq!(
        vec![5_000_000i64],
        synchronize_series(
            &vec![0, 10_000_000, 20_000_000, 30_000_000],
            &vec![0, 0, 10_000_000, 10_000_000],
            &vec![15_000_000],
            Some(500_000)
        )
    );
}

#[test]
fn the_subject_of_a_synchronization_need_not_be_in_order() {
    // the first sample later than the instant and the one before it are taken
    let timestamps = vec![10, 50, 40, 60];
    let samples = vec![100, 200, 300, 400];
    assert_eq!(
        vec![100i64, 100, 187, 375, 400],
        synchronize_series(&timestamps, &samples, &vec![5, 10, 45, 55, 60], Some(0))
    );
}

#[test]
fn narrowing_stops_at_the_bounds() {
    assert_eq!(0, narrow(0));
    assert_eq!(-17, narrow(-17));
    assert_eq!(i32::MAX, narrow(i32::MAX as i64));
    assert_eq!(i32::MAX, narrow(i32::MAX as i64 + 1));
    assert_eq!(i32::MAX, narrow(i64::MAX));
    assert_eq!(i32::MIN, narrow(i32::MIN as i64));
    assert_eq!(i32::MIN, narrow(i32::MIN as i64 - 1));
    assert_eq!(i32::MIN, narrow(i64::MIN));
}

#[test]
fn a_lone_sample_is_held_from_its_slot_on() {
    // one sample 4.2 periods into a grid at 10 Hz: slot 4 takes it
    let out = resample_series(&vec![1_420_000], &vec![77], 10, 1_000_000, 1_000_000);
    assert_eq!(vec![0, 0, 0, 0, 77, 77, 77, 77, 77, 77], out);
    // 4.5 periods in: slot 4 is half a period away and takes it
    let out = resample_series(&vec![1_450_000], &vec![77], 10, 1_000_000, 1_000_000);
    assert_eq!(vec![0, 0, 0, 0, 77, 77, 77, 77, 77, 77], out);
    // 4.6 periods in: slot 5 takes it
    let out = resample_series(&vec![1_460_000], &vec![77], 10, 1_000_000, 1_000_000);
    assert_eq!(vec![0, 0, 0, 0, 0, 77, 77, 77, 77, 77], out);
    // at the start of the grid
    let out = resample_series(&vec![1_000_000], &vec![-3], 10, 1_000_000, 300_000);
    assert_eq!(vec![-3, -3, -3], out);
    // so late in the span that its slot lies beyond the end
    let out = resample_series(&vec![1_960_000], &vec![77], 10, 1_000_000, 1_000_000);
    assert_eq!(vec![0; 10], out);
}

#[test]
fn a_lone_sample_is_narrowed() {
    let out = resample_series(&vec![0], &vec![i64::MAX], 1000, 0, 2_000);
    assert_eq!(vec![i32::MAX, i32::MAX], out);
    let out = resample_series(&vec![0], &vec![i64::MIN], 1000, 0, 2_000);
    assert_eq!(vec![i32::MIN, i32::MIN], out);
}

#[test]
fn resampled_length_is_the_span_in_periods_rounded_up() {
    for f in NOMINAL {
        let period = 1_000_000 / f as i64;
        assert_eq!(7, resample_series(&vec![], &vec![], f, -50, 7 * period).len());
        assert_eq!(8, resample_series(&vec![], &vec![], f, -50, 7 * period + 1).len());
        assert_eq!(7, resample_series(&vec![], &vec![], f, -50, 7 * period - 1).len());
    }
    assert_eq!(0, resample_series(&vec![], &vec![], 0, 0, 5_000_000).len());
    assert_eq!(0, resample_series(&vec![1, 2, 3], &vec![1, 2, 3], 0, 0, 5_000_000).len());
    assert_eq!(0, resample_series(&vec![], &vec![], 100, 0, i64::MIN).len());
    assert_eq!(5, resample_series(&vec![], &vec![], 1, i64::MAX - 4_000_001, 4_000_001).len());
    assert_eq!(vec![0; 3], resample_series(&vec![], &vec![], 1, 0, 3_000_000));
}
