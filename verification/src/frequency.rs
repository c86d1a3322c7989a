//! Estimating the sampling rate of a series of timestamps.

use vstd::prelude::*;

verus! {

/// Number of timestamp ticks in one second: times are whole microseconds.
pub const TICKS_PER_SECOND: i64 = 1_000_000;

/// A series whose timestamps add up to less than this many ticks (a tenth of
/// a second) is taken to hold no usable timing.
pub const MIN_TIMESTAMP_SUM: i64 = 100_000;

/// The largest rate the estimator reports before snapping, reached when the
/// first and the third timestamp coincide.
pub const RAW_RATE_CEILING: i64 = 2_147_483_647;

/// Whether `f` is one of the rates, in Hz, that a logger can be configured at.
pub open spec fn is_nominal(f: int) -> bool {
    f == 1 || f == 2 || f == 5 || f == 10 || f == 20 || f == 50 || f == 100 || f == 200 || f
        == 500 || f == 1000
}

/// The nominal rates in ascending order.
pub open spec fn nominal_frequencies() -> Seq<int> {
    seq![1, 2, 5, 10, 20, 50, 100, 200, 500, 1000]
}

/// Distance between two rates.
pub open spec fn distance(a: int, b: int) -> int {
    if a >= b {
        a - b
    } else {
        b - a
    }
}

/// `f` is the nominal rate nearest to `raw`; of two nominal rates that are
/// equally near, it is the lower one.
pub open spec fn is_nearest_nominal(raw: int, f: int) -> bool {
    &&& is_nominal(f)
    &&& forall|g: int| is_nominal(g) ==> distance(raw, f) <= distance(raw, g)
    &&& forall|g: int| is_nominal(g) && distance(raw, g) == distance(raw, f) ==> f <= g
}

/// The nominal rate that `raw` snaps to.
pub open spec fn snapped(raw: int) -> int {
    if raw <= 3 {
        if raw <= 1 { 1 } else { 2 }
    } else if raw <= 7 {
        5
    } else if raw <= 15 {
        10
    } else if raw <= 35 {
        20
    } else if raw <= 75 {
        50
    } else if raw <= 150 {
        100
    } else if raw <= 350 {
        200
    } else if raw <= 750 {
        500
    } else {
        1000
    }
}

/// `snapped` picks the nearest nominal rate, the lower one on a tie.
pub proof fn lemma_snapped_is_nearest(raw: int)
    ensures
        is_nearest_nominal(raw, snapped(raw)),
{
}

/// Only one rate is the nearest nominal rate of `raw`.
pub proof fn lemma_nearest_nominal_unique(raw: int, f: int, g: int)
    requires
        is_nearest_nominal(raw, f),
        is_nearest_nominal(raw, g),
    ensures
        f == g,
{
}

/// A nominal rate snaps to itself.
pub proof fn lemma_snapped_fixes_nominal(f: int)
    requires
        is_nominal(f),
    ensures
        snapped(f) == f,
{
}

/// Snaps a raw rate estimate to the nearest nominal rate. Where two nominal
/// rates are equally near, the lower one is returned.
pub fn snap_frequency(raw: i64) -> (f: usize)
    ensures
        f == snapped(raw as int),
        is_nearest_nominal(raw as int, f as int),
{
    let table: [usize; 10] = [1, 2, 5, 10, 20, 50, 100, 200, 500, 1000];
    let mut best: usize = table[0];
    let mut best_distance: i128 = nominal_distance(raw, table[0]);
    let mut i: usize = 1;
    while i < 10
        invariant
            1 <= i <= 10,
            table@ =~= nominal_frequencies().map_values(|f: int| f as usize),
            is_nominal(best as int),
            forall|j: int| i <= j < 10 ==> best < #[trigger] nominal_frequencies()[j],
            best_distance == distance(raw as int, best as int),
            forall|j: int|
                0 <= j < i ==> distance(raw as int, best as int) <= distance(
                    raw as int,
                    #[trigger] nominal_frequencies()[j],
                ),
            forall|j: int|
                0 <= j < i && distance(raw as int, #[trigger] nominal_frequencies()[j])
                    == distance(raw as int, best as int) ==> best <= nominal_frequencies()[j],
        decreases 10 - i,
    {
        let d: i128 = nominal_distance(raw, table[i]);
        if d < best_distance {
            best = table[i];
            best_distance = d;
        }
        i += 1;
    }
    proof {
        lemma_snapped_is_nearest(raw as int);
        assert forall|g: int| is_nominal(g) implies distance(raw as int, best as int)
            <= distance(raw as int, g) by {
            let j = choose|j: int| 0 <= j < 10 && nominal_frequencies()[j] == g;
            assert(nominal_frequencies()[j] == g);
        }
        lemma_nearest_nominal_unique(raw as int, best as int, snapped(raw as int));
    }
    best
}

fn nominal_distance(raw: i64, f: usize) -> (d: i128)
    requires
        f <= 1000,
    ensures
        d == distance(raw as int, f as int),
{
    let a: i128 = raw as i128;
    let b: i128 = f as i128;
    if a >= b {
        a - b
    } else {
        b - a
    }
}

/// Sum of a series of timestamps.
pub open spec fn total(timestamps: Seq<i64>) -> int
    decreases timestamps.len(),
{
    if timestamps.len() == 0 {
        0
    } else {
        total(timestamps.drop_last()) + timestamps.last()
    }
}

/// The rate, in Hz, that a gap of `delta` ticks across two sample intervals
/// stands for: the integer nearest to two seconds over `delta`, a half
/// rounded away from zero. A gap of zero stands for the ceiling rate.
pub open spec fn raw_rate(delta: int) -> int {
    if delta > 0 {
        (4 * TICKS_PER_SECOND as int + delta) / (2 * delta)
    } else if delta == 0 {
        RAW_RATE_CEILING as int
    } else {
        -((4 * TICKS_PER_SECOND as int - delta) / (-2 * delta))
    }
}

/// The sampling rate of a series, in Hz: zero for a series of fewer than three
/// timestamps or one whose timestamps add up to less than
/// `MIN_TIMESTAMP_SUM`; else the nominal rate nearest to the raw rate of the
/// gap between the first and the third timestamp.
pub open spec fn spec_frequency(timestamps: Seq<i64>) -> int {
    if timestamps.len() < 3 || total(timestamps) < MIN_TIMESTAMP_SUM {
        0
    } else {
        snapped(raw_rate(timestamps[2] - timestamps[0]))
    }
}

/// For a positive gap the raw rate is within a half of two seconds over the
/// gap, and it is the larger of the two integers where both are a half away.
pub proof fn lemma_raw_rate_rounds(delta: int)
    requires
        delta > 0,
    ensures
        2 * delta * raw_rate(delta) - delta <= 4 * TICKS_PER_SECOND,
        4 * TICKS_PER_SECOND < 2 * delta * raw_rate(delta) + delta,
{
    let n = 4 * TICKS_PER_SECOND + delta;
    let d = 2 * delta;
    assert(n == d * (n / d) + n % d && 0 <= n % d < d) by {
        vstd::arithmetic::div_mod::lemma_fundamental_div_mod(n, d);
        vstd::arithmetic::div_mod::lemma_mod_bound(n, d);
    }
}

/// The sample period of a rate of `f` Hz, in ticks.
pub open spec fn period(f: int) -> int {
    TICKS_PER_SECOND as int / f
}

/// The period of a nominal rate is a whole, even number of ticks, at least a
/// thousand of them.
pub proof fn lemma_nominal_period(f: int)
    requires
        is_nominal(f),
    ensures
        period(f) * f == TICKS_PER_SECOND,
        period(f) % 2 == 0,
        period(f) >= 1000,
{
    if f == 1 {
        assert(1_000_000int / 1 == 1_000_000);
    } else if f == 2 {
        assert(1_000_000int / 2 == 500_000);
    } else if f == 5 {
        assert(1_000_000int / 5 == 200_000);
    } else if f == 10 {
        assert(1_000_000int / 10 == 100_000);
    } else if f == 20 {
        assert(1_000_000int / 20 == 50_000);
    } else if f == 50 {
        assert(1_000_000int / 50 == 20_000);
    } else if f == 100 {
        assert(1_000_000int / 100 == 10_000);
    } else if f == 200 {
        assert(1_000_000int / 200 == 5_000);
    } else if f == 500 {
        assert(1_000_000int / 500 == 2_000);
    } else {
        assert(1_000_000int / 1000 == 1_000);
    }
}

/// Two periods of a nominal rate have that rate as their raw rate.
pub proof fn lemma_raw_rate_of_nominal_gap(f: int)
    requires
        is_nominal(f),
    ensures
        raw_rate(2 * period(f)) == f,
{
    let delta = 2 * period(f);
    assert(delta * f == 2_000_000 && delta > 0) by {
        lemma_nominal_period(f);
    }
    lemma_raw_rate_rounds(delta);
    let raw = raw_rate(delta);
    assert(raw == f) by (nonlinear_arith)
        requires
            delta > 0,
            delta * f == 2_000_000,
            2 * delta * raw - delta <= 4_000_000,
            4_000_000 < 2 * delta * raw + delta,
    ;
}

/// Timestamps spaced at exactly the period of a nominal rate are estimated at
/// that rate, provided that they add up to at least `MIN_TIMESTAMP_SUM`.
pub proof fn lemma_frequency_of_exact_spacing(timestamps: Seq<i64>, f: int)
    requires
        is_nominal(f),
        timestamps.len() >= 3,
        forall|i: int|
            0 <= i < timestamps.len() - 1 ==> #[trigger] timestamps[i + 1] - timestamps[i]
                == period(f),
        total(timestamps) >= MIN_TIMESTAMP_SUM,
    ensures
        spec_frequency(timestamps) == f,
{
    assert(timestamps[0int + 1] - timestamps[0] == period(f));
    assert(timestamps[1int + 1] - timestamps[1] == period(f));
    assert(timestamps[2] - timestamps[0] == 2 * period(f));
    lemma_raw_rate_of_nominal_gap(f);
}

/// Computes the raw rate of a gap of `delta` ticks.
pub fn raw_rate_of(delta: i128) -> (raw: i64)
    requires
        -0x1_0000_0000_0000_0000 < delta < 0x1_0000_0000_0000_0000,
    ensures
        raw == raw_rate(delta as int),
{
    if delta > 0 {
        let d: u128 = delta as u128;
        let q: u128 = (4_000_000 + d) / (2 * d);
        assert(q <= 4_000_000 + d) by (nonlinear_arith)
            requires
                q == (4_000_000 + d) / (2 * d),
                d > 0,
        ;
        assert(q <= 2_000_000) by (nonlinear_arith)
            requires
                q == (4_000_000 + d) / (2 * d),
                d > 0,
        ;
        q as i64
    } else if delta == 0 {
        RAW_RATE_CEILING
    } else {
        let d: u128 = (-delta) as u128;
        let q: u128 = (4_000_000 + d) / (2 * d);
        assert(q <= 2_000_000) by (nonlinear_arith)
            requires
                q == (4_000_000 + d) / (2 * d),
                d > 0,
        ;
        -(q as i64)
    }
}

/// Sums the timestamps of a series.
pub fn timestamp_sum(timestamps: &Vec<i64>) -> (sum: i128)
    ensures
        sum == total(timestamps@),
{
    let mut sum: i128 = 0;
    let mut i: usize = 0;
    while i < timestamps.len()
        invariant
            0 <= i <= timestamps.len(),
            sum == total(timestamps@.take(i as int)),
            -0x8000_0000_0000_0000 * i <= sum <= 0x8000_0000_0000_0000 * i,
        decreases timestamps.len() - i,
    {
        proof {
            assert(timestamps@.take(i + 1).drop_last() =~= timestamps@.take(i as int));
        }
        sum = sum + timestamps[i] as i128;
        i += 1;
    }
    proof {
        assert(timestamps@.take(i as int) =~= timestamps@);
    }
    sum
}

/// Estimates the sampling rate of a series of timestamps, in Hz, and snaps it
/// to a nominal rate. A series too short or too close to zero to be timed has
/// rate zero.
pub fn estimate_frequency(timestamps: &Vec<i64>) -> (f: usize)
    ensures
        f == spec_frequency(timestamps@),
        timestamps@.len() < 3 ==> f == 0,
        f == 0 || is_nominal(f as int),
{
    if timestamps.len() < 3 {
        return 0;
    }
    if timestamp_sum(timestamps) < MIN_TIMESTAMP_SUM as i128 {
        return 0;
    }
    let delta: i128 = timestamps[2] as i128 - timestamps[0] as i128;
    snap_frequency(raw_rate_of(delta))
}

} // verus!
