//! Re-expressing one series on the timestamps of another: an as-of join with
//! a tolerance window, falling back on linear interpolation.

use vstd::prelude::*;
use vstd::arithmetic::div_mod::lemma_fundamental_div_mod;
use vstd::arithmetic::div_mod::lemma_fundamental_div_mod_converse;
use vstd::arithmetic::div_mod::lemma_mod_bound;
use crate::frequency::distance;
use crate::frequency::TICKS_PER_SECOND;

verus! {

/// Timestamps that never go back: each is at least the one before it.
pub open spec fn ascending(timestamps: Seq<i64>) -> bool {
    forall|i: int, j: int| 0 <= i <= j < timestamps.len() ==> timestamps[i] <= timestamps[j]
}

/// Timestamps that always advance: each is later than the one before it.
pub open spec fn strictly_ascending(timestamps: Seq<i64>) -> bool {
    forall|i: int, j: int| 0 <= i < j < timestamps.len() ==> timestamps[i] < timestamps[j]
}

/// The farthest, in ticks, that a sample may lie from a timestamp of a series
/// recorded at `frequency` Hz and still be taken for it: half a sample
/// period. A series without a rate accepts any distance, written `None`.
pub open spec fn spec_tolerance(frequency: int) -> Option<int> {
    if frequency <= 0 {
        None
    } else {
        Some((TICKS_PER_SECOND as int / 2) / frequency)
    }
}

/// Whether two instants are within the tolerance of each other.
pub open spec fn within(a: int, b: int, tolerance: Option<int>) -> bool {
    match tolerance {
        None => true,
        Some(t) => distance(a, b) <= t,
    }
}

/// The first position at or after `from` whose timestamp is later than `at`,
/// or the length of the series if there is none.
pub open spec fn first_after(timestamps: Seq<i64>, at: int, from: int) -> int
    decreases timestamps.len() - from,
{
    if from < 0 || from >= timestamps.len() {
        timestamps.len() as int
    } else if timestamps[from] > at {
        from
    } else {
        first_after(timestamps, at, from + 1)
    }
}

/// The value at `at` on the line through `(t0, v0)` and `(t1, v1)`, rounded
/// down to a whole number.
pub open spec fn interpolated(t0: int, v0: int, t1: int, v1: int, at: int) -> int {
    v0 + ((v1 - v0) * (at - t0)) / (t1 - t0)
}

/// The value of the series `(timestamps, samples)` as of the instant `at`.
///
/// Before the first sample and after the last one the series holds that
/// sample's value. Between two samples it takes the earlier one if that lies
/// within the tolerance of `at`, else the later one if that does, else the
/// value interpolated between the two.
pub open spec fn value_as_of(
    timestamps: Seq<i64>,
    samples: Seq<i64>,
    at: int,
    tolerance: Option<int>,
) -> int {
    let pos = first_after(timestamps, at, 0);
    if pos >= timestamps.len() {
        samples.last() as int
    } else if pos == 0 {
        samples[0] as int
    } else if within(at, timestamps[pos - 1] as int, tolerance) {
        samples[pos - 1] as int
    } else if within(at, timestamps[pos] as int, tolerance) {
        samples[pos] as int
    } else {
        interpolated(
            timestamps[pos - 1] as int,
            samples[pos - 1] as int,
            timestamps[pos] as int,
            samples[pos] as int,
            at,
        )
    }
}

/// The series `(timestamps, samples)` re-expressed on the timestamps of
/// `reference`: one value per reference timestamp, in the same order.
pub open spec fn synchronized(
    timestamps: Seq<i64>,
    samples: Seq<i64>,
    reference: Seq<i64>,
    tolerance: Option<int>,
) -> Seq<int> {
    Seq::new(
        reference.len(),
        |k: int| value_as_of(timestamps, samples, reference[k] as int, tolerance),
    )
}

/// What `first_after` finds: no timestamp from `from` up to the result is
/// later than `at`, and the one at the result, if there is one, is.
pub proof fn lemma_first_after(timestamps: Seq<i64>, at: int, from: int)
    requires
        0 <= from <= timestamps.len(),
    ensures
        from <= first_after(timestamps, at, from) <= timestamps.len(),
        forall|j: int| from <= j < first_after(timestamps, at, from) ==> timestamps[j] <= at,
        first_after(timestamps, at, from) < timestamps.len() ==> timestamps[first_after(
            timestamps,
            at,
            from,
        )] > at,
    decreases timestamps.len() - from,
{
    if from < timestamps.len() && timestamps[from] <= at {
        lemma_first_after(timestamps, at, from + 1);
    }
}

/// A search may start anywhere up to which no timestamp is later than `at`.
pub proof fn lemma_first_after_skips(timestamps: Seq<i64>, at: int, from: int, to: int)
    requires
        0 <= from <= to <= timestamps.len(),
        forall|j: int| from <= j < to ==> timestamps[j] <= at,
    ensures
        first_after(timestamps, at, from) == first_after(timestamps, at, to),
    decreases to - from,
{
    if from < to {
        lemma_first_after_skips(timestamps, at, from + 1, to);
    }
}

/// An interpolated value lies between the two values it is taken from.
pub proof fn lemma_interpolated_between(t0: int, v0: int, t1: int, v1: int, at: int)
    requires
        t0 <= at < t1,
    ensures
        v0 <= v1 ==> v0 <= interpolated(t0, v0, t1, v1, at) <= v1,
        v1 <= v0 ==> v1 <= interpolated(t0, v0, t1, v1, at) <= v0,
{
    let n = (v1 - v0) * (at - t0);
    let d = t1 - t0;
    lemma_fundamental_div_mod(n, d);
    lemma_mod_bound(n, d);
    let q = n / d;
    if v0 <= v1 {
        assert(0 <= q <= v1 - v0) by (nonlinear_arith)
            requires
                n == (v1 - v0) * (at - t0),
                0 <= at - t0 < d,
                v1 - v0 >= 0,
                n == d * q + n % d,
                0 <= n % d < d,
        ;
    }
    if v1 <= v0 {
        assert(v1 - v0 <= q <= 0) by (nonlinear_arith)
            requires
                n == (v1 - v0) * (at - t0),
                0 <= at - t0 < d,
                v1 - v0 <= 0,
                n == d * q + n % d,
                0 <= n % d < d,
        ;
    }
}

/// A series re-expressed on its own, always advancing timestamps is itself.
pub proof fn lemma_synchronized_on_own_grid(
    timestamps: Seq<i64>,
    samples: Seq<i64>,
    tolerance: Option<int>,
)
    requires
        timestamps.len() == samples.len(),
        strictly_ascending(timestamps),
        tolerance is Some ==> tolerance->0 >= 0,
    ensures
        synchronized(timestamps, samples, timestamps, tolerance) =~= samples.map_values(
            |v: i64| v as int,
        ),
{
    assert forall|k: int| 0 <= k < timestamps.len() implies value_as_of(
        timestamps,
        samples,
        timestamps[k] as int,
        tolerance,
    ) == samples[k] by {
        let at = timestamps[k] as int;
        lemma_first_after_skips(timestamps, at, 0, k + 1);
        if k + 1 < timestamps.len() {
            assert(timestamps[k + 1] > at);
            assert(first_after(timestamps, at, k + 1) == k + 1);
        } else {
            assert(first_after(timestamps, at, k + 1) == timestamps.len());
        }
    }
}

/// Computes the tolerance window of a series recorded at `frequency` Hz.
pub fn tolerance_of(frequency: usize) -> (tolerance: Option<i64>)
    ensures
        tolerance is Some <==> frequency > 0,
        tolerance is Some ==> spec_tolerance(frequency as int) == Some(tolerance->0 as int),
        tolerance is None ==> spec_tolerance(frequency as int) is None,
        tolerance is Some ==> 0 <= tolerance->0 <= TICKS_PER_SECOND / 2,
{
    if frequency == 0 {
        None
    } else {
        let f: u64 = frequency as u64;
        let t: u64 = 500_000 / f;
        assert(t <= 500_000) by (nonlinear_arith)
            requires
                t == 500_000u64 / f,
                f > 0,
        ;
        Some(t as i64)
    }
}

/// The mathematical reading of a tolerance window.
pub open spec fn tolerance_view(tolerance: Option<i64>) -> Option<int> {
    match tolerance {
        None => None,
        Some(t) => Some(t as int),
    }
}

/// Whether the instants `a` and `b` are within the tolerance of each other.
pub fn is_within(a: i64, b: i64, tolerance: Option<i64>) -> (r: bool)
    ensures
        r == within(a as int, b as int, tolerance_view(tolerance)),
{
    match tolerance {
        None => true,
        Some(t) => {
            let x: i128 = a as i128;
            let y: i128 = b as i128;
            let d: i128 = if x >= y {
                x - y
            } else {
                y - x
            };
            d <= t as i128
        },
    }
}

/// Interpolates linearly between the samples `(t0, v0)` and `(t1, v1)` at the
/// instant `at`, rounding down.
pub fn interpolate(t0: i64, v0: i64, t1: i64, v1: i64, at: i64) -> (v: i64)
    requires
        t0 <= at < t1,
    ensures
        v == interpolated(t0 as int, v0 as int, t1 as int, v1 as int, at as int),
{
    let run: u128 = (at as i128 - t0 as i128) as u128;
    let span: u128 = (t1 as i128 - t0 as i128) as u128;
    let ghost n = (v1 - v0) * (at - t0);
    proof {
        lemma_interpolated_between(t0 as int, v0 as int, t1 as int, v1 as int, at as int);
    }
    if v1 >= v0 {
        let rise: u128 = (v1 as i128 - v0 as i128) as u128;
        assert(rise * run <= 0xffff_ffff_ffff_ffff * 0xffff_ffff_ffff_ffff) by (nonlinear_arith)
            requires
                rise <= 0xffff_ffff_ffff_ffff,
                run <= 0xffff_ffff_ffff_ffff,
        ;
        let q: u128 = (rise * run) / span;
        assert(q as int == n / (span as int));
        (v0 as i128 + q as i128) as i64
    } else {
        let fall: u128 = (v0 as i128 - v1 as i128) as u128;
        assert(fall * run <= 0xffff_ffff_ffff_ffff * 0xffff_ffff_ffff_ffff) by (nonlinear_arith)
            requires
                fall <= 0xffff_ffff_ffff_ffff,
                run <= 0xffff_ffff_ffff_ffff,
        ;
        let m: u128 = fall * run;
        let whole: u128 = m / span;
        let rest: u128 = m % span;
        let q: u128 = if rest == 0 {
            whole
        } else {
            whole + 1
        };
        proof {
            let d = span as int;
            lemma_fundamental_div_mod(m as int, d);
            assert(n == -(m as int)) by (nonlinear_arith)
                requires
                    n == (v1 - v0) * (at - t0),
                    m == fall * run,
                    fall == v0 - v1,
                    run == at - t0,
            ;
            if rest == 0 {
                assert(n == (-(whole as int)) * d + 0) by (nonlinear_arith)
                    requires
                        n == -(m as int),
                        m as int == d * (whole as int) + 0,
                ;
                lemma_fundamental_div_mod_converse(n, d, -(whole as int), 0);
            } else {
                assert(n == (-(whole as int) - 1) * d + (d - rest as int)) by (nonlinear_arith)
                    requires
                        n == -(m as int),
                        m as int == d * (whole as int) + rest as int,
                ;
                lemma_fundamental_div_mod_converse(n, d, -(whole as int) - 1, d - rest as int);
            }
            assert(n / d == -(q as int));
        }
        (v0 as i128 - q as i128) as i64
    }
}

/// Re-expresses the series `(timestamps, samples)` on the timestamps of
/// `reference`, which must not go back in time.
pub fn synchronize_series(
    timestamps: &Vec<i64>,
    samples: &Vec<i64>,
    reference: &Vec<i64>,
    tolerance: Option<i64>,
) -> (out: Vec<i64>)
    requires
        timestamps@.len() == samples@.len(),
        timestamps@.len() > 0,
        ascending(reference@),
    ensures
        out@.map_values(|v: i64| v as int) =~= synchronized(
            timestamps@,
            samples@,
            reference@,
            tolerance_view(tolerance),
        ),
        out@.len() == reference@.len(),
{
    let n: usize = timestamps.len();
    let mut out: Vec<i64> = Vec::new();
    let mut idx: usize = 0;
    let mut k: usize = 0;
    while k < reference.len()
        invariant
            n == timestamps@.len(),
            n == samples@.len(),
            n > 0,
            ascending(reference@),
            0 <= k <= reference@.len(),
            0 <= idx < n,
            out@.len() == k,
            idx > 0 ==> k > 0,
            forall|j: int| 0 <= j < idx ==> timestamps@[j] <= reference@[k - 1],
            forall|i: int|
                0 <= i < k ==> out@[i] as int == value_as_of(
                    timestamps@,
                    samples@,
                    #[trigger] reference@[i] as int,
                    tolerance_view(tolerance),
                ),
        decreases reference@.len() - k,
    {
        let at: i64 = reference[k];
        let mut pos: usize = idx;
        proof {
            assert forall|j: int| 0 <= j < idx implies timestamps@[j] <= at by {
                assert(reference@[k - 1] <= reference@[k as int]);
            }
            lemma_first_after_skips(timestamps@, at as int, 0, idx as int);
        }
        while pos < n && timestamps[pos] <= at
            invariant
                n == timestamps@.len(),
                idx <= pos <= n,
                first_after(timestamps@, at as int, 0) == first_after(
                    timestamps@,
                    at as int,
                    pos as int,
                ),
            decreases n - pos,
        {
            pos += 1;
        }
        proof {
            lemma_first_after(timestamps@, at as int, 0);
        }
        let value: i64 = if pos >= n {
            samples[n - 1]
        } else if pos == 0 {
            samples[0]
        } else {
            idx = pos - 1;
            if is_within(at, timestamps[idx], tolerance) {
                samples[idx]
            } else if is_within(at, timestamps[idx + 1], tolerance) {
                samples[idx + 1]
            } else {
                interpolate(timestamps[idx], samples[idx], timestamps[idx + 1], samples[idx + 1], at)
            }
        };
        out.push(value);
        k += 1;
    }
    out
}

} // verus!
