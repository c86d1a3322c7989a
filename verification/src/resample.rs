//! Laying an irregular series onto a fixed-rate grid, holding the last value
//! across gaps.

use vstd::prelude::*;
use crate::frequency::distance;
use crate::frequency::is_nominal;
use crate::frequency::lemma_nominal_period;
use crate::frequency::period;
use crate::frequency::TICKS_PER_SECOND;

verus! {

/// Number of slots of a grid at `frequency` Hz that covers `duration` ticks:
/// the duration in sample periods, rounded up.
pub open spec fn target_len(duration: int, frequency: int) -> int {
    if duration <= 0 || frequency <= 0 {
        0
    } else {
        (duration * frequency + TICKS_PER_SECOND - 1) / (TICKS_PER_SECOND as int)
    }
}

/// A value narrowed to 32 bits: itself where it fits, else the nearest bound.
pub open spec fn narrowed(value: i64) -> i32 {
    if value > i32::MAX {
        i32::MAX
    } else if value < i32::MIN {
        i32::MIN
    } else {
        value as i32
    }
}

/// The instant of grid slot `k`.
pub open spec fn slot_time(start: int, step: int, k: int) -> int {
    start + k * step
}

/// Reads on from `cursor` while the sample under it lies within `reach` ticks
/// of the instant `at`, taking over each such sample's value. Gives the
/// cursor and the value held when the reading stops.
pub open spec fn absorbed(
    timestamps: Seq<i64>,
    samples: Seq<i64>,
    at: int,
    reach: int,
    cursor: int,
    held: i64,
) -> (int, i64)
    decreases timestamps.len() - cursor,
{
    if 0 <= cursor < timestamps.len() && distance(timestamps[cursor] as int, at) <= reach {
        absorbed(timestamps, samples, at, reach, cursor + 1, samples[cursor])
    } else {
        (cursor, held)
    }
}

/// The cursor and the value held once the first `k` slots of the grid have
/// been filled. The cursor starts at the first sample and the value at zero.
pub open spec fn grid_state(
    timestamps: Seq<i64>,
    samples: Seq<i64>,
    start: int,
    step: int,
    k: nat,
) -> (int, i64)
    decreases k,
{
    if k == 0 {
        (0, 0)
    } else {
        let before = grid_state(timestamps, samples, start, step, (k - 1) as nat);
        absorbed(
            timestamps,
            samples,
            slot_time(start, step, k - 1),
            step / 2,
            before.0,
            before.1,
        )
    }
}

/// The samples of the series `(timestamps, samples)` laid onto the grid that
/// starts at `start`, runs at `frequency` Hz and covers `duration` ticks. A
/// series without a rate gives no samples.
pub open spec fn resampled(
    timestamps: Seq<i64>,
    samples: Seq<i64>,
    frequency: int,
    start: int,
    duration: int,
) -> Seq<i32> {
    Seq::new(
        target_len(duration, frequency) as nat,
        |k: int|
            narrowed(grid_state(timestamps, samples, start, period(frequency), (k + 1) as nat).1),
    )
}

/// The grid slot that takes up a lone sample at `at`: the first slot within
/// half a step of it.
pub open spec fn matching_slot(start: int, step: int, at: int) -> int {
    if (at - start) % step <= step / 2 {
        (at - start) / step
    } else {
        (at - start) / step + 1
    }
}

/// Reading never moves the cursor back nor past the end of the series.
pub proof fn lemma_absorbed_cursor(
    timestamps: Seq<i64>,
    samples: Seq<i64>,
    at: int,
    reach: int,
    cursor: int,
    held: i64,
)
    requires
        0 <= cursor <= timestamps.len(),
    ensures
        cursor <= absorbed(timestamps, samples, at, reach, cursor, held).0 <= timestamps.len(),
    decreases timestamps.len() - cursor,
{
    if cursor < timestamps.len() && distance(timestamps[cursor] as int, at) <= reach {
        lemma_absorbed_cursor(timestamps, samples, at, reach, cursor + 1, samples[cursor]);
    }
}

/// The cursor of a grid stays within the series.
pub proof fn lemma_grid_cursor(
    timestamps: Seq<i64>,
    samples: Seq<i64>,
    start: int,
    step: int,
    k: nat,
)
    ensures
        0 <= grid_state(timestamps, samples, start, step, k).0 <= timestamps.len(),
    decreases k,
{
    if k > 0 {
        lemma_grid_cursor(timestamps, samples, start, step, (k - 1) as nat);
        let before = grid_state(timestamps, samples, start, step, (k - 1) as nat);
        lemma_absorbed_cursor(
            timestamps,
            samples,
            slot_time(start, step, k - 1),
            step / 2,
            before.0,
            before.1,
        );
    }
}

/// The number of steps of a nominal period that fit before the end of a span
/// is the span's target length.
pub proof fn lemma_target_len_counts_steps(duration: int, frequency: int, k: int)
    requires
        is_nominal(frequency),
        duration > 0,
        k >= 1,
        (k - 1) * period(frequency) < duration <= k * period(frequency),
    ensures
        target_len(duration, frequency) == k,
{
    lemma_nominal_period(frequency);
    let step = period(frequency);
    let n = duration * frequency + TICKS_PER_SECOND - 1;
    let d = TICKS_PER_SECOND as int;
    vstd::arithmetic::div_mod::lemma_fundamental_div_mod(n, d);
    vstd::arithmetic::div_mod::lemma_mod_bound(n, d);
    let q = n / d;
    assert(q == k) by (nonlinear_arith)
        requires
            step * frequency == d,
            frequency >= 1,
            d == 1_000_000,
            (k - 1) * step < duration <= k * step,
            n == duration * frequency + d - 1,
            n == d * q + n % d,
            0 <= n % d < d,
    ;
}

/// A lone sample inside the gridded span leaves every slot before its
/// matching slot at zero and fills every slot from there on with its value.
pub proof fn lemma_lone_sample_is_held(
    timestamp: i64,
    sample: i64,
    frequency: int,
    start: int,
    duration: int,
)
    requires
        is_nominal(frequency),
        start <= timestamp < start + duration,
    ensures
        resampled(seq![timestamp], seq![sample], frequency, start, duration).len() == target_len(
            duration,
            frequency,
        ),
        forall|k: int|
            0 <= k < target_len(duration, frequency) ==> #[trigger] resampled(
                seq![timestamp],
                seq![sample],
                frequency,
                start,
                duration,
            )[k] == if k < matching_slot(start, period(frequency), timestamp as int) {
                0i32
            } else {
                narrowed(sample)
            },
{
    let step = period(frequency);
    assert forall|k: int| 0 <= k < target_len(duration, frequency) implies #[trigger] resampled(
        seq![timestamp],
        seq![sample],
        frequency,
        start,
        duration,
    )[k] == if k < matching_slot(start, step, timestamp as int) {
        0i32
    } else {
        narrowed(sample)
    } by {
        lemma_lone_sample_state(timestamp, sample, frequency, start, (k + 1) as nat);
    }
}

/// The state of a grid over a lone sample: untouched up to the matching
/// slot, past the sample and holding its value from there on.
pub proof fn lemma_lone_sample_state(
    timestamp: i64,
    sample: i64,
    frequency: int,
    start: int,
    k: nat,
)
    requires
        is_nominal(frequency),
        start <= timestamp,
    ensures
        k <= matching_slot(start, period(frequency), timestamp as int) ==> grid_state(
            seq![timestamp],
            seq![sample],
            start,
            period(frequency),
            k,
        ) == (0int, 0i64),
        k > matching_slot(start, period(frequency), timestamp as int) ==> grid_state(
            seq![timestamp],
            seq![sample],
            start,
            period(frequency),
            k,
        ) == (1int, sample),
    decreases k,
{
    lemma_nominal_period(frequency);
    let step = period(frequency);
    let ts = seq![timestamp];
    let vs = seq![sample];
    let m = matching_slot(start, step, timestamp as int);
    let gap = timestamp - start;
    vstd::arithmetic::div_mod::lemma_fundamental_div_mod(gap, step);
    vstd::arithmetic::div_mod::lemma_mod_bound(gap, step);
    let whole = gap / step;
    let rest = gap % step;
    if k > 0 {
        lemma_lone_sample_state(timestamp, sample, frequency, start, (k - 1) as nat);
        let before = grid_state(ts, vs, start, step, (k - 1) as nat);
        let at = slot_time(start, step, k - 1);
        let off = timestamp - at;
        assert(off == (whole - (k - 1)) * step + rest) by (nonlinear_arith)
            requires
                off == timestamp - (start + (k - 1) * step),
                timestamp - start == step * whole + rest,
        ;
        if k - 1 < m {
            assert(before == (0int, 0i64));
            assert(off > step / 2) by (nonlinear_arith)
                requires
                    off == (whole - (k - 1)) * step + rest,
                    0 <= rest < step,
                    step >= 1000,
                    step % 2 == 0,
                    k - 1 < m,
                    m == if rest <= step / 2 {
                        whole
                    } else {
                        whole + 1
                    },
            ;
            assert(absorbed(ts, vs, at, step / 2, 0, 0) == (0int, 0i64));
        } else if k - 1 == m {
            assert(before == (0int, 0i64));
            assert(-(step / 2) <= off <= step / 2) by (nonlinear_arith)
                requires
                    off == (whole - (k - 1)) * step + rest,
                    0 <= rest < step,
                    step >= 1000,
                    step % 2 == 0,
                    k - 1 == m,
                    m == if rest <= step / 2 {
                        whole
                    } else {
                        whole + 1
                    },
            ;
            assert(absorbed(ts, vs, at, step / 2, 1, sample) == (1int, sample));
            assert(absorbed(ts, vs, at, step / 2, 0, 0) == (1int, sample));
        } else {
            assert(before == (1int, sample));
            assert(absorbed(ts, vs, at, step / 2, 1, sample) == (1int, sample));
        }
    }
}

/// Narrows a value to 32 bits, stopping at the bounds of that range.
pub fn narrow(value: i64) -> (r: i32)
    ensures
        r == narrowed(value),
{
    if value > 2_147_483_647 {
        2_147_483_647
    } else if value < -2_147_483_648 {
        -2_147_483_648
    } else {
        value as i32
    }
}

/// Lays the series `(timestamps, samples)` onto the grid that starts at
/// `start`, runs at `frequency` Hz and covers `duration` ticks.
///
/// Each slot takes the value of the last sample read so far, zero before the
/// first. At each slot the series is read on while its next sample lies
/// within half a sample period of the slot's instant.
pub fn resample_series(
    timestamps: &Vec<i64>,
    samples: &Vec<i64>,
    frequency: usize,
    start: i64,
    duration: i64,
) -> (out: Vec<i32>)
    requires
        timestamps@.len() == samples@.len(),
        frequency == 0 || is_nominal(frequency as int),
    ensures
        out@ =~= resampled(timestamps@, samples@, frequency as int, start as int, duration as int),
        out@.len() == target_len(duration as int, frequency as int),
        frequency == 0 ==> out@.len() == 0,
{
    let mut out: Vec<i32> = Vec::new();
    if frequency == 0 || duration <= 0 {
        return out;
    }
    proof {
        lemma_nominal_period(frequency as int);
    }
    let step: i128 = 1_000_000 / (frequency as i128);
    let reach: i128 = step / 2;
    let end: i128 = start as i128 + duration as i128;
    let n: usize = timestamps.len();
    let mut at: i128 = start as i128;
    let mut cursor: usize = 0;
    let mut held: i64 = 0;
    while at < end
        invariant
            is_nominal(frequency as int),
            step == period(frequency as int),
            step >= 1000,
            reach == step / 2,
            end == start + duration,
            duration > 0,
            n == timestamps@.len(),
            n == samples@.len(),
            at == slot_time(start as int, step as int, out@.len() as int),
            out@.len() == 0 || (out@.len() - 1) * step < duration,
            at <= end + step,
            0 <= cursor <= n,
            (cursor as int, held) == grid_state(
                timestamps@,
                samples@,
                start as int,
                step as int,
                out@.len() as nat,
            ),
            forall|k: int|
                0 <= k < out@.len() ==> out@[k] == narrowed(
                    grid_state(timestamps@, samples@, start as int, step as int, (k + 1) as nat).1,
                ),
        decreases end + step - at,
    {
        let ghost k = out@.len();
        let ghost before = (cursor as int, held);
        while cursor < n && near(timestamps[cursor], at, reach)
            invariant
                n == timestamps@.len(),
                n == samples@.len(),
                0 <= cursor <= n,
                -0x2_0000_0000_0000_0000 < at < 0x2_0000_0000_0000_0000,
                0 <= reach <= 500_000,
                absorbed(timestamps@, samples@, at as int, reach as int, before.0, before.1)
                    == absorbed(
                    timestamps@,
                    samples@,
                    at as int,
                    reach as int,
                    cursor as int,
                    held,
                ),
            decreases n - cursor,
        {
            held = samples[cursor];
            cursor += 1;
        }
        proof {
            assert(grid_state(timestamps@, samples@, start as int, step as int, (k + 1) as nat)
                == (cursor as int, held));
            assert(k * step < duration) by (nonlinear_arith)
                requires
                    at == start + k * step,
                    at < end,
                    end == start + duration,
            ;
            assert(start + (k + 1) * step == at + step) by (nonlinear_arith)
                requires
                    at == start + k * step,
            ;
        }
        out.push(narrow(held));
        at = at + step;
    }
    proof {
        let k = out@.len() as int;
        assert(duration <= k * step) by (nonlinear_arith)
            requires
                at == start + k * step,
                at >= end,
                end == start + duration,
        ;
        assert(k >= 1) by (nonlinear_arith)
            requires
                duration <= k * step,
                duration > 0,
                step > 0,
        ;
        lemma_target_len_counts_steps(duration as int, frequency as int, k);
    }
    out
}

/// Whether a sample at `timestamp` lies within `reach` ticks of `at`.
fn near(timestamp: i64, at: i128, reach: i128) -> (r: bool)
    requires
        -0x2_0000_0000_0000_0000 < at < 0x2_0000_0000_0000_0000,
        0 <= reach <= 500_000,
    ensures
        r == (distance(timestamp as int, at as int) <= reach),
{
    let t: i128 = timestamp as i128;
    let d: i128 = if t >= at {
        t - at
    } else {
        at - t
    };
    d <= reach
}

} // verus!
