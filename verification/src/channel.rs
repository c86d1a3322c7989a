//! Channels: a name, a unit and a series of timestamped samples.

use vstd::prelude::*;
use crate::error::SyncError;
use crate::frequency::estimate_frequency;
use crate::frequency::is_nominal;
use crate::frequency::lemma_nominal_period;
use crate::frequency::period;
use crate::frequency::spec_frequency;
use crate::resample::resample_series;
use crate::resample::resampled;
use crate::resample::slot_time;
use crate::resample::target_len;
use crate::synchronize::ascending;
use crate::synchronize::lemma_synchronized_on_own_grid;
use crate::synchronize::strictly_ascending;
use crate::synchronize::spec_tolerance;
use crate::synchronize::synchronize_series;
use crate::synchronize::synchronized;
use crate::synchronize::tolerance_of;

verus! {

/// The samples of a channel: timestamps in ticks and, for each, a value.
#[derive(Clone, Debug, PartialEq)]
pub struct ChannelData {
    timestamps: Vec<i64>,
    samples: Vec<i64>,
}

impl ChannelData {
    /// The timestamps, as a sequence.
    pub closed spec fn spec_timestamps(&self) -> Seq<i64> {
        self.timestamps@
    }

    /// The sample values, as a sequence.
    pub closed spec fn spec_samples(&self) -> Seq<i64> {
        self.samples@
    }

    /// Every timestamp has its sample: the two buffers are equally long.
    pub open spec fn wf(&self) -> bool {
        self.spec_timestamps().len() == self.spec_samples().len()
    }

    /// Two zero-filled buffers of `count` slots each, one for timestamps and
    /// one for samples.
    pub fn allocate(count: usize) -> (buffers: (Vec<i64>, Vec<i64>))
        ensures
            buffers.0@ == Seq::new(count as nat, |i: int| 0i64),
            buffers.1@ == Seq::new(count as nat, |i: int| 0i64),
    {
        let mut timestamps: Vec<i64> = Vec::with_capacity(count);
        let mut samples: Vec<i64> = Vec::with_capacity(count);
        let mut i: usize = 0;
        while i < count
            invariant
                0 <= i <= count,
                timestamps@ =~= Seq::new(i as nat, |i: int| 0i64),
                samples@ =~= Seq::new(i as nat, |i: int| 0i64),
            decreases count - i,
        {
            timestamps.push(0);
            samples.push(0);
            i += 1;
        }
        (timestamps, samples)
    }

    /// Channel data made of a buffer of timestamps and a buffer of samples
    /// that hold `count` entries each.
    pub fn from_tsc(timestamps: Vec<i64>, samples: Vec<i64>, count: usize) -> (data: Self)
        requires
            timestamps@.len() == count,
            samples@.len() == count,
        ensures
            data.spec_timestamps() == timestamps@,
            data.spec_samples() == samples@,
            data.wf(),
    {
        ChannelData { timestamps, samples }
    }

    /// The timestamps.
    pub fn timestamps(&self) -> (timestamps: &Vec<i64>)
        ensures
            timestamps@ == self.spec_timestamps(),
    {
        &self.timestamps
    }

    /// The sample values.
    pub fn samples(&self) -> (samples: &Vec<i64>)
        ensures
            samples@ == self.spec_samples(),
    {
        &self.samples
    }

    /// The timestamps, open to change. The samples stay as they are.
    pub fn timestamps_mut(&mut self) -> (timestamps: &mut Vec<i64>)
        ensures
            timestamps@ == old(self).spec_timestamps(),
            final(self).spec_timestamps() == final(timestamps)@,
            final(self).spec_samples() == old(self).spec_samples(),
    {
        &mut self.timestamps
    }

    /// The sample values, open to change. The timestamps stay as they are.
    pub fn samples_mut(&mut self) -> (samples: &mut Vec<i64>)
        ensures
            samples@ == old(self).spec_samples(),
            final(self).spec_samples() == final(samples)@,
            final(self).spec_timestamps() == old(self).spec_timestamps(),
    {
        &mut self.samples
    }

    /// The number of samples.
    pub fn len(&self) -> (len: usize)
        requires
            self.wf(),
        ensures
            len == self.spec_timestamps().len(),
    {
        self.timestamps.len()
    }

    /// Whether there is no sample.
    pub fn is_empty(&self) -> (empty: bool)
        requires
            self.wf(),
        ensures
            empty == (self.spec_timestamps().len() == 0),
    {
        self.len() == 0
    }

    /// Whether no timestamp is earlier than the one before it.
    pub fn is_ascending(&self) -> (r: bool)
        ensures
            r == ascending(self.spec_timestamps()),
    {
        let n: usize = self.timestamps.len();
        let mut i: usize = 1;
        while i < n
            invariant
                n == self.timestamps@.len(),
                1 <= i,
                forall|a: int, b: int|
                    0 <= a <= b < i && b < n ==> self.timestamps@[a] <= self.timestamps@[b],
            decreases n - i,
        {
            if self.timestamps[i - 1] > self.timestamps[i] {
                return false;
            }
            i += 1;
        }
        true
    }

    /// The samples as pairs of a timestamp and a value, as far as both
    /// buffers reach.
    pub fn into_pairs(self) -> (pairs: Vec<(i64, i64)>)
        ensures
            pairs@.len() == if self.spec_timestamps().len() <= self.spec_samples().len() {
                self.spec_timestamps().len()
            } else {
                self.spec_samples().len()
            },
            forall|i: int|
                0 <= i < pairs@.len() ==> pairs@[i] == (
                    self.spec_timestamps()[i],
                    self.spec_samples()[i],
                ),
    {
        let mut pairs: Vec<(i64, i64)> = Vec::new();
        let mut i: usize = 0;
        while i < self.timestamps.len() && i < self.samples.len()
            invariant
                i <= self.timestamps@.len(),
                i <= self.samples@.len(),
                pairs@.len() == i,
                forall|j: int|
                    0 <= j < i ==> pairs@[j] == (self.timestamps@[j], self.samples@[j]),
            decreases self.timestamps@.len() - i,
        {
            pairs.push((self.timestamps[i], self.samples[i]));
            i += 1;
        }
        pairs
    }
}

impl Default for ChannelData {
    fn default() -> (data: Self)
        ensures
            data.spec_timestamps().len() == 0,
            data.spec_samples().len() == 0,
    {
        ChannelData { timestamps: Vec::new(), samples: Vec::new() }
    }
}

/// A channel as the logger recorded it: irregular samples under a name and a
/// unit. Its sampling rate is not stored but estimated on demand.
#[derive(Clone, Debug, PartialEq)]
pub struct Channel {
    name: String,
    unit: String,
    data: ChannelData,
}

/// A channel that has not been laid onto a grid.
pub type RawChannel = Channel;

/// The samples of a channel that has not been laid onto a grid.
pub type RawChannelData = ChannelData;

/// A channel laid onto a fixed-rate grid. The sample at index `i` belongs to
/// the instant `i` periods after the start of the grid.
#[derive(Debug, PartialEq)]
pub struct FixedRateChannel {
    name: String,
    unit: String,
    frequency: usize,
    samples: Vec<i32>,
}

impl Channel {
    /// The name, as a sequence of characters.
    pub closed spec fn spec_name(&self) -> Seq<char> {
        self.name@
    }

    /// The unit, as a sequence of characters.
    pub closed spec fn spec_unit(&self) -> Seq<char> {
        self.unit@
    }

    /// The samples.
    pub closed spec fn spec_data(&self) -> ChannelData {
        self.data
    }

    /// The timestamps of the samples.
    pub open spec fn spec_timestamps(&self) -> Seq<i64> {
        self.spec_data().spec_timestamps()
    }

    /// The values of the samples.
    pub open spec fn spec_samples(&self) -> Seq<i64> {
        self.spec_data().spec_samples()
    }

    /// Every timestamp has its sample.
    pub open spec fn wf(&self) -> bool {
        self.spec_data().wf()
    }

    /// The sampling rate estimated from the timestamps, in Hz.
    pub open spec fn spec_channel_frequency(&self) -> int {
        spec_frequency(self.spec_timestamps())
    }

    /// Whether the time ranges of this channel and of `other` meet. Both
    /// channels must hold a sample.
    pub open spec fn overlaps(&self, other: &Channel) -> bool {
        &&& self.spec_timestamps().first() <= other.spec_timestamps().last()
        &&& self.spec_timestamps().last() >= other.spec_timestamps().first()
    }

    /// A channel of the given name, unit and samples.
    pub fn new(name: String, unit: String, data: ChannelData) -> (channel: Self)
        ensures
            channel.spec_name() == name@,
            channel.spec_unit() == unit@,
            channel.spec_data() == data,
    {
        Channel { name, unit, data }
    }

    /// The name.
    pub fn name(&self) -> (name: &String)
        ensures
            name@ == self.spec_name(),
    {
        &self.name
    }

    /// The unit.
    pub fn unit(&self) -> (unit: &String)
        ensures
            unit@ == self.spec_unit(),
    {
        &self.unit
    }

    /// The samples.
    pub fn data(&self) -> (data: &ChannelData)
        ensures
            *data == self.spec_data(),
    {
        &self.data
    }

    /// The sampling rate of the channel in Hz: a nominal rate, or zero where
    /// the samples are too few or too close to zero to tell.
    pub fn frequency(&self) -> (f: usize)
        requires
            self.wf(),
        ensures
            f == self.spec_channel_frequency(),
            self.spec_timestamps().len() < 3 ==> f == 0,
            f == 0 || is_nominal(f as int),
    {
        estimate_frequency(&self.data.timestamps)
    }

    /// The number of samples.
    pub fn len(&self) -> (len: usize)
        requires
            self.wf(),
        ensures
            len == self.spec_timestamps().len(),
    {
        self.data.len()
    }

    /// Whether the channel holds no sample.
    pub fn is_empty(&self) -> (empty: bool)
        requires
            self.wf(),
        ensures
            empty == (self.spec_timestamps().len() == 0),
    {
        self.len() == 0
    }

    /// Forms a channel with the name, the unit and the values of this one on
    /// the timestamps of `other`.
    ///
    /// Fails if either channel holds fewer than three samples, or if the two
    /// cover time ranges that do not meet. Else there is one sample for each
    /// timestamp of `other`: the value of this channel as of that instant,
    /// within the tolerance window of `other`.
    pub fn synchronize_with(&self, other: &Channel) -> (r: Result<Channel, SyncError>)
        requires
            self.wf(),
            other.wf(),
            ascending(other.spec_timestamps()),
        ensures
            match r {
                Ok(channel) => {
                    &&& self.spec_timestamps().len() >= 3
                    &&& other.spec_timestamps().len() >= 3
                    &&& self.overlaps(other)
                    &&& channel.wf()
                    &&& channel.spec_name() == self.spec_name()
                    &&& channel.spec_unit() == self.spec_unit()
                    &&& channel.spec_timestamps() == other.spec_timestamps()
                    &&& channel.spec_samples().map_values(|v: i64| v as int) == synchronized(
                        self.spec_timestamps(),
                        self.spec_samples(),
                        other.spec_timestamps(),
                        spec_tolerance(other.spec_channel_frequency()),
                    )
                },
                Err(SyncError::InsufficientData) => {
                    self.spec_timestamps().len() < 3 || other.spec_timestamps().len() < 3
                },
                Err(SyncError::NonOverlappingRanges) => {
                    &&& self.spec_timestamps().len() >= 3
                    &&& other.spec_timestamps().len() >= 3
                    &&& !self.overlaps(other)
                },
            },
            r is Ok && other.spec_timestamps() == self.spec_timestamps() && strictly_ascending(
                self.spec_timestamps(),
            ) ==> r->Ok_0.spec_samples() == self.spec_samples(),
    {
        let n: usize = self.len();
        let m: usize = other.len();
        if n < 3 || m < 3 {
            return Err(SyncError::InsufficientData);
        }
        let timestamps = &self.data.timestamps;
        let reference = &other.data.timestamps;
        if timestamps[0] > reference[m - 1] || timestamps[n - 1] < reference[0] {
            return Err(SyncError::NonOverlappingRanges);
        }
        let tolerance = tolerance_of(other.frequency());
        let samples = synchronize_series(timestamps, &self.data.samples, reference, tolerance);
        let grid = reference.clone();
        proof {
            assert(grid@ =~= reference@);
            if reference@ == timestamps@ && strictly_ascending(timestamps@) {
                lemma_synchronized_on_own_grid(
                    timestamps@,
                    self.data.samples@,
                    spec_tolerance(other.spec_channel_frequency()),
                );
                assert(samples@ =~= self.data.samples@) by {
                    assert forall|i: int| 0 <= i < samples@.len() implies samples@[i]
                        == self.data.samples@[i] by {
                        assert(samples@.map_values(|v: i64| v as int)[i] == samples@[i] as int);
                        assert(self.data.samples@.map_values(|v: i64| v as int)[i]
                            == self.data.samples@[i] as int);
                    }
                }
            }
        }
        Ok(
            Channel {
                name: self.name.clone(),
                unit: self.unit.clone(),
                data: ChannelData { timestamps: grid, samples },
            },
        )
    }

    /// Lays the channel onto a grid at its own sampling rate that starts at
    /// `start` and covers `duration` ticks, holding the last value across
    /// gaps. A channel without a rate gives no samples.
    pub fn resample(&self, start: i64, duration: i64) -> (fixed: FixedRateChannel)
        requires
            self.wf(),
        ensures
            fixed.spec_name() == self.spec_name(),
            fixed.spec_unit() == self.spec_unit(),
            fixed.spec_fixed_frequency() == self.spec_channel_frequency(),
            fixed.spec_samples() == resampled(
                self.spec_timestamps(),
                self.spec_samples(),
                self.spec_channel_frequency(),
                start as int,
                duration as int,
            ),
            fixed.spec_samples().len() == target_len(
                duration as int,
                self.spec_channel_frequency(),
            ),
    {
        let frequency = self.frequency();
        let samples = resample_series(
            &self.data.timestamps,
            &self.data.samples,
            frequency,
            start,
            duration,
        );
        FixedRateChannel {
            name: self.name.clone(),
            unit: self.unit.clone(),
            frequency,
            samples,
        }
    }
}

impl Default for Channel {
    fn default() -> (channel: Self)
        ensures
            channel.spec_name().len() == 0,
            channel.spec_unit().len() == 0,
            channel.spec_timestamps().len() == 0,
            channel.spec_samples().len() == 0,
    {
        Channel { name: String::new(), unit: String::new(), data: ChannelData::default() }
    }
}

impl Clone for FixedRateChannel {
    fn clone(&self) -> (copy: Self)
        ensures
            copy.spec_name() == self.spec_name(),
            copy.spec_unit() == self.spec_unit(),
            copy.spec_fixed_frequency() == self.spec_fixed_frequency(),
            copy.spec_samples() == self.spec_samples(),
    {
        proof {
            use_type_invariant(self);
        }
        let samples = self.samples.clone();
        assert(samples@ =~= self.samples@);
        FixedRateChannel {
            name: self.name.clone(),
            unit: self.unit.clone(),
            frequency: self.frequency,
            samples,
        }
    }
}

impl FixedRateChannel {
    #[verifier::type_invariant]
    spec fn rated(&self) -> bool {
        self.frequency == 0 || is_nominal(self.frequency as int)
    }

    /// The name, as a sequence of characters.
    pub closed spec fn spec_name(&self) -> Seq<char> {
        self.name@
    }

    /// The unit, as a sequence of characters.
    pub closed spec fn spec_unit(&self) -> Seq<char> {
        self.unit@
    }

    /// The rate of the grid in Hz.
    pub closed spec fn spec_fixed_frequency(&self) -> int {
        self.frequency as int
    }

    /// The samples, one per grid slot.
    pub closed spec fn spec_samples(&self) -> Seq<i32> {
        self.samples@
    }

    /// The name.
    pub fn name(&self) -> (name: &String)
        ensures
            name@ == self.spec_name(),
    {
        &self.name
    }

    /// The unit.
    pub fn unit(&self) -> (unit: &String)
        ensures
            unit@ == self.spec_unit(),
    {
        &self.unit
    }

    /// The rate of the grid in Hz: a nominal rate, or zero for a channel
    /// without samples.
    pub fn frequency(&self) -> (f: usize)
        ensures
            f == self.spec_fixed_frequency(),
            f == 0 || is_nominal(f as int),
    {
        proof {
            use_type_invariant(self);
        }
        self.frequency
    }

    /// The instant of the sample at `index` on a grid that starts at
    /// `start`: `index` sample periods after the start. There is none for a
    /// channel without a rate, nor where the instant lies beyond the range of
    /// timestamps.
    pub fn timestamp(&self, start: i64, index: usize) -> (at: Option<i64>)
        ensures
            at is Some <==> self.spec_fixed_frequency() > 0 && slot_time(
                start as int,
                period(self.spec_fixed_frequency()),
                index as int,
            ) <= i64::MAX,
            at is Some ==> at->0 == slot_time(
                start as int,
                period(self.spec_fixed_frequency()),
                index as int,
            ),
    {
        proof {
            use_type_invariant(self);
        }
        if self.frequency == 0 {
            return None;
        }
        proof {
            lemma_nominal_period(self.frequency as int);
        }
        let step: i128 = 1_000_000 / (self.frequency as i128);
        let k: i128 = index as i128;
        assert(0 <= k * step <= 0xffff_ffff_ffff_ffff * 1_000_000) by (nonlinear_arith)
            requires
                0 <= k <= 0xffff_ffff_ffff_ffff,
                0 <= step <= 1_000_000,
        ;
        let at: i128 = start as i128 + k * step;
        if at > 0x7fff_ffff_ffff_ffff {
            None
        } else {
            Some(at as i64)
        }
    }

    /// The samples, one per grid slot.
    pub fn samples(&self) -> (samples: &Vec<i32>)
        ensures
            samples@ == self.spec_samples(),
    {
        &self.samples
    }

    /// The number of grid slots.
    pub fn len(&self) -> (len: usize)
        ensures
            len == self.spec_samples().len(),
    {
        self.samples.len()
    }
}

} // verus!
