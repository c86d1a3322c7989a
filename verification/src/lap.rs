//! Laps: a stretch of a run and the channels recorded in it.

use vstd::prelude::*;
use crate::channel::Channel;
use crate::text::first_named;
use crate::text::lemma_first_named_is;
use crate::text::str_eq;

verus! {

/// Where a lap lies within its run.
///
/// The index of a lap counts from zero; its number, as drivers count laps,
/// from one.
#[derive(Clone, Copy, Debug, PartialEq, Eq, Structural)]
pub struct LapInfo {
    idx: usize,
    start: i64,
    time: i64,
}

impl LapInfo {
    /// The index of the lap.
    pub closed spec fn spec_idx(&self) -> usize {
        self.idx
    }

    /// The start of the lap, in ticks since the run began.
    pub closed spec fn spec_start(&self) -> i64 {
        self.start
    }

    /// The lap time, in ticks.
    pub closed spec fn spec_time(&self) -> i64 {
        self.time
    }

    /// The lap of index `idx` that starts at `start` and takes `time`.
    pub closed spec fn spec_new(idx: usize, start: i64, time: i64) -> LapInfo {
        LapInfo { idx, start, time }
    }

    /// A lap of index `idx` that starts at `start` and takes `time`.
    pub fn new(idx: usize, start: i64, time: i64) -> (info: Self)
        ensures
            info == LapInfo::spec_new(idx, start, time),
            info.spec_idx() == idx,
            info.spec_start() == start,
            info.spec_time() == time,
    {
        LapInfo { idx, start, time }
    }

    /// A lap is made of its index, its start and its time.
    pub broadcast proof fn lemma_spec_new(idx: usize, start: i64, time: i64)
        ensures
            (#[trigger] LapInfo::spec_new(idx, start, time)).spec_idx() == idx,
            LapInfo::spec_new(idx, start, time).spec_start() == start,
            LapInfo::spec_new(idx, start, time).spec_time() == time,
    {
    }

    /// The index of the lap.
    pub fn idx(&self) -> (idx: usize)
        ensures
            idx == self.spec_idx(),
    {
        self.idx
    }

    /// The start of the lap, in ticks since the run began.
    pub fn start(&self) -> (start: i64)
        ensures
            start == self.spec_start(),
    {
        self.start
    }

    /// The lap time, in ticks.
    pub fn time(&self) -> (time: i64)
        ensures
            time == self.spec_time(),
    {
        self.time
    }

    /// The number of the lap: one more than its index.
    pub fn number(&self) -> (number: usize)
        requires
            self.spec_idx() < usize::MAX,
        ensures
            number == self.spec_idx() + 1,
    {
        self.idx + 1
    }
}

/// The highest sampling rate among `channels`, zero where there is none.
pub open spec fn max_frequency_of(channels: Seq<Channel>) -> int
    decreases channels.len(),
{
    if channels.len() == 0 {
        0
    } else {
        let before = max_frequency_of(channels.drop_last());
        let last = channels.last().spec_channel_frequency();
        if last > before {
            last
        } else {
            before
        }
    }
}

/// The highest sampling rate among channels is the rate of one of them, and
/// none has a higher one.
pub proof fn lemma_max_frequency_of(channels: Seq<Channel>)
    ensures
        forall|i: int|
            0 <= i < channels.len() ==> (#[trigger] channels[i]).spec_channel_frequency()
                <= max_frequency_of(channels),
        channels.len() == 0 ==> max_frequency_of(channels) == 0,
        channels.len() > 0 ==> exists|i: int|
            0 <= i < channels.len() && (#[trigger] channels[i]).spec_channel_frequency()
                == max_frequency_of(channels),
    decreases channels.len(),
{
    if channels.len() > 0 {
        let before = channels.drop_last();
        lemma_max_frequency_of(before);
        assert forall|i: int| 0 <= i < channels.len() implies (
        #[trigger] channels[i]).spec_channel_frequency() <= max_frequency_of(channels) by {
            if i < before.len() {
                assert(before[i] == channels[i]);
            }
        }
        if before.len() > 0 && max_frequency_of(channels) == max_frequency_of(before) {
            let i = choose|i: int|
                0 <= i < before.len() && (#[trigger] before[i]).spec_channel_frequency()
                    == max_frequency_of(before);
            assert(channels[i] == before[i]);
        } else {
            assert(channels[channels.len() - 1].spec_channel_frequency() == max_frequency_of(
                channels,
            ));
        }
    }
}

/// A lap and the channels recorded in it.
#[derive(Debug, PartialEq)]
pub struct Lap {
    info: LapInfo,
    data: Vec<Channel>,
}

impl Lap {
    /// Where the lap lies within its run.
    pub closed spec fn spec_info(&self) -> LapInfo {
        self.info
    }

    /// The channels of the lap.
    pub closed spec fn spec_data(&self) -> Seq<Channel> {
        self.data@
    }

    /// The names of the channels, in order.
    pub open spec fn spec_channel_names(&self) -> Seq<Seq<char>> {
        self.spec_data().map_values(|c: Channel| c.spec_name())
    }

    /// Every channel of the lap has a sample for each of its timestamps.
    pub open spec fn wf(&self) -> bool {
        forall|i: int| 0 <= i < self.spec_data().len() ==> (#[trigger] self.spec_data()[i]).wf()
    }

    /// The highest sampling rate among the channels, zero where there is no
    /// channel.
    pub open spec fn spec_max_frequency(&self) -> int {
        max_frequency_of(self.spec_data())
    }

    /// A lap made of its place in the run and its channels.
    pub fn new(info: LapInfo, data: Vec<Channel>) -> (lap: Self)
        ensures
            lap.spec_info() == info,
            lap.spec_data() == data@,
    {
        Lap { info, data }
    }

    /// Where the lap lies within its run.
    pub fn info(&self) -> (info: &LapInfo)
        ensures
            *info == self.spec_info(),
    {
        &self.info
    }

    /// The channels of the lap.
    pub fn data(&self) -> (data: &Vec<Channel>)
        ensures
            data@ == self.spec_data(),
    {
        &self.data
    }

    /// The index of the lap, counted from zero.
    pub fn idx(&self) -> (idx: usize)
        ensures
            idx == self.spec_info().spec_idx(),
    {
        self.info.idx()
    }

    /// The number of the lap, counted from one.
    pub fn number(&self) -> (number: usize)
        requires
            self.spec_info().spec_idx() < usize::MAX,
        ensures
            number == self.spec_info().spec_idx() + 1,
    {
        self.info.number()
    }

    /// The start of the lap, in ticks since the run began.
    pub fn start(&self) -> (start: i64)
        ensures
            start == self.spec_info().spec_start(),
    {
        self.info.start()
    }

    /// The lap time, in ticks.
    pub fn time(&self) -> (time: i64)
        ensures
            time == self.spec_info().spec_time(),
    {
        self.info.time()
    }

    /// The names of all channels of the lap, in order.
    pub fn channel_names(&self) -> (names: Vec<String>)
        ensures
            names@.map_values(|s: String| s@) == self.spec_channel_names(),
    {
        let mut names: Vec<String> = Vec::new();
        let mut i: usize = 0;
        while i < self.data.len()
            invariant
                0 <= i <= self.data@.len(),
                names@.len() == i,
                forall|j: int| 0 <= j < i ==> names@[j]@ == self.data@[j].spec_name(),
            decreases self.data@.len() - i,
        {
            names.push(self.data[i].name().clone());
            i += 1;
        }
        assert(names@.map_values(|s: String| s@) =~= self.spec_channel_names());
        names
    }

    /// The first channel of the given name, if there is one.
    pub fn channel(&self, name: &str) -> (found: Option<&Channel>)
        ensures
            match found {
                Some(channel) => {
                    &&& first_named(self.spec_channel_names(), name@) < self.spec_data().len()
                    &&& *channel == self.spec_data()[first_named(
                        self.spec_channel_names(),
                        name@,
                    )]
                    &&& channel.spec_name() == name@
                },
                None => forall|i: int|
                    0 <= i < self.spec_data().len() ==> (
                    #[trigger] self.spec_data()[i]).spec_name() != name@,
            },
    {
        let mut i: usize = 0;
        while i < self.data.len()
            invariant
                0 <= i <= self.data@.len(),
                forall|j: int| 0 <= j < i ==> (#[trigger] self.data@[j]).spec_name() != name@,
            decreases self.data@.len() - i,
        {
            if str_eq(self.data[i].name().as_str(), name) {
                proof {
                    lemma_first_named_is(self.spec_channel_names(), name@, i as int);
                }
                return Some(&self.data[i]);
            }
            i += 1;
        }
        None
    }

    /// The highest sampling rate of any channel of the lap, in Hz; zero for a
    /// lap without channels.
    pub fn max_frequency(&self) -> (f: usize)
        requires
            self.wf(),
        ensures
            f == self.spec_max_frequency(),
            forall|i: int|
                0 <= i < self.spec_data().len() ==> (
                #[trigger] self.spec_data()[i]).spec_channel_frequency() <= f,
            self.spec_data().len() == 0 ==> f == 0,
    {
        let mut best: usize = 0;
        let mut i: usize = 0;
        while i < self.data.len()
            invariant
                0 <= i <= self.data@.len(),
                self.wf(),
                best == max_frequency_of(self.data@.take(i as int)),
            decreases self.data@.len() - i,
        {
            assert(self.spec_data()[i as int].wf());
            assert(self.data@.take(i + 1).drop_last() =~= self.data@.take(i as int));
            let f = self.data[i].frequency();
            if f > best {
                best = f;
            }
            i += 1;
        }
        proof {
            assert(self.data@.take(i as int) =~= self.data@);
            lemma_max_frequency_of(self.data@);
        }
        best
    }
}

} // verus!
