//! Everything that one run holds: who drove what where and when, and the
//! channels of every lap.

use vstd::prelude::*;
use crate::datetime::DateTime;
use crate::lap::Lap;

verus! {

/// All information and data of one run.
#[derive(Debug, PartialEq)]
pub struct RunData {
    championship: String,
    track: String,
    venue_type: String,
    vehicle: String,
    racer: String,
    datetime: DateTime,
    channel_names: Vec<String>,
    laps: Vec<Lap>,
}

/// What a run holds, as plain mathematical values.
pub struct RunDataView {
    pub championship: Seq<char>,
    pub track: Seq<char>,
    pub venue_type: Seq<char>,
    pub vehicle: Seq<char>,
    pub racer: Seq<char>,
    pub datetime: DateTime,
    pub channel_names: Seq<Seq<char>>,
    pub laps: Seq<Lap>,
}

impl RunDataView {
    /// Every channel of every lap has a sample for each of its timestamps.
    pub open spec fn wf(self) -> bool {
        forall|i: int| 0 <= i < self.laps.len() ==> (#[trigger] self.laps[i]).wf()
    }

    /// The channels of all laps reach the same highest sampling rate.
    pub open spec fn uniform(self) -> bool {
        forall|i: int|
            0 <= i < self.laps.len() ==> (#[trigger] self.laps[i]).spec_max_frequency()
                == self.laps[0].spec_max_frequency()
    }

    /// The sampling rate of the run: that of its laps, zero for a run without
    /// laps.
    pub open spec fn frequency(self) -> int {
        if self.laps.len() == 0 {
            0
        } else {
            self.laps[0].spec_max_frequency()
        }
    }
}

impl View for RunData {
    type V = RunDataView;

    closed spec fn view(&self) -> RunDataView {
        RunDataView {
            championship: self.championship@,
            track: self.track@,
            venue_type: self.venue_type@,
            vehicle: self.vehicle@,
            racer: self.racer@,
            datetime: self.datetime,
            channel_names: self.channel_names@.map_values(|s: String| s@),
            laps: self.laps@,
        }
    }
}

impl RunData {
    /// The data of a run, made of what the decoder gave about it.
    pub fn new(
        championship: String,
        track: String,
        venue_type: String,
        vehicle: String,
        racer: String,
        datetime: DateTime,
        channel_names: Vec<String>,
        laps: Vec<Lap>,
    ) -> (data: Self)
        ensures
            data@ == (RunDataView {
                championship: championship@,
                track: track@,
                venue_type: venue_type@,
                vehicle: vehicle@,
                racer: racer@,
                datetime,
                channel_names: channel_names@.map_values(|s: String| s@),
                laps: laps@,
            }),
    {
        RunData { championship, track, venue_type, vehicle, racer, datetime, channel_names, laps }
    }

    /// The championship that the run was part of.
    pub fn championship(&self) -> (r: &String)
        ensures
            r@ == self@.championship,
    {
        &self.championship
    }

    /// The track that was driven on.
    pub fn track(&self) -> (r: &String)
        ensures
            r@ == self@.track,
    {
        &self.track
    }

    /// The kind of session that the run was driven in.
    pub fn venue_type(&self) -> (r: &String)
        ensures
            r@ == self@.venue_type,
    {
        &self.venue_type
    }

    /// The vehicle.
    pub fn vehicle(&self) -> (r: &String)
        ensures
            r@ == self@.vehicle,
    {
        &self.vehicle
    }

    /// The driver.
    pub fn racer(&self) -> (r: &String)
        ensures
            r@ == self@.racer,
    {
        &self.racer
    }

    /// When the run was recorded.
    pub fn datetime(&self) -> (r: &DateTime)
        ensures
            *r == self@.datetime,
    {
        &self.datetime
    }

    /// The names of the channels.
    pub fn channel_names(&self) -> (r: &Vec<String>)
        ensures
            r@.map_values(|s: String| s@) == self@.channel_names,
    {
        &self.channel_names
    }

    /// The laps.
    pub fn laps(&self) -> (r: &Vec<Lap>)
        ensures
            r@ == self@.laps,
    {
        &self.laps
    }

    /// The number of channels.
    pub fn number_of_channels(&self) -> (n: usize)
        ensures
            n == self@.channel_names.len(),
    {
        self.channel_names.len()
    }

    /// The number of laps.
    pub fn number_of_laps(&self) -> (n: usize)
        ensures
            n == self@.laps.len(),
    {
        self.laps.len()
    }

    /// Whether the channels of all laps reach the same highest sampling rate.
    pub fn is_uniform(&self) -> (r: bool)
        requires
            self@.wf(),
        ensures
            r == self@.uniform(),
    {
        if self.laps.len() == 0 {
            return true;
        }
        assert(self@.laps[0].wf());
        let frequency = self.laps[0].max_frequency();
        let mut i: usize = 1;
        while i < self.laps.len()
            invariant
                1 <= i <= self.laps@.len(),
                self@.wf(),
                frequency == self.laps@[0].spec_max_frequency(),
                forall|j: int|
                    0 <= j < i ==> (#[trigger] self.laps@[j]).spec_max_frequency() == frequency,
            decreases self.laps@.len() - i,
        {
            assert(self@.laps[i as int].wf());
            if self.laps[i].max_frequency() != frequency {
                return false;
            }
            i += 1;
        }
        true
    }

    /// The sampling rate of the run in Hz, which all its laps must share;
    /// zero for a run without laps.
    pub fn frequency(&self) -> (f: usize)
        requires
            self@.wf(),
            self@.uniform(),
        ensures
            f == self@.frequency(),
            forall|i: int|
                0 <= i < self@.laps.len() ==> (#[trigger] self@.laps[i]).spec_max_frequency() == f,
    {
        if self.laps.len() == 0 {
            return 0;
        }
        assert(self@.laps[0].wf());
        self.laps[0].max_frequency()
    }
}

} // verus!
