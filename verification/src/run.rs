//! A run: what a file holds about its laps and channels, read once from the
//! decoder and kept.

use vstd::prelude::*;
use crate::channel::Channel;
use crate::channel::ChannelData;
use crate::datetime::library_date_of;
use crate::datetime::library_time_of;
use crate::datetime::tm_datetime;
use crate::datetime::Date;
use crate::datetime::DateTime;
use crate::datetime::Time;
use crate::datetime::Tm;
use crate::decoder::routed;
use crate::decoder::spec_routed;
use crate::decoder::ChannelKind;
use crate::decoder::Request;
use crate::error::XdrkError;
use crate::lap::Lap;
use crate::lap::LapInfo;
use crate::text::first_named;
use crate::text::position_of;

verus! {

/// What a run holds, as plain mathematical values.
pub struct RunView {
    pub path: Seq<char>,
    pub idx: usize,
    pub number_of_laps: usize,
    pub info_of_laps: Seq<LapInfo>,
    pub number_of_channels: usize,
    pub channel_names: Seq<Seq<char>>,
    pub channel_units: Seq<Seq<char>>,
    pub channels_count: usize,
    pub gps_channels_count: usize,
    pub gps_raw_channels_count: usize,
}

impl RunView {
    /// The run is complete: it has a session, at least one lap and one
    /// recorded channel, a place for every lap, and a name and a unit for
    /// every channel, the channels derived from the position of the vehicle
    /// after the recorded ones.
    pub open spec fn wf(self) -> bool {
        &&& self.idx > 0
        &&& 0 < self.number_of_laps <= i32::MAX
        &&& self.info_of_laps.len() == self.number_of_laps
        &&& forall|i: int|
            0 <= i < self.info_of_laps.len() ==> (#[trigger] self.info_of_laps[i]).spec_idx() == i
        &&& 0 < self.channels_count <= i32::MAX
        &&& self.gps_channels_count <= i32::MAX
        &&& self.gps_raw_channels_count <= i32::MAX
        &&& self.number_of_channels == self.channels_count + self.gps_channels_count
        &&& self.channel_names.len() == self.number_of_channels
        &&& self.channel_units.len() == self.number_of_channels
    }

    /// The kind of the channel at `channel_idx` among all channels of the
    /// run, and its index among the channels of that kind: a recorded channel
    /// keeps its index, and any later index is taken modulo the number of
    /// recorded channels.
    pub open spec fn routed(self, channel_idx: int) -> (ChannelKind, int) {
        spec_routed(channel_idx, self.channels_count as int)
    }

    /// The number of channels of a kind.
    pub open spec fn count_of(self, kind: ChannelKind) -> int {
        match kind {
            ChannelKind::Regular => self.channels_count as int,
            ChannelKind::Gps => self.gps_channels_count as int,
            ChannelKind::GpsRaw => self.gps_raw_channels_count as int,
        }
    }

    /// Whether the run has a channel `channel` of kind `kind` and, where a
    /// lap is given, that lap.
    pub open spec fn holds(self, kind: ChannelKind, channel: int, lap: Option<usize>) -> bool {
        &&& 0 <= channel < self.count_of(kind)
        &&& lap is Some ==> lap->0 < self.number_of_laps
    }
}

/// What a file holds about its laps and channels.
#[derive(Debug, PartialEq)]
pub struct Run {
    path: String,
    idx: usize,
    number_of_laps: usize,
    info_of_laps: Vec<LapInfo>,
    number_of_channels: usize,
    channel_names: Vec<String>,
    channel_units: Vec<String>,
    channels_count: usize,
    gps_channels_count: usize,
    gps_raw_channels_count: usize,
}

impl View for Run {
    type V = RunView;

    closed spec fn view(&self) -> RunView {
        RunView {
            path: self.path@,
            idx: self.idx,
            number_of_laps: self.number_of_laps,
            info_of_laps: self.info_of_laps@,
            number_of_channels: self.number_of_channels,
            channel_names: self.channel_names@.map_values(|s: String| s@),
            channel_units: self.channel_units@.map_values(|s: String| s@),
            channels_count: self.channels_count,
            gps_channels_count: self.gps_channels_count,
            gps_raw_channels_count: self.gps_raw_channels_count,
        }
    }
}

impl Run {
    #[verifier::type_invariant]
    spec fn complete(&self) -> bool {
        self@.wf()
    }

    /// Reads the date on which the decoder was built from the text that the
    /// decoder gives for it.
    pub fn library_date(text: &str) -> (r: Result<Date, XdrkError>)
        ensures
            match r {
                Ok(date) => library_date_of(text@) == Some(date) && date.wf(),
                Err(e) => e == XdrkError::InvalidDate && library_date_of(text@) is None,
            },
    {
        crate::datetime::library_date(text)
    }

    /// Reads the time at which the decoder was built from the text that the
    /// decoder gives for it.
    pub fn library_time(text: &str) -> (r: Result<Time, XdrkError>)
        ensures
            match r {
                Ok(time) => library_time_of(text@) == Some(time) && time.wf(),
                Err(e) => e == XdrkError::InvalidDate && library_time_of(text@) is None,
            },
    {
        crate::datetime::library_time(text)
    }

    /// Reads the date and the time at which the decoder was built from the
    /// texts that the decoder gives for them.
    pub fn library_datetime(date: &str, time: &str) -> (r: Result<DateTime, XdrkError>)
        ensures
            match r {
                Ok(datetime) => library_date_of(date@) == Some(datetime.date) && library_time_of(
                    time@,
                ) == Some(datetime.time) && datetime.wf(),
                Err(e) => e == XdrkError::InvalidDate && (library_date_of(date@) is None
                    || library_time_of(time@) is None),
            },
    {
        crate::datetime::library_datetime(date, time)
    }

    /// When the run was recorded, from the broken-down time that the decoder
    /// gives for it. Fails with `DecoderFailed` if the decoder gave none, and
    /// with `InvalidDate` if what it gave stands for no date and time.
    pub fn datetime(&self, tm: Option<Tm>) -> (r: Result<DateTime, XdrkError>)
        ensures
            match r {
                Ok(datetime) => tm is Some && tm_datetime(tm->0) == Some(datetime)
                    && datetime.wf(),
                Err(e) => if tm is None {
                    e == XdrkError::DecoderFailed
                } else {
                    e == XdrkError::InvalidDate && tm_datetime(tm->0) is None
                },
            },
    {
        match tm {
            Some(tm) => crate::datetime::datetime_of_tm(&tm),
            None => Err(XdrkError::DecoderFailed),
        }
    }

    /// The path of the file.
    pub fn path(&self) -> (path: &String)
        ensures
            path@ == self@.path,
    {
        &self.path
    }

    /// The handle of the decoder session.
    pub fn idx(&self) -> (idx: usize)
        ensures
            idx == self@.idx,
    {
        self.idx
    }

    /// The number of laps.
    pub fn number_of_laps(&self) -> (n: usize)
        ensures
            n == self@.number_of_laps,
            self@.wf(),
    {
        proof {
            use_type_invariant(self);
        }
        self.number_of_laps
    }

    /// The place of every lap within the run.
    pub fn info_of_laps(&self) -> (laps: &Vec<LapInfo>)
        ensures
            laps@ == self@.info_of_laps,
    {
        &self.info_of_laps
    }

    /// The number of channels: the recorded ones and those derived from the
    /// position of the vehicle, not the raw readings of the receiver.
    pub fn number_of_channels(&self) -> (n: usize)
        ensures
            n == self@.number_of_channels,
            self@.wf(),
    {
        proof {
            use_type_invariant(self);
        }
        self.number_of_channels
    }

    /// The names of the channels.
    pub fn channel_names(&self) -> (names: &Vec<String>)
        ensures
            names@.map_values(|s: String| s@) == self@.channel_names,
    {
        &self.channel_names
    }

    /// The units of the channels.
    pub fn channel_units(&self) -> (units: &Vec<String>)
        ensures
            units@.map_values(|s: String| s@) == self@.channel_units,
    {
        &self.channel_units
    }

    /// The number of recorded channels.
    pub fn channels_count(&self) -> (n: usize)
        ensures
            n == self@.channels_count,
    {
        self.channels_count
    }

    /// The number of channels derived from the position of the vehicle.
    pub fn gps_channels_count(&self) -> (n: usize)
        ensures
            n == self@.gps_channels_count,
    {
        self.gps_channels_count
    }

    /// The number of raw readings of the position receiver.
    pub fn gps_raw_channels_count(&self) -> (n: usize)
        ensures
            n == self@.gps_raw_channels_count,
    {
        self.gps_raw_channels_count
    }

    /// The place of lap `lap_idx` within the run. Fails if there is no such
    /// lap.
    pub fn lap_info(&self, lap_idx: usize) -> (r: Result<LapInfo, XdrkError>)
        ensures
            lap_idx < self@.number_of_laps ==> r == Ok::<LapInfo, XdrkError>(
                self@.info_of_laps[lap_idx as int],
            ),
            lap_idx >= self@.number_of_laps ==> r == Err::<LapInfo, XdrkError>(
                XdrkError::InvalidInput,
            ),
    {
        proof {
            use_type_invariant(self);
        }
        if lap_idx < self.number_of_laps {
            Ok(self.info_of_laps[lap_idx])
        } else {
            Err(XdrkError::InvalidInput)
        }
    }

    /// Puts lap `lap_idx` together from its channels. Fails if there is no
    /// such lap.
    pub fn lap(&self, lap_idx: usize, channels: Vec<Channel>) -> (r: Result<Lap, XdrkError>)
        ensures
            lap_idx < self@.number_of_laps ==> r is Ok && r->Ok_0.spec_info()
                == self@.info_of_laps[lap_idx as int] && r->Ok_0.spec_data() == channels@,
            lap_idx >= self@.number_of_laps ==> r == Err::<Lap, XdrkError>(XdrkError::InvalidInput),
    {
        proof {
            use_type_invariant(self);
        }
        match self.lap_info(lap_idx) {
            Ok(info) => Ok(Lap::new(info, channels)),
            Err(e) => Err(e),
        }
    }

    /// The name of the channel at `channel_idx`. Fails if there is no such
    /// channel.
    pub fn channel_name(&self, channel_idx: usize) -> (r: Result<String, XdrkError>)
        ensures
            channel_idx < self@.number_of_channels ==> r is Ok && r->Ok_0@
                == self@.channel_names[channel_idx as int],
            channel_idx >= self@.number_of_channels ==> r == Err::<String, XdrkError>(
                XdrkError::InvalidInput,
            ),
    {
        proof {
            use_type_invariant(self);
        }
        if channel_idx < self.number_of_channels {
            Ok(self.channel_names[channel_idx].clone())
        } else {
            Err(XdrkError::InvalidInput)
        }
    }

    /// The index of the first channel called `channel_name`. Fails if no
    /// channel has that name.
    pub fn channel_idx(&self, channel_name: &str) -> (r: Result<usize, XdrkError>)
        ensures
            match r {
                Ok(at) => at < self@.number_of_channels && at == first_named(
                    self@.channel_names,
                    channel_name@,
                ),
                Err(e) => e == XdrkError::UnknownChannel && first_named(
                    self@.channel_names,
                    channel_name@,
                ) == self@.channel_names.len(),
            },
    {
        proof {
            use_type_invariant(self);
        }
        match position_of(&self.channel_names, channel_name) {
            Some(at) => Ok(at),
            None => Err(XdrkError::UnknownChannel),
        }
    }

    /// The unit of the channel at `channel_idx`. Fails if there is no such
    /// channel.
    pub fn channel_unit(&self, channel_idx: usize) -> (r: Result<String, XdrkError>)
        ensures
            channel_idx < self@.number_of_channels ==> r is Ok && r->Ok_0@
                == self@.channel_units[channel_idx as int],
            channel_idx >= self@.number_of_channels ==> r == Err::<String, XdrkError>(
                XdrkError::InvalidInput,
            ),
    {
        proof {
            use_type_invariant(self);
        }
        if channel_idx < self.number_of_channels {
            Ok(self.channel_units[channel_idx].clone())
        } else {
            Err(XdrkError::InvalidInput)
        }
    }

    /// Puts the channel at `channel_idx` together from its samples. Fails if
    /// there is no such channel.
    pub fn channel(&self, channel_idx: usize, data: ChannelData) -> (r: Result<Channel, XdrkError>)
        ensures
            channel_idx < self@.number_of_channels ==> r is Ok && r->Ok_0.spec_name()
                == self@.channel_names[channel_idx as int] && r->Ok_0.spec_unit()
                == self@.channel_units[channel_idx as int] && r->Ok_0.spec_data() == data,
            channel_idx >= self@.number_of_channels ==> r == Err::<Channel, XdrkError>(
                XdrkError::InvalidInput,
            ),
    {
        proof {
            use_type_invariant(self);
        }
        if channel_idx < self.number_of_channels {
            Ok(
                Channel::new(
                    self.channel_names[channel_idx].clone(),
                    self.channel_units[channel_idx].clone(),
                    data,
                ),
            )
        } else {
            Err(XdrkError::InvalidInput)
        }
    }

    /// The question for the number of samples of channel `channel` of kind
    /// `kind`, in lap `lap` or in the whole run. Fails if the run has no such
    /// channel or no such lap.
    pub fn sample_count_request(&self, kind: ChannelKind, channel: usize, lap: Option<usize>) -> (r:
        Result<Request, XdrkError>)
        ensures
            self@.holds(kind, channel as int, lap) ==> r == Ok::<Request, XdrkError>(
                Request::SampleCount { kind, channel, lap },
            ),
            !self@.holds(kind, channel as int, lap) ==> r == Err::<Request, XdrkError>(
                XdrkError::InvalidInput,
            ),
    {
        proof {
            use_type_invariant(self);
        }
        if !self.has(kind, channel, lap) {
            return Err(XdrkError::InvalidInput);
        }
        Ok(Request::SampleCount { kind, channel, lap })
    }

    /// The question for the `count` samples of channel `channel` of kind
    /// `kind`, in lap `lap` or in the whole run. Fails if the run has no such
    /// channel or no such lap.
    pub fn samples_request(
        &self,
        kind: ChannelKind,
        channel: usize,
        lap: Option<usize>,
        count: usize,
    ) -> (r: Result<Request, XdrkError>)
        ensures
            self@.holds(kind, channel as int, lap) ==> r == Ok::<Request, XdrkError>(
                Request::Samples { kind, channel, lap, count },
            ),
            !self@.holds(kind, channel as int, lap) ==> r == Err::<Request, XdrkError>(
                XdrkError::InvalidInput,
            ),
    {
        proof {
            use_type_invariant(self);
        }
        if !self.has(kind, channel, lap) {
            return Err(XdrkError::InvalidInput);
        }
        Ok(Request::Samples { kind, channel, lap, count })
    }

    /// Whether the run has channel `channel` of kind `kind` and, where a lap
    /// is given, that lap.
    pub fn has(&self, kind: ChannelKind, channel: usize, lap: Option<usize>) -> (r: bool)
        ensures
            r == self@.holds(kind, channel as int, lap),
    {
        let count = match kind {
            ChannelKind::Regular => self.channels_count,
            ChannelKind::Gps => self.gps_channels_count,
            ChannelKind::GpsRaw => self.gps_raw_channels_count,
        };
        let lap_exists = match lap {
            Some(lap_idx) => lap_idx < self.number_of_laps,
            None => true,
        };
        lap_exists && channel < count
    }

    /// The question for the number of samples that make up the channel at
    /// `channel_idx` among all channels of the run, in lap `lap_idx` or in
    /// the whole run. Fails if the run has no such channel or no such lap.
    pub fn channel_data(&self, channel_idx: usize, lap_idx: Option<usize>) -> (r: Result<
        Request,
        XdrkError,
    >)
        ensures
            ({
                let (kind, channel) = self@.routed(channel_idx as int);
                &&& self@.holds(kind, channel, lap_idx) ==> r == Ok::<Request, XdrkError>(
                    Request::SampleCount { kind, channel: channel as usize, lap: lap_idx },
                )
                &&& !self@.holds(kind, channel, lap_idx) ==> r == Err::<Request, XdrkError>(
                    XdrkError::InvalidInput,
                )
            }),
    {
        proof {
            use_type_invariant(self);
        }
        let (kind, channel) = routed(channel_idx, self.channels_count);
        self.sample_count_request(kind, channel, lap_idx)
    }

    /// The question for the number of samples of a recorded channel.
    pub fn channel_samples_count(&self, channel_idx: usize) -> (r: Result<Request, XdrkError>)
        ensures
            channel_idx < self@.channels_count ==> r == Ok::<Request, XdrkError>(
                Request::SampleCount { kind: ChannelKind::Regular, channel: channel_idx, lap: None },
            ),
            channel_idx >= self@.channels_count ==> r == Err::<Request, XdrkError>(
                XdrkError::InvalidInput,
            ),
    {
        proof {
            use_type_invariant(self);
        }
        self.sample_count_request(ChannelKind::Regular, channel_idx, None)
    }

    /// The question for the `count` samples of a recorded channel.
    pub fn channel_samples(&self, channel_idx: usize, count: usize) -> (r: Result<
        Request,
        XdrkError,
    >)
        ensures
            channel_idx < self@.channels_count ==> r == Ok::<Request, XdrkError>(
                Request::Samples {
                    kind: ChannelKind::Regular,
                    channel: channel_idx,
                    lap: None,
                    count,
                },
            ),
            channel_idx >= self@.channels_count ==> r == Err::<Request, XdrkError>(
                XdrkError::InvalidInput,
            ),
    {
        proof {
            use_type_invariant(self);
        }
        self.samples_request(ChannelKind::Regular, channel_idx, None, count)
    }

    /// The question for the number of samples of a recorded channel in a lap.
    pub fn lap_channel_samples_count(&self, lap_idx: usize, channel_idx: usize) -> (r: Result<
        Request,
        XdrkError,
    >)
        ensures
            self@.holds(ChannelKind::Regular, channel_idx as int, Some(lap_idx)) ==> r == Ok::<
                Request,
                XdrkError,
            >(
                Request::SampleCount {
                    kind: ChannelKind::Regular,
                    channel: channel_idx,
                    lap: Some(lap_idx),
                },
            ),
            !self@.holds(ChannelKind::Regular, channel_idx as int, Some(lap_idx)) ==> r == Err::<
                Request,
                XdrkError,
            >(XdrkError::InvalidInput),
    {
        proof {
            use_type_invariant(self);
        }
        self.sample_count_request(ChannelKind::Regular, channel_idx, Some(lap_idx))
    }

    /// The question for the `count` samples of a recorded channel in a lap.
    pub fn lap_channel_samples(&self, lap_idx: usize, channel_idx: usize, count: usize) -> (r:
        Result<Request, XdrkError>)
        ensures
            self@.holds(ChannelKind::Regular, channel_idx as int, Some(lap_idx)) ==> r == Ok::<
                Request,
                XdrkError,
            >(
                Request::Samples {
                    kind: ChannelKind::Regular,
                    channel: channel_idx,
                    lap: Some(lap_idx),
                    count,
                },
            ),
            !self@.holds(ChannelKind::Regular, channel_idx as int, Some(lap_idx)) ==> r == Err::<
                Request,
                XdrkError,
            >(XdrkError::InvalidInput),
    {
        proof {
            use_type_invariant(self);
        }
        self.samples_request(ChannelKind::Regular, channel_idx, Some(lap_idx), count)
    }

    /// The question for the name of a channel derived from the position of the vehicle. Fails if there is no such
    /// channel.
    pub fn gps_channel_name(&self, channel_idx: usize) -> (r: Result<Request, XdrkError>)
        ensures
            self@.holds(ChannelKind::Gps, channel_idx as int, None) ==> r == Ok::<Request, XdrkError>(
                Request::ChannelName { kind: ChannelKind::Gps, channel: channel_idx },
            ),
            !self@.holds(ChannelKind::Gps, channel_idx as int, None) ==> r == Err::<Request, XdrkError>(
                XdrkError::InvalidInput,
            ),
    {
        proof {
            use_type_invariant(self);
        }
        if self.has(ChannelKind::Gps, channel_idx, None) {
            Ok(Request::ChannelName { kind: ChannelKind::Gps, channel: channel_idx })
        } else {
            Err(XdrkError::InvalidInput)
        }
    }

    /// The question for the unit of a channel derived from the position of the vehicle. Fails if there is no such
    /// channel.
    pub fn gps_channel_unit(&self, channel_idx: usize) -> (r: Result<Request, XdrkError>)
        ensures
            self@.holds(ChannelKind::Gps, channel_idx as int, None) ==> r == Ok::<Request, XdrkError>(
                Request::ChannelUnit { kind: ChannelKind::Gps, channel: channel_idx },
            ),
            !self@.holds(ChannelKind::Gps, channel_idx as int, None) ==> r == Err::<Request, XdrkError>(
                XdrkError::InvalidInput,
            ),
    {
        proof {
            use_type_invariant(self);
        }
        if self.has(ChannelKind::Gps, channel_idx, None) {
            Ok(Request::ChannelUnit { kind: ChannelKind::Gps, channel: channel_idx })
        } else {
            Err(XdrkError::InvalidInput)
        }
    }

    /// The question for the number of samples of a channel derived from the position of the vehicle.
    pub fn gps_channel_samples_count(&self, channel_idx: usize) -> (r: Result<Request, XdrkError>)
        ensures
            self@.holds(ChannelKind::Gps, channel_idx as int, None) ==> r == Ok::<Request, XdrkError>(
                Request::SampleCount { kind: ChannelKind::Gps, channel: channel_idx, lap: None },
            ),
            !self@.holds(ChannelKind::Gps, channel_idx as int, None) ==> r == Err::<Request, XdrkError>(
                XdrkError::InvalidInput,
            ),
    {
        proof {
            use_type_invariant(self);
        }
        self.sample_count_request(ChannelKind::Gps, channel_idx, None)
    }

    /// The question for the `count` samples of a channel derived from the position of the vehicle.
    pub fn gps_channel_samples(&self, channel_idx: usize, count: usize) -> (r: Result<Request, XdrkError>)
        ensures
            self@.holds(ChannelKind::Gps, channel_idx as int, None) ==> r == Ok::<Request, XdrkError>(
                Request::Samples {
                    kind: ChannelKind::Gps,
                    channel: channel_idx,
                    lap: None,
                    count,
                },
            ),
            !self@.holds(ChannelKind::Gps, channel_idx as int, None) ==> r == Err::<Request, XdrkError>(
                XdrkError::InvalidInput,
            ),
    {
        proof {
            use_type_invariant(self);
        }
        self.samples_request(ChannelKind::Gps, channel_idx, None, count)
    }

    /// The question for the number of samples of a channel derived from the position of the vehicle in a lap.
    pub fn lap_gps_channel_samples_count(&self, lap_idx: usize, channel_idx: usize) -> (r: Result<Request, XdrkError>)
        ensures
            self@.holds(ChannelKind::Gps, channel_idx as int, Some(lap_idx)) ==> r == Ok::<Request, XdrkError>(
                Request::SampleCount { kind: ChannelKind::Gps, channel: channel_idx, lap: Some(lap_idx) },
            ),
            !self@.holds(ChannelKind::Gps, channel_idx as int, Some(lap_idx)) ==> r == Err::<Request, XdrkError>(
                XdrkError::InvalidInput,
            ),
    {
        proof {
            use_type_invariant(self);
        }
        self.sample_count_request(ChannelKind::Gps, channel_idx, Some(lap_idx))
    }

    /// The question for the `count` samples of a channel derived from the position of the vehicle in a lap.
    pub fn lap_gps_channel_samples(&self, lap_idx: usize, channel_idx: usize, count: usize) -> (r: Result<Request, XdrkError>)
        ensures
            self@.holds(ChannelKind::Gps, channel_idx as int, Some(lap_idx)) ==> r == Ok::<Request, XdrkError>(
                Request::Samples {
                    kind: ChannelKind::Gps,
                    channel: channel_idx,
                    lap: Some(lap_idx),
                    count,
                },
            ),
            !self@.holds(ChannelKind::Gps, channel_idx as int, Some(lap_idx)) ==> r == Err::<Request, XdrkError>(
                XdrkError::InvalidInput,
            ),
    {
        proof {
            use_type_invariant(self);
        }
        self.samples_request(ChannelKind::Gps, channel_idx, Some(lap_idx), count)
    }

    /// The question for the name of a raw reading of the position receiver. Fails if there is no such
    /// channel.
    pub fn gps_raw_channel_name(&self, channel_idx: usize) -> (r: Result<Request, XdrkError>)
        ensures
            self@.holds(ChannelKind::GpsRaw, channel_idx as int, None) ==> r == Ok::<Request, XdrkError>(
                Request::ChannelName { kind: ChannelKind::GpsRaw, channel: channel_idx },
            ),
            !self@.holds(ChannelKind::GpsRaw, channel_idx as int, None) ==> r == Err::<Request, XdrkError>(
                XdrkError::InvalidInput,
            ),
    {
        proof {
            use_type_invariant(self);
        }
        if self.has(ChannelKind::GpsRaw, channel_idx, None) {
            Ok(Request::ChannelName { kind: ChannelKind::GpsRaw, channel: channel_idx })
        } else {
            Err(XdrkError::InvalidInput)
        }
    }

    /// The question for the unit of a raw reading of the position receiver. Fails if there is no such
    /// channel.
    pub fn gps_raw_channel_unit(&self, channel_idx: usize) -> (r: Result<Request, XdrkError>)
        ensures
            self@.holds(ChannelKind::GpsRaw, channel_idx as int, None) ==> r == Ok::<Request, XdrkError>(
                Request::ChannelUnit { kind: ChannelKind::GpsRaw, channel: channel_idx },
            ),
            !self@.holds(ChannelKind::GpsRaw, channel_idx as int, None) ==> r == Err::<Request, XdrkError>(
                XdrkError::InvalidInput,
            ),
    {
        proof {
            use_type_invariant(self);
        }
        if self.has(ChannelKind::GpsRaw, channel_idx, None) {
            Ok(Request::ChannelUnit { kind: ChannelKind::GpsRaw, channel: channel_idx })
        } else {
            Err(XdrkError::InvalidInput)
        }
    }

    /// The question for the number of samples of a raw reading of the position receiver.
    pub fn gps_raw_channel_samples_count(&self, channel_idx: usize) -> (r: Result<Request, XdrkError>)
        ensures
            self@.holds(ChannelKind::GpsRaw, channel_idx as int, None) ==> r == Ok::<Request, XdrkError>(
                Request::SampleCount { kind: ChannelKind::GpsRaw, channel: channel_idx, lap: None },
            ),
            !self@.holds(ChannelKind::GpsRaw, channel_idx as int, None) ==> r == Err::<Request, XdrkError>(
                XdrkError::InvalidInput,
            ),
    {
        proof {
            use_type_invariant(self);
        }
        self.sample_count_request(ChannelKind::GpsRaw, channel_idx, None)
    }

    /// The question for the `count` samples of a raw reading of the position receiver.
    pub fn gps_raw_channel_samples(&self, channel_idx: usize, count: usize) -> (r: Result<Request, XdrkError>)
        ensures
            self@.holds(ChannelKind::GpsRaw, channel_idx as int, None) ==> r == Ok::<Request, XdrkError>(
                Request::Samples {
                    kind: ChannelKind::GpsRaw,
                    channel: channel_idx,
                    lap: None,
                    count,
                },
            ),
            !self@.holds(ChannelKind::GpsRaw, channel_idx as int, None) ==> r == Err::<Request, XdrkError>(
                XdrkError::InvalidInput,
            ),
    {
        proof {
            use_type_invariant(self);
        }
        self.samples_request(ChannelKind::GpsRaw, channel_idx, None, count)
    }

    /// The question for the number of samples of a raw reading of the position receiver in a lap.
    pub fn lap_gps_raw_channel_samples_count(&self, lap_idx: usize, channel_idx: usize) -> (r: Result<Request, XdrkError>)
        ensures
            self@.holds(ChannelKind::GpsRaw, channel_idx as int, Some(lap_idx)) ==> r == Ok::<Request, XdrkError>(
                Request::SampleCount { kind: ChannelKind::GpsRaw, channel: channel_idx, lap: Some(lap_idx) },
            ),
            !self@.holds(ChannelKind::GpsRaw, channel_idx as int, Some(lap_idx)) ==> r == Err::<Request, XdrkError>(
                XdrkError::InvalidInput,
            ),
    {
        proof {
            use_type_invariant(self);
        }
        self.sample_count_request(ChannelKind::GpsRaw, channel_idx, Some(lap_idx))
    }

    /// The question for the `count` samples of a raw reading of the position receiver in a lap.
    pub fn lap_gps_raw_channel_samples(&self, lap_idx: usize, channel_idx: usize, count: usize) -> (r: Result<Request, XdrkError>)
        ensures
            self@.holds(ChannelKind::GpsRaw, channel_idx as int, Some(lap_idx)) ==> r == Ok::<Request, XdrkError>(
                Request::Samples {
                    kind: ChannelKind::GpsRaw,
                    channel: channel_idx,
                    lap: Some(lap_idx),
                    count,
                },
            ),
            !self@.holds(ChannelKind::GpsRaw, channel_idx as int, Some(lap_idx)) ==> r == Err::<Request, XdrkError>(
                XdrkError::InvalidInput,
            ),
    {
        proof {
            use_type_invariant(self);
        }
        self.samples_request(ChannelKind::GpsRaw, channel_idx, Some(lap_idx), count)
    }
}

/// How far the reading of a run from the decoder has come.
#[derive(Clone, Copy, Debug, PartialEq, Eq, Structural)]
pub enum Stage {
    /// The number of laps is asked for.
    LapCount,
    /// The place of the next lap is asked for.
    LapInfo,
    /// The number of recorded channels is asked for.
    ChannelCount,
    /// The number of channels derived from the position is asked for.
    GpsChannelCount,
    /// The number of raw readings of the position receiver is asked for.
    GpsRawChannelCount,
    /// The name of the next channel is asked for.
    Names,
    /// The unit of the next channel is asked for.
    Units,
    /// Everything has been read.
    Done,
    /// The decoder gave an answer that ended the reading.
    Failed,
}

/// What has been read of a run so far, as plain mathematical values.
pub struct LoaderView {
    pub stage: Stage,
    pub run: RunView,
}

impl LoaderView {
    /// The reading of the file at `path` with the handle `idx` of which
    /// nothing has been read yet.
    pub open spec fn start(path: Seq<char>, idx: usize) -> LoaderView {
        LoaderView {
            stage: Stage::LapCount,
            run: RunView {
                path,
                idx,
                number_of_laps: 0,
                info_of_laps: Seq::empty(),
                number_of_channels: 0,
                channel_names: Seq::empty(),
                channel_units: Seq::empty(),
                channels_count: 0,
                gps_channels_count: 0,
                gps_raw_channels_count: 0,
            },
        }
    }

    /// What has been read fits the stage that the reading is at.
    pub open spec fn wf(self) -> bool {
        let run = self.run;
        &&& run.idx > 0
        &&& forall|i: int|
            0 <= i < run.info_of_laps.len() ==> (#[trigger] run.info_of_laps[i]).spec_idx() == i
        &&& match self.stage {
            Stage::LapCount => run.info_of_laps.len() == 0 && self.no_text_read(),
            Stage::LapInfo => 0 < run.number_of_laps <= i32::MAX && run.info_of_laps.len()
                < run.number_of_laps && self.no_text_read(),
            Stage::ChannelCount => self.laps_read() && self.no_text_read(),
            Stage::GpsChannelCount => self.laps_read() && self.no_text_read() && 0
                < run.channels_count <= i32::MAX,
            Stage::GpsRawChannelCount => self.laps_read() && self.no_text_read() && 0
                < run.channels_count <= i32::MAX && run.gps_channels_count <= i32::MAX,
            Stage::Names => self.counts_read() && run.channel_names.len() < run.number_of_channels
                && run.channel_units.len() == 0,
            Stage::Units => self.counts_read() && run.channel_names.len()
                == run.number_of_channels && run.channel_units.len() < run.number_of_channels,
            Stage::Done => run.wf(),
            Stage::Failed => true,
        }
    }

    /// No name and no unit has been read yet.
    pub open spec fn no_text_read(self) -> bool {
        self.run.channel_names.len() == 0 && self.run.channel_units.len() == 0
    }

    /// The place of every lap has been read.
    pub open spec fn laps_read(self) -> bool {
        &&& 0 < self.run.number_of_laps <= i32::MAX
        &&& self.run.info_of_laps.len() == self.run.number_of_laps
    }

    /// The laps and the numbers of channels have been read.
    pub open spec fn counts_read(self) -> bool {
        &&& self.laps_read()
        &&& 0 < self.run.channels_count <= i32::MAX
        &&& self.run.gps_channels_count <= i32::MAX
        &&& self.run.gps_raw_channels_count <= i32::MAX
        &&& self.run.number_of_channels == self.run.channels_count + self.run.gps_channels_count
    }

    /// The question to put to the decoder next, if the reading goes on.
    pub open spec fn request(self) -> Option<Request> {
        let run = self.run;
        match self.stage {
            Stage::LapCount => Some(Request::LapCount),
            Stage::LapInfo => Some(Request::LapInfo { lap: run.info_of_laps.len() as usize }),
            Stage::ChannelCount => Some(Request::ChannelCount { kind: ChannelKind::Regular }),
            Stage::GpsChannelCount => Some(Request::ChannelCount { kind: ChannelKind::Gps }),
            Stage::GpsRawChannelCount => Some(Request::ChannelCount { kind: ChannelKind::GpsRaw }),
            Stage::Names => {
                let (kind, channel) = run.routed(run.channel_names.len() as int);
                Some(Request::ChannelName { kind, channel: channel as usize })
            },
            Stage::Units => {
                let (kind, channel) = run.routed(run.channel_units.len() as int);
                Some(Request::ChannelUnit { kind, channel: channel as usize })
            },
            Stage::Done => None,
            Stage::Failed => None,
        }
    }

    /// The reading after the decoder has answered a question for a number
    /// with `reply`. There must be a lap and a recorded channel; of the other
    /// kinds of channels there may be none. A negative reply is a failure.
    pub open spec fn after_count(self, reply: int) -> LoaderView {
        let run = self.run;
        let failed = LoaderView { stage: Stage::Failed, run };
        match self.stage {
            Stage::LapCount => if reply > 0 {
                LoaderView {
                    stage: Stage::LapInfo,
                    run: RunView { number_of_laps: reply as usize, ..run },
                }
            } else {
                failed
            },
            Stage::ChannelCount => if reply > 0 {
                LoaderView {
                    stage: Stage::GpsChannelCount,
                    run: RunView { channels_count: reply as usize, ..run },
                }
            } else {
                failed
            },
            Stage::GpsChannelCount => if reply >= 0 {
                LoaderView {
                    stage: Stage::GpsRawChannelCount,
                    run: RunView { gps_channels_count: reply as usize, ..run },
                }
            } else {
                failed
            },
            Stage::GpsRawChannelCount => if reply >= 0 {
                LoaderView {
                    stage: Stage::Names,
                    run: RunView {
                        gps_raw_channels_count: reply as usize,
                        number_of_channels: (run.channels_count + run.gps_channels_count) as usize,
                        ..run
                    },
                }
            } else {
                failed
            },
            _ => self,
        }
    }

    /// The reading after the decoder has answered the question for the next
    /// lap with the code `code`, which is one if all went well, and with the
    /// start and the time of the lap.
    pub open spec fn after_lap(self, code: int, start: i64, time: i64) -> LoaderView {
        let run = self.run;
        if self.stage != Stage::LapInfo {
            self
        } else if code != 1 {
            LoaderView { stage: Stage::Failed, run }
        } else {
            let laps = run.info_of_laps.push(
                LapInfo::spec_new(run.info_of_laps.len() as usize, start, time),
            );
            LoaderView {
                stage: if laps.len() == run.number_of_laps {
                    Stage::ChannelCount
                } else {
                    Stage::LapInfo
                },
                run: RunView { info_of_laps: laps, ..run },
            }
        }
    }

    /// The reading after the decoder has answered the question for the next
    /// name or unit with `text`, or has failed to.
    pub open spec fn after_text(self, text: Option<Seq<char>>) -> LoaderView {
        let run = self.run;
        match self.stage {
            Stage::Names => match text {
                None => LoaderView { stage: Stage::Failed, run },
                Some(name) => {
                    let names = run.channel_names.push(name);
                    LoaderView {
                        stage: if names.len() == run.number_of_channels {
                            Stage::Units
                        } else {
                            Stage::Names
                        },
                        run: RunView { channel_names: names, ..run },
                    }
                },
            },
            Stage::Units => match text {
                None => LoaderView { stage: Stage::Failed, run },
                Some(unit) => {
                    let units = run.channel_units.push(unit);
                    LoaderView {
                        stage: if units.len() == run.number_of_channels {
                            Stage::Done
                        } else {
                            Stage::Units
                        },
                        run: RunView { channel_units: units, ..run },
                    }
                },
            },
            _ => self,
        }
    }

    /// The number of answers that the reading still needs at most.
    pub open spec fn remaining(self) -> int {
        let run = self.run;
        match self.stage {
            Stage::LapCount => 0x2_8000_0000int + 5,
            Stage::LapInfo => 0x2_0000_0000int + 3 + (run.number_of_laps
                - run.info_of_laps.len()),
            Stage::ChannelCount => 0x2_0000_0000int + 3,
            Stage::GpsChannelCount => 0x2_0000_0000int + 2,
            Stage::GpsRawChannelCount => 0x2_0000_0000int + 1,
            Stage::Names => 2 * run.number_of_channels - run.channel_names.len(),
            Stage::Units => run.number_of_channels - run.channel_units.len(),
            Stage::Done => 0,
            Stage::Failed => 0,
        }
    }
}

/// Every answer brings a well-formed reading that goes on to a well-formed
/// reading which needs fewer answers.
pub proof fn lemma_reading_advances(
    reading: LoaderView,
    reply: int,
    start: i64,
    time: i64,
    text: Option<Seq<char>>,
)
    requires
        reading.wf(),
        reading.request() is Some,
        i32::MIN <= reply <= i32::MAX,
    ensures
        reading.after_count(reply).wf(),
        reading.after_lap(reply, start, time).wf(),
        reading.after_text(text).wf(),
        reading.request()->0 is LapCount || reading.request()->0 is ChannelCount
            ==> 0 <= reading.after_count(reply).remaining() < reading.remaining(),
        reading.request()->0 is LapInfo ==> 0 <= reading.after_lap(
            reply,
            start,
            time,
        ).remaining() < reading.remaining(),
        reading.request()->0 is ChannelName || reading.request()->0 is ChannelUnit
            ==> 0 <= reading.after_text(text).remaining() < reading.remaining(),
{
    broadcast use LapInfo::lemma_spec_new;

    let lap = reading.after_lap(reply, start, time);
    if reading.stage == Stage::LapInfo && reply == 1 {
        let n = reading.run.info_of_laps.len() as int;
        assert forall|i: int| 0 <= i < lap.run.info_of_laps.len() implies (
        #[trigger] lap.run.info_of_laps[i]).spec_idx() == i by {
            if i < n {
                assert(lap.run.info_of_laps[i] == reading.run.info_of_laps[i]);
            }
        }
    }
}

/// What has been read of a run so far.
#[derive(Debug)]
struct Reading {
    stage: Stage,
    path: String,
    idx: usize,
    number_of_laps: usize,
    info_of_laps: Vec<LapInfo>,
    number_of_channels: usize,
    channel_names: Vec<String>,
    channel_units: Vec<String>,
    channels_count: usize,
    gps_channels_count: usize,
    gps_raw_channels_count: usize,
}

impl View for Reading {
    type V = LoaderView;

    closed spec fn view(&self) -> LoaderView {
        LoaderView {
            stage: self.stage,
            run: RunView {
                path: self.path@,
                idx: self.idx,
                number_of_laps: self.number_of_laps,
                info_of_laps: self.info_of_laps@,
                number_of_channels: self.number_of_channels,
                channel_names: self.channel_names@.map_values(|s: String| s@),
                channel_units: self.channel_units@.map_values(|s: String| s@),
                channels_count: self.channels_count,
                gps_channels_count: self.gps_channels_count,
                gps_raw_channels_count: self.gps_raw_channels_count,
            },
        }
    }
}

impl Reading {
    /// A reading that has failed, of no file in particular.
    fn failed() -> (reading: Self)
        ensures
            reading@.wf(),
            reading@.stage == Stage::Failed,
    {
        Reading {
            stage: Stage::Failed,
            path: String::new(),
            idx: 1,
            number_of_laps: 0,
            info_of_laps: Vec::new(),
            number_of_channels: 0,
            channel_names: Vec::new(),
            channel_units: Vec::new(),
            channels_count: 0,
            gps_channels_count: 0,
            gps_raw_channels_count: 0,
        }
    }

    /// Starts to read the run of the file at `path`, which the decoder has
    /// opened under the handle `idx`.
    fn new(path: String, idx: usize) -> (loader: Self)
        requires
            idx > 0,
        ensures
            loader@.wf(),
            loader@ == LoaderView::start(path@, idx),
    {
        let reading = Reading {
            stage: Stage::LapCount,
            path,
            idx,
            number_of_laps: 0,
            info_of_laps: Vec::new(),
            number_of_channels: 0,
            channel_names: Vec::new(),
            channel_units: Vec::new(),
            channels_count: 0,
            gps_channels_count: 0,
            gps_raw_channels_count: 0,
        };
        proof {
            assert(reading@.run.info_of_laps =~= Seq::empty());
            assert(reading@.run.channel_names =~= Seq::empty());
            assert(reading@.run.channel_units =~= Seq::empty());
        }
        reading
    }

    /// How far the reading has come.
    fn stage(&self) -> (stage: Stage)
        ensures
            stage == self@.stage,
    {
        self.stage
    }

    /// The question to put to the decoder next; none when the reading is
    /// done or has failed.
    fn request(&self) -> (request: Option<Request>)
        requires
            self@.wf(),
        ensures
            request == self@.request(),
    {
        match self.stage {
            Stage::LapCount => Some(Request::LapCount),
            Stage::LapInfo => Some(Request::LapInfo { lap: self.info_of_laps.len() }),
            Stage::ChannelCount => Some(Request::ChannelCount { kind: ChannelKind::Regular }),
            Stage::GpsChannelCount => Some(Request::ChannelCount { kind: ChannelKind::Gps }),
            Stage::GpsRawChannelCount => Some(Request::ChannelCount { kind: ChannelKind::GpsRaw }),
            Stage::Names => {
                let (kind, channel) = routed(self.channel_names.len(), self.channels_count);
                Some(Request::ChannelName { kind, channel })
            },
            Stage::Units => {
                let (kind, channel) = routed(self.channel_units.len(), self.channels_count);
                Some(Request::ChannelUnit { kind, channel })
            },
            Stage::Done => None,
            Stage::Failed => None,
        }
    }

    /// Takes the decoder's answer to a question for a number.
    ///
    /// Zero laps or zero recorded channels end the reading, and so does a
    /// negative answer to any question.
    fn count_reply(&mut self, reply: i32) -> (r: Result<(), XdrkError>)
        requires
            old(self)@.wf(),
            old(self)@.request() is Some,
            old(self)@.request()->0 is LapCount || old(self)@.request()->0 is ChannelCount,
        ensures
            final(self)@.wf(),
            final(self)@ == old(self)@.after_count(reply as int),
            final(self)@.stage != Stage::Failed ==> r is Ok,
            final(self)@.stage == Stage::Failed ==> r == Err::<(), XdrkError>(
                if reply == 0 {
                    XdrkError::NoData
                } else {
                    XdrkError::DecoderFailed
                },
            ),
    {
        let may_be_zero = match self.stage {
            Stage::GpsChannelCount => true,
            Stage::GpsRawChannelCount => true,
            _ => false,
        };
        if reply < 0 {
            self.stage = Stage::Failed;
            return Err(XdrkError::DecoderFailed);
        }
        if reply == 0 && !may_be_zero {
            self.stage = Stage::Failed;
            return Err(XdrkError::NoData);
        }
        let count: usize = reply as usize;
        match self.stage {
            Stage::LapCount => {
                self.number_of_laps = count;
                self.stage = Stage::LapInfo;
            },
            Stage::ChannelCount => {
                self.channels_count = count;
                self.stage = Stage::GpsChannelCount;
            },
            Stage::GpsChannelCount => {
                self.gps_channels_count = count;
                self.stage = Stage::GpsRawChannelCount;
            },
            _ => {
                self.gps_raw_channels_count = count;
                self.number_of_channels = self.channels_count
                    + self.gps_channels_count;
                self.stage = Stage::Names;
            },
        }
        Ok(())
    }

    /// Takes the decoder's answer to the question for the next lap: its code,
    /// which is one if all went well, and the start and the time of the lap
    /// in ticks. Any other code ends the reading.
    fn lap_reply(&mut self, code: i32, start: i64, time: i64) -> (r: Result<(), XdrkError>)
        requires
            old(self)@.wf(),
            old(self)@.request() is Some,
            old(self)@.request()->0 is LapInfo,
        ensures
            final(self)@.wf(),
            final(self)@ == old(self)@.after_lap(code as int, start, time),
            code == 1 ==> r is Ok,
            code != 1 ==> r == Err::<(), XdrkError>(XdrkError::DecoderFailed),
    {
        if code != 1 {
            self.stage = Stage::Failed;
            return Err(XdrkError::DecoderFailed);
        }
        let ghost before = self@;
        let lap: usize = self.info_of_laps.len();
        self.info_of_laps.push(LapInfo::new(lap, start, time));
        if self.info_of_laps.len() == self.number_of_laps {
            self.stage = Stage::ChannelCount;
        }
        proof {
            lemma_reading_advances(before, 1, start, time, None);
            assert(self@.run.info_of_laps =~= before.after_lap(1, start, time).run.info_of_laps);
        }
        Ok(())
    }

    /// Takes the decoder's answer to the question for the next name or unit.
    /// A missing answer ends the reading.
    fn text_reply(&mut self, text: Option<String>) -> (r: Result<(), XdrkError>)
        requires
            old(self)@.wf(),
            old(self)@.request() is Some,
            old(self)@.request()->0 is ChannelName || old(self)@.request()->0 is ChannelUnit,
        ensures
            final(self)@.wf(),
            final(self)@ == old(self)@.after_text(
                match text {
                    Some(t) => Some(t@),
                    None => None,
                },
            ),
            text is Some ==> r is Ok,
            text is None ==> r == Err::<(), XdrkError>(XdrkError::DecoderFailed),
    {
        let ghost before = self@;
        match text {
            None => {
                self.stage = Stage::Failed;
                Err(XdrkError::DecoderFailed)
            },
            Some(text) => {
                let ghost chars = text@;
                match self.stage {
                    Stage::Names => {
                        self.channel_names.push(text);
                        if self.channel_names.len() == self.number_of_channels {
                            self.stage = Stage::Units;
                        }
                        proof {
                            assert(self@.run.channel_names =~= before.run.channel_names.push(
                                chars,
                            ));
                        }
                    },
                    _ => {
                        self.channel_units.push(text);
                        if self.channel_units.len() == self.number_of_channels {
                            self.stage = Stage::Done;
                        }
                        proof {
                            assert(self@.run.channel_units =~= before.run.channel_units.push(
                                chars,
                            ));
                        }
                    },
                }
                Ok(())
            },
        }
    }

    /// The run, once everything has been read.
    fn finish(self) -> (run: Option<Run>)
        requires
            self@.wf(),
        ensures
            run is Some <==> self@.stage == Stage::Done,
            run is Some ==> run->0@ == self@.run && run->0@.wf(),
    {
        match self.stage {
            Stage::Done => Some(
                Run {
                    path: self.path,
                    idx: self.idx,
                    number_of_laps: self.number_of_laps,
                    info_of_laps: self.info_of_laps,
                    number_of_channels: self.number_of_channels,
                    channel_names: self.channel_names,
                    channel_units: self.channel_units,
                    channels_count: self.channels_count,
                    gps_channels_count: self.gps_channels_count,
                    gps_raw_channels_count: self.gps_raw_channels_count,
                },
            ),
            _ => None,
        }
    }
}


/// Reads a run from the decoder, one answer at a time.
///
/// The loader says which question is next; whoever holds the decoder asks it
/// and hands the answer to the loader. When no question is left the run is
/// complete, unless an answer ended the reading.
#[derive(Debug)]
pub struct RunLoader {
    reading: Reading,
}

impl View for RunLoader {
    type V = LoaderView;

    closed spec fn view(&self) -> LoaderView {
        self.reading@
    }
}

impl RunLoader {
    #[verifier::type_invariant]
    spec fn sound(&self) -> bool {
        self.reading@.wf()
    }

    /// Starts to read the run of the file at `path`, which the decoder has
    /// opened under the handle `idx`, a positive number.
    pub fn new(path: String, idx: usize) -> (loader: Self)
        requires
            idx > 0,
        ensures
            loader@.wf(),
            loader@ == LoaderView::start(path@, idx),
    {
        RunLoader { reading: Reading::new(path, idx) }
    }

    /// How far the reading has come.
    pub fn stage(&self) -> (stage: Stage)
        ensures
            stage == self@.stage,
            self@.wf(),
    {
        proof {
            use_type_invariant(self);
        }
        self.reading.stage()
    }

    /// The question to put to the decoder next; none when the reading is
    /// done or has failed.
    pub fn request(&self) -> (request: Option<Request>)
        ensures
            request == self@.request(),
            self@.wf(),
    {
        proof {
            use_type_invariant(self);
        }
        self.reading.request()
    }

    /// Takes the decoder's answer to a question for a number.
    ///
    /// Zero laps or zero recorded channels end the reading, and so does a
    /// negative answer to any question.
    pub fn count_reply(&mut self, reply: i32) -> (r: Result<(), XdrkError>)
        requires
            old(self)@.request() is Some,
            old(self)@.request()->0 is LapCount || old(self)@.request()->0 is ChannelCount,
        ensures
            final(self)@.wf(),
            final(self)@ == old(self)@.after_count(reply as int),
            final(self)@.stage != Stage::Failed ==> r is Ok,
            final(self)@.stage == Stage::Failed ==> r == Err::<(), XdrkError>(
                if reply == 0 {
                    XdrkError::NoData
                } else {
                    XdrkError::DecoderFailed
                },
            ),
    {
        proof {
            use_type_invariant(&*self);
        }
        let mut reading = Reading::failed();
        core::mem::swap(&mut self.reading, &mut reading);
        let r = reading.count_reply(reply);
        core::mem::swap(&mut self.reading, &mut reading);
        r
    }

    /// Takes the decoder's answer to the question for the next lap: its code,
    /// which is one if all went well, and the start and the time of the lap
    /// in ticks. Any other code ends the reading.
    pub fn lap_reply(&mut self, code: i32, start: i64, time: i64) -> (r: Result<(), XdrkError>)
        requires
            old(self)@.request() is Some,
            old(self)@.request()->0 is LapInfo,
        ensures
            final(self)@.wf(),
            final(self)@ == old(self)@.after_lap(code as int, start, time),
            code == 1 ==> r is Ok,
            code != 1 ==> r == Err::<(), XdrkError>(XdrkError::DecoderFailed),
    {
        proof {
            use_type_invariant(&*self);
        }
        let mut reading = Reading::failed();
        core::mem::swap(&mut self.reading, &mut reading);
        let r = reading.lap_reply(code, start, time);
        core::mem::swap(&mut self.reading, &mut reading);
        r
    }

    /// Takes the decoder's answer to the question for the next name or unit.
    /// A missing answer ends the reading.
    pub fn text_reply(&mut self, text: Option<String>) -> (r: Result<(), XdrkError>)
        requires
            old(self)@.request() is Some,
            old(self)@.request()->0 is ChannelName || old(self)@.request()->0 is ChannelUnit,
        ensures
            final(self)@.wf(),
            final(self)@ == old(self)@.after_text(
                match text {
                    Some(t) => Some(t@),
                    None => None,
                },
            ),
            text is Some ==> r is Ok,
            text is None ==> r == Err::<(), XdrkError>(XdrkError::DecoderFailed),
    {
        proof {
            use_type_invariant(&*self);
        }
        let mut reading = Reading::failed();
        core::mem::swap(&mut self.reading, &mut reading);
        let r = reading.text_reply(text);
        core::mem::swap(&mut self.reading, &mut reading);
        r
    }

    /// The run, once everything has been read.
    pub fn finish(self) -> (run: Option<Run>)
        ensures
            run is Some <==> self@.stage == Stage::Done,
            run is Some ==> run->0@ == self@.run && run->0@.wf(),
    {
        proof {
            use_type_invariant(&self);
        }
        self.reading.finish()
    }
}

} // verus!
