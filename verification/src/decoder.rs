//! The questions that the library puts to the decoder of a file, and what it
//! makes of the answers.
//!
//! The decoder itself is not part of the library. Whoever holds it asks the
//! question that the library hands out and hands back the plain answer.

use vstd::prelude::*;
use crate::channel::ChannelData;
use crate::error::XdrkError;
use crate::lap::LapInfo;

verus! {

/// The three families of channels that a file holds.
#[derive(Clone, Copy, Debug, PartialEq, Eq, Structural)]
pub enum ChannelKind {
    /// The channels that the logger recorded.
    Regular,
    /// The channels derived from the position of the vehicle.
    Gps,
    /// The raw readings of the position receiver.
    GpsRaw,
}

/// A question to the decoder about an open file.
#[derive(Clone, Copy, Debug, PartialEq, Eq, Structural)]
pub enum Request {
    /// How many laps are there?
    LapCount,
    /// When does the lap start, and how long does it take?
    LapInfo { lap: usize },
    /// How many channels of this kind are there?
    ChannelCount { kind: ChannelKind },
    /// What is the channel called?
    ChannelName { kind: ChannelKind, channel: usize },
    /// What unit are the samples of the channel in?
    ChannelUnit { kind: ChannelKind, channel: usize },
    /// How many samples does the channel hold, in the lap or in all?
    SampleCount { kind: ChannelKind, channel: usize, lap: Option<usize> },
    /// What are the `count` samples of the channel, in the lap or in all?
    Samples { kind: ChannelKind, channel: usize, lap: Option<usize>, count: usize },
}

/// Reads a count that must be positive: zero says that there is nothing, a
/// negative number that the decoder failed.
pub fn positive_count(reply: i32) -> (r: Result<usize, XdrkError>)
    ensures
        reply > 0 ==> r == Ok::<usize, XdrkError>(reply as usize),
        reply == 0 ==> r == Err::<usize, XdrkError>(XdrkError::NoData),
        reply < 0 ==> r == Err::<usize, XdrkError>(XdrkError::DecoderFailed),
{
    if reply > 0 {
        Ok(reply as usize)
    } else if reply == 0 {
        Err(XdrkError::NoData)
    } else {
        Err(XdrkError::DecoderFailed)
    }
}

/// Checks an index against the decoder's answer to the question how many
/// there are. Fails as `positive_count` does where the answer is no positive
/// number, and with `InvalidInput` where the index is not below it.
pub fn checked_index(index: usize, count_reply: i32) -> (r: Result<usize, XdrkError>)
    ensures
        count_reply > 0 && index < count_reply ==> r == Ok::<usize, XdrkError>(index),
        count_reply > 0 && index >= count_reply ==> r == Err::<usize, XdrkError>(
            XdrkError::InvalidInput,
        ),
        count_reply == 0 ==> r == Err::<usize, XdrkError>(XdrkError::NoData),
        count_reply < 0 ==> r == Err::<usize, XdrkError>(XdrkError::DecoderFailed),
{
    match positive_count(count_reply) {
        Ok(count) => if index < count {
            Ok(index)
        } else {
            Err(XdrkError::InvalidInput)
        },
        Err(e) => Err(e),
    }
}

/// The kind of the channel at `channel_idx` among all channels of a file
/// with `channels_count` recorded channels, and its index among the channels
/// of that kind: a recorded channel keeps its index, and any later index is
/// taken modulo the number of recorded channels.
pub open spec fn spec_routed(channel_idx: int, channels_count: int) -> (ChannelKind, int) {
    if channel_idx < channels_count {
        (ChannelKind::Regular, channel_idx)
    } else {
        (ChannelKind::Gps, channel_idx % channels_count)
    }
}

/// Finds the kind of the channel at `channel_idx` among all channels of a
/// file, and its index among the channels of that kind.
pub fn routed(channel_idx: usize, channels_count: usize) -> (r: (ChannelKind, usize))
    requires
        channels_count > 0,
    ensures
        (r.0, r.1 as int) == spec_routed(channel_idx as int, channels_count as int),
{
    if channel_idx < channels_count {
        (ChannelKind::Regular, channel_idx)
    } else {
        (ChannelKind::Gps, channel_idx % channels_count)
    }
}

/// Reads a count that may be zero: a negative number says that the decoder
/// failed.
pub fn plain_count(reply: i32) -> (r: Result<usize, XdrkError>)
    ensures
        reply >= 0 ==> r == Ok::<usize, XdrkError>(reply as usize),
        reply < 0 ==> r == Err::<usize, XdrkError>(XdrkError::DecoderFailed),
{
    if reply >= 0 {
        Ok(reply as usize)
    } else {
        Err(XdrkError::DecoderFailed)
    }
}

/// Reads the answer about lap `lap`: the decoder's code, which is one if all
/// went well, and the start and the time of the lap in ticks.
pub fn lap_reply(lap: usize, code: i32, start: i64, time: i64) -> (r: Result<LapInfo, XdrkError>)
    ensures
        code == 1 ==> r is Ok && r->Ok_0.spec_idx() == lap && r->Ok_0.spec_start() == start
            && r->Ok_0.spec_time() == time,
        code != 1 ==> r == Err::<LapInfo, XdrkError>(XdrkError::DecoderFailed),
{
    if code == 1 {
        Ok(LapInfo::new(lap, start, time))
    } else {
        Err(XdrkError::DecoderFailed)
    }
}

/// Reads a text that the decoder may have failed to give.
pub fn text_reply(text: Option<String>) -> (r: Result<String, XdrkError>)
    ensures
        text is Some ==> r == Ok::<String, XdrkError>(text->0),
        text is None ==> r == Err::<String, XdrkError>(XdrkError::DecoderFailed),
{
    match text {
        Some(text) => Ok(text),
        None => Err(XdrkError::DecoderFailed),
    }
}

/// Reads the samples that the decoder gave when asked for `count` of them:
/// the number that it says it gave, and the two buffers that it filled. The
/// answer stands if that number and the length of each buffer are `count`.
pub fn samples_reply(read: i32, count: usize, timestamps: Vec<i64>, samples: Vec<i64>) -> (r:
    Result<ChannelData, XdrkError>)
    ensures
        r is Ok <==> read == count && timestamps@.len() == count && samples@.len() == count,
        r is Ok ==> r->Ok_0.spec_timestamps() == timestamps@ && r->Ok_0.spec_samples()
            == samples@ && r->Ok_0.wf(),
        r is Err ==> r->Err_0 == XdrkError::DecoderFailed,
{
    if read >= 0 && read as u64 == count as u64 && timestamps.len() == count && samples.len()
        == count {
        Ok(ChannelData::from_tsc(timestamps, samples, count))
    } else {
        Err(XdrkError::DecoderFailed)
    }
}

} // verus!
