//! The errors that the library reports.

use vstd::prelude::*;

verus! {

/// Why two channels could not be synchronized.
#[derive(Clone, Copy, Debug, PartialEq, Eq, Structural)]
pub enum SyncError {
    /// One of the two channels holds fewer than three samples.
    InsufficientData,
    /// The two channels cover time ranges that do not meet.
    NonOverlappingRanges,
}

impl SyncError {
    /// A sentence that describes the error.
    pub fn message(&self) -> (text: &'static str)
        ensures
            text@ == match *self {
                SyncError::InsufficientData => "channel does not contain sufficient data points"@,
                SyncError::NonOverlappingRanges => "channels have non-intersecting timestamp ranges"@,
            },
    {
        match self {
            SyncError::InsufficientData => "channel does not contain sufficient data points",
            SyncError::NonOverlappingRanges => "channels have non-intersecting timestamp ranges",
        }
    }
}

/// Why a file could not be loaded or a question to the decoder failed.
#[derive(Clone, Copy, Debug, PartialEq, Eq, Structural)]
pub enum XdrkError {
    /// The path is no file of an accepted kind, or an index is out of range.
    InvalidInput,
    /// The decoder reported an error when it was asked to open the file.
    DecoderOpenFailed,
    /// The decoder opened the file and could not parse it.
    Unparseable,
    /// The decoder holds nothing of what it was asked for.
    NoData,
    /// The decoder reported an error when it was asked about an open file.
    DecoderFailed,
    /// The run has no channel of the name that was asked for.
    UnknownChannel,
    /// What should be a date or a time of day is none.
    InvalidDate,
}

/// An error that carries nothing but its message.
#[derive(Clone, Debug, PartialEq)]
pub struct Fubar(pub String);

impl Fubar {
    /// An error with the message `msg`.
    pub fn new(msg: &str) -> (fubar: Self)
        ensures
            fubar.0@ == msg@,
    {
        Fubar(msg.to_owned())
    }

    /// The message of the error.
    pub fn to_string(&self) -> (text: String)
        ensures
            text@ == self.0@,
    {
        self.0.clone()
    }
}

/// Fails with the message `msg` unless `cond` holds.
pub fn ensure(cond: bool, msg: &str) -> (r: Result<(), Fubar>)
    ensures
        cond ==> r is Ok,
        !cond ==> r is Err && r->Err_0.0@ == msg@,
{
    if cond {
        Ok(())
    } else {
        Err(Fubar::new(msg))
    }
}

} // verus!
