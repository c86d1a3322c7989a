//! A file that is open with the decoder, as one of its users holds it.

use vstd::prelude::*;
use crate::decoder::positive_count;
use crate::error::XdrkError;
use crate::registry::after_load;
use crate::registry::load_opens;
use crate::registry::validate_path;
use crate::registry::accepted_extension;
use crate::registry::Registry;
use crate::text::first_named;
use crate::text::position_of;
use crate::text::str_eq;

verus! {

/// One user's hold on a file that is open with the decoder.
#[derive(Debug, PartialEq)]
pub struct XdrkFile {
    path: String,
    idx: usize,
}

/// What a load of a path comes to.
#[derive(Debug, PartialEq)]
pub enum Loaded {
    /// The path was open: this is a further hold on its session.
    Shared(XdrkFile),
    /// The path is not open: the decoder has to open the file, and its reply
    /// decides.
    MustOpen,
}

impl XdrkFile {
    /// The path of the file, as a sequence of characters.
    pub closed spec fn spec_path(&self) -> Seq<char> {
        self.path@
    }

    /// The handle of the decoder session.
    pub closed spec fn spec_idx(&self) -> usize {
        self.idx
    }

    /// The path of the file.
    pub fn path(&self) -> (path: &String)
        ensures
            path@ == self.spec_path(),
    {
        &self.path
    }

    /// The handle of the decoder session.
    pub fn idx(&self) -> (idx: usize)
        ensures
            idx == self.spec_idx(),
    {
        self.idx
    }

    /// Asks for a hold on the file at `path`.
    ///
    /// Fails if the path does not exist, is no file or does not end in an
    /// accepted extension. If the path is open the result is a further hold
    /// on its session, which then counts one more user. If not, nothing
    /// changes and the decoder has to open the file.
    pub fn load(
        registry: &mut Registry,
        path: &str,
        exists: bool,
        is_file: bool,
        extension: &str,
    ) -> (r: Result<Loaded, XdrkError>)
        requires
            old(registry)@.dom().contains(path@) ==> old(registry)@[path@].1 < usize::MAX,
        ensures
            r is Err <==> !(exists && is_file && accepted_extension(extension@)),
            r is Err ==> r->Err_0 == XdrkError::InvalidInput && final(registry)@ == old(registry)@,
            r is Ok ==> (r->Ok_0 is MustOpen <==> load_opens(old(registry)@, path@)),
            r is Ok && r->Ok_0 is MustOpen ==> final(registry)@ == old(registry)@,
            r is Ok && r->Ok_0 is Shared ==> {
                &&& final(registry)@ == after_load(old(registry)@, path@, 0)
                &&& r->Ok_0->Shared_0.spec_path() == path@
                &&& r->Ok_0->Shared_0.spec_idx() == old(registry)@[path@].0
            },
    {
        match validate_path(exists, is_file, extension) {
            Err(e) => Err(e),
            Ok(()) => match registry.acquire(path) {
                Some(idx) => Ok(Loaded::Shared(XdrkFile { path: path.to_owned(), idx })),
                None => Ok(Loaded::MustOpen),
            },
        }
    }

    /// Takes up the decoder's reply to the request to open the file at
    /// `path`, which must not be open yet. A positive reply is the handle of
    /// a new session, and the result is the first hold on it. Zero says that
    /// the file could not be parsed, a negative reply that it could not be
    /// opened.
    pub fn opened(registry: &mut Registry, path: &str, reply: i32) -> (r: Result<
        XdrkFile,
        XdrkError,
    >)
        requires
            load_opens(old(registry)@, path@),
        ensures
            final(registry)@ == after_load(old(registry)@, path@, reply as int),
            reply > 0 ==> r is Ok && r->Ok_0.spec_path() == path@ && r->Ok_0.spec_idx() == reply,
            reply == 0 ==> r == Err::<XdrkFile, XdrkError>(XdrkError::Unparseable),
            reply < 0 ==> r == Err::<XdrkFile, XdrkError>(XdrkError::DecoderOpenFailed),
    {
        match registry.register(path, reply) {
            Ok(idx) => Ok(XdrkFile { path: path.to_owned(), idx }),
            Err(e) => Err(e),
        }
    }

    /// Checks that `path` is the path of this file, as it must be for the
    /// decoder to be asked to close the file by its path.
    pub fn close_by_path(&self, path: &str) -> (r: Result<(), XdrkError>)
        ensures
            r is Ok <==> path@ == self.spec_path(),
            r is Err ==> r->Err_0 == XdrkError::InvalidInput,
    {
        if str_eq(path, self.path.as_str()) {
            Ok(())
        } else {
            Err(XdrkError::InvalidInput)
        }
    }

    /// Checks that `idx` is the handle of this file, as it must be for the
    /// decoder to be asked to close the file by its handle.
    pub fn close_by_index(&self, idx: i32) -> (r: Result<(), XdrkError>)
        ensures
            r is Ok <==> idx == self.spec_idx(),
            r is Err ==> r->Err_0 == XdrkError::InvalidInput,
    {
        if idx >= 0 && idx as u64 == self.idx as u64 {
            Ok(())
        } else {
            Err(XdrkError::InvalidInput)
        }
    }

    /// Takes up the decoder's reply to the request to close this file: the
    /// handle of the session that it closed. If that is the handle of this
    /// file the path is open no longer; else nothing changes and the call
    /// fails.
    pub fn closed(&self, registry: &mut Registry, reply: i32) -> (r: Result<(), XdrkError>)
        ensures
            r is Ok <==> reply == self.spec_idx(),
            r is Ok ==> final(registry)@ == old(registry)@.remove(self.spec_path()),
            r is Err ==> r->Err_0 == XdrkError::DecoderFailed && final(registry)@ == old(
                registry,
            )@,
    {
        if reply >= 0 && reply as u64 == self.idx as u64 {
            registry.forget(self.path.as_str());
            Ok(())
        } else {
            Err(XdrkError::DecoderFailed)
        }
    }

    /// Reads the decoder's answer to the question for the number of laps.
    pub fn number_of_laps(&self, reply: i32) -> (r: Result<usize, XdrkError>)
        ensures
            reply > 0 ==> r == Ok::<usize, XdrkError>(reply as usize),
            reply == 0 ==> r == Err::<usize, XdrkError>(XdrkError::NoData),
            reply < 0 ==> r == Err::<usize, XdrkError>(XdrkError::DecoderFailed),
    {
        positive_count(reply)
    }

    /// The number of channels of the file, from the decoder's answers to the
    /// questions for the number of recorded channels and for the number of
    /// channels derived from the position of the vehicle. Fails where either
    /// answer is no positive number, on the first that is not.
    pub fn number_of_channels(&self, channels_count: i32, gps_channels_count: i32) -> (r: Result<
        usize,
        XdrkError,
    >)
        ensures
            channels_count > 0 && gps_channels_count > 0 ==> r == Ok::<usize, XdrkError>(
                (channels_count + gps_channels_count) as usize,
            ),
            channels_count == 0 ==> r == Err::<usize, XdrkError>(XdrkError::NoData),
            channels_count < 0 ==> r == Err::<usize, XdrkError>(XdrkError::DecoderFailed),
            channels_count > 0 && gps_channels_count == 0 ==> r == Err::<usize, XdrkError>(
                XdrkError::NoData,
            ),
            channels_count > 0 && gps_channels_count < 0 ==> r == Err::<usize, XdrkError>(
                XdrkError::DecoderFailed,
            ),
    {
        let channels = match positive_count(channels_count) {
            Ok(n) => n,
            Err(e) => {
                return Err(e);
            },
        };
        let gps = match positive_count(gps_channels_count) {
            Ok(n) => n,
            Err(e) => {
                return Err(e);
            },
        };
        Ok(channels + gps)
    }

    /// The names of all channels of the file, the recorded ones first, from
    /// the names that the decoder gave for each. Fails if the decoder failed
    /// to give one of them.
    pub fn channel_names(&self, channels: Vec<Option<String>>, gps_channels: Vec<Option<String>>) -> (r:
        Result<Vec<String>, XdrkError>)
        ensures
            r is Ok <==> (forall|i: int| 0 <= i < channels@.len() ==> channels@[i] is Some) && (
            forall|i: int| 0 <= i < gps_channels@.len() ==> gps_channels@[i] is Some),
            r is Ok ==> {
                &&& r->Ok_0@.len() == channels@.len() + gps_channels@.len()
                &&& forall|i: int|
                    0 <= i < channels@.len() ==> r->Ok_0@[i]@ == channels@[i]->0@
                &&& forall|i: int|
                    0 <= i < gps_channels@.len() ==> r->Ok_0@[channels@.len() + i]@
                        == gps_channels@[i]->0@
            },
            r is Err ==> r->Err_0 == XdrkError::DecoderFailed,
    {
        let mut names: Vec<String> = Vec::new();
        let mut i: usize = 0;
        while i < channels.len()
            invariant
                0 <= i <= channels@.len(),
                names@.len() == i,
                forall|j: int| 0 <= j < i ==> channels@[j] is Some && names@[j]@ == channels@[j]->0@,
            decreases channels@.len() - i,
        {
            match &channels[i] {
                Some(name) => names.push(name.clone()),
                None => {
                    return Err(XdrkError::DecoderFailed);
                },
            }
            i += 1;
        }
        let mut k: usize = 0;
        while k < gps_channels.len()
            invariant
                0 <= k <= gps_channels@.len(),
                names@.len() == channels@.len() + k,
                forall|j: int|
                    0 <= j < channels@.len() ==> channels@[j] is Some && names@[j]@
                        == channels@[j]->0@,
                forall|j: int|
                    0 <= j < k ==> gps_channels@[j] is Some && names@[channels@.len() + j]@
                        == gps_channels@[j]->0@,
            decreases gps_channels@.len() - k,
        {
            match &gps_channels[k] {
                Some(name) => names.push(name.clone()),
                None => {
                    return Err(XdrkError::DecoderFailed);
                },
            }
            k += 1;
        }
        Ok(names)
    }

    /// The index of the first channel called `channel_name` among the names
    /// of all channels of the file. Fails if no channel has that name.
    pub fn channel_idx(&self, names: &Vec<String>, channel_name: &str) -> (r: Result<
        usize,
        XdrkError,
    >)
        ensures
            match r {
                Ok(at) => at < names@.len() && at == first_named(
                    names@.map_values(|s: String| s@),
                    channel_name@,
                ),
                Err(e) => e == XdrkError::UnknownChannel && first_named(
                    names@.map_values(|s: String| s@),
                    channel_name@,
                ) == names@.len(),
            },
    {
        match position_of(names, channel_name) {
            Some(at) => Ok(at),
            None => Err(XdrkError::UnknownChannel),
        }
    }
}

} // verus!
