//! A channel whose samples are fetched from the decoder when they are first
//! asked for, and kept from then on.

use vstd::prelude::*;
use crate::channel::ChannelData;
use crate::decoder::ChannelKind;
use crate::decoder::Request;
use crate::xdrk_file::XdrkFile;

verus! {

/// The name, the index and the unit of a recorded channel of a file, and its
/// samples once they have been fetched.
#[derive(Debug, PartialEq)]
pub struct Channel<'a> {
    name: String,
    idx: usize,
    unit: String,
    file: &'a XdrkFile,
    data: Option<ChannelData>,
}

impl<'a> Channel<'a> {
    /// The name, as a sequence of characters.
    pub closed spec fn spec_name(&self) -> Seq<char> {
        self.name@
    }

    /// The index of the channel in its file.
    pub closed spec fn spec_idx(&self) -> usize {
        self.idx
    }

    /// The unit, as a sequence of characters.
    pub closed spec fn spec_unit(&self) -> Seq<char> {
        self.unit@
    }

    /// The file of the channel.
    pub closed spec fn spec_file(&self) -> &'a XdrkFile {
        self.file
    }

    /// The samples, once they have been fetched.
    pub closed spec fn spec_data(&self) -> Option<ChannelData> {
        self.data
    }

    /// A channel of `file` whose samples have not been fetched yet.
    pub fn new(name: String, idx: usize, unit: String, file: &'a XdrkFile) -> (channel: Self)
        ensures
            channel.spec_name() == name@,
            channel.spec_idx() == idx,
            channel.spec_unit() == unit@,
            channel.spec_file() == file,
            channel.spec_data() is None,
    {
        Channel { name, idx, unit, file, data: None }
    }

    /// The name.
    pub fn name(&self) -> (name: &String)
        ensures
            name@ == self.spec_name(),
    {
        &self.name
    }

    /// The index of the channel in its file.
    pub fn idx(&self) -> (idx: usize)
        ensures
            idx == self.spec_idx(),
    {
        self.idx
    }

    /// The unit.
    pub fn unit(&self) -> (unit: &String)
        ensures
            unit@ == self.spec_unit(),
    {
        &self.unit
    }

    /// The file of the channel.
    pub fn file(&self) -> (file: &'a XdrkFile)
        ensures
            file == self.spec_file(),
    {
        self.file
    }

    /// The question to put to the decoder before the samples can be had:
    /// none once they have been fetched.
    pub fn request(&self) -> (request: Option<Request>)
        ensures
            self.spec_data() is Some ==> request is None,
            self.spec_data() is None ==> request == Some(
                Request::SampleCount {
                    kind: ChannelKind::Regular,
                    channel: self.spec_idx(),
                    lap: None,
                },
            ),
    {
        match self.data {
            Some(_) => None,
            None => Some(
                Request::SampleCount { kind: ChannelKind::Regular, channel: self.idx, lap: None },
            ),
        }
    }

    /// The samples of the channel. Where none have been kept, those that
    /// were `fetched` are kept and given; where some have been, they are
    /// given and `fetched` is let go.
    pub fn data(&mut self, fetched: ChannelData) -> (data: &ChannelData)
        ensures
            old(self).spec_data() is Some ==> *data == old(self).spec_data()->0,
            old(self).spec_data() is None ==> *data == fetched,
            final(self).spec_data() == Some(*data),
            final(self).spec_name() == old(self).spec_name(),
            final(self).spec_idx() == old(self).spec_idx(),
            final(self).spec_unit() == old(self).spec_unit(),
            final(self).spec_file() == old(self).spec_file(),
    {
        if self.data.is_none() {
            self.data = Some(fetched);
        }
        self.data.as_ref().unwrap()
    }
}

} // verus!
