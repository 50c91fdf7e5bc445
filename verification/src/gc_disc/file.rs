//! What a file entry holds: bytes of the image, an embedded container, or a
//! replacement supplied from outside.

use vstd::prelude::*;
use vstd::slice::slice_subrange;
use crate::reader::Reader;
use crate::sink::Sink;

verus! {

/// The largest run of bytes that a replacement hands to the sink at once.
pub const CHUNK_LENGTH: usize = 4096;

/// Replacement content for a file, held apart from the image.
#[derive(Debug)]
pub struct ReadWrapper {
    data: Vec<u8>,
}

impl View for ReadWrapper {
    type V = Seq<u8>;

    /// The replacement's bytes.
    closed spec fn view(&self) -> Seq<u8> {
        self.data@
    }
}

impl ReadWrapper {
    /// Wraps the bytes of a replacement.
    pub fn new(data: Vec<u8>) -> (wrapper: ReadWrapper)
        ensures
            wrapper@ == data@,
    {
        ReadWrapper { data }
    }

    /// The replacement's bytes.
    pub fn as_slice(&self) -> (bytes: &[u8])
        ensures
            bytes@ == self@,
    {
        self.data.as_slice()
    }
}

/// An embedded container. It is left as the bytes of the image until its
/// resources are edited; from then on it is held in its rebuilt form.
#[derive(Debug)]
pub enum Pak<'a> {
    /// The container as it stands in the image.
    Unread(Reader<'a>),
    /// The serialized form of the container after an edit.
    Rebuilt(Vec<u8>),
}

impl<'a> View for Pak<'a> {
    type V = Seq<u8>;

    /// The container's current serialized form.
    open spec fn view(&self) -> Seq<u8> {
        match *self {
            Pak::Unread(reader) => reader@,
            Pak::Rebuilt(bytes) => bytes@,
        }
    }
}

impl<'a> Pak<'a> {
    /// The length of the container's current serialized form.
    pub fn size(&self) -> (n: usize)
        ensures
            n == self@.len(),
    {
        match self {
            Pak::Unread(reader) => reader.len(),
            Pak::Rebuilt(bytes) => bytes.len(),
        }
    }

    /// The container's current serialized form.
    pub fn as_slice(&self) -> (bytes: &[u8])
        ensures
            bytes@ == self@,
    {
        match self {
            Pak::Unread(reader) => reader.as_slice(),
            Pak::Rebuilt(bytes) => bytes.as_slice(),
        }
    }
}

/// The payload of a file entry.
#[derive(Debug)]
pub enum FstEntryFile<'a> {
    /// An embedded container.
    Pak(Pak<'a>),
    /// A replacement and the length declared for it.
    ExternalFile(ReadWrapper, usize),
    /// A range of the image that was not looked into.
    Unknown(Reader<'a>),
}

impl<'a> FstEntryFile<'a> {
    /// The length that the payload reports: the declared length of a
    /// replacement, the current length of anything else.
    pub open spec fn spec_size(&self) -> nat {
        match *self {
            FstEntryFile::Pak(pak) => pak@.len(),
            FstEntryFile::ExternalFile(_, declared) => declared as nat,
            FstEntryFile::Unknown(reader) => reader@.len(),
        }
    }

    /// The bytes that the payload writes.
    pub open spec fn bytes(&self) -> Seq<u8> {
        match *self {
            FstEntryFile::Pak(pak) => pak@,
            FstEntryFile::ExternalFile(wrapper, _) => wrapper@,
            FstEntryFile::Unknown(reader) => reader@,
        }
    }

    /// The length that the payload reports.
    pub fn size(&self) -> (n: usize)
        ensures
            n == self.spec_size(),
    {
        match self {
            FstEntryFile::Pak(pak) => pak.size(),
            FstEntryFile::ExternalFile(_, declared) => *declared,
            FstEntryFile::Unknown(reader) => reader.len(),
        }
    }

    /// The bytes that the payload writes.
    pub fn as_slice(&self) -> (bytes: &[u8])
        ensures
            bytes@ == self.bytes(),
    {
        match self {
            FstEntryFile::Pak(pak) => pak.as_slice(),
            FstEntryFile::ExternalFile(wrapper, _) => wrapper.as_slice(),
            FstEntryFile::Unknown(reader) => reader.as_slice(),
        }
    }

    /// Writes the payload at the sink's cursor. A replacement goes out in
    /// runs of at most [`CHUNK_LENGTH`] bytes. A failure of the sink is handed
    /// back as it came and leaves the sink in an unknown state.
    pub fn write<W: Sink>(&self, writer: &mut W) -> (r: Result<(), W::Failure>)
        ensures
            final(writer).limit() == old(writer).limit(),
            r is Ok ==> crate::sink::wrote(old(writer), final(writer), self.bytes()),
            crate::sink::takes(old(writer), self.bytes().len()) ==> r is Ok,
    {
        match self {
            FstEntryFile::Pak(pak) => writer.write_all(pak.as_slice()),
            FstEntryFile::ExternalFile(wrapper, _) => {
                let data = wrapper.as_slice();
                let total: usize = data.len();
                let mut done: usize = 0;
                while done < total
                    invariant
                        done <= total,
                        total == data@.len(),
                        self.bytes() == data@,
                        writer.limit() == old(writer).limit(),
                        crate::sink::wrote(old(writer), writer, data@.take(done as int)),
                    decreases total - done,
                {
                    let end: usize = if total - done > CHUNK_LENGTH {
                        done + CHUNK_LENGTH
                    } else {
                        total
                    };
                    let chunk = slice_subrange(data, done, end);
                    match writer.write_all(chunk) {
                        Ok(()) => {},
                        Err(failure) => {
                            return Err(failure);
                        },
                    }
                    proof {
                        crate::sink::lemma_overlay_joined(
                            old(writer).contents(),
                            old(writer).position() as int,
                            data@.take(done as int),
                            chunk@,
                        );
                        assert(data@.take(done as int) + chunk@ =~= data@.take(end as int));
                    }
                    done = end;
                }
                assert(data@.take(total as int) =~= data@);
                Ok(())
            },
            FstEntryFile::Unknown(reader) => writer.write_all(reader.as_slice()),
        }
    }
}

} // verus!
