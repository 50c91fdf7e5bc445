//! The directory table: a flat list of entries in tree order, and the pool
//! that holds their names.

use vstd::prelude::*;
use vstd::slice::slice_subrange;
use crate::endian::{push_u16, push_u32};
use crate::gc_disc::error::FormatError;
use crate::gc_disc::file::{FstEntryFile, Pak};
use crate::reader::{BoundsError, Reader};

verus! {

/// The number of bytes that an entry takes in the table.
pub const FST_ENTRY_LENGTH: usize = 12;

/// The flag byte of a directory. Every other value marks a file.
pub const DIRECTORY_FLAG: u8 = 1;

/// The index of the first zero byte of `pool` at or after `at`, or the length
/// of `pool` where there is none.
pub open spec fn terminator(pool: Seq<u8>, at: int) -> int
    decreases pool.len() - at,
{
    if at < 0 || at >= pool.len() {
        pool.len() as int
    } else if pool[at] == 0 {
        at
    } else {
        terminator(pool, at + 1)
    }
}

/// The name that starts at `at` in `pool`: the bytes up to the next zero
/// byte. There is none where `at` lies outside the pool or no zero byte
/// follows.
pub open spec fn name_at(pool: Seq<u8>, at: int) -> Option<Seq<u8>> {
    if 0 <= at && terminator(pool, at) < pool.len() {
        Some(pool.subrange(at, terminator(pool, at)))
    } else {
        None
    }
}

/// What the terminator is: no byte of the name is zero, the byte after it is,
/// and nothing else in the pool decides the name.
pub proof fn lemma_terminator(pool: Seq<u8>, at: int)
    requires
        0 <= at,
    ensures
        at <= pool.len() ==> at <= terminator(pool, at) <= pool.len(),
        terminator(pool, at) < pool.len() ==> pool[terminator(pool, at)] == 0,
        forall|i: int| at <= i < terminator(pool, at) ==> pool[i] != 0,
    decreases pool.len() - at,
{
    if at < pool.len() && pool[at] != 0 {
        lemma_terminator(pool, at + 1);
    }
}

/// A letter of the upper case as the same letter of the lower case; any other
/// byte as it is.
pub open spec fn ascii_lower(byte: u8) -> u8 {
    if 0x41 <= byte <= 0x5a {
        (byte + 0x20) as u8
    } else {
        byte
    }
}

/// Whether `name` ends in the three letters of a container, in either case.
pub open spec fn has_pak_extension(name: Seq<u8>) -> bool {
    &&& name.len() >= 3
    &&& ascii_lower(name[name.len() - 3]) == 0x70
    &&& ascii_lower(name[name.len() - 2]) == 0x61
    &&& ascii_lower(name[name.len() - 1]) == 0x6b
}

/// The flag byte of a record.
pub open spec fn record_flags(record: Seq<u8>) -> u8 {
    record[0]
}

/// The data offset of a record.
pub open spec fn record_offset(record: Seq<u8>) -> u32 {
    crate::endian::be_u32(record.subrange(4, 8))
}

/// The data length of a record. In the first record of a table this is the
/// number of entries.
pub open spec fn record_length(record: Seq<u8>) -> u32 {
    crate::endian::be_u32(record.subrange(8, 12))
}

/// Why the payload that `record` declares cannot be taken from `disc`, if it
/// cannot. A directory declares none.
pub open spec fn payload_error<'a>(record: Seq<u8>, disc: Reader<'a>) -> Option<BoundsError> {
    if record_flags(record) == DIRECTORY_FLAG || record_offset(record) + record_length(record)
        <= disc@.len() {
        None
    } else {
        Some(disc.range_error(record_offset(record) as usize, record_length(record) as usize))
    }
}

/// Why an entry cannot be promoted to a container.
#[derive(Clone, Copy, Debug, PartialEq, Eq, Structural)]
pub enum PromoteError {
    /// The entry's name offset leads to no name in the pool.
    NameUnresolved,
    /// The name is shorter than an extension.
    NameTooShort,
    /// The name is that of a container, and the entry is a directory.
    Directory,
    /// The name is that of a container, and the entry holds a replacement.
    ExternalFile,
}

/// One record of the directory table, with what it stands for.
#[derive(Debug)]
pub struct FstEntry<'a> {
    /// [`DIRECTORY_FLAG`] for a directory.
    pub flags: u8,
    pub unused: u8,
    /// Where the entry's name starts in the name pool.
    pub name_offset: u16,
    /// For a file, where its data starts in the image.
    pub offset: u32,
    /// For a file, the length of its data.
    pub length: u32,
    /// The payload. That of a directory is empty and never handed out.
    pub file: FstEntryFile<'a>,
    /// The name pool of the table that the entry belongs to.
    pub names: Reader<'a>,
}

impl<'a> FstEntry<'a> {
    /// The bytes of the record on disc.
    pub open spec fn wire(&self) -> Seq<u8> {
        seq![self.flags, self.unused] + crate::endian::u16_be(self.name_offset)
            + crate::endian::u32_be(self.offset) + crate::endian::u32_be(self.length)
    }

    /// Whether the entry holds what `record` declares: its fields, the range
    /// of `disc` that it gives as an unexamined payload (an empty range for a
    /// directory), and `names` as its name pool.
    pub open spec fn decodes(&self, record: Seq<u8>, disc: Reader<'a>, names: Reader<'a>) -> bool {
        &&& record.len() == FST_ENTRY_LENGTH
        &&& self.flags == record[0]
        &&& self.unused == record[1]
        &&& self.name_offset == crate::endian::be_u16(record.subrange(2, 4))
        &&& self.offset == record_offset(record)
        &&& self.length == record_length(record)
        &&& self.names == names
        &&& self.file is Unknown
        &&& if self.flags == DIRECTORY_FLAG {
            self.file->Unknown_0.ranges(disc, 0, 0)
        } else {
            self.file->Unknown_0.ranges(disc, self.offset as int, self.length as int)
        }
    }

    /// An entry that was read from a record writes that record again.
    pub proof fn lemma_wire_of_decoded(&self, record: Seq<u8>, disc: Reader<'a>, names: Reader<'a>)
        requires
            self.decodes(record, disc, names),
        ensures
            self.wire() == record,
    {
        crate::endian::lemma_bytes_of_be_u16(record.subrange(2, 4));
        crate::endian::lemma_bytes_of_be_u32(record.subrange(4, 8));
        crate::endian::lemma_bytes_of_be_u32(record.subrange(8, 12));
        assert(self.wire() =~= record);
    }

    /// Reads one record and moves past it. A file's payload is the range of
    /// `disc_start` that the record declares; where that range reaches beyond
    /// `disc_start`, or the view holds no whole record, the view stays where
    /// it was.
    pub fn read(reader: &mut Reader<'a>, disc_start: Reader<'a>, string_table: Reader<'a>) -> (r:
        Result<FstEntry<'a>, FormatError>)
        ensures
            old(reader)@.len() < FST_ENTRY_LENGTH ==> r == Err::<FstEntry<'a>, FormatError>(
                FormatError::OutOfBounds(old(reader).shortfall(FST_ENTRY_LENGTH)),
            ),
            old(reader)@.len() >= FST_ENTRY_LENGTH ==> match payload_error(
                old(reader)@.take(FST_ENTRY_LENGTH as int),
                disc_start,
            ) {
                Some(e) => r == Err::<FstEntry<'a>, FormatError>(FormatError::OutOfBounds(e)),
                None => r is Ok && r->Ok_0.decodes(
                    old(reader)@.take(FST_ENTRY_LENGTH as int),
                    disc_start,
                    string_table,
                ) && final(reader).follows(*old(reader), FST_ENTRY_LENGTH as int),
            },
            r is Err ==> *final(reader) == *old(reader),
    {
        let mut cursor: Reader<'a> = *reader;
        let mut record: Reader<'a> = match cursor.read_bytes(FST_ENTRY_LENGTH) {
            Ok(record) => record,
            Err(e) => {
                return Err(FormatError::OutOfBounds(e));
            },
        };
        let ghost bytes = record@;
        let flags: u8 = record.read_u8().unwrap();
        let unused: u8 = record.read_u8().unwrap();
        let name_offset: u16 = record.read_u16().unwrap();
        let offset: u32 = record.read_u32().unwrap();
        let length: u32 = record.read_u32().unwrap();
        proof {
            assert(bytes.skip(2).take(2) =~= bytes.subrange(2, 4));
            assert(bytes.skip(2).skip(2).take(4) =~= bytes.subrange(4, 8));
            assert(bytes.skip(2).skip(2).skip(4).take(4) =~= bytes.subrange(8, 12));
        }
        let payload: Reader<'a> = if flags == DIRECTORY_FLAG {
            disc_start.range(0, 0).unwrap()
        } else {
            match disc_start.range(offset as usize, length as usize) {
                Ok(payload) => payload,
                Err(e) => {
                    return Err(FormatError::OutOfBounds(e));
                },
            }
        };
        *reader = cursor;
        Ok(
            FstEntry {
                flags,
                unused,
                name_offset,
                offset,
                length,
                file: FstEntryFile::Unknown(payload),
                names: string_table,
            },
        )
    }

    /// Appends the bytes of the record to `out`.
    pub fn push_wire(&self, out: &mut Vec<u8>)
        ensures
            final(out)@ == old(out)@ + self.wire(),
    {
        out.push(self.flags);
        out.push(self.unused);
        push_u16(out, self.name_offset);
        push_u32(out, self.offset);
        push_u32(out, self.length);
        assert(out@ =~= old(out)@ + self.wire());
    }

    /// Whether the entry is a directory.
    pub open spec fn spec_is_folder(&self) -> bool {
        self.flags == DIRECTORY_FLAG
    }

    /// Whether the entry is a directory.
    #[verifier::when_used_as_spec(spec_is_folder)]
    pub fn is_folder(&self) -> (b: bool)
        ensures
            b == self.spec_is_folder(),
    {
        self.flags == DIRECTORY_FLAG
    }

    /// The entry's name, as the name pool gives it.
    pub open spec fn spec_name(&self) -> Option<Seq<u8>> {
        name_at(self.names@, self.name_offset as int)
    }

    /// Resolves the entry's name: the bytes of the name pool from the entry's
    /// name offset up to the next zero byte.
    pub fn name(&self) -> (r: Option<&'a [u8]>)
        ensures
            match self.spec_name() {
                Some(name) => r is Some && r->Some_0@ == name,
                None => r is None,
            },
    {
        let pool = self.names.as_slice();
        let at: usize = self.name_offset as usize;
        if at >= pool.len() {
            return None;
        }
        let mut end: usize = at;
        while end < pool.len() && pool[end] != 0
            invariant
                at <= end <= pool@.len(),
                terminator(pool@, at as int) == terminator(pool@, end as int),
            decreases pool@.len() - end,
        {
            end += 1;
        }
        if end == pool.len() {
            None
        } else {
            Some(slice_subrange(pool, at, end))
        }
    }

    /// The payload of a file; nothing for a directory.
    pub fn file(&self) -> (r: Option<&FstEntryFile<'a>>)
        ensures
            self.is_folder() ==> r is None,
            !self.is_folder() ==> r == Some(&self.file),
    {
        if self.is_folder() {
            None
        } else {
            Some(&self.file)
        }
    }

    /// The payload of a file, to be changed or replaced; nothing for a
    /// directory.
    pub fn file_mut(&mut self) -> (r: Option<&mut FstEntryFile<'a>>)
        ensures
            old(self).is_folder() ==> r is None && *final(self) == *old(self),
            !old(self).is_folder() ==> r is Some && *r->Some_0 == old(self).file && *final(self)
                == (FstEntry { file: *final(r->Some_0), ..*old(self) }),
    {
        if self.is_folder() {
            None
        } else {
            Some(&mut self.file)
        }
    }

    /// Why the entry cannot be run through [`FstEntry::guess_kind`], if it
    /// cannot.
    pub open spec fn promotion_error(&self) -> Option<PromoteError> {
        match self.spec_name() {
            None => Some(PromoteError::NameUnresolved),
            Some(name) => if name.len() < 3 {
                Some(PromoteError::NameTooShort)
            } else if !has_pak_extension(name) {
                None
            } else if self.is_folder() {
                Some(PromoteError::Directory)
            } else if self.file is ExternalFile {
                Some(PromoteError::ExternalFile)
            } else {
                None
            },
        }
    }

    /// The entry after [`FstEntry::guess_kind`]: where its name has the
    /// extension of a container and its payload is an unexamined range, that
    /// range as a container; otherwise the entry itself.
    pub open spec fn promoted(self) -> FstEntry<'a> {
        if self.promotion_error() is None && self.spec_name() is Some && has_pak_extension(
            self.spec_name()->Some_0,
        ) && self.file is Unknown {
            FstEntry { file: FstEntryFile::Pak(Pak::Unread(self.file->Unknown_0)), ..self }
        } else {
            self
        }
    }

    /// Promoting twice is promoting once: an entry that was promoted can be
    /// promoted again, and stays as it is.
    pub proof fn lemma_promotion_idempotent(self)
        requires
            self.promotion_error() is None,
        ensures
            self.promoted().promotion_error() is None,
            self.promoted().promoted() == self.promoted(),
    {
    }

    /// Looks at the last three bytes of the entry's name and, where they
    /// spell the extension of a container in either case, turns an unexamined
    /// payload into a container. An entry that already holds a container
    /// stays as it is. On an error the entry is unchanged.
    pub fn guess_kind(&mut self) -> (r: Result<(), PromoteError>)
        ensures
            match old(self).promotion_error() {
                Some(e) => r == Err::<(), PromoteError>(e) && *final(self) == *old(self),
                None => r is Ok && *final(self) == old(self).promoted(),
            },
    {
        let name: &[u8] = match self.name() {
            Some(name) => name,
            None => {
                return Err(PromoteError::NameUnresolved);
            },
        };
        let len: usize = name.len();
        if len < 3 {
            return Err(PromoteError::NameTooShort);
        }
        let is_pak: bool = to_ascii_lowercase(name[len - 3]) == 0x70 && to_ascii_lowercase(
            name[len - 2],
        ) == 0x61 && to_ascii_lowercase(name[len - 1]) == 0x6b;
        if !is_pak {
            return Ok(());
        }
        if self.is_folder() {
            return Err(PromoteError::Directory);
        }
        let range: Option<Reader<'a>> = match &self.file {
            FstEntryFile::Unknown(reader) => Some(*reader),
            FstEntryFile::Pak(_) => None,
            FstEntryFile::ExternalFile(_, _) => {
                return Err(PromoteError::ExternalFile);
            },
        };
        match range {
            Some(reader) => {
                self.file = FstEntryFile::Pak(Pak::Unread(reader));
            },
            None => {},
        }
        Ok(())
    }
}

/// A letter of the upper case as the same letter of the lower case; any other
/// byte as it is.
pub fn to_ascii_lowercase(byte: u8) -> (lower: u8)
    ensures
        lower == ascii_lower(byte),
{
    if 0x41 <= byte && byte <= 0x5a {
        byte + 0x20
    } else {
        byte
    }
}

} // verus!
