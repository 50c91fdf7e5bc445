//! Reading and writing the directory table as a whole.

use vstd::prelude::*;
use crate::endian::push_bytes;
use crate::gc_disc::error::{FormatError, Operation};
use crate::gc_disc::fst::{FstEntry, FST_ENTRY_LENGTH};
use crate::reader::{BoundsError, Reader};
use crate::sink::Sink;

verus! {

/// The directory table of a disc.
#[derive(Debug)]
pub struct FileSystemTable<'a> {
    /// The entries in the order of the table. The first is the root.
    pub fst_entries: Vec<FstEntry<'a>>,
    /// The name pool: the names of the entries, each closed by a zero byte.
    pub string_table: Reader<'a>,
}

/// The number of entries that a table declares in its first record.
pub open spec fn entry_count_of(table: Seq<u8>) -> nat {
    crate::gc_disc::fst::record_length(table.take(FST_ENTRY_LENGTH as int)) as nat
}

/// The record of the entry at `index`.
pub open spec fn record_at(table: Seq<u8>, index: int) -> Seq<u8> {
    table.subrange(FST_ENTRY_LENGTH * index, FST_ENTRY_LENGTH * index + FST_ENTRY_LENGTH)
}

/// The payload error of the first of the first `count` records that has one.
pub open spec fn first_payload_error<'a>(table: Seq<u8>, disc: Reader<'a>, count: int) -> Option<
    BoundsError,
>
    decreases count,
{
    if count <= 0 {
        None
    } else {
        match first_payload_error(table, disc, count - 1) {
            Some(e) => Some(e),
            None => crate::gc_disc::fst::payload_error(record_at(table, count - 1), disc),
        }
    }
}

/// An error among the first records is the error of any longer run of records.
pub proof fn lemma_first_payload_error_stays<'a>(
    table: Seq<u8>,
    disc: Reader<'a>,
    count: int,
    more: int,
)
    requires
        0 <= count <= more,
        first_payload_error(table, disc, count) is Some,
    ensures
        first_payload_error(table, disc, more) == first_payload_error(table, disc, count),
    decreases more - count,
{
    if count < more {
        lemma_first_payload_error_stays(table, disc, count, more - 1);
    }
}

/// The bytes of a run of records.
pub open spec fn entries_wire<'a>(entries: Seq<FstEntry<'a>>) -> Seq<u8>
    decreases entries.len(),
{
    if entries.len() == 0 {
        Seq::<u8>::empty()
    } else {
        entries_wire(entries.drop_last()) + entries.last().wire()
    }
}

/// A run of records takes twelve bytes for each.
pub proof fn lemma_entries_wire_len<'a>(entries: Seq<FstEntry<'a>>)
    ensures
        entries_wire(entries).len() == FST_ENTRY_LENGTH * entries.len(),
    decreases entries.len(),
{
    if entries.len() > 0 {
        lemma_entries_wire_len(entries.drop_last());
    }
}

/// The index of the first of the first `count` entries whose name is `name`.
pub open spec fn first_named<'a>(entries: Seq<FstEntry<'a>>, name: Seq<u8>, count: int) -> Option<
    int,
>
    decreases count,
{
    if count <= 0 {
        None
    } else {
        match first_named(entries, name, count - 1) {
            Some(index) => Some(index),
            None => if entries[count - 1].spec_name() == Some(name) {
                Some(count - 1)
            } else {
                None
            },
        }
    }
}

/// What the first entry of a name is: an entry of that name with none of
/// that name before it.
pub proof fn lemma_first_named<'a>(entries: Seq<FstEntry<'a>>, name: Seq<u8>, count: int)
    requires
        0 <= count <= entries.len(),
    ensures
        match first_named(entries, name, count) {
            Some(index) => 0 <= index < count && entries[index].spec_name() == Some(name)
                && forall|i: int| 0 <= i < index ==> entries[i].spec_name() != Some(name),
            None => forall|i: int| 0 <= i < count ==> entries[i].spec_name() != Some(name),
        },
    decreases count,
{
    if count > 0 {
        lemma_first_named(entries, name, count - 1);
    }
}

/// Reads the first `count` records of `table`, each with `string_table` as
/// its name pool and its payload taken from `disc_start`.
fn read_entries<'a>(
    table: Reader<'a>,
    count: usize,
    disc_start: Reader<'a>,
    string_table: Reader<'a>,
) -> (r: Result<Vec<FstEntry<'a>>, FormatError>)
    requires
        table.anchored(),
        FST_ENTRY_LENGTH * count <= table@.len(),
    ensures
        match first_payload_error(table@, disc_start, count as int) {
            Some(e) => r == Err::<Vec<FstEntry<'a>>, FormatError>(FormatError::OutOfBounds(e)),
            None => r is Ok && r->Ok_0@.len() == count && forall|i: int|
                0 <= i < count ==> (#[trigger] r->Ok_0@[i]).decodes(
                    record_at(table@, i),
                    disc_start,
                    string_table,
                ),
        },
{
    let mut cursor: Reader<'a> = table;
    let mut fst_entries: Vec<FstEntry<'a>> = Vec::new();
    let mut i: usize = 0;
    assert(table@.skip(0) =~= table@);
    while i < count
        invariant
            i <= count,
            FST_ENTRY_LENGTH * count <= table@.len(),
            cursor.follows(table, FST_ENTRY_LENGTH * i),
            fst_entries@.len() == i,
            first_payload_error(table@, disc_start, i as int) is None,
            forall|j: int|
                0 <= j < i ==> (#[trigger] fst_entries@[j]).decodes(
                    record_at(table@, j),
                    disc_start,
                    string_table,
                ),
        decreases count - i,
    {
        assert(cursor@.take(FST_ENTRY_LENGTH as int) =~= record_at(table@, i as int));
        match FstEntry::read(&mut cursor, disc_start, string_table) {
            Ok(entry) => {
                fst_entries.push(entry);
            },
            Err(e) => {
                proof {
                    lemma_first_payload_error_stays(table@, disc_start, i + 1, count as int);
                }
                return Err(e);
            },
        }
        assert(cursor@ =~= table@.skip(FST_ENTRY_LENGTH * (i + 1)));
        i += 1;
    }
    Ok(fst_entries)
}

impl<'a> FileSystemTable<'a> {
    /// The bytes of the table on disc: the records, then the name pool.
    pub open spec fn wire(&self) -> Seq<u8> {
        entries_wire(self.fst_entries@) + self.string_table@
    }

    /// Why no table can be read at `fst_offset` in `disc`, if none can: the
    /// table, its first record or the run of records that it declares does
    /// not fit, or the payload of an entry reaches beyond `disc`.
    pub open spec fn read_error(disc: Reader<'a>, fst_offset: usize, fst_length: usize) -> Option<
        BoundsError,
    > {
        let table = disc@.subrange(fst_offset as int, fst_offset + fst_length);
        let root = table.take(FST_ENTRY_LENGTH as int);
        if fst_offset + fst_length > disc@.len() {
            Some(disc.range_error(fst_offset, fst_length))
        } else if fst_length < FST_ENTRY_LENGTH {
            Some(
                BoundsError {
                    offset: (disc.position() + fst_offset) as u64,
                    requested: FST_ENTRY_LENGTH as u64,
                    available: fst_length as u64,
                },
            )
        } else if crate::gc_disc::fst::payload_error(root, disc) is Some {
            crate::gc_disc::fst::payload_error(root, disc)
        } else if FST_ENTRY_LENGTH * entry_count_of(table) > fst_length {
            Some(
                BoundsError {
                    offset: (disc.position() + fst_offset) as u64,
                    requested: (FST_ENTRY_LENGTH * entry_count_of(table)) as u64,
                    available: fst_length as u64,
                },
            )
        } else {
            first_payload_error(table, disc, entry_count_of(table) as int)
        }
    }

    /// Whether the table holds what the `fst_length` bytes at `fst_offset` in
    /// `disc` declare: as many entries as the first record counts, each read
    /// from its record, and the rest of the bytes as the name pool.
    pub open spec fn decodes(&self, disc: Reader<'a>, fst_offset: int, fst_length: int) -> bool {
        let table = disc@.subrange(fst_offset, fst_offset + fst_length);
        let count = entry_count_of(table);
        &&& 0 <= fst_offset
        &&& fst_offset + fst_length <= disc@.len()
        &&& FST_ENTRY_LENGTH * count <= fst_length
        &&& self.string_table.ranges(
            disc,
            fst_offset + FST_ENTRY_LENGTH * count,
            fst_length - FST_ENTRY_LENGTH * count,
        )
        &&& self.fst_entries@.len() == count
        &&& forall|i: int|
            0 <= i < count ==> (#[trigger] self.fst_entries@[i]).decodes(
                record_at(table, i),
                disc,
                self.string_table,
            )
    }

    /// Reads the table that takes `fst_length` bytes at `fst_offset` in
    /// `disc_start`. The first record is read by itself, for the number of
    /// entries; with it the start of the name pool is known, and all entries
    /// are read with the pool in hand.
    pub fn read(disc_start: Reader<'a>, fst_offset: usize, fst_length: usize) -> (r: Result<
        FileSystemTable<'a>,
        FormatError,
    >)
        ensures
            match Self::read_error(disc_start, fst_offset, fst_length) {
                Some(e) => r == Err::<FileSystemTable<'a>, FormatError>(
                    FormatError::OutOfBounds(e),
                ),
                None => r is Ok && r->Ok_0.decodes(
                    disc_start,
                    fst_offset as int,
                    fst_length as int,
                ),
            },
    {
        let table: Reader<'a> = match disc_start.range(fst_offset, fst_length) {
            Ok(table) => table,
            Err(e) => {
                return Err(FormatError::OutOfBounds(e));
            },
        };
        let mut cursor: Reader<'a> = table;
        let root: FstEntry<'a> = match FstEntry::read(&mut cursor, disc_start, disc_start) {
            Ok(root) => root,
            Err(e) => {
                return Err(e);
            },
        };
        let count: usize = root.length as usize;
        if count > fst_length / FST_ENTRY_LENGTH {
            return Err(
                FormatError::OutOfBounds(
                    BoundsError {
                        offset: table.start_offset(),
                        requested: FST_ENTRY_LENGTH as u64 * count as u64,
                        available: fst_length as u64,
                    },
                ),
            );
        }
        let string_table: Reader<'a> = table.offset(FST_ENTRY_LENGTH * count).unwrap();
        proof {
            assert(count == entry_count_of(table@));
            assert(string_table@ =~= disc_start@.subrange(
                fst_offset + FST_ENTRY_LENGTH * count,
                fst_offset + fst_length,
            ));
        }
        match read_entries(table, count, disc_start, string_table) {
            Ok(fst_entries) => Ok(FileSystemTable { fst_entries, string_table }),
            Err(e) => Err(e),
        }
    }

    /// The number of bytes that the table takes on disc, where a `usize`
    /// holds it.
    pub fn size(&self) -> (r: Option<usize>)
        ensures
            self.wire().len() <= usize::MAX ==> r == Some(self.wire().len() as usize),
            self.wire().len() > usize::MAX ==> r is None,
    {
        proof {
            lemma_entries_wire_len(self.fst_entries@);
        }
        let count: usize = self.fst_entries.len();
        let names: usize = self.string_table.len();
        if count > (usize::MAX - names) / FST_ENTRY_LENGTH {
            None
        } else {
            Some(count * FST_ENTRY_LENGTH + names)
        }
    }

    /// The records as the bytes that go to disc.
    fn records(&self) -> (records: Vec<u8>)
        ensures
            records@ == entries_wire(self.fst_entries@),
    {
        let mut records: Vec<u8> = Vec::new();
        let mut i: usize = 0;
        while i < self.fst_entries.len()
            invariant
                i <= self.fst_entries@.len(),
                records@ == entries_wire(self.fst_entries@.take(i as int)),
            decreases self.fst_entries@.len() - i,
        {
            self.fst_entries[i].push_wire(&mut records);
            assert(self.fst_entries@.take(i + 1).drop_last() =~= self.fst_entries@.take(i as int));
            i += 1;
        }
        assert(self.fst_entries@.take(i as int) =~= self.fst_entries@);
        records
    }

    /// Appends the bytes of the table to `out`.
    pub fn push_wire(&self, out: &mut Vec<u8>)
        ensures
            final(out)@ == old(out)@ + self.wire(),
    {
        let records = self.records();
        push_bytes(out, records.as_slice());
        push_bytes(out, self.string_table.as_slice());
        assert(out@ =~= old(out)@ + (records@ + self.string_table@));
    }

    /// Writes the table at the sink's cursor: the records in their order,
    /// then the name pool as it was read.
    pub fn write<W: Sink>(&self, writer: &mut W) -> (r: Result<(), W::Failure>)
        ensures
            final(writer).limit() == old(writer).limit(),
            r is Ok ==> crate::sink::wrote(old(writer), final(writer), self.wire()),
            crate::sink::takes(old(writer), self.wire().len()) ==> r is Ok,
    {
        let records = self.records();
        match writer.write_all(records.as_slice()) {
            Ok(()) => {},
            Err(failure) => {
                return Err(failure);
            },
        }
        proof {
            crate::sink::lemma_overlay_joined(
                old(writer).contents(),
                old(writer).position() as int,
                records@,
                self.string_table@,
            );
        }
        writer.write_all(self.string_table.as_slice())
    }

    /// What a sink holds after the payloads of the first `count` entries were
    /// written over `base`, each at the offset of its entry, in the order of
    /// the table. A directory writes nothing.
    pub open spec fn files_over(entries: Seq<FstEntry<'a>>, base: Seq<u8>, count: int) -> Seq<u8>
        decreases count,
    {
        if count <= 0 {
            base
        } else if entries[count - 1].is_folder() {
            Self::files_over(entries, base, count - 1)
        } else {
            crate::sink::overlay(
                Self::files_over(entries, base, count - 1),
                entries[count - 1].offset as int,
                entries[count - 1].file.bytes(),
            )
        }
    }

    /// Whether a sink that takes seeks and writes up to `limit` takes the
    /// payload of every file at the offset of its entry.
    pub open spec fn files_within(entries: Seq<FstEntry<'a>>, limit: nat) -> bool {
        forall|i: int|
            0 <= i < entries.len() && !(#[trigger] entries[i]).is_folder() ==> entries[i].offset
                + entries[i].file.bytes().len() <= limit
    }

    /// Writes the payload of every file at the offset of its entry, in the
    /// order of the table. The first failure of the sink ends the write and
    /// is handed back with the step that failed.
    pub fn write_files<W: Sink>(&self, writer: &mut W) -> (r: Result<
        (),
        (Operation, W::Failure),
    >)
        ensures
            final(writer).limit() == old(writer).limit(),
            r is Ok ==> final(writer).contents() == Self::files_over(
                self.fst_entries@,
                old(writer).contents(),
                self.fst_entries@.len() as int,
            ),
            old(writer).limit() is Some && Self::files_within(
                self.fst_entries@,
                old(writer).limit()->Some_0,
            ) ==> r is Ok,
    {
        let mut i: usize = 0;
        while i < self.fst_entries.len()
            invariant
                i <= self.fst_entries@.len(),
                writer.limit() == old(writer).limit(),
                writer.contents() == Self::files_over(
                    self.fst_entries@,
                    old(writer).contents(),
                    i as int,
                ),
            decreases self.fst_entries@.len() - i,
        {
            match self.fst_entries[i].file() {
                Some(file) => {
                    match writer.seek(self.fst_entries[i].offset as u64) {
                        Ok(()) => {},
                        Err(cause) => {
                            return Err((Operation::Seek, cause));
                        },
                    }
                    match file.write(writer) {
                        Ok(()) => {},
                        Err(cause) => {
                            return Err((Operation::Write, cause));
                        },
                    }
                },
                None => {},
            }
            i += 1;
        }
        Ok(())
    }

    /// The index of the first entry whose name is `name`.
    pub fn find(&self, name: &[u8]) -> (r: Option<usize>)
        ensures
            match first_named(self.fst_entries@, name@, self.fst_entries@.len() as int) {
                Some(index) => r is Some && r->Some_0 == index,
                None => r is None,
            },
    {
        let mut i: usize = 0;
        while i < self.fst_entries.len()
            invariant
                i <= self.fst_entries@.len(),
                first_named(self.fst_entries@, name@, i as int) is None,
            decreases self.fst_entries@.len() - i,
        {
            let found: bool = match self.fst_entries[i].name() {
                Some(candidate) => same_bytes(candidate, name),
                None => false,
            };
            if found {
                proof {
                    lemma_first_named_stays(
                        self.fst_entries@,
                        name@,
                        i + 1,
                        self.fst_entries@.len() as int,
                    );
                }
                return Some(i);
            }
            i += 1;
        }
        None
    }
}

/// A match among the first entries is the match of any longer run of entries.
pub proof fn lemma_first_named_stays<'a>(
    entries: Seq<FstEntry<'a>>,
    name: Seq<u8>,
    count: int,
    more: int,
)
    requires
        0 <= count <= more,
        first_named(entries, name, count) is Some,
    ensures
        first_named(entries, name, more) == first_named(entries, name, count),
    decreases more - count,
{
    if count < more {
        lemma_first_named_stays(entries, name, count, more - 1);
    }
}

/// Whether two runs of bytes are the same.
pub fn same_bytes(left: &[u8], right: &[u8]) -> (same: bool)
    ensures
        same == (left@ == right@),
{
    if left.len() != right.len() {
        return false;
    }
    let mut i: usize = 0;
    while i < left.len()
        invariant
            i <= left@.len(),
            left@.len() == right@.len(),
            forall|j: int| 0 <= j < i ==> left@[j] == right@[j],
        decreases left@.len() - i,
    {
        if left[i] != right[i] {
            return false;
        }
        i += 1;
    }
    assert(left@ =~= right@);
    true
}

} // verus!
