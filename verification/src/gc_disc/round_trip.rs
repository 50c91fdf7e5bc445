//! What a disc that was read and not touched writes: the image it was read from.

use vstd::prelude::*;
use crate::gc_disc::disc::GcDisc;
use crate::gc_disc::fst::FstEntry;
use crate::gc_disc::table::FileSystemTable;
use crate::reader::Reader;

verus! {

/// Records that were read from a table write the bytes they were read from.
pub proof fn lemma_entries_wire_of_decoded<'a>(
    entries: Seq<FstEntry<'a>>,
    table: Seq<u8>,
    disc: Reader<'a>,
    names: Reader<'a>,
    count: int,
)
    requires
        0 <= count <= entries.len(),
        crate::gc_disc::fst::FST_ENTRY_LENGTH * count <= table.len(),
        forall|i: int|
            0 <= i < count ==> (#[trigger] entries[i]).decodes(
                crate::gc_disc::table::record_at(table, i),
                disc,
                names,
            ),
    ensures
        crate::gc_disc::table::entries_wire(entries.take(count)) == table.subrange(
            0,
            crate::gc_disc::fst::FST_ENTRY_LENGTH * count,
        ),
    decreases count,
{
    if count > 0 {
        lemma_entries_wire_of_decoded(entries, table, disc, names, count - 1);
        entries[count - 1].lemma_wire_of_decoded(
            crate::gc_disc::table::record_at(table, count - 1),
            disc,
            names,
        );
        assert(entries.take(count).drop_last() =~= entries.take(count - 1));
        assert(entries.take(count).last() == entries[count - 1]);
        crate::endian::lemma_subrange_joined(
            table,
            0,
            crate::gc_disc::fst::FST_ENTRY_LENGTH * (count - 1),
            crate::gc_disc::fst::FST_ENTRY_LENGTH * count,
        );
    } else {
        assert(crate::gc_disc::table::entries_wire(entries.take(0)) =~= table.subrange(0, 0));
    }
}

impl<'a> FileSystemTable<'a> {
    /// A table that was read from bytes writes those bytes again.
    pub proof fn lemma_wire_of_decoded(&self, disc: Reader<'a>, fst_offset: int, fst_length: int)
        requires
            self.decodes(disc, fst_offset, fst_length),
        ensures
            self.wire() == disc@.subrange(fst_offset, fst_offset + fst_length),
    {
        let table = disc@.subrange(fst_offset, fst_offset + fst_length);
        let count = self.fst_entries@.len() as int;
        lemma_entries_wire_of_decoded(self.fst_entries@, table, disc, self.string_table, count);
        assert(self.fst_entries@.take(count) =~= self.fst_entries@);
        assert(self.string_table@ =~= table.subrange(
            crate::gc_disc::fst::FST_ENTRY_LENGTH * count,
            fst_length,
        ));
        crate::endian::lemma_subrange_joined(
            table,
            0,
            crate::gc_disc::fst::FST_ENTRY_LENGTH * count,
            fst_length,
        );
        assert(table.subrange(0, fst_length) =~= table);
    }
}

/// Whether `image` holds at `index` what `source` holds there, or still what
/// `base` holds there, `index` lying outside the `front` bytes at the start,
/// outside the table and outside the first `count` files.
pub open spec fn settled_at<'a>(
    image: Seq<u8>,
    source: Seq<u8>,
    base: Seq<u8>,
    front: int,
    fst_offset: int,
    fst_length: int,
    entries: Seq<FstEntry<'a>>,
    count: int,
    index: int,
) -> bool {
    ||| image[index] == source[index]
    ||| {
        &&& image[index] == base[index]
        &&& !(0 <= index < front)
        &&& !(fst_offset <= index < fst_offset + fst_length)
        &&& forall|k: int|
            0 <= k < count && !(#[trigger] entries[k]).is_folder() ==> !(entries[k].offset <= index
                < entries[k].offset + entries[k].file.bytes().len())
    }
}

/// Writing the payloads of files that were read from `disc` over an image
/// that is settled keeps it settled.
proof fn lemma_files_over_decoded<'a>(
    entries: Seq<FstEntry<'a>>,
    table: Seq<u8>,
    disc: Reader<'a>,
    names: Reader<'a>,
    image: Seq<u8>,
    base: Seq<u8>,
    front: int,
    fst_offset: int,
    fst_length: int,
    count: int,
)
    requires
        0 <= count <= entries.len(),
        forall|i: int|
            0 <= i < entries.len() ==> (#[trigger] entries[i]).decodes(
                crate::gc_disc::table::record_at(table, i),
                disc,
                names,
            ),
        image.len() == disc@.len(),
        base.len() == disc@.len(),
        forall|index: int|
            0 <= index < image.len() ==> settled_at(
                image,
                disc@,
                base,
                front,
                fst_offset,
                fst_length,
                entries,
                0,
                index,
            ),
    ensures
        FileSystemTable::files_over(entries, image, count).len() == disc@.len(),
        forall|index: int|
            0 <= index < image.len() ==> settled_at(
                FileSystemTable::files_over(entries, image, count),
                disc@,
                base,
                front,
                fst_offset,
                fst_length,
                entries,
                count,
                index,
            ),
    decreases count,
{
    if count > 0 {
        lemma_files_over_decoded(
            entries,
            table,
            disc,
            names,
            image,
            base,
            front,
            fst_offset,
            fst_length,
            count - 1,
        );
        let below = FileSystemTable::files_over(entries, image, count - 1);
        let above = FileSystemTable::files_over(entries, image, count);
        let entry = entries[count - 1];
        assert(entry.decodes(crate::gc_disc::table::record_at(table, count - 1), disc, names));
        assert forall|index: int| 0 <= index < image.len() implies settled_at(
            above,
            disc@,
            base,
            front,
            fst_offset,
            fst_length,
            entries,
            count,
            index,
        ) by {
            assert(settled_at(
                below,
                disc@,
                base,
                front,
                fst_offset,
                fst_length,
                entries,
                count - 1,
                index,
            ));
        }
    }
}

/// An image with the front and the table of its source written over it is
/// settled, whatever files are to follow.
proof fn lemma_settled_below_files<'a>(
    source: Seq<u8>,
    base: Seq<u8>,
    front: Seq<u8>,
    fst_offset: int,
    wire: Seq<u8>,
    entries: Seq<FstEntry<'a>>,
)
    requires
        base.len() == source.len(),
        front.len() <= source.len(),
        front == source.take(front.len() as int),
        0 <= fst_offset,
        fst_offset + wire.len() <= source.len(),
        wire == source.subrange(fst_offset, fst_offset + wire.len()),
    ensures
        crate::sink::overlay(crate::sink::overlay(base, 0, front), fst_offset, wire).len()
            == source.len(),
        forall|index: int|
            0 <= index < source.len() ==> settled_at(
                crate::sink::overlay(crate::sink::overlay(base, 0, front), fst_offset, wire),
                source,
                base,
                front.len() as int,
                fst_offset,
                wire.len() as int,
                entries,
                0,
                index,
            ),
{
}

impl<'a> GcDisc<'a> {
    /// Whether a write of the disc puts a byte at offset `index`.
    pub open spec fn covers(&self, index: int) -> bool {
        ||| 0 <= index < self.front().len()
        ||| self.header.fst_offset <= index < self.header.fst_offset
            + self.file_system_table.wire().len()
        ||| exists|k: int|
            0 <= k < self.file_system_table.fst_entries@.len()
                && !(#[trigger] self.file_system_table.fst_entries@[k]).is_folder()
                && self.file_system_table.fst_entries@[k].offset <= index
                < self.file_system_table.fst_entries@[k].offset
                + self.file_system_table.fst_entries@[k].file.bytes().len()
    }

    /// The front of a disc that was read from an image is the start of that
    /// image.
    pub proof fn lemma_front_of_decoded(&self, disc: Reader<'a>)
        requires
            self.decodes(disc),
        ensures
            self.front().len() <= disc@.len(),
            self.front() == disc@.take(self.front().len() as int),
    {
        let start = crate::gc_disc::disc::apploader_start();
        let rest = disc@.skip(start);
        let loader = crate::gc_disc::apploader::APPLOADER_PREFIX_LENGTH
            + crate::gc_disc::apploader::code_length_of(rest);
        self.header.lemma_wire_of_decoded(disc@);
        self.apploader.lemma_wire_of_decoded(rest);
        assert(disc@.take(crate::gc_disc::header::HEADER_LENGTH as int) =~= disc@.subrange(
            0,
            crate::gc_disc::header::HEADER_LENGTH as int,
        ));
        assert(rest.take(loader as int) =~= disc@.subrange(start, start + loader));
        crate::endian::lemma_subrange_joined(
            disc@,
            0,
            crate::gc_disc::header::HEADER_LENGTH as int,
            start,
        );
        crate::endian::lemma_subrange_joined(disc@, 0, start, start + loader);
        assert(disc@.subrange(0, start + loader) =~= disc@.take(start + loader));
    }

    /// A disc as it was read writes the image it was read from, over a sink
    /// that holds as many bytes as the image and, wherever the write puts no
    /// byte, the byte of the image.
    pub proof fn lemma_image_of_decoded(&self, disc: Reader<'a>, base: Seq<u8>)
        requires
            self.decodes(disc),
            base.len() == disc@.len(),
            forall|index: int|
                0 <= index < base.len() && !self.covers(index) ==> base[index] == disc@[index],
        ensures
            self.image_over(base) == disc@,
    {
        let entries = self.file_system_table.fst_entries@;
        let front = self.front().len() as int;
        let fst_offset = self.header.fst_offset as int;
        let fst_length = self.header.fst_length as int;
        let table = disc@.subrange(fst_offset, fst_offset + fst_length);
        let wire = self.file_system_table.wire();
        self.lemma_front_of_decoded(disc);
        self.file_system_table.lemma_wire_of_decoded(disc, fst_offset, fst_length);
        lemma_settled_below_files(disc@, base, self.front(), fst_offset, wire, entries);
        let tabled = crate::sink::overlay(
            crate::sink::overlay(base, 0, self.front()),
            fst_offset,
            wire,
        );
        lemma_files_over_decoded(
            entries,
            table,
            disc,
            self.file_system_table.string_table,
            tabled,
            base,
            front,
            fst_offset,
            fst_length,
            entries.len() as int,
        );
        let image = self.image_over(base);
        assert forall|index: int| 0 <= index < image.len() implies image[index] == disc@[index] by {
            assert(settled_at(
                image,
                disc@,
                base,
                front,
                fst_offset,
                fst_length,
                entries,
                entries.len() as int,
                index,
            ));
            if image[index] != disc@[index] {
                assert(!self.covers(index));
            }
        }
        assert(image =~= disc@);
    }

    /// Reading an image and writing it again gives the image back: where the
    /// files of the disc that was read lie where a write places them, and its
    /// header names the boot file's offset, a write changes nothing in the
    /// disc and fills a sink of the image's length with the image. Whatever
    /// the write does not reach, the gaps between the parts, must be in the
    /// sink already.
    pub proof fn lemma_round_trip(
        &self,
        written: &GcDisc<'a>,
        disc: Reader<'a>,
        capacity: u32,
        base: Seq<u8>,
    )
        requires
            self.decodes(disc),
            self.replanned_as(written, capacity),
            self.unchanged_as(written),
            base.len() == disc@.len(),
            forall|index: int|
                0 <= index < base.len() && !self.covers(index) ==> base[index] == disc@[index],
        ensures
            written.image_over(base) == disc@,
    {
        self.lemma_image_of_decoded(disc, base);
    }
}

} // verus!
