//! The image as a list of what goes where, for a caller that does the
//! writing itself.

use vstd::prelude::*;
use crate::endian::push_bytes;
use crate::gc_disc::disc::GcDisc;
use crate::gc_disc::fst::FstEntry;
use crate::gc_disc::table::FileSystemTable;

verus! {

/// The payload of one file and the offset at which it goes.
#[derive(Clone, Copy, Debug)]
pub struct Segment<'d> {
    pub offset: u64,
    pub bytes: &'d [u8],
}

/// All that a write of a disc puts into the image, in the order in which it
/// is put there.
#[derive(Debug)]
pub struct ImageParts<'d> {
    /// What goes at offset 0: header, header block and apploader.
    pub front: Vec<u8>,
    /// Where the directory table goes.
    pub table_offset: u64,
    /// The directory table: records and name pool.
    pub table: Vec<u8>,
    /// The payloads of the files, in the order of the table.
    pub files: Vec<Segment<'d>>,
}

/// The offsets and payloads of the files among the first `count` entries, in
/// the order of the table.
pub open spec fn segments_of<'a>(entries: Seq<FstEntry<'a>>, count: int) -> Seq<(u64, Seq<u8>)>
    decreases count,
{
    if count <= 0 {
        Seq::empty()
    } else if entries[count - 1].is_folder() {
        segments_of(entries, count - 1)
    } else {
        segments_of(entries, count - 1).push(
            (entries[count - 1].offset as u64, entries[count - 1].file.bytes()),
        )
    }
}

/// What a sink holds after the first `count` of `segments` were written over
/// `base`, each at its offset, one after the other.
pub open spec fn segments_over(segments: Seq<(u64, Seq<u8>)>, base: Seq<u8>, count: int) -> Seq<u8>
    decreases count,
{
    if count <= 0 {
        base
    } else {
        crate::sink::overlay(
            segments_over(segments, base, count - 1),
            segments[count - 1].0 as int,
            segments[count - 1].1,
        )
    }
}

/// Segments that are written later do not change what the earlier ones leave.
proof fn lemma_segments_over_prefix(
    segments: Seq<(u64, Seq<u8>)>,
    last: (u64, Seq<u8>),
    base: Seq<u8>,
    count: int,
)
    requires
        0 <= count <= segments.len(),
    ensures
        segments_over(segments.push(last), base, count) == segments_over(segments, base, count),
    decreases count,
{
    if count > 0 {
        lemma_segments_over_prefix(segments, last, base, count - 1);
    }
}

/// Writing the segments of the files is writing the files.
pub proof fn lemma_segments_of_files<'a>(entries: Seq<FstEntry<'a>>, base: Seq<u8>, count: int)
    requires
        0 <= count <= entries.len(),
    ensures
        segments_over(
            segments_of(entries, count),
            base,
            segments_of(entries, count).len() as int,
        ) == FileSystemTable::files_over(entries, base, count),
    decreases count,
{
    if count > 0 {
        lemma_segments_of_files(entries, base, count - 1);
        if !entries[count - 1].is_folder() {
            let before = segments_of(entries, count - 1);
            lemma_segments_over_prefix(
                before,
                (entries[count - 1].offset as u64, entries[count - 1].file.bytes()),
                base,
                before.len() as int,
            );
        }
    }
}

impl<'d> ImageParts<'d> {
    /// The files as offsets and bytes.
    pub open spec fn segments(&self) -> Seq<(u64, Seq<u8>)> {
        Seq::new(self.files@.len(), |i: int| (self.files@[i].offset, self.files@[i].bytes@))
    }

    /// What a sink that held `base` holds after the parts were written to
    /// it: the front at offset 0, then the table at its offset, then the
    /// files, each at its offset, in their order.
    pub open spec fn image_over(&self, base: Seq<u8>) -> Seq<u8> {
        segments_over(
            self.segments(),
            crate::sink::overlay(
                crate::sink::overlay(base, 0, self.front@),
                self.table_offset as int,
                self.table@,
            ),
            self.files@.len() as int,
        )
    }
}

impl<'a> GcDisc<'a> {
    /// Whether `parts` are the parts of this disc.
    pub open spec fn has_parts(&self, parts: &ImageParts<'_>) -> bool {
        &&& parts.front@ == self.front()
        &&& parts.table_offset == self.header.fst_offset
        &&& parts.table@ == self.file_system_table.wire()
        &&& parts.segments() == segments_of(
            self.file_system_table.fst_entries@,
            self.file_system_table.fst_entries@.len() as int,
        )
    }

    /// Writing the parts of a disc is writing the disc.
    pub proof fn lemma_image_of_parts(&self, parts: &ImageParts<'_>, base: Seq<u8>)
        requires
            self.has_parts(parts),
        ensures
            parts.image_over(base) == self.image_over(base),
    {
        let entries = self.file_system_table.fst_entries@;
        let below = crate::sink::overlay(
            crate::sink::overlay(base, 0, self.front()),
            self.header.fst_offset as int,
            self.file_system_table.wire(),
        );
        lemma_segments_of_files(entries, below, entries.len() as int);
    }

    /// The disc as the parts of its image: what a write puts where. The
    /// files are placed as their entries say; to place them anew, call
    /// [`GcDisc::replan`] first.
    pub fn parts(&self) -> (parts: ImageParts<'_>)
        ensures
            self.has_parts(&parts),
    {
        let mut front: Vec<u8> = self.header.to_bytes();
        push_bytes(&mut front, self.header_info.as_slice());
        self.apploader.push_wire(&mut front);
        let mut table: Vec<u8> = Vec::new();
        self.file_system_table.push_wire(&mut table);
        let entries = &self.file_system_table.fst_entries;
        let mut files: Vec<Segment<'_>> = Vec::new();
        let mut i: usize = 0;
        while i < entries.len()
            invariant
                i <= entries@.len(),
                Seq::new(files@.len(), |k: int| (files@[k].offset, files@[k].bytes@)) == segments_of(
                    entries@,
                    i as int,
                ),
            decreases entries@.len() - i,
        {
            let ghost before = Seq::new(files@.len(), |k: int| (files@[k].offset, files@[k].bytes@));
            match entries[i].file() {
                Some(file) => {
                    files.push(Segment { offset: entries[i].offset as u64, bytes: file.as_slice() });
                    assert(Seq::new(files@.len(), |k: int| (files@[k].offset, files@[k].bytes@))
                        =~= before.push((entries@[i as int].offset as u64, file.bytes())));
                },
                None => {},
            }
            i += 1;
        }
        ImageParts { front, table_offset: self.header.fst_offset as u64, table, files }
    }
}

} // verus!
