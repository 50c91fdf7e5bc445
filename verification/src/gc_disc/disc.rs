//! The disc as a whole: reading an image, placing its files, writing it out.

use vstd::prelude::*;
use crate::gc_disc::apploader::GcDiscApploader;
use crate::gc_disc::error::{FormatError, LayoutError, Operation, WriteError};
use crate::gc_disc::header::GcDiscHeader;
use crate::gc_disc::layout::GC_DISC_LENGTH;
use crate::gc_disc::table::FileSystemTable;
use crate::reader::Reader;
use crate::sink::Sink;

verus! {

/// The number of bytes between the header and the apploader.
pub const HEADER_INFO_LENGTH: usize = 0x2000;

/// The name of the boot file: `default.dol`.
pub const BOOT_FILE_NAME: [u8; 11] = [
    0x64,
    0x65,
    0x66,
    0x61,
    0x75,
    0x6c,
    0x74,
    0x2e,
    0x64,
    0x6f,
    0x6c,
];

/// A disc image, taken apart.
#[derive(Debug)]
pub struct GcDisc<'a> {
    pub header: GcDiscHeader,
    /// The block between header and apploader, carried through as it was read.
    pub header_info: Reader<'a>,
    pub apploader: GcDiscApploader<'a>,
    pub file_system_table: FileSystemTable<'a>,
}

/// Where the header in `bytes` says the directory table starts.
pub open spec fn fst_offset_of(bytes: Seq<u8>) -> u32 {
    crate::endian::be_u32(bytes.subrange(0x424, 0x428))
}

/// How many bytes the header in `bytes` says the directory table takes.
pub open spec fn fst_length_of(bytes: Seq<u8>) -> u32 {
    crate::endian::be_u32(bytes.subrange(0x428, 0x42c))
}

/// The offset at which the apploader starts.
pub open spec fn apploader_start() -> int {
    crate::gc_disc::header::HEADER_LENGTH + HEADER_INFO_LENGTH
}

impl<'a> GcDisc<'a> {
    /// Why `disc` cannot be read as an image, if it cannot: the first of its
    /// parts, in the order header, header block, apploader, directory table,
    /// that does not fit or does not hold what it must.
    pub open spec fn read_error(disc: Reader<'a>) -> Option<FormatError> {
        let bytes = disc@;
        let after_header = bytes.len() - crate::gc_disc::header::HEADER_LENGTH;
        let after_info = bytes.len() - apploader_start();
        let after_prefix = after_info - crate::gc_disc::apploader::APPLOADER_PREFIX_LENGTH;
        let code_length = crate::gc_disc::apploader::code_length_of(bytes.skip(apploader_start()));
        if GcDiscHeader::read_error(disc) is Some {
            GcDiscHeader::read_error(disc)
        } else if after_header < HEADER_INFO_LENGTH {
            Some(
                FormatError::OutOfBounds(
                    disc.range_error(crate::gc_disc::header::HEADER_LENGTH, HEADER_INFO_LENGTH),
                ),
            )
        } else if after_info < crate::gc_disc::apploader::APPLOADER_PREFIX_LENGTH {
            Some(
                FormatError::OutOfBounds(
                    disc.range_error(
                        apploader_start() as usize,
                        crate::gc_disc::apploader::APPLOADER_PREFIX_LENGTH,
                    ),
                ),
            )
        } else if after_prefix < code_length {
            Some(
                FormatError::OutOfBounds(
                    crate::reader::BoundsError {
                        offset: (disc.position() + apploader_start()
                            + crate::gc_disc::apploader::APPLOADER_PREFIX_LENGTH) as u64,
                        requested: code_length as u64,
                        available: after_prefix as u64,
                    },
                ),
            )
        } else {
            match FileSystemTable::read_error(
                disc,
                fst_offset_of(bytes) as usize,
                fst_length_of(bytes) as usize,
            ) {
                Some(e) => Some(FormatError::OutOfBounds(e)),
                None => None,
            }
        }
    }

    /// Whether the disc holds what the image `disc` declares: its parts, each
    /// read from its place.
    pub open spec fn decodes(&self, disc: Reader<'a>) -> bool {
        let rest = disc@.skip(apploader_start());
        &&& self.header.decodes(disc@)
        &&& self.header_info.ranges(
            disc,
            crate::gc_disc::header::HEADER_LENGTH as int,
            HEADER_INFO_LENGTH as int,
        )
        &&& disc@.len() >= apploader_start()
        &&& self.apploader.decodes(rest)
        &&& self.apploader.code.ranges(
            disc,
            apploader_start() + crate::gc_disc::apploader::APPLOADER_PREFIX_LENGTH,
            crate::gc_disc::apploader::code_length_of(rest) as int,
        )
        &&& self.file_system_table.decodes(
            disc,
            self.header.fst_offset as int,
            self.header.fst_length as int,
        )
    }

    /// Reads an image: the header, the block behind it, the apploader, and
    /// the directory table at the place that the header gives.
    pub fn read(disc_start: Reader<'a>) -> (r: Result<GcDisc<'a>, FormatError>)
        ensures
            match Self::read_error(disc_start) {
                Some(e) => r == Err::<GcDisc<'a>, FormatError>(e),
                None => r is Ok && r->Ok_0.decodes(disc_start),
            },
    {
        let mut cursor: Reader<'a> = disc_start;
        let header: GcDiscHeader = match GcDiscHeader::read(&mut cursor) {
            Ok(header) => header,
            Err(e) => {
                return Err(e);
            },
        };
        let header_info: Reader<'a> = match cursor.read_bytes(HEADER_INFO_LENGTH) {
            Ok(header_info) => header_info,
            Err(e) => {
                return Err(FormatError::OutOfBounds(e));
            },
        };
        proof {
            assert(cursor@ =~= disc_start@.skip(apploader_start()));
            assert(header_info@ =~= disc_start@.subrange(
                crate::gc_disc::header::HEADER_LENGTH as int,
                apploader_start(),
            ));
        }
        let ghost at_apploader = cursor;
        let apploader: GcDiscApploader<'a> = match GcDiscApploader::read(&mut cursor) {
            Ok(apploader) => apploader,
            Err(e) => {
                return Err(e);
            },
        };
        proof {
            let code_length = crate::gc_disc::apploader::code_length_of(at_apploader@) as int;
            let from = apploader_start() + crate::gc_disc::apploader::APPLOADER_PREFIX_LENGTH;
            assert(apploader.code@ =~= disc_start@.subrange(from, from + code_length));
        }
        let file_system_table: FileSystemTable<'a> = match FileSystemTable::read(
            disc_start,
            header.fst_offset as usize,
            header.fst_length as usize,
        ) {
            Ok(file_system_table) => file_system_table,
            Err(e) => {
                return Err(e);
            },
        };
        Ok(GcDisc { header, header_info, apploader, file_system_table })
    }

    /// Why the files of the disc cannot be placed in an image of `capacity`
    /// bytes, if they cannot: they take too much room, or, where they fit, no
    /// entry has the name of the boot file.
    pub open spec fn layout_error(&self, capacity: u32) -> Option<LayoutError> {
        let entries = self.file_system_table.fst_entries@;
        if crate::gc_disc::layout::room_of_all(entries, entries.len() as int) > capacity {
            Some(LayoutError::CapacityExceeded)
        } else if crate::gc_disc::table::first_named(
            entries,
            BOOT_FILE_NAME@,
            entries.len() as int,
        ) is None {
            Some(LayoutError::BootFileMissing)
        } else {
            None
        }
    }

    /// Whether `after` is this disc as it was.
    pub open spec fn unchanged_as(&self, after: &GcDisc<'a>) -> bool {
        &&& after.header == self.header
        &&& after.header_info == self.header_info
        &&& after.apploader == self.apploader
        &&& after.file_system_table.string_table == self.file_system_table.string_table
        &&& after.file_system_table.fst_entries@ == self.file_system_table.fst_entries@
    }

    /// Whether `after` is this disc with its files placed anew in an image
    /// of `capacity` bytes, and with the new offset of the first entry that
    /// has the name of the boot file as the header's boot offset.
    pub open spec fn replanned_as(&self, after: &GcDisc<'a>, capacity: u32) -> bool {
        let entries = self.file_system_table.fst_entries@;
        let placed = crate::gc_disc::layout::planned(entries, capacity as nat);
        let boot = crate::gc_disc::table::first_named(
            entries,
            BOOT_FILE_NAME@,
            entries.len() as int,
        );
        &&& boot is Some
        &&& after.header == (GcDiscHeader {
            main_dol_offset: placed[boot->Some_0].offset,
            ..self.header
        })
        &&& after.header_info == self.header_info
        &&& after.apploader == self.apploader
        &&& after.file_system_table.string_table == self.file_system_table.string_table
        &&& after.file_system_table.fst_entries@ == placed
    }

    /// Places the files anew in an image of `capacity` bytes and records the
    /// new offset of the boot file in the header. On an error the disc is
    /// left as it was.
    pub fn replan(&mut self, capacity: u32) -> (r: Result<(), LayoutError>)
        ensures
            match old(self).layout_error(capacity) {
                Some(e) => r == Err::<(), LayoutError>(e) && old(self).unchanged_as(final(self)),
                None => r is Ok && old(self).replanned_as(final(self), capacity),
            },
    {
        let boot: usize = match self.file_system_table.find(BOOT_FILE_NAME.as_slice()) {
            Some(boot) => boot,
            None => {
                if self.file_system_table.fits(capacity) {
                    return Err(LayoutError::BootFileMissing);
                } else {
                    return Err(LayoutError::CapacityExceeded);
                }
            },
        };
        proof {
            crate::gc_disc::table::lemma_first_named(
                self.file_system_table.fst_entries@,
                BOOT_FILE_NAME@,
                self.file_system_table.fst_entries@.len() as int,
            );
        }
        match self.file_system_table.recalculate_offsets_and_lengths(capacity) {
            Ok(()) => {},
            Err(e) => {
                return Err(e);
            },
        }
        self.header.main_dol_offset = self.file_system_table.fst_entries[boot].offset;
        Ok(())
    }

    /// The bytes at the start of the image: header, header block, apploader.
    pub open spec fn front(&self) -> Seq<u8> {
        self.header.wire() + self.header_info@ + self.apploader.wire()
    }

    /// What a sink that held `base` holds after the disc was written to it:
    /// the front at offset 0, over that the directory table at the offset
    /// that the header gives, over that the payload of each file at the
    /// offset of its entry, in the order of the table.
    pub open spec fn image_over(&self, base: Seq<u8>) -> Seq<u8> {
        FileSystemTable::files_over(
            self.file_system_table.fst_entries@,
            crate::sink::overlay(
                crate::sink::overlay(base, 0, self.front()),
                self.header.fst_offset as int,
                self.file_system_table.wire(),
            ),
            self.file_system_table.fst_entries@.len() as int,
        )
    }

    /// Whether a sink that takes seeks and writes up to `limit` takes every
    /// part of the disc at its place.
    pub open spec fn fits_sink(&self, limit: nat) -> bool {
        &&& self.front().len() <= limit
        &&& self.header.fst_offset + self.file_system_table.wire().len() <= limit
        &&& FileSystemTable::files_within(self.file_system_table.fst_entries@, limit)
    }

    /// Writes the front of the image at offset 0 and the directory table at
    /// the offset that the header gives.
    fn write_front<W: Sink>(&self, writer: &mut W) -> (r: Result<(), (Operation, W::Failure)>)
        ensures
            final(writer).limit() == old(writer).limit(),
            r is Ok ==> final(writer).contents() == crate::sink::overlay(
                crate::sink::overlay(old(writer).contents(), 0, self.front()),
                self.header.fst_offset as int,
                self.file_system_table.wire(),
            ),
            old(writer).limit() is Some && self.front().len() <= old(writer).limit()->Some_0
                && self.header.fst_offset + self.file_system_table.wire().len() <= old(
                writer
            ).limit()->Some_0 ==> r is Ok,
    {
        let ghost base = writer.contents();
        match writer.seek(0) {
            Ok(()) => {},
            Err(cause) => {
                return Err((Operation::Seek, cause));
            },
        }
        match self.header.write(writer) {
            Ok(()) => {},
            Err(cause) => {
                return Err((Operation::Write, cause));
            },
        }
        match writer.write_all(self.header_info.as_slice()) {
            Ok(()) => {},
            Err(cause) => {
                return Err((Operation::Write, cause));
            },
        }
        proof {
            crate::sink::lemma_overlay_joined(base, 0, self.header.wire(), self.header_info@);
        }
        match self.apploader.write(writer) {
            Ok(()) => {},
            Err(cause) => {
                return Err((Operation::Write, cause));
            },
        }
        proof {
            crate::sink::lemma_overlay_joined(
                base,
                0,
                self.header.wire() + self.header_info@,
                self.apploader.wire(),
            );
        }
        match writer.seek(self.header.fst_offset as u64) {
            Ok(()) => {},
            Err(cause) => {
                return Err((Operation::Seek, cause));
            },
        }
        match self.file_system_table.write(writer) {
            Ok(()) => {},
            Err(cause) => {
                return Err((Operation::Write, cause));
            },
        }
        Ok(())
    }

    /// Writes the disc as an image of [`GC_DISC_LENGTH`] bytes. See
    /// [`GcDisc::write_with_capacity`].
    pub fn write<W: Sink>(&mut self, writer: &mut W) -> (r: Result<(), WriteError<W::Failure>>)
        ensures
            final(writer).limit() == old(writer).limit(),
            match old(self).layout_error(GC_DISC_LENGTH as u32) {
                Some(e) => r == Err::<(), WriteError<W::Failure>>(WriteError::Layout(e)) && old(self).unchanged_as(final(self)) && *final(writer) == *old(writer),
                None => old(self).replanned_as(final(self), GC_DISC_LENGTH as u32) && (r is Ok
                    ==> final(writer).contents() == final(self).image_over(old(writer).contents()))
                    && (r is Err ==> r->Err_0 is Io) && (old(writer).limit() is Some && final(
                    self
                ).fits_sink(old(writer).limit()->Some_0) ==> r is Ok),
            },
    {
        self.write_with_capacity(writer, GC_DISC_LENGTH as u32)
    }

    /// Places the files anew in an image of `capacity` bytes, then writes the
    /// image: the header, the header block and the apploader at offset 0, the
    /// directory table at the offset that the header gives, and the payload
    /// of each file at its new offset. Where the files cannot be placed,
    /// nothing is written and the disc is left as it was. A failure of the
    /// sink ends the write; what the sink holds from then on is unknown.
    pub fn write_with_capacity<W: Sink>(&mut self, writer: &mut W, capacity: u32) -> (r: Result<
        (),
        WriteError<W::Failure>,
    >)
        ensures
            final(writer).limit() == old(writer).limit(),
            match old(self).layout_error(capacity) {
                Some(e) => r == Err::<(), WriteError<W::Failure>>(WriteError::Layout(e)) && old(self).unchanged_as(final(self)) && *final(writer) == *old(writer),
                None => old(self).replanned_as(final(self), capacity) && (r is Ok ==> final(
                    writer
                ).contents() == final(self).image_over(old(writer).contents())) && (r is Err
                    ==> r->Err_0 is Io) && (old(writer).limit() is Some && final(self).fits_sink(
                    old(writer).limit()->Some_0,
                ) ==> r is Ok),
            },
    {
        match self.replan(capacity) {
            Ok(()) => {},
            Err(e) => {
                return Err(WriteError::Layout(e));
            },
        }
        match self.write_front(writer) {
            Ok(()) => {},
            Err((operation, cause)) => {
                return Err(WriteError::Io { operation, cause });
            },
        }
        match self.file_system_table.write_files(writer) {
            Ok(()) => Ok(()),
            Err((operation, cause)) => Err(WriteError::Io { operation, cause }),
        }
    }
}

} // verus!
