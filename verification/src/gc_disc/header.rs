//! The fixed block of metadata at the start of a disc.

use vstd::prelude::*;
use crate::endian::{push_bytes, push_u32};
use crate::gc_disc::error::FormatError;
use crate::reader::Reader;
use crate::sink::Sink;

verus! {

/// The number of bytes that the header takes.
pub const HEADER_LENGTH: usize = 0x440;

/// The value that marks a disc, at offset 0x1c of the header.
pub const HEADER_MAGIC: u32 = 0xc233_9f3d;

/// The number of bytes of the header up to the end of the magic value.
pub const HEADER_LEAD_LENGTH: usize = 0x20;

/// The header of a disc. The magic value is not kept: it is checked when a
/// header is read and supplied when one is written.
#[derive(Clone, Copy, Debug)]
pub struct GcDiscHeader {
    pub console_id: u8,
    pub game_code: [u8; 2],
    pub country_code: u8,
    pub maker_code: [u8; 2],
    pub disc_id: u8,
    pub version: u8,
    pub audio_streaming: u8,
    pub stream_buffer_size: u8,
    pub unused0: [u8; 18],
    pub game_name: [u8; 992],
    pub debug_mon_offset: u32,
    pub debug_mon_load_addr: u32,
    pub unused1: [u8; 24],
    /// Where the boot file starts.
    pub main_dol_offset: u32,
    /// Where the directory table starts.
    pub fst_offset: u32,
    /// The bytes that the directory table takes, entries and names together.
    pub fst_length: u32,
    /// The bytes set aside for the directory table.
    pub fst_max_length: u32,
    pub user_position: u32,
    pub user_length: u32,
    pub unused2: u32,
    pub unused3: u32,
}

impl GcDiscHeader {
    /// The bytes of the header on disc.
    pub open spec fn wire(&self) -> Seq<u8> {
        seq![self.console_id] + self.game_code@ + seq![self.country_code] + self.maker_code@
            + seq![self.disc_id, self.version, self.audio_streaming, self.stream_buffer_size]
            + self.unused0@ + crate::endian::u32_be(HEADER_MAGIC) + self.game_name@
            + crate::endian::u32_be(self.debug_mon_offset) + crate::endian::u32_be(
            self.debug_mon_load_addr,
        ) + self.unused1@ + crate::endian::u32_be(self.main_dol_offset) + crate::endian::u32_be(
            self.fst_offset,
        ) + crate::endian::u32_be(self.fst_length) + crate::endian::u32_be(self.fst_max_length)
            + crate::endian::u32_be(self.user_position) + crate::endian::u32_be(self.user_length)
            + crate::endian::u32_be(self.unused2) + crate::endian::u32_be(self.unused3)
    }

    /// Whether the header holds, field by field, what `bytes` start with.
    pub open spec fn decodes(&self, bytes: Seq<u8>) -> bool {
        &&& bytes.len() >= HEADER_LENGTH
        &&& self.console_id == bytes[0]
        &&& self.game_code@ == bytes.subrange(1, 3)
        &&& self.country_code == bytes[3]
        &&& self.maker_code@ == bytes.subrange(4, 6)
        &&& self.disc_id == bytes[6]
        &&& self.version == bytes[7]
        &&& self.audio_streaming == bytes[8]
        &&& self.stream_buffer_size == bytes[9]
        &&& self.unused0@ == bytes.subrange(0xa, 0x1c)
        &&& HEADER_MAGIC == magic_of(bytes)
        &&& self.game_name@ == bytes.subrange(0x20, 0x400)
        &&& self.debug_mon_offset == crate::endian::be_u32(bytes.subrange(0x400, 0x404))
        &&& self.debug_mon_load_addr == crate::endian::be_u32(bytes.subrange(0x404, 0x408))
        &&& self.unused1@ == bytes.subrange(0x408, 0x420)
        &&& self.main_dol_offset == crate::endian::be_u32(bytes.subrange(0x420, 0x424))
        &&& self.fst_offset == crate::endian::be_u32(bytes.subrange(0x424, 0x428))
        &&& self.fst_length == crate::endian::be_u32(bytes.subrange(0x428, 0x42c))
        &&& self.fst_max_length == crate::endian::be_u32(bytes.subrange(0x42c, 0x430))
        &&& self.user_position == crate::endian::be_u32(bytes.subrange(0x430, 0x434))
        &&& self.user_length == crate::endian::be_u32(bytes.subrange(0x434, 0x438))
        &&& self.unused2 == crate::endian::be_u32(bytes.subrange(0x438, 0x43c))
        &&& self.unused3 == crate::endian::be_u32(bytes.subrange(0x43c, 0x440))
    }

    /// A header that was read from bytes writes those bytes again.
    #[verifier::rlimit(50)]
    pub proof fn lemma_wire_of_decoded(&self, bytes: Seq<u8>)
        requires
            self.decodes(bytes),
        ensures
            self.wire() == bytes.take(HEADER_LENGTH as int),
    {
        crate::endian::lemma_bytes_of_be_u32(bytes.subrange(0x1c, 0x20));
        crate::endian::lemma_bytes_of_be_u32(bytes.subrange(0x400, 0x404));
        crate::endian::lemma_bytes_of_be_u32(bytes.subrange(0x404, 0x408));
        crate::endian::lemma_bytes_of_be_u32(bytes.subrange(0x420, 0x424));
        crate::endian::lemma_bytes_of_be_u32(bytes.subrange(0x424, 0x428));
        crate::endian::lemma_bytes_of_be_u32(bytes.subrange(0x428, 0x42c));
        crate::endian::lemma_bytes_of_be_u32(bytes.subrange(0x42c, 0x430));
        crate::endian::lemma_bytes_of_be_u32(bytes.subrange(0x430, 0x434));
        crate::endian::lemma_bytes_of_be_u32(bytes.subrange(0x434, 0x438));
        crate::endian::lemma_bytes_of_be_u32(bytes.subrange(0x438, 0x43c));
        crate::endian::lemma_bytes_of_be_u32(bytes.subrange(0x43c, 0x440));
        assert(seq![self.console_id] =~= bytes.subrange(0, 1));
        assert(seq![self.country_code] =~= bytes.subrange(3, 4));
        assert(seq![self.disc_id, self.version, self.audio_streaming, self.stream_buffer_size]
            =~= bytes.subrange(6, 0xa));
        crate::endian::lemma_subrange_joined(bytes, 0, 0x1, 0x3);
        crate::endian::lemma_subrange_joined(bytes, 0, 0x3, 0x4);
        crate::endian::lemma_subrange_joined(bytes, 0, 0x4, 0x6);
        crate::endian::lemma_subrange_joined(bytes, 0, 0x6, 0xa);
        crate::endian::lemma_subrange_joined(bytes, 0, 0xa, 0x1c);
        crate::endian::lemma_subrange_joined(bytes, 0, 0x1c, 0x20);
        crate::endian::lemma_subrange_joined(bytes, 0, 0x20, 0x400);
        crate::endian::lemma_subrange_joined(bytes, 0, 0x400, 0x404);
        crate::endian::lemma_subrange_joined(bytes, 0, 0x404, 0x408);
        crate::endian::lemma_subrange_joined(bytes, 0, 0x408, 0x420);
        crate::endian::lemma_subrange_joined(bytes, 0, 0x420, 0x424);
        crate::endian::lemma_subrange_joined(bytes, 0, 0x424, 0x428);
        crate::endian::lemma_subrange_joined(bytes, 0, 0x428, 0x42c);
        crate::endian::lemma_subrange_joined(bytes, 0, 0x42c, 0x430);
        crate::endian::lemma_subrange_joined(bytes, 0, 0x430, 0x434);
        crate::endian::lemma_subrange_joined(bytes, 0, 0x434, 0x438);
        crate::endian::lemma_subrange_joined(bytes, 0, 0x438, 0x43c);
        crate::endian::lemma_subrange_joined(bytes, 0, 0x43c, 0x440);
        assert(bytes.subrange(0, 0x440) =~= bytes.take(HEADER_LENGTH as int));
    }

    /// The header as the bytes that go to disc.
    pub fn to_bytes(&self) -> (bytes: Vec<u8>)
        ensures
            bytes@ == self.wire(),
    {
        let mut out: Vec<u8> = Vec::new();
        out.push(self.console_id);
        push_bytes(&mut out, self.game_code.as_slice());
        out.push(self.country_code);
        push_bytes(&mut out, self.maker_code.as_slice());
        assert(out@ =~= seq![self.console_id] + self.game_code@ + seq![self.country_code]
            + self.maker_code@);
        out.push(self.disc_id);
        out.push(self.version);
        out.push(self.audio_streaming);
        out.push(self.stream_buffer_size);
        assert(out@ =~= seq![self.console_id] + self.game_code@ + seq![self.country_code]
            + self.maker_code@ + seq![
            self.disc_id,
            self.version,
            self.audio_streaming,
            self.stream_buffer_size,
        ]);
        push_bytes(&mut out, self.unused0.as_slice());
        push_u32(&mut out, HEADER_MAGIC);
        push_bytes(&mut out, self.game_name.as_slice());
        push_u32(&mut out, self.debug_mon_offset);
        push_u32(&mut out, self.debug_mon_load_addr);
        push_bytes(&mut out, self.unused1.as_slice());
        push_u32(&mut out, self.main_dol_offset);
        push_u32(&mut out, self.fst_offset);
        push_u32(&mut out, self.fst_length);
        push_u32(&mut out, self.fst_max_length);
        push_u32(&mut out, self.user_position);
        push_u32(&mut out, self.user_length);
        push_u32(&mut out, self.unused2);
        push_u32(&mut out, self.unused3);
        out
    }

    /// Why no header can be read from `reader`, if none can: the bytes do
    /// not reach to the end of the magic value, or the value there is not
    /// that of a disc, or the bytes do not reach to the end of the header.
    pub open spec fn read_error<'a>(reader: Reader<'a>) -> Option<FormatError> {
        if reader@.len() < HEADER_LEAD_LENGTH {
            Some(FormatError::OutOfBounds(reader.shortfall(HEADER_LEAD_LENGTH)))
        } else if magic_of(reader@) != HEADER_MAGIC {
            Some(FormatError::MagicMismatch { expected: HEADER_MAGIC, found: magic_of(reader@) })
        } else if reader@.len() < HEADER_LENGTH {
            Some(FormatError::OutOfBounds(reader.shortfall(HEADER_LENGTH)))
        } else {
            None
        }
    }

    /// Reads a header and moves past it. The magic value is looked at as
    /// soon as it is read, before the rest of the header. On an error the
    /// view stays where it was.
    pub fn read<'a>(reader: &mut Reader<'a>) -> (r: Result<GcDiscHeader, FormatError>)
        ensures
            match Self::read_error(*old(reader)) {
                Some(e) => r == Err::<GcDiscHeader, FormatError>(e) && *final(reader) == *old(
                    reader
                ),
                None => r is Ok && r->Ok_0.decodes(old(reader)@) && final(reader).follows(
                    *old(reader),
                    HEADER_LENGTH as int,
                ),
            },
    {
        let mut cursor: Reader<'a> = match reader.truncated(HEADER_LEAD_LENGTH) {
            Ok(lead) => lead,
            Err(e) => {
                return Err(FormatError::OutOfBounds(e));
            },
        };
        let ghost bytes = old(reader)@;
        let console_id: u8 = cursor.read_u8().unwrap();
        let game_code: [u8; 2] = cursor.read_array::<2>().unwrap();
        let country_code: u8 = cursor.read_u8().unwrap();
        let maker_code: [u8; 2] = cursor.read_array::<2>().unwrap();
        let disc_id: u8 = cursor.read_u8().unwrap();
        let version: u8 = cursor.read_u8().unwrap();
        let audio_streaming: u8 = cursor.read_u8().unwrap();
        let stream_buffer_size: u8 = cursor.read_u8().unwrap();
        let unused0: [u8; 18] = cursor.read_array::<18>().unwrap();
        let magic: u32 = cursor.read_u32().unwrap();
        if magic != HEADER_MAGIC {
            return Err(FormatError::MagicMismatch { expected: HEADER_MAGIC, found: magic });
        }
        let mut cursor: Reader<'a> = match reader.truncated(HEADER_LENGTH) {
            Ok(whole) => whole.offset(HEADER_LEAD_LENGTH).unwrap(),
            Err(e) => {
                return Err(FormatError::OutOfBounds(e));
            },
        };
        let game_name: [u8; 992] = cursor.read_array::<992>().unwrap();
        let debug_mon_offset: u32 = cursor.read_u32().unwrap();
        let debug_mon_load_addr: u32 = cursor.read_u32().unwrap();
        let unused1: [u8; 24] = cursor.read_array::<24>().unwrap();
        let main_dol_offset: u32 = cursor.read_u32().unwrap();
        let fst_offset: u32 = cursor.read_u32().unwrap();
        let fst_length: u32 = cursor.read_u32().unwrap();
        let fst_max_length: u32 = cursor.read_u32().unwrap();
        let user_position: u32 = cursor.read_u32().unwrap();
        let user_length: u32 = cursor.read_u32().unwrap();
        let unused2: u32 = cursor.read_u32().unwrap();
        let unused3: u32 = cursor.read_u32().unwrap();
        let header = GcDiscHeader {
            console_id,
            game_code,
            country_code,
            maker_code,
            disc_id,
            version,
            audio_streaming,
            stream_buffer_size,
            unused0,
            game_name,
            debug_mon_offset,
            debug_mon_load_addr,
            unused1,
            main_dol_offset,
            fst_offset,
            fst_length,
            fst_max_length,
            user_position,
            user_length,
            unused2,
            unused3,
        };
        proof {
            assert(header.game_code@ =~= bytes.subrange(1, 3));
            assert(header.maker_code@ =~= bytes.subrange(4, 6));
            assert(header.unused0@ =~= bytes.subrange(0xa, 0x1c));
            assert(header.game_name@ =~= bytes.subrange(0x20, 0x400));
            assert(header.unused1@ =~= bytes.subrange(0x408, 0x420));
            assert(header.decodes(bytes));
        }
        match reader.offset(HEADER_LENGTH) {
            Ok(rest) => {
                *reader = rest;
                Ok(header)
            },
            Err(e) => Err(FormatError::OutOfBounds(e)),
        }
    }

    /// Writes the header at the sink's cursor.
    pub fn write<W: Sink>(&self, writer: &mut W) -> (r: Result<(), W::Failure>)
        ensures
            final(writer).limit() == old(writer).limit(),
            r is Ok ==> crate::sink::wrote(old(writer), final(writer), self.wire()),
            crate::sink::takes(old(writer), self.wire().len()) ==> r is Ok,
    {
        let bytes = self.to_bytes();
        writer.write_all(bytes.as_slice())
    }
}

/// The value in the place of the magic number.
pub open spec fn magic_of(bytes: Seq<u8>) -> u32 {
    crate::endian::be_u32(bytes.subrange(0x1c, 0x20))
}

} // verus!
