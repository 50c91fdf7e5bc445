//! The boot code that follows the header block: a fixed prefix and a blob
//! whose length the prefix gives.

use vstd::prelude::*;
use crate::endian::{push_bytes, push_u32};
use crate::gc_disc::error::FormatError;
use crate::reader::{BoundsError, Reader};
use crate::sink::Sink;

verus! {

/// The number of bytes before the boot code: a date and three 32-bit fields.
pub const APPLOADER_PREFIX_LENGTH: usize = 28;

/// The boot code of a disc. It is carried through as it was read.
#[derive(Clone, Copy, Debug)]
pub struct GcDiscApploader<'a> {
    pub date: [u8; 16],
    pub entrypoint: u32,
    /// The length of the code proper.
    pub size: u32,
    /// The length of what trails the code.
    pub trailer_size: u32,
    /// The code and its trailer.
    pub code: Reader<'a>,
}

/// The length of code and trailer that the prefix in `bytes` declares.
pub open spec fn code_length_of(bytes: Seq<u8>) -> nat {
    (crate::endian::be_u32(bytes.subrange(20, 24)) + crate::endian::be_u32(
        bytes.subrange(24, 28),
    )) as nat
}

impl<'a> GcDiscApploader<'a> {
    /// The bytes of the apploader on disc.
    pub open spec fn wire(&self) -> Seq<u8> {
        self.date@ + crate::endian::u32_be(self.entrypoint) + crate::endian::u32_be(self.size)
            + crate::endian::u32_be(self.trailer_size) + self.code@
    }

    /// Whether the apploader holds, field by field, what `bytes` start with.
    pub open spec fn decodes(&self, bytes: Seq<u8>) -> bool {
        &&& bytes.len() >= APPLOADER_PREFIX_LENGTH + code_length_of(bytes)
        &&& self.date@ == bytes.subrange(0, 16)
        &&& self.entrypoint == crate::endian::be_u32(bytes.subrange(16, 20))
        &&& self.size == crate::endian::be_u32(bytes.subrange(20, 24))
        &&& self.trailer_size == crate::endian::be_u32(bytes.subrange(24, 28))
        &&& self.code@ == bytes.subrange(
            APPLOADER_PREFIX_LENGTH as int,
            APPLOADER_PREFIX_LENGTH + code_length_of(bytes),
        )
    }

    /// An apploader that was read from bytes writes those bytes again.
    pub proof fn lemma_wire_of_decoded(&self, bytes: Seq<u8>)
        requires
            self.decodes(bytes),
        ensures
            self.wire() == bytes.take(APPLOADER_PREFIX_LENGTH + code_length_of(bytes)),
    {
        crate::endian::lemma_bytes_of_be_u32(bytes.subrange(16, 20));
        crate::endian::lemma_bytes_of_be_u32(bytes.subrange(20, 24));
        crate::endian::lemma_bytes_of_be_u32(bytes.subrange(24, 28));
        assert(self.wire() =~= bytes.take(APPLOADER_PREFIX_LENGTH + code_length_of(bytes)));
    }

    /// Reads an apploader and moves past it: the prefix, then as many bytes
    /// as its two size fields add up to. Where the view holds too few bytes
    /// for either, it stays where it was.
    pub fn read(reader: &mut Reader<'a>) -> (r: Result<GcDiscApploader<'a>, FormatError>)
        ensures
            old(reader)@.len() < APPLOADER_PREFIX_LENGTH ==> r == Err::<
                GcDiscApploader<'a>,
                FormatError,
            >(FormatError::OutOfBounds(old(reader).shortfall(APPLOADER_PREFIX_LENGTH))),
            old(reader)@.len() >= APPLOADER_PREFIX_LENGTH && old(reader)@.len()
                < APPLOADER_PREFIX_LENGTH + code_length_of(old(reader)@) ==> r == Err::<
                GcDiscApploader<'a>,
                FormatError,
            >(
                FormatError::OutOfBounds(
                    BoundsError {
                        offset: (old(reader).position() + APPLOADER_PREFIX_LENGTH) as u64,
                        requested: code_length_of(old(reader)@) as u64,
                        available: (old(reader)@.len() - APPLOADER_PREFIX_LENGTH) as u64,
                    },
                ),
            ),
            old(reader)@.len() >= APPLOADER_PREFIX_LENGTH + code_length_of(old(reader)@) ==> r is Ok
                && r->Ok_0.decodes(old(reader)@) && r->Ok_0.code.ranges(
                *old(reader),
                APPLOADER_PREFIX_LENGTH as int,
                code_length_of(old(reader)@) as int,
            ) && final(reader).follows(
                *old(reader),
                APPLOADER_PREFIX_LENGTH + code_length_of(old(reader)@),
            ),
            r is Err ==> *final(reader) == *old(reader),
    {
        let ghost bytes = old(reader)@;
        let mut cursor: Reader<'a> = *reader;
        let mut prefix: Reader<'a> = match cursor.read_bytes(APPLOADER_PREFIX_LENGTH) {
            Ok(prefix) => prefix,
            Err(e) => {
                return Err(FormatError::OutOfBounds(e));
            },
        };
        let date: [u8; 16] = prefix.read_array::<16>().unwrap();
        let entrypoint: u32 = prefix.read_u32().unwrap();
        let size: u32 = prefix.read_u32().unwrap();
        let trailer_size: u32 = prefix.read_u32().unwrap();
        let code_length: u64 = size as u64 + trailer_size as u64;
        let available: usize = cursor.len();
        if code_length > available as u64 {
            return Err(
                FormatError::OutOfBounds(
                    BoundsError {
                        offset: cursor.start_offset(),
                        requested: code_length,
                        available: available as u64,
                    },
                ),
            );
        }
        let code: Reader<'a> = cursor.read_bytes(code_length as usize).unwrap();
        let apploader = GcDiscApploader { date, entrypoint, size, trailer_size, code };
        proof {
            assert(apploader.date@ =~= bytes.subrange(0, 16));
            assert(apploader.code@ =~= bytes.subrange(
                APPLOADER_PREFIX_LENGTH as int,
                APPLOADER_PREFIX_LENGTH + code_length_of(bytes),
            ));
        }
        assert(cursor@ =~= bytes.skip(APPLOADER_PREFIX_LENGTH + code_length_of(bytes)));
        *reader = cursor;
        Ok(apploader)
    }

    /// Appends the bytes of the apploader to `out`.
    pub fn push_wire(&self, out: &mut Vec<u8>)
        ensures
            final(out)@ == old(out)@ + self.wire(),
    {
        let prefix = self.prefix_bytes();
        push_bytes(out, prefix.as_slice());
        push_bytes(out, self.code.as_slice());
        assert(out@ =~= old(out)@ + (prefix@ + self.code@));
    }

    /// The prefix as the bytes that go to disc.
    fn prefix_bytes(&self) -> (bytes: Vec<u8>)
        ensures
            bytes@ + self.code@ == self.wire(),
            bytes@.len() == APPLOADER_PREFIX_LENGTH,
    {
        let mut out: Vec<u8> = Vec::new();
        push_bytes(&mut out, self.date.as_slice());
        push_u32(&mut out, self.entrypoint);
        push_u32(&mut out, self.size);
        push_u32(&mut out, self.trailer_size);
        assert(out@ + self.code@ =~= self.wire());
        out
    }

    /// Writes the apploader at the sink's cursor: the prefix, then the code
    /// as it was read.
    pub fn write<W: Sink>(&self, writer: &mut W) -> (r: Result<(), W::Failure>)
        ensures
            final(writer).limit() == old(writer).limit(),
            r is Ok ==> crate::sink::wrote(old(writer), final(writer), self.wire()),
            crate::sink::takes(old(writer), self.wire().len()) ==> r is Ok,
    {
        let prefix = self.prefix_bytes();
        match writer.write_all(prefix.as_slice()) {
            Ok(()) => {},
            Err(failure) => {
                return Err(failure);
            },
        }
        proof {
            crate::sink::lemma_overlay_joined(
                old(writer).contents(),
                old(writer).position() as int,
                prefix@,
                self.code@,
            );
        }
        writer.write_all(self.code.as_slice())
    }
}

} // verus!
