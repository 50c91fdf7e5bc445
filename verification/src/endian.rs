//! Big-endian integers, as the disc format stores them.

use vstd::prelude::*;

verus! {

/// The 16-bit value that two bytes stand for, most significant byte first.
pub open spec fn be_u16(bytes: Seq<u8>) -> u16
    recommends
        bytes.len() == 2,
{
    (bytes[0] as int * 0x100 + bytes[1] as int) as u16
}

/// The 32-bit value that four bytes stand for, most significant byte first.
pub open spec fn be_u32(bytes: Seq<u8>) -> u32
    recommends
        bytes.len() == 4,
{
    (bytes[0] as int * 0x100_0000 + bytes[1] as int * 0x1_0000 + bytes[2] as int * 0x100
        + bytes[3] as int) as u32
}

/// The two bytes that store a 16-bit value, most significant byte first.
pub open spec fn u16_be(value: u16) -> Seq<u8> {
    seq![(value / 0x100) as u8, (value % 0x100) as u8]
}

/// The four bytes that store a 32-bit value, most significant byte first.
pub open spec fn u32_be(value: u32) -> Seq<u8> {
    seq![
        (value / 0x100_0000) as u8,
        (value / 0x1_0000 % 0x100) as u8,
        (value / 0x100 % 0x100) as u8,
        (value % 0x100) as u8,
    ]
}

/// Decoding undoes encoding.
pub proof fn lemma_be_u32_of_bytes(value: u32)
    ensures
        be_u32(u32_be(value)) == value,
{
    let b0: u32 = value / 0x100_0000;
    let b1: u32 = value / 0x1_0000 % 0x100;
    let b2: u32 = value / 0x100 % 0x100;
    let b3: u32 = value % 0x100;
    assert(b0 < 0x100 && b1 < 0x100 && b2 < 0x100 && b3 < 0x100 && b0 * 0x100_0000 + b1 * 0x1_0000
        + b2 * 0x100 + b3 == value) by (bit_vector)
        requires
            b0 == value / 0x100_0000,
            b1 == value / 0x1_0000 % 0x100,
            b2 == value / 0x100 % 0x100,
            b3 == value % 0x100,
    ;
}

/// Encoding undoes decoding.
pub proof fn lemma_bytes_of_be_u32(bytes: Seq<u8>)
    requires
        bytes.len() == 4,
    ensures
        u32_be(be_u32(bytes)) == bytes,
{
    let b0: u8 = bytes[0];
    let b1: u8 = bytes[1];
    let b2: u8 = bytes[2];
    let b3: u8 = bytes[3];
    let value: u32 = be_u32(bytes);
    assert(value == b0 as u32 * 0x100_0000 + b1 as u32 * 0x1_0000 + b2 as u32 * 0x100 + b3 as u32);
    assert(value / 0x100_0000 == b0 as u32 && value / 0x1_0000 % 0x100 == b1 as u32 && value
        / 0x100 % 0x100 == b2 as u32 && value % 0x100 == b3 as u32) by (bit_vector)
        requires
            value == b0 as u32 * 0x100_0000 + b1 as u32 * 0x1_0000 + b2 as u32 * 0x100 + b3 as u32,
    ;
    assert(u32_be(value) =~= bytes);
}

/// Decoding undoes encoding.
pub proof fn lemma_be_u16_of_bytes(value: u16)
    ensures
        be_u16(u16_be(value)) == value,
{
    let b0: u16 = value / 0x100;
    let b1: u16 = value % 0x100;
    assert(b0 < 0x100 && b1 < 0x100 && b0 * 0x100 + b1 == value) by (bit_vector)
        requires
            b0 == value / 0x100,
            b1 == value % 0x100,
    ;
}

/// Encoding undoes decoding.
pub proof fn lemma_bytes_of_be_u16(bytes: Seq<u8>)
    requires
        bytes.len() == 2,
    ensures
        u16_be(be_u16(bytes)) == bytes,
{
    let b0: u8 = bytes[0];
    let b1: u8 = bytes[1];
    let value: u16 = be_u16(bytes);
    assert(value == b0 as u16 * 0x100 + b1 as u16);
    assert(value / 0x100 == b0 as u16 && value % 0x100 == b1 as u16) by (bit_vector)
        requires
            value == b0 as u16 * 0x100 + b1 as u16,
    ;
    assert(u16_be(value) =~= bytes);
}

/// Two neighbouring ranges of a sequence join into the range that spans both.
pub proof fn lemma_subrange_joined(bytes: Seq<u8>, from: int, mid: int, to: int)
    requires
        0 <= from <= mid <= to <= bytes.len(),
    ensures
        bytes.subrange(from, mid) + bytes.subrange(mid, to) == bytes.subrange(from, to),
{
    assert(bytes.subrange(from, mid) + bytes.subrange(mid, to) =~= bytes.subrange(from, to));
}

/// Decodes two bytes.
pub fn decode_u16(high: u8, low: u8) -> (value: u16)
    ensures
        value == be_u16(seq![high, low]),
{
    (high as u16) * 0x100 + (low as u16)
}

/// Decodes four bytes.
pub fn decode_u32(b0: u8, b1: u8, b2: u8, b3: u8) -> (value: u32)
    ensures
        value == be_u32(seq![b0, b1, b2, b3]),
{
    (b0 as u32) * 0x100_0000 + (b1 as u32) * 0x1_0000 + (b2 as u32) * 0x100 + (b3 as u32)
}

/// Appends the two bytes of `value` to `out`.
pub fn push_u16(out: &mut Vec<u8>, value: u16)
    ensures
        final(out)@ == old(out)@ + u16_be(value),
{
    out.push((value / 0x100) as u8);
    out.push((value % 0x100) as u8);
}

/// Appends the four bytes of `value` to `out`.
pub fn push_u32(out: &mut Vec<u8>, value: u32)
    ensures
        final(out)@ == old(out)@ + u32_be(value),
{
    out.push((value / 0x100_0000) as u8);
    out.push((value / 0x1_0000 % 0x100) as u8);
    out.push((value / 0x100 % 0x100) as u8);
    out.push((value % 0x100) as u8);
}

/// Appends `bytes` to `out`.
pub fn push_bytes(out: &mut Vec<u8>, bytes: &[u8])
    ensures
        final(out)@ == old(out)@ + bytes@,
{
    let mut i: usize = 0;
    while i < bytes.len()
        invariant
            i <= bytes@.len(),
            out@ == old(out)@ + bytes@.take(i as int),
        decreases bytes@.len() - i,
    {
        out.push(bytes[i]);
        assert(bytes@.take(i as int).push(bytes@[i as int]) =~= bytes@.take(i + 1));
        i += 1;
    }
    assert(bytes@.take(i as int) =~= bytes@);
}

} // verus!
