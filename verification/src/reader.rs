//! A borrowed view of a range of bytes, read without copying.

use vstd::prelude::*;
use vstd::slice::slice_subrange;
use crate::endian::{decode_u16, decode_u32};

verus! {

/// A request for bytes that the view does not hold.
#[derive(Clone, Copy, Debug, PartialEq, Eq, Structural)]
pub struct BoundsError {
    /// Where the request starts, counted from the start of the source buffer.
    pub offset: u64,
    /// How many bytes were asked for.
    pub requested: u64,
    /// How many bytes the view holds from `offset` on.
    pub available: u64,
}

/// A range of a source buffer. Copies of a view share the buffer and move
/// independently of each other.
#[derive(Clone, Copy, Debug)]
pub struct Reader<'a> {
    source: &'a [u8],
    start: usize,
    end: usize,
}

impl<'a> View for Reader<'a> {
    type V = Seq<u8>;

    /// The bytes that the view still holds.
    closed spec fn view(&self) -> Seq<u8> {
        self.source@.subrange(self.start as int, self.end as int)
    }
}

impl<'a> Reader<'a> {
    #[verifier::type_invariant]
    spec fn in_source(self) -> bool {
        self.start <= self.end <= self.source@.len()
    }

    /// The buffer that the view is a range of.
    pub closed spec fn source(&self) -> Seq<u8> {
        self.source@
    }

    /// How far the view's first byte lies from the start of the source buffer.
    pub closed spec fn position(&self) -> nat {
        self.start as nat
    }

    /// Whether the view's bytes are those of its source from its position on.
    /// This holds of every view that the functions of this type hand out.
    pub open spec fn anchored(&self) -> bool {
        &&& self.position() + self@.len() <= self.source().len()
        &&& self@ == self.source().subrange(
            self.position() as int,
            (self.position() + self@.len()) as int,
        )
    }

    /// The error for a request of `count` bytes that the view cannot meet.
    pub open spec fn shortfall(&self, count: usize) -> BoundsError {
        BoundsError {
            offset: self.position() as u64,
            requested: count as u64,
            available: self@.len() as u64,
        }
    }

    /// Whether this view is `before` without its first `count` bytes.
    pub open spec fn follows(&self, before: Reader<'a>, count: int) -> bool {
        &&& self@ == before@.skip(count)
        &&& self.source() == before.source()
        &&& self.position() == before.position() + count
        &&& self.anchored()
    }

    /// Whether this view is the first `count` bytes of `whole`.
    pub open spec fn heads(&self, whole: Reader<'a>, count: int) -> bool {
        &&& self@ == whole@.take(count)
        &&& self.source() == whole.source()
        &&& self.position() == whole.position()
        &&& self.anchored()
    }

    /// Whether this view is the `count` bytes of `whole` that start `from`
    /// bytes into it.
    pub open spec fn ranges(&self, whole: Reader<'a>, from: int, count: int) -> bool {
        &&& 0 <= from
        &&& 0 <= count
        &&& from + count <= whole@.len()
        &&& self@ == whole@.subrange(from, from + count)
        &&& self.source() == whole.source()
        &&& self.position() == whole.position() + from
        &&& self.anchored()
    }

    /// The error for a request of `count` bytes, `from` bytes into the view,
    /// that the view cannot meet.
    pub open spec fn range_error(&self, from: usize, count: usize) -> BoundsError {
        if from > self@.len() {
            self.shortfall(from)
        } else {
            BoundsError {
                offset: (self.position() + from) as u64,
                requested: count as u64,
                available: (self@.len() - from) as u64,
            }
        }
    }

    /// A view of all of `source`.
    pub fn new(source: &'a [u8]) -> (reader: Reader<'a>)
        ensures
            reader@ == source@,
            reader.source() == source@,
            reader.position() == 0,
            reader.anchored(),
    {
        let reader = Reader { source, start: 0, end: source.len() };
        assert(reader@ =~= source@);
        reader
    }

    /// The number of bytes left in the view.
    pub fn len(&self) -> (n: usize)
        ensures
            n == self@.len(),
            self.anchored(),
    {
        proof {
            use_type_invariant(self);
        }
        self.end - self.start
    }

    /// How far the view's first byte lies from the start of the source buffer.
    pub fn start_offset(&self) -> (offset: u64)
        ensures
            offset == self.position(),
            self.anchored(),
    {
        proof {
            use_type_invariant(self);
        }
        self.start as u64
    }

    /// The view's bytes as a slice of the source buffer.
    pub fn as_slice(&self) -> (bytes: &'a [u8])
        ensures
            bytes@ == self@,
            self.anchored(),
    {
        proof {
            use_type_invariant(self);
        }
        slice_subrange(self.source, self.start, self.end)
    }

    /// The view without its first `count` bytes.
    pub fn offset(&self, count: usize) -> (r: Result<Reader<'a>, BoundsError>)
        ensures
            self.anchored(),
            count <= self@.len() ==> r is Ok && r->Ok_0.follows(*self, count as int),
            count > self@.len() ==> r == Err::<Reader<'a>, BoundsError>(self.shortfall(count)),
    {
        proof {
            use_type_invariant(self);
        }
        if count > self.end - self.start {
            return Err(
                BoundsError {
                    offset: self.start as u64,
                    requested: count as u64,
                    available: (self.end - self.start) as u64,
                },
            );
        }
        let rest = Reader { source: self.source, start: self.start + count, end: self.end };
        assert(rest@ =~= self@.skip(count as int));
        Ok(rest)
    }

    /// The first `count` bytes of the view.
    pub fn truncated(&self, count: usize) -> (r: Result<Reader<'a>, BoundsError>)
        ensures
            self.anchored(),
            count <= self@.len() ==> r is Ok && r->Ok_0.heads(*self, count as int),
            count > self@.len() ==> r == Err::<Reader<'a>, BoundsError>(self.shortfall(count)),
    {
        proof {
            use_type_invariant(self);
        }
        if count > self.end - self.start {
            return Err(
                BoundsError {
                    offset: self.start as u64,
                    requested: count as u64,
                    available: (self.end - self.start) as u64,
                },
            );
        }
        let head = Reader { source: self.source, start: self.start, end: self.start + count };
        assert(head@ =~= self@.take(count as int));
        Ok(head)
    }

    /// The `count` bytes of the view that start `from` bytes into it.
    pub fn range(&self, from: usize, count: usize) -> (r: Result<Reader<'a>, BoundsError>)
        ensures
            self.anchored(),
            from + count <= self@.len() ==> r is Ok && r->Ok_0.ranges(
                *self,
                from as int,
                count as int,
            ),
            from + count > self@.len() ==> r == Err::<Reader<'a>, BoundsError>(
                self.range_error(from, count),
            ),
    {
        let rest = self.offset(from)?;
        let part = rest.truncated(count)?;
        assert(part@ =~= self@.subrange(from as int, from + count));
        Ok(part)
    }

    /// Takes the first `count` bytes off the view, as a view of their own.
    /// A request for more than the view holds leaves it as it was.
    pub fn read_bytes(&mut self, count: usize) -> (r: Result<Reader<'a>, BoundsError>)
        ensures
            old(self).anchored(),
            count <= old(self)@.len() ==> r is Ok && r->Ok_0.heads(*old(self), count as int)
                && final(self).follows(*old(self), count as int),
            count > old(self)@.len() ==> r == Err::<Reader<'a>, BoundsError>(
                old(self).shortfall(count),
            ) && *final(self) == *old(self),
    {
        let head = self.truncated(count)?;
        let rest = self.offset(count)?;
        *self = rest;
        Ok(head)
    }

    /// Reads one byte and moves past it.
    pub fn read_u8(&mut self) -> (r: Result<u8, BoundsError>)
        ensures
            old(self).anchored(),
            1 <= old(self)@.len() ==> r == Ok::<u8, BoundsError>(old(self)@[0]) && final(
                self
            ).follows(*old(self), 1),
            1 > old(self)@.len() ==> r == Err::<u8, BoundsError>(old(self).shortfall(1))
                && *final(self) == *old(self),
    {
        let head = self.read_bytes(1)?;
        let bytes = head.as_slice();
        Ok(bytes[0])
    }

    /// Reads a big-endian 16-bit value and moves past it.
    pub fn read_u16(&mut self) -> (r: Result<u16, BoundsError>)
        ensures
            old(self).anchored(),
            2 <= old(self)@.len() ==> r == Ok::<u16, BoundsError>(
                crate::endian::be_u16(old(self)@.take(2)),
            ) && final(self).follows(*old(self), 2),
            2 > old(self)@.len() ==> r == Err::<u16, BoundsError>(old(self).shortfall(2))
                && *final(self) == *old(self),
    {
        let head = self.read_bytes(2)?;
        let bytes = head.as_slice();
        assert(seq![bytes[0], bytes[1]] =~= old(self)@.take(2));
        Ok(decode_u16(bytes[0], bytes[1]))
    }

    /// Reads a big-endian 32-bit value and moves past it.
    pub fn read_u32(&mut self) -> (r: Result<u32, BoundsError>)
        ensures
            old(self).anchored(),
            4 <= old(self)@.len() ==> r == Ok::<u32, BoundsError>(
                crate::endian::be_u32(old(self)@.take(4)),
            ) && final(self).follows(*old(self), 4),
            4 > old(self)@.len() ==> r == Err::<u32, BoundsError>(old(self).shortfall(4))
                && *final(self) == *old(self),
    {
        let head = self.read_bytes(4)?;
        let bytes = head.as_slice();
        assert(seq![bytes[0], bytes[1], bytes[2], bytes[3]] =~= old(self)@.take(4));
        Ok(decode_u32(bytes[0], bytes[1], bytes[2], bytes[3]))
    }

    /// Reads `N` bytes into an array and moves past them.
    pub fn read_array<const N: usize>(&mut self) -> (r: Result<[u8; N], BoundsError>)
        ensures
            old(self).anchored(),
            N <= old(self)@.len() ==> r is Ok && r->Ok_0@ == old(self)@.take(N as int) && final(
                self
            ).follows(*old(self), N as int),
            N > old(self)@.len() ==> r == Err::<[u8; N], BoundsError>(old(self).shortfall(N))
                && *final(self) == *old(self),
    {
        let head = self.read_bytes(N)?;
        let bytes = head.as_slice();
        let mut array = [0u8; N];
        let mut i: usize = 0;
        while i < N
            invariant
                i <= N,
                bytes@.len() == N,
                forall|j: int| 0 <= j < i ==> array@[j] == bytes@[j],
            decreases N - i,
        {
            array[i] = bytes[i];
            i += 1;
        }
        assert(array@ =~= bytes@);
        Ok(array)
    }
}

} // verus!
