//! Where an image is written: a byte space with a cursor that can be moved.

use vstd::prelude::*;

verus! {

/// What a sink holds after `bytes` were written at offset `at` over `base`.
/// A write past the end fills the gap with zeros; an empty write changes nothing.
pub open spec fn overlay(base: Seq<u8>, at: int, bytes: Seq<u8>) -> Seq<u8> {
    if bytes.len() == 0 {
        base
    } else {
        Seq::new(
            if base.len() >= at + bytes.len() {
                base.len()
            } else {
                (at + bytes.len()) as nat
            },
            |i: int|
                if at <= i < at + bytes.len() {
                    bytes[i - at]
                } else if i < base.len() {
                    base[i]
                } else {
                    0u8
                },
        )
    }
}

/// Writing two runs of bytes one after the other is writing them joined.
pub proof fn lemma_overlay_joined(base: Seq<u8>, at: int, first: Seq<u8>, second: Seq<u8>)
    requires
        0 <= at,
    ensures
        overlay(overlay(base, at, first), at + first.len(), second) == overlay(
            base,
            at,
            first + second,
        ),
{
    assert(overlay(overlay(base, at, first), at + first.len(), second) =~= overlay(
        base,
        at,
        first + second,
    ));
}

/// Whether `after` is `before` with `bytes` written at its cursor.
pub open spec fn wrote<W: Sink>(before: &W, after: &W, bytes: Seq<u8>) -> bool {
    &&& after.contents() == overlay(before.contents(), before.position() as int, bytes)
    &&& after.position() == before.position() + bytes.len()
}

/// Whether `sink` promises to take a write of `count` bytes at its cursor.
pub open spec fn takes<W: Sink>(sink: &W, count: nat) -> bool {
    sink.limit() is Some && sink.position() + count <= sink.limit()->Some_0
}

/// A seekable, writable byte sink. After a failed seek or write nothing is
/// known of what the sink holds.
pub trait Sink: Sized {
    /// The error of a failed seek or write.
    type Failure;

    /// The bytes that the sink holds.
    spec fn contents(&self) -> Seq<u8>;

    /// The offset at which the next write lands.
    spec fn position(&self) -> nat;

    /// The offset up to which the sink promises to take seeks and writes, if
    /// it promises anything.
    spec fn limit(&self) -> Option<nat>;

    /// Moves the cursor to `position`, counted from the start of the sink.
    fn seek(&mut self, position: u64) -> (r: Result<(), Self::Failure>)
        ensures
            final(self).limit() == old(self).limit(),
            r is Ok ==> final(self).contents() == old(self).contents() && final(self).position()
                == position,
            old(self).limit() is Some && position <= old(self).limit()->Some_0 ==> r is Ok,
    ;

    /// Writes all of `bytes` at the cursor and moves the cursor past them.
    fn write_all(&mut self, bytes: &[u8]) -> (r: Result<(), Self::Failure>)
        ensures
            final(self).limit() == old(self).limit(),
            r is Ok ==> final(self).contents() == overlay(
                old(self).contents(),
                old(self).position() as int,
                bytes@,
            ) && final(self).position() == old(self).position() + bytes@.len(),
            old(self).limit() is Some && old(self).position() + bytes@.len() <= old(
                self
            ).limit()->Some_0 ==> r is Ok,
    ;
}

/// A seek or write that would pass the limit of a [`MemorySink`].
#[derive(Clone, Copy, Debug, PartialEq, Eq, Structural)]
pub struct SinkFull {
    /// Where the refused operation would have ended.
    pub end: u64,
    /// The sink's limit.
    pub limit: usize,
}

/// A sink in memory that grows as it is written, up to a fixed limit.
#[derive(Debug)]
pub struct MemorySink {
    data: Vec<u8>,
    cursor: usize,
    limit: usize,
}

impl MemorySink {
    /// An empty sink that takes up to `limit` bytes.
    pub fn new(limit: usize) -> (sink: MemorySink)
        ensures
            sink.contents() == Seq::<u8>::empty(),
            sink.position() == 0,
            sink.limit() == Some(limit as nat),
    {
        MemorySink { data: Vec::new(), cursor: 0, limit }
    }

    /// A sink that already holds `data` and takes up to `limit` bytes, or up
    /// to the length of `data` if that is more. The cursor is at the start.
    pub fn with_contents(data: Vec<u8>, limit: usize) -> (sink: MemorySink)
        ensures
            sink.contents() == data@,
            sink.position() == 0,
            sink.limit() == Some(
                if limit >= data@.len() {
                    limit as nat
                } else {
                    data@.len()
                },
            ),
    {
        let limit: usize = if limit >= data.len() {
            limit
        } else {
            data.len()
        };
        MemorySink { data, cursor: 0, limit }
    }

    /// The bytes written so far.
    pub fn as_slice(&self) -> (bytes: &[u8])
        ensures
            bytes@ == self.contents(),
    {
        self.data.as_slice()
    }

    /// Gives up the sink for the bytes it holds.
    pub fn into_bytes(self) -> (bytes: Vec<u8>)
        ensures
            bytes@ == self.contents(),
    {
        self.data
    }
}

impl Sink for MemorySink {
    type Failure = SinkFull;

    closed spec fn contents(&self) -> Seq<u8> {
        self.data@
    }

    closed spec fn position(&self) -> nat {
        self.cursor as nat
    }

    closed spec fn limit(&self) -> Option<nat> {
        Some(self.limit as nat)
    }

    /// Moves the cursor, unless `position` lies beyond the limit; then the
    /// sink stays as it was.
    fn seek(&mut self, position: u64) -> (r: Result<(), SinkFull>)
        ensures
            position > old(self).limit()->Some_0 ==> r == Err::<(), SinkFull>(
                SinkFull { end: position, limit: old(self).limit()->Some_0 as usize },
            ) && *final(self) == *old(self),
    {
        if position > self.limit as u64 {
            return Err(SinkFull { end: position, limit: self.limit });
        }
        self.cursor = position as usize;
        Ok(())
    }

    /// Writes `bytes`, unless they would end beyond the limit; then the sink
    /// stays as it was.
    fn write_all(&mut self, bytes: &[u8]) -> (r: Result<(), SinkFull>)
        ensures
            old(self).position() + bytes@.len() > old(self).limit()->Some_0 ==> r is Err
                && r->Err_0.limit == old(self).limit()->Some_0 && r->Err_0.end == (if old(
                self
            ).position() + bytes@.len() <= u64::MAX {
                (old(self).position() + bytes@.len()) as u64
            } else {
                u64::MAX
            }) && *final(self) == *old(self),
    {
        let count: usize = bytes.len();
        if self.cursor > self.limit || count > self.limit - self.cursor {
            return Err(
                SinkFull { end: (self.cursor as u64).saturating_add(count as u64), limit: self.limit },
            );
        }
        if count == 0 {
            return Ok(());
        }
        let ghost base = self.data@;
        let at: usize = self.cursor;
        while self.data.len() < at
            invariant
                at <= self.limit,
                self.cursor == at,
                self.limit == old(self).limit,
                base.len() <= self.data@.len(),
                self.data@.len() <= base.len() || self.data@.len() <= at,
                forall|i: int| 0 <= i < base.len() ==> self.data@[i] == base[i],
                forall|i: int| base.len() <= i < self.data@.len() ==> self.data@[i] == 0u8,
            decreases at - self.data@.len(),
        {
            self.data.push(0u8);
        }
        let ghost padded = self.data@;
        let mut done: usize = 0;
        while done < count
            invariant
                done <= count,
                count == bytes@.len(),
                at + count <= self.limit,
                self.cursor == at,
                self.limit == old(self).limit,
                at <= padded.len(),
                self.data@.len() == (if padded.len() >= at + done {
                    padded.len()
                } else {
                    (at + done) as nat
                }),
                forall|i: int|
                    0 <= i < self.data@.len() ==> self.data@[i] == (if at <= i < at + done {
                        bytes@[i - at]
                    } else {
                        padded[i]
                    }),
            decreases count - done,
        {
            if at + done < self.data.len() {
                self.data[at + done] = bytes[done];
            } else {
                self.data.push(bytes[done]);
            }
            done += 1;
        }
        self.cursor = at + count;
        assert(self.data@ =~= overlay(base, at as int, bytes@));
        Ok(())
    }
}

} // verus!
