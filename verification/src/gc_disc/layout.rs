//! Placing the files of a disc anew, from the end of the image downwards.

use vstd::prelude::*;
use crate::gc_disc::error::LayoutError;
use crate::gc_disc::fst::FstEntry;
use crate::gc_disc::table::FileSystemTable;

verus! {

/// The number of bytes of a disc image.
pub const GC_DISC_LENGTH: usize = 1_459_978_240;

/// Every file starts at a multiple of this many bytes below the end of the image.
pub const ALIGNMENT: u64 = 32;

/// `length` rounded up to the next multiple of the alignment.
pub open spec fn padded(length: nat) -> nat {
    ((length + 31) / 32 * 32) as nat
}

/// Whether the entry at `first` is placed before the entry at `second`: the
/// one that stood at the higher offset goes first, and of two that stood at
/// the same offset the one that comes first in the table.
pub open spec fn placed_before<'a>(entries: Seq<FstEntry<'a>>, first: int, second: int) -> bool {
    entries[first].offset > entries[second].offset || (entries[first].offset
        == entries[second].offset && first < second)
}

/// The room that the entry at `index` takes in the image: nothing for a
/// directory, the padded size of its payload for a file.
pub open spec fn room_of<'a>(entries: Seq<FstEntry<'a>>, index: int) -> nat {
    if entries[index].is_folder() {
        0
    } else {
        padded(entries[index].file.spec_size())
    }
}

/// The room that those of the first `count` entries take that are placed no
/// later than the entry at `last`.
pub open spec fn room_through<'a>(entries: Seq<FstEntry<'a>>, last: int, count: int) -> nat
    decreases count,
{
    if count <= 0 {
        0
    } else {
        room_through(entries, last, count - 1) + if count - 1 == last || placed_before(
            entries,
            count - 1,
            last,
        ) {
            room_of(entries, count - 1)
        } else {
            0
        }
    }
}

/// The room that the first `count` entries take together.
pub open spec fn room_of_all<'a>(entries: Seq<FstEntry<'a>>, count: int) -> nat
    decreases count,
{
    if count <= 0 {
        0
    } else {
        room_of_all(entries, count - 1) + room_of(entries, count - 1)
    }
}

/// The entry at `index` after the files were placed in an image of
/// `capacity` bytes: a directory as it was; a file with the current size of
/// its payload as its length, below everything that is placed before it.
pub open spec fn planned_entry<'a>(entries: Seq<FstEntry<'a>>, index: int, capacity: nat)
    -> FstEntry<'a> {
    if entries[index].is_folder() {
        entries[index]
    } else {
        FstEntry {
            offset: (capacity - room_through(entries, index, entries.len() as int)) as u32,
            length: entries[index].file.spec_size() as u32,
            ..entries[index]
        }
    }
}

/// The entries after the files were placed in an image of `capacity` bytes.
pub open spec fn planned<'a>(entries: Seq<FstEntry<'a>>, capacity: nat) -> Seq<FstEntry<'a>> {
    Seq::new(entries.len(), |index: int| planned_entry(entries, index, capacity))
}

/// Whether `order` lists the files among the first `count` entries, each
/// once, in the order in which they are placed.
pub open spec fn is_placement_order<'a>(entries: Seq<FstEntry<'a>>, order: Seq<usize>, count: int)
    -> bool {
    &&& forall|p: int|
        0 <= p < order.len() ==> 0 <= #[trigger] order[p] < count && !entries[order[p] as int].is_folder()
    &&& forall|p: int, q: int|
        0 <= p < q < order.len() ==> placed_before(
            entries,
            #[trigger] order[p] as int,
            #[trigger] order[q] as int,
        )
    &&& forall|i: int|
        0 <= i < count && !(#[trigger] entries[i]).is_folder() ==> exists|p: int|
            0 <= p < order.len() && #[trigger] order[p] == i
}

/// No part of the room is counted twice: what is placed no later than an
/// entry takes no more room than all entries together.
pub proof fn lemma_room_through_bounded<'a>(entries: Seq<FstEntry<'a>>, last: int, count: int)
    ensures
        room_through(entries, last, count) <= room_of_all(entries, count),
    decreases count,
{
    if count > 0 {
        lemma_room_through_bounded(entries, last, count - 1);
    }
}

/// Every share of the room is a multiple of the alignment.
pub proof fn lemma_room_through_aligned<'a>(entries: Seq<FstEntry<'a>>, last: int, count: int)
    ensures
        room_through(entries, last, count) % 32 == 0,
    decreases count,
{
    if count > 0 {
        lemma_room_through_aligned(entries, last, count - 1);
    }
}

/// An entry among the first `count` has its own room counted in what is
/// placed no later than itself.
pub proof fn lemma_room_through_holds_own<'a>(entries: Seq<FstEntry<'a>>, last: int, count: int)
    requires
        0 <= last < count,
    ensures
        room_through(entries, last, count) >= room_of(entries, last),
    decreases count,
{
    if count - 1 > last {
        lemma_room_through_holds_own(entries, last, count - 1);
    }
}

/// Where no file is among the entries, they take no room.
proof fn lemma_no_files_no_room<'a>(entries: Seq<FstEntry<'a>>, count: int)
    requires
        0 <= count <= entries.len(),
        forall|i: int| 0 <= i < count ==> (#[trigger] entries[i]).is_folder(),
    ensures
        room_of_all(entries, count) == 0,
    decreases count,
{
    if count > 0 {
        lemma_no_files_no_room(entries, count - 1);
    }
}

/// Whether the entry at `index` is a file of `entries`.
pub open spec fn is_file_at<'a>(entries: Seq<FstEntry<'a>>, index: int) -> bool {
    0 <= index < entries.len() && !entries[index].is_folder()
}

/// Whether the file at `index` is the first to be placed.
pub open spec fn placed_first<'a>(entries: Seq<FstEntry<'a>>, index: int) -> bool {
    &&& is_file_at(entries, index)
    &&& forall|k: int| is_file_at(entries, k) ==> !placed_before(entries, k, index)
}

/// Whether the file at `index` is the last to be placed.
pub open spec fn placed_last<'a>(entries: Seq<FstEntry<'a>>, index: int) -> bool {
    &&& is_file_at(entries, index)
    &&& forall|k: int| is_file_at(entries, k) ==> !placed_before(entries, index, k)
}

/// Whether the file at `next` is placed right after the file at `first`,
/// with no file between the two.
pub open spec fn placed_next<'a>(entries: Seq<FstEntry<'a>>, first: int, next: int) -> bool {
    &&& is_file_at(entries, first)
    &&& is_file_at(entries, next)
    &&& placed_before(entries, first, next)
    &&& forall|k: int|
        is_file_at(entries, k) ==> !(placed_before(entries, first, k) && placed_before(
            entries,
            k,
            next,
        ))
}

/// The file that is placed first has nothing but itself to make room for.
pub proof fn lemma_room_of_first<'a>(entries: Seq<FstEntry<'a>>, index: int, count: int)
    requires
        placed_first(entries, index),
        0 <= count <= entries.len(),
    ensures
        room_through(entries, index, count) == if index < count {
            room_of(entries, index)
        } else {
            0
        },
    decreases count,
{
    if count > 0 {
        lemma_room_of_first(entries, index, count - 1);
        assert(is_file_at(entries, count - 1) || room_of(entries, count - 1) == 0);
    }
}

/// What is placed no later than a file is what is placed no later than the
/// file right before it, and the file itself.
pub proof fn lemma_room_of_next<'a>(entries: Seq<FstEntry<'a>>, first: int, next: int, count: int)
    requires
        placed_next(entries, first, next),
        0 <= count <= entries.len(),
    ensures
        room_through(entries, next, count) == room_through(entries, first, count) + if next
            < count {
            room_of(entries, next)
        } else {
            0
        },
    decreases count,
{
    if count > 0 {
        lemma_room_of_next(entries, first, next, count - 1);
        assert(is_file_at(entries, count - 1) || room_of(entries, count - 1) == 0);
    }
}

/// What is placed no later than the last file is all there is.
pub proof fn lemma_room_of_last<'a>(entries: Seq<FstEntry<'a>>, index: int, count: int)
    requires
        placed_last(entries, index),
        0 <= count <= entries.len(),
    ensures
        room_through(entries, index, count) == room_of_all(entries, count),
    decreases count,
{
    if count > 0 {
        lemma_room_of_last(entries, index, count - 1);
        assert(is_file_at(entries, count - 1) || room_of(entries, count - 1) == 0);
    }
}

/// A file that was placed lies in the image, holds the current size of its
/// payload, and starts a multiple of 32 bytes below the end of the image: at
/// a multiple of 32 where the image's length is one.
pub proof fn lemma_planned_file<'a>(entries: Seq<FstEntry<'a>>, index: int, capacity: nat)
    requires
        is_file_at(entries, index),
        room_of_all(entries, entries.len() as int) <= capacity <= u32::MAX,
    ensures
        planned_entry(entries, index, capacity).length == entries[index].file.spec_size(),
        planned_entry(entries, index, capacity).offset + planned_entry(
            entries,
            index,
            capacity,
        ).length <= capacity,
        (capacity - planned_entry(entries, index, capacity).offset) % 32 == 0,
        capacity % 32 == 0 ==> planned_entry(entries, index, capacity).offset % 32 == 0,
{
    let n = entries.len() as int;
    lemma_room_through_bounded(entries, index, n);
    lemma_room_through_holds_own(entries, index, n);
    lemma_room_through_aligned(entries, index, n);
}

/// The file that is placed first ends less than 32 bytes below the end of
/// the image.
pub proof fn lemma_gap_below_end<'a>(entries: Seq<FstEntry<'a>>, index: int, capacity: nat)
    requires
        placed_first(entries, index),
        room_of_all(entries, entries.len() as int) <= capacity <= u32::MAX,
    ensures
        0 <= capacity - (planned_entry(entries, index, capacity).offset + planned_entry(
            entries,
            index,
            capacity,
        ).length) <= 31,
{
    let n = entries.len() as int;
    lemma_room_through_bounded(entries, index, n);
    lemma_room_of_first(entries, index, n);
}

/// A file ends less than 32 bytes below the start of the file that was
/// placed right before it, and never above that start.
pub proof fn lemma_gap_between_neighbours<'a>(
    entries: Seq<FstEntry<'a>>,
    first: int,
    next: int,
    capacity: nat,
)
    requires
        placed_next(entries, first, next),
        room_of_all(entries, entries.len() as int) <= capacity <= u32::MAX,
    ensures
        0 <= planned_entry(entries, first, capacity).offset - (planned_entry(
            entries,
            next,
            capacity,
        ).offset + planned_entry(entries, next, capacity).length) <= 31,
{
    let n = entries.len() as int;
    lemma_room_through_bounded(entries, first, n);
    lemma_room_through_bounded(entries, next, n);
    lemma_room_of_next(entries, first, next, n);
}

/// Of two files, the one that is placed later lies wholly below the other.
pub proof fn lemma_later_lies_below<'a>(
    entries: Seq<FstEntry<'a>>,
    first: int,
    later: int,
    capacity: nat,
)
    requires
        is_file_at(entries, first),
        is_file_at(entries, later),
        placed_before(entries, first, later),
        room_of_all(entries, entries.len() as int) <= capacity <= u32::MAX,
    ensures
        planned_entry(entries, later, capacity).offset + planned_entry(
            entries,
            later,
            capacity,
        ).length <= planned_entry(entries, first, capacity).offset,
{
    let n = entries.len() as int;
    lemma_room_through_bounded(entries, first, n);
    lemma_room_through_bounded(entries, later, n);
    lemma_room_apart(entries, first, later, n);
}

/// What is placed no later than a file holds what is placed no later than
/// any file before it, and the file itself besides.
proof fn lemma_room_apart<'a>(entries: Seq<FstEntry<'a>>, first: int, later: int, count: int)
    requires
        is_file_at(entries, first),
        is_file_at(entries, later),
        placed_before(entries, first, later),
        0 <= count <= entries.len(),
    ensures
        room_through(entries, later, count) >= room_through(entries, first, count) + if later
            < count {
            room_of(entries, later)
        } else {
            0
        },
    decreases count,
{
    if count > 0 {
        lemma_room_apart(entries, first, later, count - 1);
    }
}

/// The first file of a placement order is placed first.
proof fn lemma_order_first<'a>(entries: Seq<FstEntry<'a>>, order: Seq<usize>)
    requires
        is_placement_order(entries, order, entries.len() as int),
        order.len() > 0,
    ensures
        placed_first(entries, order[0] as int),
{
    assert forall|k: int| is_file_at(entries, k) implies !placed_before(
        entries,
        k,
        order[0] as int,
    ) by {
        let q = choose|q: int| 0 <= q < order.len() && order[q] == k;
        if q > 0 {
            assert(placed_before(entries, order[0] as int, order[q] as int));
        }
    }
}

/// Two files that follow each other in a placement order are placed one
/// right after the other.
proof fn lemma_order_next<'a>(entries: Seq<FstEntry<'a>>, order: Seq<usize>, p: int)
    requires
        is_placement_order(entries, order, entries.len() as int),
        0 < p < order.len(),
    ensures
        placed_next(entries, order[p - 1] as int, order[p] as int),
{
    assert(placed_before(entries, order[p - 1] as int, order[p] as int));
    assert forall|k: int| is_file_at(entries, k) implies !(placed_before(
        entries,
        order[p - 1] as int,
        k,
    ) && placed_before(entries, k, order[p] as int)) by {
        let q = choose|q: int| 0 <= q < order.len() && order[q] == k;
        if q < p - 1 {
            assert(placed_before(entries, order[q] as int, order[p - 1] as int));
        } else if q > p {
            assert(placed_before(entries, order[p] as int, order[q] as int));
        }
    }
}

/// The last file of a placement order is placed last.
proof fn lemma_order_last<'a>(entries: Seq<FstEntry<'a>>, order: Seq<usize>)
    requires
        is_placement_order(entries, order, entries.len() as int),
        order.len() > 0,
    ensures
        placed_last(entries, order[order.len() - 1] as int),
{
    let last = order.len() - 1;
    assert forall|k: int| is_file_at(entries, k) implies !placed_before(
        entries,
        order[last] as int,
        k,
    ) by {
        let q = choose|q: int| 0 <= q < order.len() && order[q] == k;
        if q < last {
            assert(placed_before(entries, order[q] as int, order[last] as int));
        }
    }
}

/// The files of `entries` in the order in which they are placed: by
/// descending offset, those of one offset in the order of the table.
fn placement_order<'a>(entries: &Vec<FstEntry<'a>>) -> (order: Vec<usize>)
    ensures
        is_placement_order(entries@, order@, entries@.len() as int),
{
    let mut order: Vec<usize> = Vec::new();
    let mut i: usize = 0;
    while i < entries.len()
        invariant
            i <= entries@.len(),
            is_placement_order(entries@, order@, i as int),
        decreases entries@.len() - i,
    {
        if !entries[i].is_folder() {
            let offset: u32 = entries[i].offset;
            let mut at: usize = 0;
            while at < order.len() && entries[order[at]].offset >= offset
                invariant
                    at <= order@.len(),
                    i < entries@.len(),
                    offset == entries@[i as int].offset,
                    is_placement_order(entries@, order@, i as int),
                    forall|q: int| 0 <= q < at ==> entries@[#[trigger] order@[q] as int].offset >= offset,
                decreases order@.len() - at,
            {
                at += 1;
            }
            let ghost before = order@;
            order.insert(at, i);
            proof {
                let after = order@;
                assert forall|q: int| at < q < after.len() implies placed_before(
                    entries@,
                    i as int,
                    #[trigger] after[q] as int,
                ) by {
                    assert(after[q] == before[q - 1]);
                    if q - 1 > at {
                        assert(placed_before(entries@, before[at as int] as int, before[q - 1] as int));
                    }
                }
                assert forall|p: int, q: int| 0 <= p < q < after.len() implies placed_before(
                    entries@,
                    #[trigger] after[p] as int,
                    #[trigger] after[q] as int,
                ) by {
                    if q < at {
                        assert(after[p] == before[p] && after[q] == before[q]);
                    } else if q == at {
                        assert(after[p] == before[p]);
                    } else if p < at {
                        assert(after[p] == before[p] && after[q] == before[q - 1]);
                    } else if p == at {
                    } else {
                        assert(after[p] == before[p - 1] && after[q] == before[q - 1]);
                    }
                }
                assert forall|j: int| 0 <= j < i + 1 && !(#[trigger] entries@[j]).is_folder() implies exists|
                    p: int,
                | 0 <= p < after.len() && #[trigger] after[p] == j by {
                    if j == i {
                        assert(after[at as int] == j);
                    } else {
                        let p = choose|p: int| 0 <= p < before.len() && before[p] == j;
                        if p < at {
                            assert(after[p] == j);
                        } else {
                            assert(after[p + 1] == j);
                        }
                    }
                }
                assert forall|p: int| 0 <= p < after.len() implies 0 <= #[trigger] after[p] < i + 1
                    && !entries@[after[p] as int].is_folder() by {
                    if p < at {
                        assert(after[p] == before[p]);
                    } else if p > at {
                        assert(after[p] == before[p - 1]);
                    }
                }
            }
        }
        i += 1;
    }
    order
}

/// The new offsets of the files, in the order in which they are placed, or
/// nothing where the files take more room than `capacity`.
fn place<'a>(entries: &Vec<FstEntry<'a>>, order: &Vec<usize>, capacity: u32) -> (r: Option<
    Vec<u32>,
>)
    requires
        is_placement_order(entries@, order@, entries@.len() as int),
    ensures
        room_of_all(entries@, entries@.len() as int) > capacity ==> r is None,
        room_of_all(entries@, entries@.len() as int) <= capacity ==> r is Some && r->Some_0@.len()
            == order@.len() && forall|p: int|
            0 <= p < order@.len() ==> #[trigger] r->Some_0@[p] == capacity - room_through(
                entries@,
                order@[p] as int,
                entries@.len() as int,
            ),
{
    let ghost n = entries@.len() as int;
    let mut offsets: Vec<u32> = Vec::new();
    let mut cursor: u64 = capacity as u64;
    let mut p: usize = 0;
    while p < order.len()
        invariant
            p <= order@.len(),
            n == entries@.len(),
            is_placement_order(entries@, order@, n),
            offsets@.len() == p,
            cursor <= capacity,
            p == 0 ==> cursor == capacity,
            p > 0 ==> capacity - cursor == room_through(entries@, order@[p - 1] as int, n),
            forall|q: int|
                0 <= q < p ==> #[trigger] offsets@[q] == capacity - room_through(
                    entries@,
                    order@[q] as int,
                    n,
                ),
        decreases order@.len() - p,
    {
        let index: usize = order[p];
        let size: usize = entries[index].file.size();
        proof {
            if p == 0 {
                lemma_order_first(entries@, order@);
                lemma_room_of_first(entries@, index as int, n);
            } else {
                lemma_order_next(entries@, order@, p as int);
                lemma_room_of_next(entries@, order@[p - 1] as int, index as int, n);
            }
            lemma_room_through_bounded(entries@, index as int, n);
        }
        if size as u64 > cursor {
            return None;
        }
        let room: u64 = (size as u64 + (ALIGNMENT - 1)) / ALIGNMENT * ALIGNMENT;
        if room > cursor {
            return None;
        }
        cursor = cursor - room;
        offsets.push(cursor as u32);
        p += 1;
    }
    proof {
        if order@.len() == 0 {
            assert forall|i: int| 0 <= i < n implies (#[trigger] entries@[i]).is_folder() by {
                if !entries@[i].is_folder() {
                    let q = choose|q: int| 0 <= q < order@.len() && order@[q] == i;
                }
            }
            lemma_no_files_no_room(entries@, n);
        } else {
            lemma_order_last(entries@, order@);
            lemma_room_of_last(entries@, order@[order@.len() - 1] as int, n);
        }
    }
    Some(offsets)
}

impl<'a> FileSystemTable<'a> {
    /// Whether the files, each padded to the alignment, fit into an image of
    /// `capacity` bytes.
    pub fn fits(&self, capacity: u32) -> (fits: bool)
        ensures
            fits == (room_of_all(self.fst_entries@, self.fst_entries@.len() as int) <= capacity),
    {
        let order: Vec<usize> = placement_order(&self.fst_entries);
        place(&self.fst_entries, &order, capacity).is_some()
    }

    /// Places the files anew in an image of `capacity` bytes. Each file gets
    /// the current size of its payload as its length. The files are taken in
    /// descending order of the offsets they had, those of one offset in the
    /// order of the table; each is put below the one before it, the first
    /// below the end of the image, at a distance of its length rounded up to
    /// a multiple of 32. Directories are left alone. Where the files do not
    /// fit, nothing is changed.
    pub fn recalculate_offsets_and_lengths(&mut self, capacity: u32) -> (r: Result<(), LayoutError>)
        ensures
            final(self).string_table == old(self).string_table,
            room_of_all(old(self).fst_entries@, old(self).fst_entries@.len() as int) > capacity
                ==> r == Err::<(), LayoutError>(LayoutError::CapacityExceeded) && final(
                self
            ).fst_entries@ == old(self).fst_entries@,
            room_of_all(old(self).fst_entries@, old(self).fst_entries@.len() as int) <= capacity
                ==> r is Ok && final(self).fst_entries@ == planned(
                old(self).fst_entries@,
                capacity as nat,
            ),
    {
        let order: Vec<usize> = placement_order(&self.fst_entries);
        let offsets: Vec<u32> = match place(&self.fst_entries, &order, capacity) {
            Some(offsets) => offsets,
            None => {
                return Err(LayoutError::CapacityExceeded);
            },
        };
        let ghost before = self.fst_entries@;
        let ghost n = before.len() as int;
        let mut p: usize = 0;
        while p < order.len()
            invariant
                p <= order@.len(),
                n == before.len(),
                self.string_table == old(self).string_table,
                self.fst_entries@.len() == n,
                is_placement_order(before, order@, n),
                offsets@.len() == order@.len(),
                room_of_all(before, n) <= capacity,
                forall|q: int|
                    0 <= q < order@.len() ==> #[trigger] offsets@[q] == capacity - room_through(
                        before,
                        order@[q] as int,
                        n,
                    ),
                forall|q: int|
                    0 <= q < p ==> self.fst_entries@[#[trigger] order@[q] as int] == planned_entry(
                        before,
                        order@[q] as int,
                        capacity as nat,
                    ),
                forall|q: int|
                    p <= q < order@.len() ==> self.fst_entries@[#[trigger] order@[q] as int]
                        == before[order@[q] as int],
                forall|i: int|
                    0 <= i < n && (#[trigger] before[i]).is_folder() ==> self.fst_entries@[i]
                        == before[i],
            decreases order@.len() - p,
        {
            let index: usize = order[p];
            let size: usize = self.fst_entries[index].file.size();
            proof {
                lemma_room_through_bounded(before, index as int, n);
                lemma_room_through_holds_own(before, index as int, n);
                assert forall|q: int| 0 <= q < order@.len() && q != p implies order@[q] != index by {
                    if q < p {
                        assert(placed_before(before, order@[q] as int, order@[p as int] as int));
                    } else {
                        assert(placed_before(before, order@[p as int] as int, order@[q] as int));
                    }
                }
            }
            self.fst_entries[index].offset = offsets[p];
            self.fst_entries[index].length = size as u32;
            p += 1;
        }
        proof {
            assert forall|i: int| 0 <= i < n implies self.fst_entries@[i] == planned_entry(
                before,
                i,
                capacity as nat,
            ) by {
                if !before[i].is_folder() {
                    let q = choose|q: int| 0 <= q < order@.len() && order@[q] == i;
                    assert(self.fst_entries@[order@[q] as int] == planned_entry(
                        before,
                        order@[q] as int,
                        capacity as nat,
                    ));
                }
            }
            assert(self.fst_entries@ =~= planned(before, capacity as nat));
        }
        Ok(())
    }
}

} // verus!
