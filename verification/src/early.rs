//! The early frame allocator: bump-allocates 4 KiB physical frames straight
//! from the firmware memory map, before any heap exists.  It draws from
//! USABLE entries only; reclaimable memory is deliberately left untouched
//! for the proper allocator that is built later from this allocator's final
//! cursor.

use vstd::prelude::*;
use crate::align::{PAGE_SIZE, is_aligned, lemma_aligned_add, lemma_aligned_gap};
use crate::memmap::{EntryKind, MemmapEntry, memmap_wf};

verus! {

/// Number of page-sized slots in `[lo, hi)`, counted in steps of
/// [`PAGE_SIZE`]; zero once `lo` reaches `hi`.
pub open spec fn frames_in(lo: int, hi: int) -> int
    decreases hi - lo + PAGE_SIZE,
{
    if lo >= hi {
        0
    } else {
        1 + frames_in(lo + PAGE_SIZE, hi)
    }
}

pub proof fn lemma_frames_in_nonneg(lo: int, hi: int)
    ensures
        frames_in(lo, hi) >= 0,
    decreases hi - lo + PAGE_SIZE,
{
    if lo < hi {
        lemma_frames_in_nonneg(lo + PAGE_SIZE, hi);
    }
}

/// An entry the allocator's scan has moved past for good: either it is not
/// USABLE, or the cursor has consumed it entirely.
pub open spec fn entry_done(e: MemmapEntry, next: int) -> bool {
    e.kind != EntryKind::Usable || e.end() <= next
}

/// Frames a single entry still offers to a cursor standing at `next`.
pub open spec fn entry_remaining(e: MemmapEntry, next: int) -> int {
    if e.kind == EntryKind::Usable {
        frames_in(if next < e.base { e.base as int } else { next }, e.end())
    } else {
        0
    }
}

/// Frames the allocator can still hand out, over the entries from `index`
/// on, with the cursor at `next`.
pub open spec fn remaining_frames(m: Seq<MemmapEntry>, index: int, next: int) -> int
    decreases m.len() - index,
{
    if index < 0 || index >= m.len() {
        0
    } else {
        entry_remaining(m[index], next) + remaining_frames(m, index + 1, next)
    }
}

pub proof fn lemma_remaining_nonneg(m: Seq<MemmapEntry>, index: int, next: int)
    ensures
        remaining_frames(m, index, next) >= 0,
    decreases m.len() - index,
{
    if 0 <= index < m.len() {
        let e = m[index];
        if e.kind == EntryKind::Usable {
            lemma_frames_in_nonneg(
                if next < e.base { e.base as int } else { next },
                e.end(),
            );
        }
        lemma_remaining_nonneg(m, index + 1, next);
    }
}

/// The remaining-frame count ignores the cursor while the cursor has not
/// yet reached any of the entries still ahead.
proof fn lemma_remaining_before_entries(m: Seq<MemmapEntry>, index: int, n1: int, n2: int)
    requires
        forall|j: int| index <= j < m.len() ==> n1 <= (#[trigger] m[j]).base && n2 <= m[j].base,
    ensures
        remaining_frames(m, index, n1) == remaining_frames(m, index, n2),
    decreases m.len() - index,
{
    if 0 <= index < m.len() {
        lemma_remaining_before_entries(m, index + 1, n1, n2);
    }
}

/// The outcome of one allocation attempt: the index of the entry that
/// serves it and the returned frame address, or `None` when no USABLE
/// entry remains past the cursor.
pub open spec fn early_step(m: Seq<MemmapEntry>, index: int, next: int) -> Option<(int, int)>
    decreases m.len() - index,
{
    if index < 0 || index >= m.len() {
        None
    } else {
        let e = m[index];
        if entry_done(e, next) {
            early_step(m, index + 1, next)
        } else {
            Some((index, if next < e.base { e.base as int } else { next }))
        }
    }
}

/// A 4 KiB frame at `a` lies strictly inside some USABLE memory-map entry.
pub open spec fn frame_in_usable(m: Seq<MemmapEntry>, a: int) -> bool {
    exists|j: int|
        0 <= j < m.len() && (#[trigger] m[j]).kind == EntryKind::Usable && m[j].base <= a && a
            + PAGE_SIZE <= m[j].end()
}

/// Bump allocator over the firmware memory map.  `next_frame` is the
/// cursor: every frame ever returned lies below it, so no frame can be
/// returned twice.  `allocated` records, in order, every frame handed out.
pub struct EarlyFrameAllocator {
    pub memmap: Vec<MemmapEntry>,
    pub memmap_index: usize,
    pub next_frame: u64,
    pub allocated: Ghost<Seq<u64>>,
}

impl EarlyFrameAllocator {
    /// The allocator's invariant: the scan index only covers finished
    /// entries, the cursor is page aligned, and every recorded frame is
    /// page aligned, below the cursor, strictly ordered, and contained in
    /// a USABLE entry.
    pub open spec fn wf(self) -> bool {
        &&& memmap_wf(self.memmap@)
        &&& self.memmap_index <= self.memmap@.len()
        &&& is_aligned(self.next_frame as int, PAGE_SIZE as int)
        &&& forall|j: int|
            0 <= j < self.memmap_index ==> entry_done(
                #[trigger] self.memmap@[j],
                self.next_frame as int,
            )
        &&& forall|k: int|
            0 <= k < self.allocated@.len() ==> is_aligned(
                #[trigger] self.allocated@[k] as int,
                PAGE_SIZE as int,
            )
        &&& forall|k: int|
            0 <= k < self.allocated@.len() ==> #[trigger] self.allocated@[k] + PAGE_SIZE
                <= self.next_frame
        &&& forall|k1: int, k2: int|
            #![trigger self.allocated@[k1], self.allocated@[k2]]
            0 <= k1 < k2 < self.allocated@.len() ==> self.allocated@[k1] + PAGE_SIZE
                <= self.allocated@[k2]
        &&& forall|k: int|
            0 <= k < self.allocated@.len() ==> frame_in_usable(
                self.memmap@,
                #[trigger] self.allocated@[k] as int,
            )
    }

    /// Builds an allocator over a well-formed memory map, with the cursor
    /// at address zero and nothing handed out yet.
    pub fn new(memmap: Vec<MemmapEntry>) -> (r: Self)
        requires
            memmap_wf(memmap@),
        ensures
            r.wf(),
            r.memmap@ == memmap@,
            r.memmap_index == 0,
            r.next_frame == 0,
            r.allocated@ == Seq::<u64>::empty(),
    {
        proof {
            crate::align::lemma_zero_aligned(PAGE_SIZE as int);
        }
        EarlyFrameAllocator {
            memmap,
            memmap_index: 0,
            next_frame: 0,
            allocated: Ghost(Seq::empty()),
        }
    }

    /// Hands out the next free 4 KiB frame, or reports exhaustion when no
    /// USABLE entry remains past the cursor — an unrecoverable condition
    /// for the boot stage, since no other backing store exists yet.
    pub fn allocate_frame(&mut self) -> (r: Option<u64>)
        requires
            old(self).wf(),
        ensures
            final(self).wf(),
            final(self).memmap@ == old(self).memmap@,
            old(self).next_frame <= final(self).next_frame,
            old(self).memmap_index <= final(self).memmap_index,
            match r {
                Some(addr) => {
                    &&& early_step(
                        old(self).memmap@,
                        old(self).memmap_index as int,
                        old(self).next_frame as int,
                    ) == Some((final(self).memmap_index as int, addr as int))
                    &&& final(self).next_frame == addr + PAGE_SIZE
                    &&& final(self).allocated@ == old(self).allocated@.push(addr)
                    &&& is_aligned(addr as int, PAGE_SIZE as int)
                    &&& frame_in_usable(final(self).memmap@, addr as int)
                    &&& remaining_frames(
                        final(self).memmap@,
                        final(self).memmap_index as int,
                        final(self).next_frame as int,
                    ) == remaining_frames(
                        old(self).memmap@,
                        old(self).memmap_index as int,
                        old(self).next_frame as int,
                    ) - 1
                },
                None => {
                    &&& early_step(
                        old(self).memmap@,
                        old(self).memmap_index as int,
                        old(self).next_frame as int,
                    ) is None
                    &&& remaining_frames(
                        old(self).memmap@,
                        old(self).memmap_index as int,
                        old(self).next_frame as int,
                    ) == 0
                    &&& final(self).next_frame == old(self).next_frame
                    &&& final(self).allocated@ == old(self).allocated@
                    &&& final(self).memmap_index == final(self).memmap@.len()
                },
            },
            r is Some <==> remaining_frames(
                old(self).memmap@,
                old(self).memmap_index as int,
                old(self).next_frame as int,
            ) > 0,
    {
        let n = self.memmap.len();
        while self.memmap_index < n
            invariant
                self.wf(),
                n == self.memmap@.len(),
                self.memmap@ == old(self).memmap@,
                self.next_frame == old(self).next_frame,
                self.allocated@ == old(self).allocated@,
                old(self).memmap_index <= self.memmap_index,
                early_step(self.memmap@, self.memmap_index as int, self.next_frame as int)
                    == early_step(
                    old(self).memmap@,
                    old(self).memmap_index as int,
                    old(self).next_frame as int,
                ),
                remaining_frames(self.memmap@, self.memmap_index as int, self.next_frame as int)
                    == remaining_frames(
                    old(self).memmap@,
                    old(self).memmap_index as int,
                    old(self).next_frame as int,
                ),
            decreases n - self.memmap_index,
        {
            let e = self.memmap[self.memmap_index];
            let ghost m = self.memmap@;
            let ghost idx = self.memmap_index as int;
            let ghost next0 = self.next_frame as int;
            proof {
                assert(m[idx].wf());
            }

            // Entries that are not USABLE are skipped for good.
            if !(e.kind == EntryKind::Usable) {
                self.memmap_index = self.memmap_index + 1;
                continue;
            }

            // The cursor has already consumed this entry entirely.
            if self.next_frame >= e.base + e.length {
                self.memmap_index = self.memmap_index + 1;
                continue;
            }

            // First allocation inside this entry: jump to its base.
            if self.next_frame < e.base {
                self.next_frame = e.base;
            }

            let addr = self.next_frame;
            proof {
                crate::align::lemma_self_aligned(PAGE_SIZE as int);
                lemma_aligned_add(e.base as int, e.length as int, PAGE_SIZE as int);
                lemma_aligned_gap(addr as int, e.end(), PAGE_SIZE as int);
            }
            self.next_frame = addr + PAGE_SIZE;
            proof {
                self.allocated@ = self.allocated@.push(addr);
                lemma_aligned_add(addr as int, PAGE_SIZE as int, PAGE_SIZE as int);
                assert(frame_in_usable(m, addr as int));
                // The frames still owed by this entry drop by exactly one;
                // entries further on are untouched because both cursors
                // stand at or before their bases.
                assert forall|j: int| idx + 1 <= j < m.len() implies next0 <= (
                #[trigger] m[j]).base && addr + PAGE_SIZE <= m[j].base by {
                    assert(m[idx].end() <= m[j].base);
                }
                lemma_remaining_before_entries(m, idx + 1, next0, addr + PAGE_SIZE);
                lemma_remaining_nonneg(m, idx + 1, addr + PAGE_SIZE);
                lemma_remaining_nonneg(m, idx + 1, next0);
                lemma_frames_in_nonneg(addr + PAGE_SIZE, m[idx].end());
                assert(entry_remaining(m[idx], next0) >= 1);
            }
            return Some(addr);
        }
        proof {
            lemma_remaining_nonneg(
                old(self).memmap@,
                old(self).memmap_index as int,
                old(self).next_frame as int,
            );
        }
        None
    }
}

impl Default for EarlyFrameAllocator {
    /// An allocator over an empty memory map; immediately exhausted.
    fn default() -> (r: Self)
        ensures
            r.wf(),
            r.memmap@.len() == 0,
            r.allocated@ == Seq::<u64>::empty(),
    {
        proof {
            crate::align::lemma_zero_aligned(PAGE_SIZE as int);
        }
        EarlyFrameAllocator {
            memmap: Vec::new(),
            memmap_index: 0,
            next_frame: 0,
            allocated: Ghost(Seq::empty()),
        }
    }
}

/// Uniqueness: no frame address appears twice among the frames the early
/// allocator has handed out.
pub proof fn lemma_early_frames_unique(a: &EarlyFrameAllocator)
    requires
        a.wf(),
    ensures
        forall|i: int, j: int|
            0 <= i < j < a.allocated@.len() ==> #[trigger] a.allocated@[i]
                != #[trigger] a.allocated@[j],
{
}

/// Containment: every frame the early allocator has handed out lies
/// strictly within a USABLE memory-map entry.
pub proof fn lemma_early_frames_contained(a: &EarlyFrameAllocator)
    requires
        a.wf(),
    ensures
        forall|k: int|
            0 <= k < a.allocated@.len() ==> frame_in_usable(
                a.memmap@,
                #[trigger] a.allocated@[k] as int,
            ),
{
}

/// Alignment: every frame the early allocator has handed out is a
/// multiple of the 4 KiB page size.
pub proof fn lemma_early_frames_aligned(a: &EarlyFrameAllocator)
    requires
        a.wf(),
    ensures
        forall|k: int|
            0 <= k < a.allocated@.len() ==> is_aligned(
                #[trigger] a.allocated@[k] as int,
                PAGE_SIZE as int,
            ),
{
}

} // verus!
