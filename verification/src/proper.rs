//! The proper frame allocator: built exactly once from the final state of
//! the early allocator, by reconciling the early cursor against the memory
//! map.  It recovers the USABLE memory the early allocator never reached,
//! plus all bootloader- and ACPI-reclaimable ranges, and then serves frames
//! of any size class from that free-range list.

use vstd::prelude::*;
use crate::align::{
    FrameSize, PAGE_SIZE, align_up, is_aligned, lemma_align_up, lemma_align_up_least,
    lemma_aligned_add,
    lemma_aligned_coarser,
};
use crate::early::{EarlyFrameAllocator, frame_in_usable};
use crate::memmap::{EntryKind, MemmapEntry};

verus! {

/// A contiguous physical range `[start, end)` of whole pages.
#[derive(Clone, Copy, PartialEq, Eq, Structural, Debug)]
pub struct MemRange {
    pub start: u64,
    pub end: u64,
}

impl MemRange {
    /// A range is well formed when its bounds are page aligned, ordered,
    /// and below the direct-map span.
    pub open spec fn wf(self) -> bool {
        &&& self.start <= self.end
        &&& is_aligned(self.start as int, PAGE_SIZE as int)
        &&& is_aligned(self.end as int, PAGE_SIZE as int)
        &&& self.end <= crate::memmap::MAX_PHYS_END
    }

    /// Builds the range `[base, base + size)`.
    ///
    /// The caller must hand in page-aligned bounds; misaligned free ranges
    /// would poison every later alignment argument, so they are rejected
    /// by contract rather than at run time.
    pub fn address_range(base: u64, size: u64) -> (r: MemRange)
        requires
            is_aligned(base as int, PAGE_SIZE as int),
            is_aligned(size as int, PAGE_SIZE as int),
            base + size <= crate::memmap::MAX_PHYS_END,
        ensures
            r.start == base,
            r.end == base + size,
            r.wf(),
    {
        proof {
            lemma_aligned_add(base as int, size as int, PAGE_SIZE as int);
        }
        MemRange { start: base, end: base + size }
    }
}

/// Two ranges cover no address in common.
pub open spec fn ranges_disjoint(a: MemRange, b: MemRange) -> bool {
    a.end <= b.start || b.end <= a.start
}

/// The frame `f` (address and size class) shares no address with `r`.
pub open spec fn frame_range_disjoint(r: MemRange, f: (u64, FrameSize)) -> bool {
    f.0 + f.1.spec_bytes() <= r.start || r.end <= f.0
}

/// Two allocated frames share no address.
pub open spec fn frames_disjoint(f1: (u64, FrameSize), f2: (u64, FrameSize)) -> bool {
    f1.0 + f1.1.spec_bytes() <= f2.0 || f2.0 + f2.1.spec_bytes() <= f1.0
}

/// The single merge step of the range list: a new range whose start meets
/// the last range's end extends that range in place; anything else is
/// appended.
pub open spec fn push_spec(s: Seq<MemRange>, r: MemRange) -> Seq<MemRange> {
    if s.len() > 0 && s.last().end == r.start {
        s.update(s.len() - 1, MemRange { start: s.last().start, end: r.end })
    } else {
        s.push(r)
    }
}

/// The whole list rebuilt through the merge step, element by element.
pub open spec fn merge_ranges(s: Seq<MemRange>) -> Seq<MemRange>
    decreases s.len(),
{
    if s.len() == 0 {
        Seq::empty()
    } else {
        push_spec(merge_ranges(s.drop_last()), s.last())
    }
}

/// A list with no two adjacent ranges left to merge.
pub open spec fn is_merged(s: Seq<MemRange>) -> bool {
    forall|i: int| 0 <= i < s.len() - 1 ==> (#[trigger] s[i]).end != s[i + 1].start
}

/// Merge idempotence: rebuilding an already-merged range list through the
/// merge step reproduces it unchanged.
pub proof fn lemma_merge_idempotent(s: Seq<MemRange>)
    requires
        is_merged(s),
    ensures
        merge_ranges(s) == s,
    decreases s.len(),
{
    if s.len() == 0 {
        assert(merge_ranges(s) =~= s);
    } else {
        let front = s.drop_last();
        assert(is_merged(front)) by {
            assert(forall|i: int|
                0 <= i < front.len() - 1 ==> (#[trigger] front[i]).end == s[i].end
                    && front[i + 1].start == s[i + 1].start);
        }
        lemma_merge_idempotent(front);
        if front.len() > 0 {
            assert(front.last().end != s.last().start);
        }
        assert(push_spec(front, s.last()) =~= s);
    }
}

/// The free ranges a single memory-map entry contributes, given the early
/// allocator's final cursor.  Reclaimable entries contribute whole; USABLE
/// entries contribute what lies past the cursor; everything else nothing.
pub open spec fn entry_ranges(e: MemmapEntry, cursor: u64) -> Seq<MemRange> {
    match e.kind {
        EntryKind::BootloaderReclaimable | EntryKind::AcpiReclaimable => seq![
            MemRange { start: e.base, end: (e.base + e.length) as u64 },
        ],
        EntryKind::Usable => {
            if e.end() <= cursor {
                Seq::empty()
            } else if cursor >= e.base {
                seq![MemRange { start: cursor, end: (e.base + e.length) as u64 }]
            } else {
                seq![MemRange { start: e.base, end: (e.base + e.length) as u64 }]
            }
        },
        _ => Seq::empty(),
    }
}

/// All free ranges the memory map yields, in entry order, before merging.
pub open spec fn raw_ranges(m: Seq<MemmapEntry>, cursor: u64) -> Seq<MemRange>
    decreases m.len(),
{
    if m.len() == 0 {
        Seq::empty()
    } else {
        raw_ranges(m.drop_last(), cursor) + entry_ranges(m.last(), cursor)
    }
}

/// The frames the early allocator handed out, tagged with their (4 KiB)
/// size class, as the proper allocator inherits them.
pub open spec fn tag_small(frames: Seq<u64>) -> Seq<(u64, FrameSize)> {
    frames.map_values(|a: u64| (a, FrameSize::Size4KiB))
}

/// Exclusive end of the part of the memory map already folded into the
/// range list: everything before entry `i` lies below this address.
pub open spec fn processed_end(m: Seq<MemmapEntry>, i: int) -> int {
    if i <= 0 {
        0
    } else {
        m[i - 1].end()
    }
}

/// Where an aligned block of `s` bytes first fits inside `r`, if at all.
pub open spec fn find_fit(r: MemRange, s: int) -> Option<int> {
    let a = align_up(r.start as int, s);
    if a + s <= r.end {
        Some(a)
    } else {
        None
    }
}

/// The range list after serving a block of `s` bytes at `a` out of slot
/// `i`: the slot keeps what lies before the block, and what lies after it,
/// if anything, is appended at the back — never merged back in.
pub open spec fn alloc_result(rs: Seq<MemRange>, i: int, a: int, s: int) -> Seq<MemRange> {
    let trimmed = MemRange { start: rs[i].start, end: a as u64 };
    let base = rs.update(i, trimmed);
    if a + s < rs[i].end {
        base.push(MemRange { start: (a + s) as u64, end: rs[i].end })
    } else {
        base
    }
}

/// `find_fit` misses nothing and takes the earliest spot: whenever some
/// aligned block of `s` bytes lies inside `r`, the fit exists and sits at
/// or below every such block.  Together with the allocator's contract
/// this says exhaustion is reported only when no free range could serve
/// the request at all.
pub proof fn lemma_find_fit_first(r: MemRange, s: int, b: int)
    requires
        s > 0,
        r.start <= b,
        b + s <= r.end,
        is_aligned(b, s),
    ensures
        find_fit(r, s) is Some,
        find_fit(r, s)->0 <= b,
{
    lemma_align_up_least(r.start as int, b, s);
}

/// Scans the range list from slot `i` for the first slot that fits an
/// aligned block of `s` bytes, and gives the resulting list and address.
pub open spec fn alloc_scan(rs: Seq<MemRange>, s: int, i: int) -> Option<(Seq<MemRange>, int)>
    decreases rs.len() - i,
{
    if i < 0 || i >= rs.len() {
        None
    } else {
        match find_fit(rs[i], s) {
            Some(a) => Some((alloc_result(rs, i, a, s), a)),
            None => alloc_scan(rs, s, i + 1),
        }
    }
}

/// Free-range allocator for the rest of the boot stage.  `availables`
/// holds pairwise-disjoint page ranges; `allocated` records every frame
/// ever handed out — by the early allocator or by this one — and stays
/// disjoint from every free range, which is what makes double allocation
/// impossible.
pub struct ProperFrameAllocator {
    pub availables: Vec<MemRange>,
    pub allocated: Ghost<Seq<(u64, FrameSize)>>,
}

impl ProperFrameAllocator {
    /// The allocator's invariant.
    pub open spec fn wf(self) -> bool {
        &&& forall|i: int| 0 <= i < self.availables@.len() ==> (#[trigger] self.availables@[i]).wf()
        &&& forall|i: int, j: int|
            #![trigger self.availables@[i], self.availables@[j]]
            0 <= i < j < self.availables@.len() ==> ranges_disjoint(
                self.availables@[i],
                self.availables@[j],
            )
        &&& forall|k: int|
            0 <= k < self.allocated@.len() ==> is_aligned(
                (#[trigger] self.allocated@[k]).0 as int,
                self.allocated@[k].1.spec_bytes() as int,
            )
        &&& forall|k1: int, k2: int|
            #![trigger self.allocated@[k1], self.allocated@[k2]]
            0 <= k1 < k2 < self.allocated@.len() ==> frames_disjoint(
                self.allocated@[k1],
                self.allocated@[k2],
            )
        &&& forall|k: int, i: int|
            #![trigger self.allocated@[k], self.availables@[i]]
            0 <= k < self.allocated@.len() && 0 <= i < self.availables@.len()
                ==> frame_range_disjoint(self.availables@[i], self.allocated@[k])
    }

    /// The merge step, applied while the range list is built: a range
    /// whose start meets the last range's end extends it in place, and
    /// any other range is appended with nothing else modified — so a
    /// list with no merge left to do only ever grows by one.
    fn push_range(availables: &mut Vec<MemRange>, range: MemRange)
        ensures
            final(availables)@ == push_spec(old(availables)@, range),
            old(availables)@.len() == 0 || old(availables)@.last().end != range.start
                ==> final(availables)@ == old(availables)@.push(range),
            old(availables)@.len() > 0 && old(availables)@.last().end == range.start
                ==> final(availables)@ == old(availables)@.update(
                    old(availables)@.len() - 1,
                    (MemRange { start: old(availables)@.last().start, end: range.end }),
                ),
    {
        let n = availables.len();
        if n > 0 {
            let last = availables[n - 1];
            if last.end == range.start {
                availables[n - 1] = MemRange { start: last.start, end: range.end };
                return;
            }
        }
        availables.push(range);
    }

    /// Builds the proper allocator from the early allocator's final state.
    ///
    /// The early allocator is consumed: after this call it no longer
    /// exists, so it can never again hand out a frame that this allocator
    /// also considers free.  Reclaimable entries are taken whole — the
    /// early allocator never touched them — and USABLE entries contribute
    /// exactly what lies past the early cursor.
    pub fn new(early: EarlyFrameAllocator) -> (r: Self)
        requires
            early.wf(),
        ensures
            r.wf(),
            r.availables@ == merge_ranges(raw_ranges(early.memmap@, early.next_frame)),
            r.allocated@ == tag_small(early.allocated@),
    {
        let cursor = early.next_frame;
        let ghost m = early.memmap@;
        let ghost frames = tag_small(early.allocated@);
        let mut availables: Vec<MemRange> = Vec::new();
        let n = early.memmap.len();
        let mut i: usize = 0;
        while i < n
            invariant
                early.wf(),
                m == early.memmap@,
                cursor == early.next_frame,
                frames == tag_small(early.allocated@),
                n == m.len(),
                i <= n,
                availables@ == merge_ranges(raw_ranges(m.take(i as int), cursor)),
                forall|k: int| 0 <= k < availables@.len() ==> (#[trigger] availables@[k]).wf(),
                forall|k1: int, k2: int|
                    #![trigger availables@[k1], availables@[k2]]
                    0 <= k1 < k2 < availables@.len() ==> availables@[k1].end
                        <= availables@[k2].start,
                forall|k: int|
                    0 <= k < availables@.len() ==> (#[trigger] availables@[k]).end
                        <= processed_end(m, i as int),
                forall|k: int, t: int|
                    #![trigger availables@[k], frames[t]]
                    0 <= k < availables@.len() && 0 <= t < frames.len()
                        ==> frame_range_disjoint(availables@[k], frames[t]),
            decreases n - i,
        {
            let e = early.memmap[i];
            let ghost avb = availables@;
            proof {
                assert(m[i as int].wf());
                assert(i > 0 ==> m[i as int - 1].end() <= m[i as int].base);
            }
            let ghost er = entry_ranges(m[i as int], cursor);
            match e.kind {
                EntryKind::BootloaderReclaimable | EntryKind::AcpiReclaimable => {
                    let r = MemRange { start: e.base, end: e.base + e.length };
                    proof {
                        lemma_aligned_add(e.base as int, e.length as int, PAGE_SIZE as int);
                        lemma_new_range_fits(m, i as int, cursor, r, avb, frames,
                            early.allocated@);
                    }
                    Self::push_range(&mut availables, r);
                },
                EntryKind::Usable => {
                    if e.base + e.length <= cursor {
                        // Entirely consumed by the early allocator.
                    } else if cursor >= e.base {
                        // The cursor stopped inside: keep the remainder.
                        let r = MemRange { start: cursor, end: e.base + e.length };
                        proof {
                            lemma_aligned_add(e.base as int, e.length as int, PAGE_SIZE as int);
                            lemma_new_range_fits(m, i as int, cursor, r, avb, frames,
                                early.allocated@);
                        }
                        Self::push_range(&mut availables, r);
                    } else {
                        // Untouched: keep the whole entry.
                        let r = MemRange { start: e.base, end: e.base + e.length };
                        proof {
                            lemma_aligned_add(e.base as int, e.length as int, PAGE_SIZE as int);
                            lemma_new_range_fits(m, i as int, cursor, r, avb, frames,
                                early.allocated@);
                        }
                        Self::push_range(&mut availables, r);
                    }
                },
                _ => {},
            }
            proof {
                lemma_raw_ranges_snoc(m, i as int, cursor);
                if er.len() == 0 {
                    assert(raw_ranges(m.take(i as int), cursor) + er =~= raw_ranges(
                        m.take(i as int),
                        cursor,
                    ));
                } else {
                    assert(er.len() == 1);
                    lemma_merge_snoc(raw_ranges(m.take(i as int), cursor), er[0]);
                    assert(raw_ranges(m.take(i as int), cursor) + er =~= raw_ranges(
                        m.take(i as int),
                        cursor,
                    ).push(er[0]));
                }
            }
            i = i + 1;
        }
        proof {
            assert(m.take(n as int) =~= m);
            // The inherited frame list itself is well formed.
            assert forall|k1: int, k2: int|
                #![trigger frames[k1], frames[k2]]
                0 <= k1 < k2 < frames.len() implies frames_disjoint(frames[k1], frames[k2]) by {
                assert(early.allocated@[k1] + PAGE_SIZE <= early.allocated@[k2]);
            }
            assert forall|k: int| 0 <= k < frames.len() implies is_aligned(
                (#[trigger] frames[k]).0 as int,
                frames[k].1.spec_bytes() as int,
            ) by {
                assert(is_aligned(early.allocated@[k] as int, PAGE_SIZE as int));
            }
        }
        ProperFrameAllocator { availables, allocated: Ghost(frames) }
    }

    /// Serves one frame of the requested size class, or reports that no
    /// free range has enough aligned space — fatal for the boot stage.
    ///
    /// Within each range the first address aligned to the class that
    /// still leaves a whole block before the range's end is taken.  The
    /// space before the block stays in the original slot; the space after
    /// it, if any, is appended at the back of the list.  A range without a
    /// fit is left untouched and the scan moves on.
    pub fn allocate_frame(&mut self, size: FrameSize) -> (r: Option<u64>)
        requires
            old(self).wf(),
        ensures
            final(self).wf(),
            match r {
                Some(addr) => {
                    &&& alloc_scan(old(self).availables@, size.spec_bytes() as int, 0) == Some(
                        (final(self).availables@, addr as int),
                    )
                    &&& is_aligned(addr as int, size.spec_bytes() as int)
                    &&& final(self).allocated@ == old(self).allocated@.push((addr, size))
                },
                None => {
                    &&& alloc_scan(old(self).availables@, size.spec_bytes() as int, 0) is None
                    &&& final(self).availables@ == old(self).availables@
                    &&& final(self).allocated@ == old(self).allocated@
                    &&& forall|i: int|
                        0 <= i < old(self).availables@.len() ==> find_fit(
                            old(self).availables@[i],
                            size.spec_bytes() as int,
                        ) is None
                },
            },
    {
        let s = size.bytes();
        proof {
            size.bytes_facts();
        }
        let n = self.availables.len();
        let mut i: usize = 0;
        while i < n
            invariant
                self.wf(),
                self.availables@ == old(self).availables@,
                self.allocated@ == old(self).allocated@,
                s == size.spec_bytes(),
                i <= n,
                n == self.availables@.len(),
                forall|k: int|
                    0 <= k < i ==> find_fit(#[trigger] self.availables@[k], s as int) is None,
                alloc_scan(old(self).availables@, s as int, 0) == alloc_scan(
                    self.availables@,
                    s as int,
                    i as int,
                ),
            decreases n - i,
        {
            let rg = self.availables[i];
            proof {
                assert(self.availables@[i as int].wf());
                lemma_align_up(rg.start as int, s as int);
            }
            let rem = rg.start % s;
            let a = if rem == 0 {
                rg.start
            } else {
                rg.start + (s - rem)
            };
            if a <= rg.end && rg.end - a >= s {
                let ghost avb = self.availables@;
                let ghost alc = self.allocated@;
                proof {
                    size.bytes_facts();
                    assert(find_fit(avb[i as int], s as int) == Some(a as int));
                    lemma_aligned_coarser(a as int, PAGE_SIZE as int, s as int);
                    lemma_aligned_add(a as int, s as int, PAGE_SIZE as int);
                }
                self.availables[i] = MemRange { start: rg.start, end: a };
                if a + s < rg.end {
                    self.availables.push(MemRange { start: a + s, end: rg.end });
                }
                proof {
                    self.allocated@ = self.allocated@.push((a, size));
                    assert(self.availables@ =~= alloc_result(avb, i as int, a as int, s as int));
                    lemma_alloc_keeps_wf(avb, alc, i as int, a as int, size);
                    assert(self.wf());
                }
                return Some(a);
            }
            proof {
                assert(find_fit(self.availables@[i as int], s as int) is None);
            }
            i = i + 1;
        }
        None
    }
}

/// Carving the block `[a, a + size)` out of slot `i` preserves every part
/// of the allocator's invariant: the two remnants stay inside the old
/// slot, so they inherit its disjointness from everything else, and the
/// new frame lies in space that no earlier frame and no other range
/// touches.
proof fn lemma_alloc_keeps_wf(
    avb: Seq<MemRange>,
    alc: Seq<(u64, FrameSize)>,
    i: int,
    a: int,
    size: FrameSize,
)
    requires
        0 <= i < avb.len(),
        forall|k: int| 0 <= k < avb.len() ==> (#[trigger] avb[k]).wf(),
        forall|k1: int, k2: int|
            #![trigger avb[k1], avb[k2]]
            0 <= k1 < k2 < avb.len() ==> ranges_disjoint(avb[k1], avb[k2]),
        forall|k: int|
            0 <= k < alc.len() ==> is_aligned(
                (#[trigger] alc[k]).0 as int,
                alc[k].1.spec_bytes() as int,
            ),
        forall|k1: int, k2: int|
            #![trigger alc[k1], alc[k2]]
            0 <= k1 < k2 < alc.len() ==> frames_disjoint(alc[k1], alc[k2]),
        forall|k: int, j: int|
            #![trigger alc[k], avb[j]]
            0 <= k < alc.len() && 0 <= j < avb.len() ==> frame_range_disjoint(avb[j], alc[k]),
        avb[i].start <= a,
        a + size.spec_bytes() <= avb[i].end,
        is_aligned(a, size.spec_bytes() as int),
        is_aligned(a, PAGE_SIZE as int),
        is_aligned(a + size.spec_bytes(), PAGE_SIZE as int),
    ensures
        ({
            let newav = alloc_result(avb, i, a, size.spec_bytes() as int);
            let newalc = alc.push(((a as u64), size));
            &&& forall|x: int| 0 <= x < newav.len() ==> (#[trigger] newav[x]).wf()
            &&& forall|x: int, y: int|
                #![trigger newav[x], newav[y]]
                0 <= x < y < newav.len() ==> ranges_disjoint(newav[x], newav[y])
            &&& forall|k: int|
                0 <= k < newalc.len() ==> is_aligned(
                    (#[trigger] newalc[k]).0 as int,
                    newalc[k].1.spec_bytes() as int,
                )
            &&& forall|k1: int, k2: int|
                #![trigger newalc[k1], newalc[k2]]
                0 <= k1 < k2 < newalc.len() ==> frames_disjoint(newalc[k1], newalc[k2])
            &&& forall|k: int, x: int|
                #![trigger newalc[k], newav[x]]
                0 <= k < newalc.len() && 0 <= x < newav.len() ==> frame_range_disjoint(
                    newav[x],
                    newalc[k],
                )
        }),
{
    size.bytes_facts();
    let s = size.spec_bytes() as int;
    let newav = alloc_result(avb, i, a, s);
    let f = ((a as u64), size);
    // Each new slot lies inside an old slot.
    assert forall|x: int| 0 <= x < newav.len() implies (#[trigger] newav[x]).wf()
        && avb[slot_source(avb, i, x)].start <= newav[x].start
        && newav[x].end <= avb[slot_source(avb, i, x)].end by {
        if x < avb.len() {
            if x == i {
                assert(newav[x] == MemRange { start: avb[i].start, end: a as u64 });
            } else {
                assert(newav[x] == avb[x]);
            }
        } else {
            assert(newav[x] == MemRange {
                start: (a + s) as u64,
                end: avb[i].end,
            });
        }
    }
    assert forall|x: int, y: int|
        #![trigger newav[x], newav[y]]
        0 <= x < y < newav.len() implies ranges_disjoint(newav[x], newav[y]) by {
        let sx = slot_source(avb, i, x);
        let sy = slot_source(avb, i, y);
        if sx == sy {
            // Only the trimmed slot and the appended tail share a source;
            // the allocated block separates them.
            assert(x == i && y == avb.len());
        } else if sx < sy {
            assert(ranges_disjoint(avb[sx], avb[sy]));
        } else {
            assert(ranges_disjoint(avb[sy], avb[sx]));
        }
    }
    assert forall|k: int, x: int|
        #![trigger alc.push(f)[k], newav[x]]
        0 <= k < alc.push(f).len() && 0 <= x < newav.len() implies frame_range_disjoint(
        newav[x],
        alc.push(f)[k],
    ) by {
        let sx = slot_source(avb, i, x);
        if k < alc.len() {
            assert(frame_range_disjoint(avb[sx], alc[k]));
        } else {
            // The new frame fills exactly the gap between the trimmed
            // slot and the tail, inside the old slot `i`.
            assert(alc.push(f)[k] == f);
            if sx == i {
            } else if sx < i {
                assert(ranges_disjoint(avb[sx], avb[i]));
            } else {
                assert(ranges_disjoint(avb[i], avb[sx]));
            }
        }
    }
    assert forall|k1: int, k2: int|
        #![trigger alc.push(f)[k1], alc.push(f)[k2]]
        0 <= k1 < k2 < alc.push(f).len() implies frames_disjoint(
        alc.push(f)[k1],
        alc.push(f)[k2],
    ) by {
        if k2 < alc.len() {
            assert(frames_disjoint(alc[k1], alc[k2]));
        } else {
            assert(alc.push(f)[k2] == f);
            assert(frame_range_disjoint(avb[i], alc[k1]));
            alc[k1].1.bytes_facts();
        }
    }
}

/// Uniqueness across the combined lifetime of both allocators: the
/// allocation record inherits every early frame at construction, so no
/// address in it — early or proper, any size class — repeats.
pub proof fn lemma_proper_frames_unique(p: &ProperFrameAllocator)
    requires
        p.wf(),
    ensures
        forall|k1: int, k2: int|
            #![trigger p.allocated@[k1], p.allocated@[k2]]
            0 <= k1 < k2 < p.allocated@.len() ==> p.allocated@[k1].0 != p.allocated@[k2].0,
{
    assert forall|k1: int, k2: int|
        #![trigger p.allocated@[k1], p.allocated@[k2]]
        0 <= k1 < k2 < p.allocated@.len() implies p.allocated@[k1].0 != p.allocated@[k2].0 by {
        assert(frames_disjoint(p.allocated@[k1], p.allocated@[k2]));
        p.allocated@[k1].1.bytes_facts();
        p.allocated@[k2].1.bytes_facts();
    }
}

/// Alignment: every frame in the allocation record is an exact multiple
/// of its size class.
pub proof fn lemma_proper_frames_aligned(p: &ProperFrameAllocator)
    requires
        p.wf(),
    ensures
        forall|k: int|
            0 <= k < p.allocated@.len() ==> is_aligned(
                (#[trigger] p.allocated@[k]).0 as int,
                p.allocated@[k].1.spec_bytes() as int,
            ),
{
}

/// The old slot each slot of [`alloc_result`] descends from: the appended
/// tail comes from slot `i`, everything else from its own place.
pub open spec fn slot_source(avb: Seq<MemRange>, i: int, x: int) -> int {
    if x < avb.len() {
        x
    } else {
        i
    }
}


/// A range contributed by entry `i` starts at or past everything already
/// in the list and is disjoint from every frame the early allocator
/// handed out.
proof fn lemma_new_range_fits(
    m: Seq<MemmapEntry>,
    i: int,
    cursor: u64,
    r: MemRange,
    avb: Seq<MemRange>,
    frames: Seq<(u64, FrameSize)>,
    early_frames: Seq<u64>,
)
    requires
        crate::memmap::memmap_wf(m),
        0 <= i < m.len(),
        r.end == m[i].end(),
        m[i].base <= r.start,
        m[i].kind == EntryKind::Usable ==> cursor <= r.start,
        m[i].kind == EntryKind::Usable || m[i].kind == EntryKind::BootloaderReclaimable
            || m[i].kind == EntryKind::AcpiReclaimable,
        frames == tag_small(early_frames),
        forall|t: int| 0 <= t < early_frames.len() ==> #[trigger] early_frames[t] + PAGE_SIZE
            <= cursor,
        forall|t: int| 0 <= t < early_frames.len() ==> frame_in_usable(
            m,
            #[trigger] early_frames[t] as int,
        ),
        forall|k: int| 0 <= k < avb.len() ==> (#[trigger] avb[k]).end <= processed_end(m, i),
    ensures
        forall|k: int| 0 <= k < avb.len() ==> (#[trigger] avb[k]).end <= r.start,
        forall|t: int| 0 <= t < frames.len() ==> frame_range_disjoint(r, #[trigger] frames[t]),
{
    assert(m[i].wf());
    assert(i > 0 ==> m[i - 1].end() <= m[i].base);
    assert forall|t: int| 0 <= t < frames.len() implies frame_range_disjoint(
        r,
        #[trigger] frames[t],
    ) by {
        let a = early_frames[t];
        assert(frames[t] == (a, FrameSize::Size4KiB));
        if m[i].kind == EntryKind::Usable {
            // Ranges from USABLE entries start at or past the cursor,
            // and every inherited frame ends at or below it.
            assert(a + PAGE_SIZE <= cursor);
        } else {
            // Ranges from reclaimable entries occupy a different entry
            // than any inherited frame, and entries do not overlap.
            let j = choose|j: int|
                0 <= j < m.len() && (#[trigger] m[j]).kind == EntryKind::Usable && m[j].base <= a
                    && a + PAGE_SIZE <= m[j].end();
            if j < i {
                assert(m[j].end() <= m[i].base);
            } else {
                assert(j != i);
                assert(m[i].end() <= m[j].base);
            }
        }
    }
}

/// `raw_ranges` grows one entry at a time.
proof fn lemma_raw_ranges_snoc(m: Seq<MemmapEntry>, i: int, cursor: u64)
    requires
        0 <= i < m.len(),
    ensures
        raw_ranges(m.take(i + 1), cursor) == raw_ranges(m.take(i), cursor) + entry_ranges(
            m[i],
            cursor,
        ),
{
    assert(m.take(i + 1).drop_last() =~= m.take(i));
    assert(m.take(i + 1).last() == m[i]);
    assert(m.take(i + 1).len() == i + 1);
}

/// Merging after appending one range is one merge step.
proof fn lemma_merge_snoc(s: Seq<MemRange>, r: MemRange)
    ensures
        merge_ranges(s.push(r)) == push_spec(merge_ranges(s), r),
{
    assert(s.push(r).drop_last() =~= s);
    assert(s.push(r).last() == r);
}

} // verus!
