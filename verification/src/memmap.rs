//! The firmware memory map: an ordered list of tagged physical ranges,
//! supplied once by the boot protocol shim and never modified.

use vstd::prelude::*;
use crate::align::{PAGE_SIZE, is_aligned};

verus! {

/// Largest admissible end address of a memory-map entry.  It keeps every
/// address below the direct-map window's span, so that adding the
/// higher-half offset to any mapped physical address cannot wrap.
pub const MAX_PHYS_END: u64 = 0x7fff_ffff_f000;

/// The classification the boot protocol gives a physical range.
#[derive(Clone, Copy, PartialEq, Eq, Structural, Debug)]
pub enum EntryKind {
    /// Freely usable memory; the allocators draw from it.
    Usable,
    /// Permanently reserved; never mapped, never allocated.
    Reserved,
    /// Physically damaged; never mapped, never allocated.
    Bad,
    /// In use by the bootloader until its services are dropped; the
    /// proper allocator reclaims it whole.
    BootloaderReclaimable,
    /// In use by ACPI until its tables are no longer needed; the proper
    /// allocator reclaims it whole.
    AcpiReclaimable,
    /// Occupied memory that must stay addressable — the framebuffer, the
    /// loaded image, firmware tables: covered by the direct map, but
    /// never handed to an allocator.
    InUse,
}

/// One memory-map entry: the range `[base, base + length)` plus its tag.
#[derive(Clone, Copy, PartialEq, Eq, Structural, Debug)]
pub struct MemmapEntry {
    pub base: u64,
    pub length: u64,
    pub kind: EntryKind,
}

impl MemmapEntry {
    /// Exclusive end address of the entry.
    pub open spec fn end(self) -> int {
        self.base + self.length
    }

    /// Whether the direct map covers this entry: everything but
    /// permanently reserved and bad memory.
    pub open spec fn is_mapped_kind(self) -> bool {
        !(self.kind == EntryKind::Reserved || self.kind == EntryKind::Bad)
    }

    /// A single entry is well formed when it lies below the direct-map
    /// span, and — for the kinds whose bounds the boot stage actually
    /// uses, the direct-mapped ones — its bounds are page aligned, with
    /// USABLE entries non-empty.  Reserved and bad memory is only ever
    /// skipped, so its bounds carry no alignment obligation.
    pub open spec fn wf(self) -> bool {
        &&& self.end() <= MAX_PHYS_END
        &&& self.is_mapped_kind() ==> (is_aligned(self.base as int, PAGE_SIZE as int)
            && is_aligned(self.length as int, PAGE_SIZE as int))
        &&& self.kind == EntryKind::Usable ==> self.length > 0
    }
}

/// Entries appear in increasing address order and do not overlap.
pub open spec fn memmap_sorted(s: Seq<MemmapEntry>) -> bool {
    forall|i: int, j: int| 0 <= i < j < s.len() ==> #[trigger] s[i].end() <= #[trigger] s[j].base
}

/// A well-formed memory map: every entry well formed, the whole list
/// ordered and non-overlapping.
pub open spec fn memmap_wf(s: Seq<MemmapEntry>) -> bool {
    &&& forall|i: int| 0 <= i < s.len() ==> #[trigger] s[i].wf()
    &&& memmap_sorted(s)
}

/// Ordering of each adjacent pair is enough for the whole list, because
/// every entry's base is at most its end.
proof fn lemma_sorted_step(s: Seq<MemmapEntry>, i: int, j: int)
    requires
        forall|k: int| 0 <= k < s.len() - 1 ==> #[trigger] s[k].end() <= s[k + 1].base,
        0 <= i < j < s.len(),
    ensures
        s[i].end() <= s[j].base,
    decreases j - i,
{
    if j == i + 1 {
    } else {
        lemma_sorted_step(s, i, j - 1);
        assert(s[j - 1].end() <= s[j].base);
    }
}

/// Checks a memory map as handed over by the boot protocol shim.  Returns
/// `true` exactly when the list satisfies [`memmap_wf`].
pub fn check_memmap(entries: &Vec<MemmapEntry>) -> (r: bool)
    ensures
        r == memmap_wf(entries@),
{
    let n = entries.len();
    let mut i: usize = 0;
    while i < n
        invariant
            n == entries@.len(),
            i <= n,
            forall|k: int| 0 <= k < i ==> #[trigger] entries@[k].wf(),
            forall|k: int| 0 <= k < i && k < n - 1 ==> #[trigger] entries@[k].end()
                <= entries@[k + 1].base,
        decreases n - i,
    {
        let e = entries[i];
        if !check_entry(e) {
            assert(!entries@[i as int].wf());
            return false;
        }
        if i + 1 < n {
            let next = entries[i + 1];
            if e.base + e.length > next.base {
                return false;
            }
        }
        i = i + 1;
    }
    proof {
        assert forall|a: int, b: int| 0 <= a < b < entries@.len()
            implies #[trigger] entries@[a].end() <= #[trigger] entries@[b].base by {
            lemma_sorted_step(entries@, a, b);
        }
    }
    true
}

/// The per-entry part of [`memmap_wf`].
fn check_entry(e: MemmapEntry) -> (r: bool)
    ensures
        r == e.wf(),
{
    if !(e.length <= MAX_PHYS_END && e.base <= MAX_PHYS_END - e.length) {
        return false;
    }
    let mapped = !(e.kind == EntryKind::Reserved || e.kind == EntryKind::Bad);
    if mapped && !(crate::align::check_aligned(e.base, PAGE_SIZE) && crate::align::check_aligned(
        e.length,
        PAGE_SIZE,
    )) {
        return false;
    }
    if e.kind == EntryKind::Usable && e.length == 0 {
        return false;
    }
    true
}

} // verus!
