//! The address-space bootstrap, as computation: given physical and virtual
//! bounds, produce the exact sequence of page mappings — greedily preferring
//! 1 GiB, then 2 MiB, then 4 KiB pages — that the executor installs into
//! the new page-table tree before the root-register switch.

use vstd::prelude::*;
use crate::align::{
    FrameSize, HUGE_PAGE_SIZE, LARGE_PAGE_SIZE, PAGE_SIZE, is_aligned, lemma_aligned_add,
    lemma_aligned_gap, lemma_aligned_sub,
};

verus! {

/// Permission flags attached to one mapping.
#[derive(Clone, Copy, PartialEq, Eq, Structural, Debug)]
pub struct MapPerms {
    pub present: bool,
    pub writable: bool,
    pub no_execute: bool,
}

/// One page mapping: map the physical frame at `phys` to the virtual page
/// at `virt`, both of size class `size`.
#[derive(Clone, Copy, PartialEq, Eq, Structural, Debug)]
pub struct MapStep {
    pub phys: u64,
    pub virt: u64,
    pub size: FrameSize,
}

/// The ways installing a single mapping can fail.
#[derive(Clone, Copy, PartialEq, Eq, Structural, Debug)]
pub enum MapToError {
    FrameAllocationFailed,
    ParentEntryHugePage,
    PageAlreadyMapped,
}

/// The ways mapping a whole range can fail, per the size class that was
/// being installed when the failure happened.
#[derive(Clone, Copy, PartialEq, Eq, Structural, Debug)]
pub enum MapRangeError {
    AddressNotAligned,
    MapToError4KiB(MapToError),
    MapToError2MiB(MapToError),
    MapToError1GiB(MapToError),
}

impl MapRangeError {
    /// The failure was allocator exhaustion, at whatever size class.
    pub open spec fn spec_is_out_of_memory(&self) -> bool {
        match self {
            MapRangeError::MapToError4KiB(MapToError::FrameAllocationFailed) => true,
            MapRangeError::MapToError2MiB(MapToError::FrameAllocationFailed) => true,
            MapRangeError::MapToError1GiB(MapToError::FrameAllocationFailed) => true,
            _ => false,
        }
    }

    /// The failure was allocator exhaustion, at whatever size class.
    #[verifier::when_used_as_spec(spec_is_out_of_memory)]
    pub fn is_out_of_memory(&self) -> (r: bool)
        ensures
            r == self.spec_is_out_of_memory(),
    {
        matches!(
            self,
            Self::MapToError4KiB(MapToError::FrameAllocationFailed)
                | Self::MapToError2MiB(MapToError::FrameAllocationFailed)
                | Self::MapToError1GiB(MapToError::FrameAllocationFailed)
        )
    }

    /// The failure was an overlap with an existing mapping: either the
    /// exact page was mapped already, or a parent entry is a huge page.
    pub open spec fn spec_is_already_mapped(&self) -> bool {
        match self {
            MapRangeError::MapToError4KiB(MapToError::ParentEntryHugePage) => true,
            MapRangeError::MapToError4KiB(MapToError::PageAlreadyMapped) => true,
            MapRangeError::MapToError2MiB(MapToError::ParentEntryHugePage) => true,
            MapRangeError::MapToError2MiB(MapToError::PageAlreadyMapped) => true,
            MapRangeError::MapToError1GiB(MapToError::ParentEntryHugePage) => true,
            MapRangeError::MapToError1GiB(MapToError::PageAlreadyMapped) => true,
            _ => false,
        }
    }

    /// The failure was an overlap with an existing mapping.
    #[verifier::when_used_as_spec(spec_is_already_mapped)]
    pub fn is_already_mapped(&self) -> (r: bool)
        ensures
            r == self.spec_is_already_mapped(),
    {
        matches!(
            self,
            Self::MapToError4KiB(MapToError::ParentEntryHugePage)
                | Self::MapToError4KiB(MapToError::PageAlreadyMapped)
                | Self::MapToError2MiB(MapToError::ParentEntryHugePage)
                | Self::MapToError2MiB(MapToError::PageAlreadyMapped)
                | Self::MapToError1GiB(MapToError::ParentEntryHugePage)
                | Self::MapToError1GiB(MapToError::PageAlreadyMapped)
        )
    }
}

/// Whether a page of class `fs` may start here: both addresses aligned to
/// the class, and the whole page before `end`.
pub open spec fn step_ok(phys: int, virt: int, end: int, fs: FrameSize) -> bool {
    &&& is_aligned(virt, fs.spec_bytes() as int)
    &&& is_aligned(phys, fs.spec_bytes() as int)
    &&& virt + fs.spec_bytes() <= end
}

/// The largest size class usable at this point — the greedy choice that
/// keeps the page-table node count small.
pub open spec fn pick_size(phys: int, virt: int, end: int) -> FrameSize {
    if step_ok(phys, virt, end, FrameSize::Size1GiB) {
        FrameSize::Size1GiB
    } else if step_ok(phys, virt, end, FrameSize::Size2MiB) {
        FrameSize::Size2MiB
    } else {
        FrameSize::Size4KiB
    }
}

/// The full mapping sequence for `[virt, end)` backed by physical memory
/// starting at `phys`, taking the greedy size class at every point.
pub open spec fn plan_spec(phys: int, virt: int, end: int) -> Seq<MapStep>
    decreases end - virt + HUGE_PAGE_SIZE,
{
    if virt >= end {
        Seq::empty()
    } else {
        let fs = pick_size(phys, virt, end);
        seq![MapStep { phys: phys as u64, virt: virt as u64, size: fs }] + plan_spec(
            phys + fs.spec_bytes(),
            virt + fs.spec_bytes(),
            end,
        )
    }
}

/// One step of a plan for `[virt, end)` at constant physical offset:
/// inside the range, aligned to its own size class, and translated by
/// exactly `phys - virt`.
pub open spec fn plan_step_ok(st: MapStep, phys: int, virt: int, end: int) -> bool {
    &&& st.phys - st.virt == phys - virt
    &&& is_aligned(st.virt as int, st.size.spec_bytes() as int)
    &&& is_aligned(st.phys as int, st.size.spec_bytes() as int)
    &&& virt <= st.virt
    &&& st.virt + st.size.spec_bytes() <= end
}

/// What it means for a step sequence to lay `[virt, end)` over the
/// physical range at constant offset: steps are contiguous, each is
/// aligned to its own size class, and together they cover the range
/// exactly — nothing mapped twice, nothing left out, nothing beyond.
pub open spec fn plan_covers(s: Seq<MapStep>, phys: int, virt: int, end: int) -> bool {
    &&& (s.len() == 0 <==> virt >= end)
    &&& (s.len() > 0 ==> s[0].virt == virt && s[0].phys == phys)
    &&& forall|k: int| 0 <= k < s.len() ==> plan_step_ok(#[trigger] s[k], phys, virt, end)
    &&& forall|k: int|
        0 <= k < s.len() - 1 ==> (#[trigger] s[k]).virt + s[k].size.spec_bytes() == s[k + 1].virt
    &&& (s.len() > 0 ==> s.last().virt + s.last().size.spec_bytes() == end)
}

/// Every step is aligned to its own size class, on both sides — what the
/// executor needs so that no planned page or frame is ever rejected for
/// misalignment.
pub open spec fn tagged_steps_aligned(s: Seq<(MapStep, MapPerms)>) -> bool {
    forall|k: int|
        0 <= k < s.len() ==> is_aligned(
            (#[trigger] s[k]).0.virt as int,
            s[k].0.size.spec_bytes() as int,
        ) && is_aligned(s[k].0.phys as int, s[k].0.size.spec_bytes() as int)
}

/// The greedy choice always fits: even the 4 KiB fallback stays inside
/// the (page-aligned) range, and is aligned to its class.
proof fn proof_step_fits(phys: int, virt: int, end: int)
    requires
        is_aligned(virt, PAGE_SIZE as int),
        is_aligned(phys, PAGE_SIZE as int),
        is_aligned(end, PAGE_SIZE as int),
        virt < end,
    ensures
        step_ok(phys, virt, end, pick_size(phys, virt, end)),
{
    let fs = pick_size(phys, virt, end);
    if fs == FrameSize::Size4KiB {
        lemma_aligned_gap(virt, end, PAGE_SIZE as int);
    }
}

/// Computes the mapping sequence for `size` bytes of physical memory at
/// `phys`, placed at `virt`, greedily preferring the largest page size
/// both addresses allow.  All three arguments must be page aligned —
/// a misaligned mapping request is a programming error and is reported,
/// never rounded.  An empty range yields an empty plan.
#[verifier::rlimit(100)]
pub fn plan_range(phys: u64, virt: u64, size: u64) -> (r: Result<Vec<MapStep>, MapRangeError>)
    requires
        virt + size <= u64::MAX,
        phys + size <= u64::MAX,
    ensures
        match r {
            Ok(steps) => {
                &&& size > 0 ==> (is_aligned(phys as int, PAGE_SIZE as int) && is_aligned(
                    virt as int,
                    PAGE_SIZE as int,
                ) && is_aligned(size as int, PAGE_SIZE as int))
                &&& steps@ == plan_spec(phys as int, virt as int, virt + size)
                &&& plan_covers(steps@, phys as int, virt as int, virt + size)
            },
            Err(e) => {
                &&& e == MapRangeError::AddressNotAligned
                &&& size > 0
                &&& !(is_aligned(phys as int, PAGE_SIZE as int) && is_aligned(
                    virt as int,
                    PAGE_SIZE as int,
                ) && is_aligned(size as int, PAGE_SIZE as int))
            },
        },
{
    let mut v: Vec<MapStep> = Vec::new();
    if size == 0 {
        proof {
            assert(v@ =~= plan_spec(phys as int, virt as int, virt + size));
        }
        return Ok(v);
    }
    if !(crate::align::check_aligned(phys, PAGE_SIZE) && crate::align::check_aligned(
        virt,
        PAGE_SIZE,
    ) && crate::align::check_aligned(size, PAGE_SIZE)) {
        return Err(MapRangeError::AddressNotAligned);
    }
    proof {
        lemma_aligned_add(virt as int, size as int, PAGE_SIZE as int);
    }
    let end = virt + size;
    let mut p = phys;
    let mut vt = virt;
    proof {
        assert(v@ + plan_spec(p as int, vt as int, end as int) =~= plan_spec(
            phys as int,
            virt as int,
            end as int,
        ));
    }
    while vt < end
        invariant
            end == virt + size,
            size > 0,
            virt <= vt <= end,
            p == phys + (vt - virt),
            phys + size <= u64::MAX,
            is_aligned(virt as int, PAGE_SIZE as int),
            is_aligned(phys as int, PAGE_SIZE as int),
            is_aligned(size as int, PAGE_SIZE as int),
            is_aligned(vt as int, PAGE_SIZE as int),
            is_aligned(p as int, PAGE_SIZE as int),
            is_aligned(end as int, PAGE_SIZE as int),
            plan_spec(phys as int, virt as int, end as int) == v@ + plan_spec(
                p as int,
                vt as int,
                end as int,
            ),
            v@.len() > 0 ==> v@[0].virt == virt && v@[0].phys == phys,
            v@.len() == 0 <==> vt == virt,
            forall|k: int|
                0 <= k < v@.len() ==> plan_step_ok(
                    #[trigger] v@[k],
                    phys as int,
                    virt as int,
                    end as int,
                ),
            forall|k: int|
                0 <= k < v@.len() - 1 ==> (#[trigger] v@[k]).virt + v@[k].size.spec_bytes() == v@[
                    k + 1
                ].virt,
            v@.len() > 0 ==> v@.last().virt + v@.last().size.spec_bytes() == vt,
        decreases end - vt,
    {
        let fs: FrameSize = if crate::align::check_aligned(vt, HUGE_PAGE_SIZE)
            && crate::align::check_aligned(p, HUGE_PAGE_SIZE) && end - vt >= HUGE_PAGE_SIZE {
            FrameSize::Size1GiB
        } else if crate::align::check_aligned(vt, LARGE_PAGE_SIZE) && crate::align::check_aligned(
            p,
            LARGE_PAGE_SIZE,
        ) && end - vt >= LARGE_PAGE_SIZE {
            FrameSize::Size2MiB
        } else {
            FrameSize::Size4KiB
        };
        proof {
            assert(fs == pick_size(p as int, vt as int, end as int));
            proof_step_fits(p as int, vt as int, end as int);
            fs.bytes_facts();
            lemma_aligned_add(vt as int, fs.spec_bytes() as int, PAGE_SIZE as int);
            lemma_aligned_add(p as int, fs.spec_bytes() as int, PAGE_SIZE as int);
        }
        let ghost v_before = v@;
        let step = MapStep { phys: p, virt: vt, size: fs };
        v.push(step);
        let b = fs.bytes();
        vt = vt + b;
        p = p + b;
        proof {
            assert(plan_spec(phys as int, virt as int, end as int) == v@ + plan_spec(
                p as int,
                vt as int,
                end as int,
            )) by {
                assert(plan_spec(phys as int, virt as int, end as int) == v_before + (seq![step]
                    + plan_spec(p as int, vt as int, end as int)));
                assert(v_before + (seq![step] + plan_spec(p as int, vt as int, end as int)) =~= (
                v_before.push(step)) + plan_spec(p as int, vt as int, end as int));
            }
        }
    }
    proof {
        assert(plan_spec(p as int, vt as int, end as int) =~= Seq::<MapStep>::empty());
        assert(v@ + Seq::<MapStep>::empty() =~= v@);
        assert(v@ == plan_spec(phys as int, virt as int, virt + size));
        assert(plan_covers(v@, phys as int, virt as int, virt + size));
    }
    Ok(v)
}

/// Virtual base of the higher-half direct map: physical address `p` is
/// reachable at `HHDM_OFFSET + p` once the new address space is live.
pub const HHDM_OFFSET: u64 = 0xffff_8000_0000_0000;

/// Virtual base of the kernel stack region; page aligned.
pub const STACK_BASE: u64 = 0x4888_8888_0000;

/// Byte size of the kernel stack region (16 pages, 64 KiB).
pub const STACK_SIZE: u64 = 0x1000 * 16;

/// Virtual base of the kernel heap region; page aligned.
pub const HEAP_BASE: u64 = 0x4444_4444_0000;

/// Byte size of the kernel heap region (25 pages, 100 KiB).
pub const HEAP_SIZE: u64 = 0x1000 * 25;

/// The fixed virtual bases of this boot stage are all page aligned.
pub proof fn lemma_layout_constants_aligned()
    ensures
        is_aligned(HHDM_OFFSET as int, PAGE_SIZE as int),
        is_aligned(STACK_BASE as int, PAGE_SIZE as int),
        is_aligned(HEAP_BASE as int, PAGE_SIZE as int),
{
    reveal(crate::align::is_aligned);
    vstd::arithmetic::div_mod::lemma_mod_multiples_basic(0xffff_8000_0000_0, PAGE_SIZE as int);
    assert(0xffff_8000_0000_0 * (PAGE_SIZE as int) == HHDM_OFFSET as int);
    vstd::arithmetic::div_mod::lemma_mod_multiples_basic(0x4_8888_8880, PAGE_SIZE as int);
    assert(0x4_8888_8880 * (PAGE_SIZE as int) == STACK_BASE as int);
    vstd::arithmetic::div_mod::lemma_mod_multiples_basic(0x4_4444_4440, PAGE_SIZE as int);
    assert(0x4_4444_4440 * (PAGE_SIZE as int) == HEAP_BASE as int);
}

/// The direct-map steps one memory-map entry contributes: every entry is
/// mapped at its offset-translated address, except RESERVED and BAD
/// memory, which stays unmapped.
pub open spec fn hhdm_entry_steps(e: crate::memmap::MemmapEntry) -> Seq<MapStep> {
    if e.is_mapped_kind() {
        plan_spec(e.base as int, e.base + HHDM_OFFSET, e.base + HHDM_OFFSET + e.length)
    } else {
        Seq::empty()
    }
}

/// The whole direct-map plan, entry by entry in memory-map order.
pub open spec fn hhdm_plan(m: Seq<crate::memmap::MemmapEntry>) -> Seq<MapStep>
    decreases m.len(),
{
    if m.len() == 0 {
        Seq::empty()
    } else {
        hhdm_plan(m.drop_last()) + hhdm_entry_steps(m.last())
    }
}

/// `hhdm_plan` grows one entry at a time.
proof fn lemma_hhdm_snoc(m: Seq<crate::memmap::MemmapEntry>, i: int)
    requires
        0 <= i < m.len(),
    ensures
        hhdm_plan(m.take(i + 1)) == hhdm_plan(m.take(i)) + hhdm_entry_steps(m[i]),
{
    assert(m.take(i + 1).drop_last() =~= m.take(i));
    assert(m.take(i + 1).last() == m[i]);
    assert(m.take(i + 1).len() == i + 1);
}

/// Computes the mapping steps that place every non-RESERVED, non-BAD
/// memory-map range into the higher-half direct-map window, at its
/// offset-translated address, each step carrying the direct map's fixed
/// permissions: present, writable, no-execute.
#[verifier::rlimit(100)]
#[verifier::spinoff_prover]
pub fn plan_hhdm(memmap: &Vec<crate::memmap::MemmapEntry>) -> (steps: Vec<(MapStep, MapPerms)>)
    requires
        crate::memmap::memmap_wf(memmap@),
    ensures
        steps@ == tag_steps(hhdm_plan(memmap@), region_perms()),
        tagged_steps_aligned(steps@),
{
    let mut v: Vec<(MapStep, MapPerms)> = Vec::new();
    let n = memmap.len();
    let mut i: usize = 0;
    while i < n
        invariant
            crate::memmap::memmap_wf(memmap@),
            n == memmap@.len(),
            i <= n,
            v@ == tag_steps(hhdm_plan(memmap@.take(i as int)), region_perms()),
            tagged_steps_aligned(v@),
        decreases n - i,
    {
        let e = memmap[i];
        proof {
            assert(memmap@[i as int].wf());
        }
        if !(e.kind == crate::memmap::EntryKind::Reserved || e.kind
            == crate::memmap::EntryKind::Bad) {
            let virt = e.base + HHDM_OFFSET;
            proof {
                lemma_layout_constants_aligned();
                lemma_aligned_add(e.base as int, HHDM_OFFSET as int, PAGE_SIZE as int);
            }
            let r = plan_range(e.base, virt, e.length);
            match r {
                Ok(steps) => {
                    let ghost v_before = v@;
                    proof {
                        assert(steps@ == hhdm_entry_steps(memmap@[i as int]));
                    }
                    append_tagged(
                        &mut v,
                        &steps,
                        MapPerms { present: true, writable: true, no_execute: true },
                    );
                    proof {
                        assert(v@ =~= tag_steps(
                            hhdm_plan(memmap@.take(i as int)) + steps@,
                            region_perms(),
                        ));
                        assert forall|k: int| 0 <= k < v@.len() implies is_aligned(
                            (#[trigger] v@[k]).0.virt as int,
                            v@[k].0.size.spec_bytes() as int,
                        ) && is_aligned(v@[k].0.phys as int, v@[k].0.size.spec_bytes() as int) by {
                            if k >= v_before.len() {
                                assert(v@[k].0 == steps@[k - v_before.len()]);
                                assert(plan_step_ok(
                                    steps@[k - v_before.len()],
                                    e.base as int,
                                    e.base + HHDM_OFFSET,
                                    e.base + HHDM_OFFSET + e.length,
                                ));
                            }
                        }
                    }
                },
                Err(_) => {
                    // Impossible: direct-mapped entries are page aligned.
                    proof {
                        assert(false);
                    }
                },
            }
        }
        proof {
            lemma_hhdm_snoc(memmap@, i as int);
            if e.kind == crate::memmap::EntryKind::Reserved || e.kind
                == crate::memmap::EntryKind::Bad {
                assert(hhdm_plan(memmap@.take(i as int)) + hhdm_entry_steps(memmap@[i as int])
                    =~= hhdm_plan(memmap@.take(i as int)));
            }
            assert(v@ =~= tag_steps(hhdm_plan(memmap@.take(i + 1)), region_perms()));
        }
        i = i + 1;
    }
    proof {
        assert(memmap@.take(n as int) =~= memmap@);
    }
    v
}

/// Link-time layout of the kernel image: the virtual bounds of its four
/// sections — executable code, read-only data, writable data, and the
/// relocation (global-offset) table — plus the physical address the boot
/// protocol loaded the image at.  The sections are physically contiguous
/// in exactly this order.
#[derive(Clone, Copy, PartialEq, Eq, Structural, Debug)]
pub struct KernelLayout {
    pub phys_base: u64,
    pub text_start: u64,
    pub text_end: u64,
    pub rodata_start: u64,
    pub rodata_end: u64,
    pub data_start: u64,
    pub data_end: u64,
    pub got_start: u64,
    pub got_end: u64,
}

impl KernelLayout {
    pub open spec fn text_len(self) -> int {
        self.text_end - self.text_start
    }

    pub open spec fn rodata_len(self) -> int {
        self.rodata_end - self.rodata_start
    }

    pub open spec fn data_len(self) -> int {
        self.data_end - self.data_start
    }

    pub open spec fn got_len(self) -> int {
        self.got_end - self.got_start
    }

    /// Physical address of the read-only-data section: the image is
    /// contiguous, so it follows the code section directly.
    pub open spec fn rodata_phys(self) -> int {
        self.phys_base + self.text_len()
    }

    pub open spec fn data_phys(self) -> int {
        self.rodata_phys() + self.rodata_len()
    }

    pub open spec fn got_phys(self) -> int {
        self.data_phys() + self.data_len()
    }

    /// The linker script aligns every section boundary to a page, and the
    /// whole image sits below the direct-map span.
    pub open spec fn wf(self) -> bool {
        &&& self.text_start <= self.text_end
        &&& self.rodata_start <= self.rodata_end
        &&& self.data_start <= self.data_end
        &&& self.got_start <= self.got_end
        &&& is_aligned(self.phys_base as int, PAGE_SIZE as int)
        &&& is_aligned(self.text_start as int, PAGE_SIZE as int)
        &&& is_aligned(self.text_end as int, PAGE_SIZE as int)
        &&& is_aligned(self.rodata_start as int, PAGE_SIZE as int)
        &&& is_aligned(self.rodata_end as int, PAGE_SIZE as int)
        &&& is_aligned(self.data_start as int, PAGE_SIZE as int)
        &&& is_aligned(self.data_end as int, PAGE_SIZE as int)
        &&& is_aligned(self.got_start as int, PAGE_SIZE as int)
        &&& is_aligned(self.got_end as int, PAGE_SIZE as int)
        &&& self.phys_base + self.text_len() + self.rodata_len() + self.data_len()
            + self.got_len() <= crate::memmap::MAX_PHYS_END
    }
}

/// Permissions of the executable section: mapped, read-only, executable.
pub open spec fn text_perms() -> MapPerms {
    MapPerms { present: true, writable: false, no_execute: false }
}

/// Permissions of read-only data: mapped, read-only, never executed.
pub open spec fn rodata_perms() -> MapPerms {
    MapPerms { present: true, writable: false, no_execute: true }
}

/// Permissions of writable data: mapped, writable, never executed.
pub open spec fn data_perms() -> MapPerms {
    MapPerms { present: true, writable: true, no_execute: true }
}

/// Permissions of the relocation table: mapped, writable — its entries
/// are filled in at load time — and never executed.
pub open spec fn got_perms() -> MapPerms {
    MapPerms { present: true, writable: true, no_execute: true }
}

/// Permissions of the direct map and of the stack and heap regions:
/// mapped, writable, never executed.
pub open spec fn region_perms() -> MapPerms {
    MapPerms { present: true, writable: true, no_execute: true }
}

/// A step sequence with one fixed set of permissions attached to each.
pub open spec fn tag_steps(s: Seq<MapStep>, p: MapPerms) -> Seq<(MapStep, MapPerms)> {
    s.map_values(|st: MapStep| (st, p))
}

/// The whole kernel-image mapping: each section at its link-time virtual
/// address, backed by the physically contiguous load image, with the
/// permissions its contents demand.
pub open spec fn kernel_plan(k: KernelLayout) -> Seq<(MapStep, MapPerms)> {
    tag_steps(
        plan_spec(k.phys_base as int, k.text_start as int, k.text_end as int),
        text_perms(),
    ) + tag_steps(
        plan_spec(k.rodata_phys(), k.rodata_start as int, k.rodata_end as int),
        rodata_perms(),
    ) + tag_steps(plan_spec(k.data_phys(), k.data_start as int, k.data_end as int), data_perms())
        + tag_steps(plan_spec(k.got_phys(), k.got_start as int, k.got_end as int), got_perms())
}

/// Appends every step, tagged with the section's permissions.
fn append_tagged(dst: &mut Vec<(MapStep, MapPerms)>, steps: &Vec<MapStep>, perms: MapPerms)
    ensures
        final(dst)@ == old(dst)@ + tag_steps(steps@, perms),
{
    let n = steps.len();
    let mut i: usize = 0;
    while i < n
        invariant
            i <= n,
            n == steps@.len(),
            dst@ == old(dst)@ + tag_steps(steps@.take(i as int), perms),
        decreases n - i,
    {
        dst.push((steps[i], perms));
        proof {
            assert(tag_steps(steps@.take(i as int), perms).push((steps@[i as int], perms))
                =~= tag_steps(steps@.take(i + 1), perms));
            assert(dst@ =~= old(dst)@ + tag_steps(steps@.take(i + 1), perms));
        }
        i = i + 1;
    }
    proof {
        assert(steps@.take(n as int) =~= steps@);
    }
}

/// Plans one kernel section: the range `[start, end_addr)` backed by
/// physical memory at `phys`, every step tagged with the section's
/// permissions.
#[verifier::rlimit(100)]
#[verifier::spinoff_prover]
fn plan_section(phys: u64, start: u64, end_addr: u64, perms: MapPerms) -> (v: Vec<
    (MapStep, MapPerms),
>)
    requires
        start <= end_addr,
        is_aligned(phys as int, PAGE_SIZE as int),
        is_aligned(start as int, PAGE_SIZE as int),
        is_aligned(end_addr as int, PAGE_SIZE as int),
        phys + (end_addr - start) <= crate::memmap::MAX_PHYS_END,
    ensures
        v@ == tag_steps(plan_spec(phys as int, start as int, end_addr as int), perms),
        tagged_steps_aligned(v@),
{
    proof {
        lemma_aligned_sub(end_addr as int, start as int, PAGE_SIZE as int);
    }
    match plan_range(phys, start, end_addr - start) {
        Ok(s) => {
            let mut v: Vec<(MapStep, MapPerms)> = Vec::new();
            append_tagged(&mut v, &s, perms);
            proof {
                assert(v@ =~= tag_steps(plan_spec(phys as int, start as int, end_addr as int),
                    perms));
                assert forall|k: int| 0 <= k < v@.len() implies is_aligned(
                    (#[trigger] v@[k]).0.virt as int,
                    v@[k].0.size.spec_bytes() as int,
                ) && is_aligned(v@[k].0.phys as int, v@[k].0.size.spec_bytes() as int) by {
                    assert(v@[k].0 == s@[k]);
                    assert(plan_step_ok(s@[k], phys as int, start as int, start + (end_addr
                        - start)));
                }
            }
            v
        },
        Err(_) => {
            // Impossible: the section bounds are page aligned.
            proof {
                assert(false);
            }
            Vec::new()
        },
    }
}

/// Computes the mapping of the kernel's own image: code executable and
/// read-only, read-only data read-only and no-execute, writable data and
/// the relocation table writable and no-execute, every section at its
/// link-time virtual address and at its offset in the physically
/// contiguous load image.
pub fn plan_kernel(k: &KernelLayout) -> (steps: Vec<(MapStep, MapPerms)>)
    requires
        k.wf(),
    ensures
        steps@ == kernel_plan(*k),
        tagged_steps_aligned(steps@),
{
    let text_len = k.text_end - k.text_start;
    let rodata_len = k.rodata_end - k.rodata_start;
    let data_len = k.data_end - k.data_start;
    proof {
        lemma_aligned_sub(k.text_end as int, k.text_start as int, PAGE_SIZE as int);
        lemma_aligned_sub(k.rodata_end as int, k.rodata_start as int, PAGE_SIZE as int);
        lemma_aligned_sub(k.data_end as int, k.data_start as int, PAGE_SIZE as int);
        lemma_aligned_add(k.phys_base as int, text_len as int, PAGE_SIZE as int);
        lemma_aligned_add(k.phys_base + text_len, rodata_len as int, PAGE_SIZE as int);
        lemma_aligned_add(k.phys_base + text_len + rodata_len, data_len as int, PAGE_SIZE as int);
    }

    let mut v = plan_section(
        k.phys_base,
        k.text_start,
        k.text_end,
        MapPerms { present: true, writable: false, no_execute: false },
    );
    let mut rodata = plan_section(
        k.phys_base + text_len,
        k.rodata_start,
        k.rodata_end,
        MapPerms { present: true, writable: false, no_execute: true },
    );
    let mut data = plan_section(
        k.phys_base + text_len + rodata_len,
        k.data_start,
        k.data_end,
        MapPerms { present: true, writable: true, no_execute: true },
    );
    let mut got = plan_section(
        k.phys_base + text_len + rodata_len + data_len,
        k.got_start,
        k.got_end,
        MapPerms { present: true, writable: true, no_execute: true },
    );
    v.append(&mut rodata);
    v.append(&mut data);
    v.append(&mut got);
    proof {
        assert(v@ =~= kernel_plan(*k));
    }
    v
}

/// Plans a fixed virtual region (the stack or the heap): one 4 KiB frame
/// from the early allocator for each page, mapped in order from
/// `virt_base`, each step carrying the region's fixed permissions —
/// present, writable, no-execute.  Succeeds exactly when the allocator
/// still holds `pages` frames; exhaustion is fatal for boot, and the
/// frames consumed before it was hit stay consumed.
pub fn plan_fixed_region(
    alloc: &mut crate::early::EarlyFrameAllocator,
    virt_base: u64,
    pages: u64,
) -> (r: Result<Vec<(MapStep, MapPerms)>, MapRangeError>)
    requires
        old(alloc).wf(),
        is_aligned(virt_base as int, PAGE_SIZE as int),
        virt_base + pages * PAGE_SIZE <= u64::MAX,
    ensures
        final(alloc).wf(),
        final(alloc).memmap@ == old(alloc).memmap@,
        old(alloc).allocated@.is_prefix_of(final(alloc).allocated@),
        r is Ok <==> crate::early::remaining_frames(
            old(alloc).memmap@,
            old(alloc).memmap_index as int,
            old(alloc).next_frame as int,
        ) >= pages,
        match r {
            Ok(steps) => {
                &&& steps@.len() == pages
                &&& forall|t: int|
                    0 <= t < steps@.len() ==> (#[trigger] steps@[t]).0.virt == virt_base + t
                        * PAGE_SIZE && steps@[t].0.size == FrameSize::Size4KiB && steps@[t].1
                        == region_perms()
                &&& tagged_steps_aligned(steps@)
                &&& final(alloc).allocated@ == old(alloc).allocated@ + steps@.map_values(
                    |p: (MapStep, MapPerms)| p.0.phys,
                )
                &&& steps@.len() > 0 ==> final(alloc).next_frame == steps@.last().0.phys
                    + PAGE_SIZE
                &&& crate::early::remaining_frames(
                    final(alloc).memmap@,
                    final(alloc).memmap_index as int,
                    final(alloc).next_frame as int,
                ) == crate::early::remaining_frames(
                    old(alloc).memmap@,
                    old(alloc).memmap_index as int,
                    old(alloc).next_frame as int,
                ) - pages
            },
            Err(e) => {
                &&& e == MapRangeError::MapToError4KiB(MapToError::FrameAllocationFailed)
                &&& final(alloc).allocated@.len() == old(alloc).allocated@.len()
                    + crate::early::remaining_frames(
                    old(alloc).memmap@,
                    old(alloc).memmap_index as int,
                    old(alloc).next_frame as int,
                )
                &&& crate::early::remaining_frames(
                    final(alloc).memmap@,
                    final(alloc).memmap_index as int,
                    final(alloc).next_frame as int,
                ) == 0
            },
        },
{
    let mut steps: Vec<(MapStep, MapPerms)> = Vec::new();
    let mut i: u64 = 0;
    proof {
        assert(old(alloc).allocated@ + steps@.map_values(|p: (MapStep, MapPerms)| p.0.phys)
            =~= old(alloc).allocated@);
    }
    while i < pages
        invariant
            alloc.wf(),
            alloc.memmap@ == old(alloc).memmap@,
            i <= pages,
            virt_base + pages * PAGE_SIZE <= u64::MAX,
            steps@.len() == i,
            is_aligned(virt_base as int, PAGE_SIZE as int),
            forall|t: int|
                0 <= t < steps@.len() ==> (#[trigger] steps@[t]).0.virt == virt_base + t
                    * PAGE_SIZE && steps@[t].0.size == FrameSize::Size4KiB && steps@[t].1
                    == region_perms(),
            tagged_steps_aligned(steps@),
            alloc.allocated@ == old(alloc).allocated@ + steps@.map_values(
                |p: (MapStep, MapPerms)| p.0.phys,
            ),
            i > 0 ==> alloc.next_frame == steps@.last().0.phys + PAGE_SIZE,
            crate::early::remaining_frames(
                alloc.memmap@,
                alloc.memmap_index as int,
                alloc.next_frame as int,
            ) == crate::early::remaining_frames(
                old(alloc).memmap@,
                old(alloc).memmap_index as int,
                old(alloc).next_frame as int,
            ) - i,
        decreases pages - i,
    {
        let ghost steps_before = steps@;
        match alloc.allocate_frame() {
            Some(frame) => {
                steps.push(
                    (
                        MapStep {
                            phys: frame,
                            virt: virt_base + i * PAGE_SIZE,
                            size: FrameSize::Size4KiB,
                        },
                        MapPerms { present: true, writable: true, no_execute: true },
                    ),
                );
                proof {
                    assert(alloc.allocated@ =~= old(alloc).allocated@ + steps@.map_values(
                        |p: (MapStep, MapPerms)| p.0.phys,
                    ));
                    crate::align::lemma_multiple_aligned(i as int, PAGE_SIZE as int);
                    lemma_aligned_add(virt_base as int, i * PAGE_SIZE, PAGE_SIZE as int);
                }
                i = i + 1;
            },
            None => {
                proof {
                    assert(old(alloc).allocated@.is_prefix_of(alloc.allocated@)) by {
                        assert(alloc.allocated@.subrange(0, old(alloc).allocated@.len() as int)
                            =~= old(alloc).allocated@);
                    }
                }
                return Err(MapRangeError::MapToError4KiB(MapToError::FrameAllocationFailed));
            },
        }
    }
    proof {
        crate::early::lemma_remaining_nonneg(
            alloc.memmap@,
            alloc.memmap_index as int,
            alloc.next_frame as int,
        );
        assert(old(alloc).allocated@.is_prefix_of(alloc.allocated@)) by {
            assert(alloc.allocated@.subrange(0, old(alloc).allocated@.len() as int) =~= old(
                alloc,
            ).allocated@);
        }
    }
    Ok(steps)
}

} // verus!
