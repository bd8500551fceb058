//! The trampoline orchestrator, as computation: the fixed boot sequence —
//! base-revision check, descriptor tables to ready, address-space plan,
//! proper-allocator construction, heap plan — each step's postcondition
//! the next step's precondition.  The caller executes the resulting plan
//! against the hardware, switches the page-table root and the stack, and
//! enters the next stage with the assembled [`BootInfo`], never to return.

use vstd::prelude::*;
use crate::align::{FrameSize, PAGE_SIZE};
use crate::descriptor::{DescriptorTables, DtStage, init_gdt, init_idt, mark_ready};
use crate::early::{EarlyFrameAllocator, early_step, remaining_frames};
use crate::framebuffer::Framebuffer;
use crate::memmap::{MemmapEntry, memmap_wf};
use crate::paging::{
    HEAP_BASE, HEAP_SIZE, KernelLayout, MapPerms, MapStep, STACK_BASE, STACK_SIZE, hhdm_plan,
    kernel_plan, plan_fixed_region, plan_hhdm, plan_kernel, region_perms, tag_steps,
    tagged_steps_aligned,
};
use crate::proper::{ProperFrameAllocator, tag_small};

verus! {

/// Frames the boot stage itself consumes: one for the page-table root,
/// then one per stack page and one per heap page.
pub open spec fn boot_frames_needed() -> int {
    1 + STACK_SIZE / PAGE_SIZE + HEAP_SIZE / PAGE_SIZE
}

/// The ways the boot sequence can fail.  Every one of them is fatal:
/// there is no backing store to fall back to and no state worth saving.
#[derive(Clone, Copy, PartialEq, Eq, Structural, Debug)]
pub enum BootError {
    /// The boot protocol does not support the revision this kernel
    /// speaks; checked first, before any memory is touched.
    UnsupportedBootProtocol,
    /// An allocator ran out of physical frames.
    OutOfMemory,
}

/// Everything the caller must install before the root-register switch:
/// the new page-table root frame and the four mapping groups, every step
/// carrying its permissions.  Direct map, stack and heap mappings all
/// take the fixed region permissions — present, writable, no-execute;
/// the kernel-image steps carry each section's own.
pub struct BootPlan {
    pub root_frame: u64,
    pub hhdm_steps: Vec<(MapStep, MapPerms)>,
    pub kernel_steps: Vec<(MapStep, MapPerms)>,
    pub stack_steps: Vec<(MapStep, MapPerms)>,
    pub heap_steps: Vec<(MapStep, MapPerms)>,
    pub stack_top: u64,
    pub heap_base: u64,
    pub heap_size: u64,
}

/// The early cursor's final position under a completed plan: one page
/// past the last frame the boot stage consumed for itself.
pub open spec fn final_cursor(plan: BootPlan) -> u64 {
    (plan.heap_steps@.last().0.phys + PAGE_SIZE) as u64
}

/// The context handed to the next boot stage, exactly once: the
/// discovered framebuffers and the fully constructed proper frame
/// allocator.
pub struct BootInfo {
    pub framebuffers: Vec<Framebuffer>,
    pub frame_allocator: ProperFrameAllocator,
}

/// Plans the whole new address space from the early allocator: one frame
/// for the page-table root, the direct map of all non-reserved memory,
/// the kernel image at its link-time addresses, and the fixed stack and
/// heap regions, one fresh frame per page.
///
/// This is the decision side of paging initialisation; the caller
/// installs the steps into the new page-table tree and only then switches
/// the root register — an incomplete address space is unsafe to run on,
/// so on any failure the plan must be discarded whole.
#[verifier::rlimit(60)]
pub fn plan_address_space(early: &mut EarlyFrameAllocator, kernel: &KernelLayout) -> (r: Result<
    BootPlan,
    BootError,
>)
    requires
        old(early).wf(),
        kernel.wf(),
    ensures
        final(early).wf(),
        final(early).memmap@ == old(early).memmap@,
        r is Ok <==> remaining_frames(
            old(early).memmap@,
            old(early).memmap_index as int,
            old(early).next_frame as int,
        ) >= boot_frames_needed(),
        match r {
            Ok(plan) => {
                &&& ({
                    let first = early_step(
                        old(early).memmap@,
                        old(early).memmap_index as int,
                        old(early).next_frame as int,
                    );
                    first is Some && (first->0).1 == plan.root_frame
                })
                &&& plan.hhdm_steps@ == tag_steps(hhdm_plan(old(early).memmap@), region_perms())
                &&& plan.kernel_steps@ == kernel_plan(*kernel)
                &&& tagged_steps_aligned(plan.hhdm_steps@)
                &&& tagged_steps_aligned(plan.kernel_steps@)
                &&& tagged_steps_aligned(plan.stack_steps@)
                &&& tagged_steps_aligned(plan.heap_steps@)
                &&& plan.stack_steps@.len() == STACK_SIZE / PAGE_SIZE
                &&& forall|t: int|
                    0 <= t < plan.stack_steps@.len() ==> (#[trigger] plan.stack_steps@[t]).0.virt
                        == STACK_BASE + t * PAGE_SIZE && plan.stack_steps@[t].0.size
                        == FrameSize::Size4KiB && plan.stack_steps@[t].1 == region_perms()
                &&& plan.heap_steps@.len() == HEAP_SIZE / PAGE_SIZE
                &&& forall|t: int|
                    0 <= t < plan.heap_steps@.len() ==> (#[trigger] plan.heap_steps@[t]).0.virt
                        == HEAP_BASE + t * PAGE_SIZE && plan.heap_steps@[t].0.size
                        == FrameSize::Size4KiB && plan.heap_steps@[t].1 == region_perms()
                &&& plan.stack_top == STACK_BASE + STACK_SIZE
                &&& plan.heap_base == HEAP_BASE
                &&& plan.heap_size == HEAP_SIZE
                &&& final(early).allocated@ == old(early).allocated@ + seq![plan.root_frame]
                    + plan.stack_steps@.map_values(|p: (MapStep, MapPerms)| p.0.phys)
                    + plan.heap_steps@.map_values(|p: (MapStep, MapPerms)| p.0.phys)
                &&& final(early).next_frame == final_cursor(plan)
            },
            Err(e) => {
                &&& e == BootError::OutOfMemory
                &&& remaining_frames(
                    old(early).memmap@,
                    old(early).memmap_index as int,
                    old(early).next_frame as int,
                ) < boot_frames_needed()
            },
        },
{
    let root_frame = match early.allocate_frame() {
        Some(f) => f,
        None => {
            return Err(BootError::OutOfMemory);
        },
    };

    // The direct map and the kernel image consume no frames here; the
    // executor draws page-table node frames as it installs the steps.
    let hhdm_steps = plan_hhdm(&early.memmap);
    let kernel_steps = plan_kernel(kernel);

    // Stack and heap pages come from the early allocator, one frame per
    // page.
    proof {
        crate::paging::lemma_layout_constants_aligned();
    }
    let stack_steps = match plan_fixed_region(early, STACK_BASE, STACK_SIZE / PAGE_SIZE) {
        Ok(s) => s,
        Err(_) => {
            return Err(BootError::OutOfMemory);
        },
    };
    let heap_steps = match plan_fixed_region(early, HEAP_BASE, HEAP_SIZE / PAGE_SIZE) {
        Ok(s) => s,
        Err(_) => {
            return Err(BootError::OutOfMemory);
        },
    };
    proof {
        assert(early.allocated@ =~= old(early).allocated@ + seq![root_frame]
            + stack_steps@.map_values(|p: (MapStep, MapPerms)| p.0.phys)
            + heap_steps@.map_values(|p: (MapStep, MapPerms)| p.0.phys));
    }

    Ok(
        BootPlan {
            root_frame,
            hhdm_steps,
            kernel_steps,
            stack_steps,
            heap_steps,
            stack_top: STACK_BASE + STACK_SIZE,
            heap_base: HEAP_BASE,
            heap_size: HEAP_SIZE,
        },
    )
}

/// Runs the decision side of the whole boot sequence.
///
/// Order, per the trampoline contract: the base-revision check comes
/// first, before any memory operation; the descriptor tables reach
/// `Ready` before anything that could fault; the address space is
/// planned from the early allocator; then the early allocator is
/// consumed — permanently — by the proper allocator.
///
/// Succeeds exactly when the protocol revision is supported and the
/// memory map holds the frames the boot stage itself needs.  The
/// well-formedness of the memory map and the kernel layout is what the
/// boot protocol and the linker script respectively guarantee.
#[verifier::rlimit(60)]
pub fn prepare_boot(
    base_revision_supported: bool,
    memmap: Vec<MemmapEntry>,
    kernel: &KernelLayout,
    dt: &mut DescriptorTables,
    framebuffers: Vec<Framebuffer>,
) -> (r: Result<(BootPlan, BootInfo), BootError>)
    requires
        memmap_wf(memmap@),
        kernel.wf(),
        old(dt).wf(),
        old(dt).stage == DtStage::Uninitialized,
    ensures
        final(dt).wf(),
        r is Ok <==> (base_revision_supported && remaining_frames(memmap@, 0, 0)
            >= boot_frames_needed()),
        match r {
            Ok((plan, info)) => {
                &&& final(dt).stage == DtStage::Ready
                &&& ({
                    let first = early_step(memmap@, 0, 0);
                    first is Some && (first->0).1 == plan.root_frame
                })
                &&& plan.hhdm_steps@ == tag_steps(hhdm_plan(memmap@), region_perms())
                &&& plan.kernel_steps@ == kernel_plan(*kernel)
                &&& tagged_steps_aligned(plan.hhdm_steps@)
                &&& tagged_steps_aligned(plan.kernel_steps@)
                &&& tagged_steps_aligned(plan.stack_steps@)
                &&& tagged_steps_aligned(plan.heap_steps@)
                &&& plan.stack_steps@.len() == STACK_SIZE / PAGE_SIZE
                &&& forall|t: int|
                    0 <= t < plan.stack_steps@.len() ==> (#[trigger] plan.stack_steps@[t]).0.virt
                        == STACK_BASE + t * PAGE_SIZE && plan.stack_steps@[t].0.size
                        == FrameSize::Size4KiB && plan.stack_steps@[t].1 == region_perms()
                &&& plan.heap_steps@.len() == HEAP_SIZE / PAGE_SIZE
                &&& forall|t: int|
                    0 <= t < plan.heap_steps@.len() ==> (#[trigger] plan.heap_steps@[t]).0.virt
                        == HEAP_BASE + t * PAGE_SIZE && plan.heap_steps@[t].0.size
                        == FrameSize::Size4KiB && plan.heap_steps@[t].1 == region_perms()
                &&& plan.stack_top == STACK_BASE + STACK_SIZE
                &&& plan.heap_base == HEAP_BASE
                &&& plan.heap_size == HEAP_SIZE
                &&& info.frame_allocator.wf()
                &&& info.frame_allocator.allocated@ == tag_small(
                    seq![plan.root_frame] + plan.stack_steps@.map_values(
                        |p: (MapStep, MapPerms)| p.0.phys,
                    ) + plan.heap_steps@.map_values(|p: (MapStep, MapPerms)| p.0.phys),
                )
                &&& info.frame_allocator.availables@ == crate::proper::merge_ranges(
                    crate::proper::raw_ranges(memmap@, final_cursor(plan)),
                )
                &&& info.framebuffers == framebuffers
                &&& forall|k1: int, k2: int|
                    #![trigger info.frame_allocator.allocated@[k1], info.frame_allocator.allocated@[k2]]
                    0 <= k1 < k2 < info.frame_allocator.allocated@.len()
                        ==> info.frame_allocator.allocated@[k1].0
                        != info.frame_allocator.allocated@[k2].0
            },
            Err(e) => {
                &&& (e == BootError::UnsupportedBootProtocol <==> !base_revision_supported)
                &&& e == BootError::UnsupportedBootProtocol ==> *final(dt) == *old(dt)
                &&& e == BootError::OutOfMemory ==> remaining_frames(memmap@, 0, 0)
                    < boot_frames_needed() && final(dt).stage == DtStage::Ready
            },
        },
{
    // A missing mandatory protocol answer is fatal before anything else.
    if !base_revision_supported {
        return Err(BootError::UnsupportedBootProtocol);
    }

    // Exception handling must be in place before any step that could
    // plausibly fault.
    init_gdt(dt);
    init_idt(dt);
    mark_ready(dt);

    // Plan the whole new address space from a fresh early allocator.
    let mut early = EarlyFrameAllocator::new(memmap);
    let plan = match plan_address_space(&mut early, kernel) {
        Ok(p) => p,
        Err(e) => {
            return Err(e);
        },
    };

    // The early allocator is consumed: from here on only the proper
    // allocator can hand out frames, and it knows every frame above.
    let ghost final_allocated = early.allocated@;
    let ghost cursor = early.next_frame;
    let frame_allocator = ProperFrameAllocator::new(early);
    proof {
        assert(final_allocated =~= seq![plan.root_frame] + plan.stack_steps@.map_values(
            |p: (MapStep, MapPerms)| p.0.phys,
        ) + plan.heap_steps@.map_values(|p: (MapStep, MapPerms)| p.0.phys));
        assert(cursor == final_cursor(plan));
    }

    proof {
        // The frame record is pairwise distinct: no frame consumed during
        // boot — root, stack or heap — is ever the same address twice.
        crate::proper::lemma_proper_frames_unique(&frame_allocator);
    }
    let info = BootInfo { framebuffers, frame_allocator };
    Ok((plan, info))
}

} // verus!
