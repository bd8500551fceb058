use bootcore::boot::{BootError, prepare_boot};
use bootcore::descriptor::{
    DescriptorTables, DtStage, DOUBLE_FAULT_IST_INDEX, init_gdt, init_idt, mark_ready,
};
use bootcore::memmap::{check_memmap, EntryKind, MemmapEntry};
use bootcore::paging::KernelLayout;
use bootcore::util::InfallibleResultExt;

fn entry(base: u64, length: u64, kind: EntryKind) -> MemmapEntry {
    MemmapEntry { base, length, kind }
}

fn small_kernel() -> KernelLayout {
    KernelLayout {
        phys_base: 0x20_0000,
        text_start: 0xffff_ffff_8000_0000,
        text_end: 0xffff_ffff_8000_1000,
        rodata_start: 0xffff_ffff_8000_1000,
        rodata_end: 0xffff_ffff_8000_2000,
        data_start: 0xffff_ffff_8000_2000,
        data_end: 0xffff_ffff_8000_3000,
        got_start: 0xffff_ffff_8000_3000,
        got_end: 0xffff_ffff_8000_4000,
    }
}

/// The descriptor tables go through their stages strictly in order, and
/// the double-fault handler ends up on the dedicated stack registered by
/// the segment step.
#[test]
fn descriptor_tables_reach_ready_in_order() {
    let mut dt = DescriptorTables::new();
    assert_eq!(dt.stage, DtStage::Uninitialized);
    assert!(!dt.breakpoint.installed);

    init_gdt(&mut dt);
    assert_eq!(dt.stage, DtStage::SegmentsLoaded);
    assert_eq!(dt.exception_stack_slots, 1);
    assert!(!dt.double_fault.installed);

    init_idt(&mut dt);
    assert_eq!(dt.stage, DtStage::VectorsLoaded);
    assert!(dt.breakpoint.installed && dt.breakpoint.recoverable);
    assert!(dt.double_fault.installed && !dt.double_fault.recoverable);
    assert_eq!(dt.double_fault.stack_index, Some(DOUBLE_FAULT_IST_INDEX));
    assert!(dt.page_fault.installed && !dt.page_fault.recoverable);

    mark_ready(&mut dt);
    assert_eq!(dt.stage, DtStage::Ready);
}

/// A full successful boot: revision supported, enough frames; the plan's
/// regions have their documented shapes and the handed-over allocator
/// knows every consumed frame.
#[test]
fn prepare_boot_success() {
    // 64 usable frames: more than the 42 the boot stage itself needs.
    let memmap = vec![entry(0x10_0000, 64 * 0x1000, EntryKind::Usable)];
    assert!(check_memmap(&memmap));
    let mut dt = DescriptorTables::new();
    let (plan, info) =
        prepare_boot(true, memmap, &small_kernel(), &mut dt, Vec::new()).infallible();

    assert_eq!(dt.stage, DtStage::Ready);
    // The root frame is the very first frame of the map.
    assert_eq!(plan.root_frame, 0x10_0000);
    // 16 stack pages and 25 heap pages, virtually sequential.
    assert_eq!(plan.stack_steps.len(), 16);
    assert_eq!(plan.heap_steps.len(), 25);
    assert_eq!(plan.stack_steps[0].0.virt, 0x4888_8888_0000);
    assert_eq!(plan.stack_steps[15].0.virt, 0x4888_8888_f000);
    assert_eq!(plan.stack_top, 0x4888_8888_0000 + 16 * 0x1000);
    assert_eq!(plan.heap_base, 0x4444_4444_0000);
    assert_eq!(plan.heap_steps[0].0.virt, 0x4444_4444_0000);
    // Direct map, stack and heap pages are all writable and no-execute.
    for (_, perms) in plan.hhdm_steps.iter().chain(&plan.stack_steps).chain(&plan.heap_steps) {
        assert!(perms.present && perms.writable && perms.no_execute);
    }
    // The kernel image plan covers the four one-page sections.
    assert_eq!(plan.kernel_steps.len(), 4);
    // Frames are consumed sequentially and never twice.
    let mut consumed = vec![plan.root_frame];
    consumed.extend(plan.stack_steps.iter().map(|s| s.0.phys));
    consumed.extend(plan.heap_steps.iter().map(|s| s.0.phys));
    assert_eq!(consumed.len(), 42);
    for (i, f) in consumed.iter().enumerate() {
        assert_eq!(*f, 0x10_0000 + i as u64 * 0x1000);
    }
    // The proper allocator continues with the remainder.
    assert_eq!(info.frame_allocator.availables[0].start, 0x10_0000 + 42 * 0x1000);
    assert!(info.framebuffers.is_empty());
}

/// A missing base-revision answer is fatal before anything is touched.
#[test]
fn prepare_boot_unsupported_revision() {
    let memmap = vec![entry(0x10_0000, 64 * 0x1000, EntryKind::Usable)];
    let mut dt = DescriptorTables::new();
    let r = prepare_boot(false, memmap, &small_kernel(), &mut dt, Vec::new());
    assert!(matches!(r, Err(BootError::UnsupportedBootProtocol)));
    // The descriptor tables were never advanced.
    assert_eq!(dt.stage, DtStage::Uninitialized);
}

/// The boot stage needs 42 frames for itself: one page-table root, 16
/// stack pages, 25 heap pages.  41 frames fail; 42 succeed.
#[test]
fn prepare_boot_frame_budget_boundary() {
    let short = vec![entry(0x10_0000, 41 * 0x1000, EntryKind::Usable)];
    let mut dt = DescriptorTables::new();
    let r = prepare_boot(true, short, &small_kernel(), &mut dt, Vec::new());
    assert!(matches!(r, Err(BootError::OutOfMemory)));

    let exact = vec![entry(0x10_0000, 42 * 0x1000, EntryKind::Usable)];
    let mut dt = DescriptorTables::new();
    let (_, info) = prepare_boot(true, exact, &small_kernel(), &mut dt, Vec::new()).infallible();
    // Nothing is left over for the proper allocator.
    assert!(info.frame_allocator.availables.iter().all(|r| r.start == r.end));
}

/// `check_memmap` accepts exactly the ordered, aligned, non-overlapping
/// maps the allocators are specified over.
#[test]
fn memmap_validation() {
    assert!(check_memmap(&vec![
        entry(0x1000, 0x1000, EntryKind::Usable),
        entry(0x2000, 0x3000, EntryKind::Reserved),
    ]));
    // Out of order.
    assert!(!check_memmap(&vec![
        entry(0x5000, 0x1000, EntryKind::Usable),
        entry(0x1000, 0x1000, EntryKind::Usable),
    ]));
    // Overlapping.
    assert!(!check_memmap(&vec![
        entry(0x1000, 0x2000, EntryKind::Usable),
        entry(0x2000, 0x1000, EntryKind::Usable),
    ]));
    // Misaligned base and empty entry, for memory the boot stage uses.
    assert!(!check_memmap(&vec![entry(0x1234, 0x1000, EntryKind::Usable)]));
    assert!(!check_memmap(&vec![entry(0x1000, 0, EntryKind::Usable)]));
    // Reserved memory carries no alignment obligation: it is only ever
    // skipped, so a firmware map with odd reserved bounds still boots.
    assert!(check_memmap(&vec![
        entry(0x1000, 0x1000, EntryKind::Usable),
        entry(0x2abc, 0x345, EntryKind::Reserved),
    ]));
    // But in-use memory is direct-mapped and must be aligned.
    assert!(!check_memmap(&vec![entry(0x2abc, 0x345, EntryKind::InUse)]));
}

/// The infallible unwrap hands back the success value unchanged.
#[test]
fn infallible_unwraps() {
    let r: Result<u32, String> = Ok(7);
    assert_eq!(r.infallible(), 7);
}
