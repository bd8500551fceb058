use bootcore::align::FrameSize;
use bootcore::early::EarlyFrameAllocator;
use bootcore::memmap::{EntryKind, MemmapEntry};
use bootcore::paging::{
    HHDM_OFFSET, MapRangeError, MapStep, MapToError, plan_fixed_region, plan_hhdm, plan_kernel,
    plan_range, KernelLayout,
};

fn entry(base: u64, length: u64, kind: EntryKind) -> MemmapEntry {
    MemmapEntry { base, length, kind }
}

#[test]
fn plan_range_single_small_page() {
    let steps = plan_range(0x2000, 0x5000, 0x1000).unwrap();
    assert_eq!(steps, vec![MapStep { phys: 0x2000, virt: 0x5000, size: FrameSize::Size4KiB }]);
}

#[test]
fn plan_range_prefers_huge_page() {
    let steps = plan_range(0x4000_0000, 0x4000_0000, 0x4000_0000).unwrap();
    assert_eq!(
        steps,
        vec![MapStep { phys: 0x4000_0000, virt: 0x4000_0000, size: FrameSize::Size1GiB }]
    );
}

/// The greedy planner switches size classes at alignment boundaries:
/// small pages up to the 2 MiB boundary, a large page across it, small
/// pages for the tail.
#[test]
fn plan_range_mixed_sizes() {
    let steps = plan_range(0x1f_f000, 0x1f_f000, 0x1000 + 0x20_0000 + 0x1000).unwrap();
    assert_eq!(
        steps,
        vec![
            MapStep { phys: 0x1f_f000, virt: 0x1f_f000, size: FrameSize::Size4KiB },
            MapStep { phys: 0x20_0000, virt: 0x20_0000, size: FrameSize::Size2MiB },
            MapStep { phys: 0x40_0000, virt: 0x40_0000, size: FrameSize::Size4KiB },
        ]
    );
}

/// Large pages are only used when physical and virtual addresses agree
/// on alignment; a skewed offset falls back to small pages.
#[test]
fn plan_range_skewed_offset_stays_small() {
    let steps = plan_range(0x1000, 0x20_0000, 0x2000).unwrap();
    assert_eq!(
        steps,
        vec![
            MapStep { phys: 0x1000, virt: 0x20_0000, size: FrameSize::Size4KiB },
            MapStep { phys: 0x2000, virt: 0x20_1000, size: FrameSize::Size4KiB },
        ]
    );
}

#[test]
fn plan_range_empty_is_empty() {
    assert_eq!(plan_range(0x1000, 0x2000, 0).unwrap(), Vec::new());
}

#[test]
fn plan_range_rejects_misaligned() {
    assert_eq!(plan_range(0x1001, 0x2000, 0x1000), Err(MapRangeError::AddressNotAligned));
    assert_eq!(plan_range(0x1000, 0x2001, 0x1000), Err(MapRangeError::AddressNotAligned));
    assert_eq!(plan_range(0x1000, 0x2000, 0x800), Err(MapRangeError::AddressNotAligned));
}

#[test]
fn map_range_error_classification() {
    let oom = MapRangeError::MapToError2MiB(MapToError::FrameAllocationFailed);
    assert!(oom.is_out_of_memory());
    assert!(!oom.is_already_mapped());

    let overlap = MapRangeError::MapToError4KiB(MapToError::PageAlreadyMapped);
    assert!(!overlap.is_out_of_memory());
    assert!(overlap.is_already_mapped());

    let huge = MapRangeError::MapToError1GiB(MapToError::ParentEntryHugePage);
    assert!(huge.is_already_mapped());

    let misaligned = MapRangeError::AddressNotAligned;
    assert!(!misaligned.is_out_of_memory());
    assert!(!misaligned.is_already_mapped());
}

/// The direct map covers USABLE, reclaimable and in-use entries at their
/// offset-translated addresses — writable and no-execute — and leaves
/// RESERVED and BAD memory out.
#[test]
fn hhdm_plan_skips_reserved() {
    let memmap = vec![
        entry(0x1000, 0x2000, EntryKind::Usable),
        entry(0x3000, 0x1000, EntryKind::Reserved),
        entry(0x4000, 0x1000, EntryKind::Bad),
        entry(0x5000, 0x1000, EntryKind::AcpiReclaimable),
        entry(0x6000, 0x1000, EntryKind::InUse),
    ];
    let steps = plan_hhdm(&memmap);
    let expected = [
        MapStep { phys: 0x1000, virt: HHDM_OFFSET + 0x1000, size: FrameSize::Size4KiB },
        MapStep { phys: 0x2000, virt: HHDM_OFFSET + 0x2000, size: FrameSize::Size4KiB },
        MapStep { phys: 0x5000, virt: HHDM_OFFSET + 0x5000, size: FrameSize::Size4KiB },
        MapStep { phys: 0x6000, virt: HHDM_OFFSET + 0x6000, size: FrameSize::Size4KiB },
    ];
    assert_eq!(steps.len(), expected.len());
    for (got, want) in steps.iter().zip(expected.iter()) {
        assert_eq!(got.0, *want);
        // Every direct-map page is present, writable, never executable.
        assert!(got.1.present && got.1.writable && got.1.no_execute);
    }
}

/// Kernel sections map at their link-time addresses, physically
/// contiguous in section order, with the permissions each section needs.
#[test]
fn kernel_plan_contiguous_with_permissions() {
    let layout = KernelLayout {
        phys_base: 0x10_0000,
        text_start: 0xffff_ffff_8000_0000,
        text_end: 0xffff_ffff_8000_2000,
        rodata_start: 0xffff_ffff_8000_2000,
        rodata_end: 0xffff_ffff_8000_3000,
        data_start: 0xffff_ffff_8000_3000,
        data_end: 0xffff_ffff_8000_5000,
        got_start: 0xffff_ffff_8000_5000,
        got_end: 0xffff_ffff_8000_6000,
    };
    let steps = plan_kernel(&layout);
    assert_eq!(steps.len(), 6);

    // Code: executable, read-only.
    assert_eq!(steps[0].0, MapStep {
        phys: 0x10_0000,
        virt: 0xffff_ffff_8000_0000,
        size: FrameSize::Size4KiB,
    });
    assert!(steps[0].1.present && !steps[0].1.writable && !steps[0].1.no_execute);
    assert_eq!(steps[1].0.phys, 0x10_1000);

    // Read-only data follows the code physically.
    assert_eq!(steps[2].0, MapStep {
        phys: 0x10_2000,
        virt: 0xffff_ffff_8000_2000,
        size: FrameSize::Size4KiB,
    });
    assert!(steps[2].1.present && !steps[2].1.writable && steps[2].1.no_execute);

    // Writable data is the only writable section.
    assert_eq!(steps[3].0.phys, 0x10_3000);
    assert!(steps[3].1.writable && steps[3].1.no_execute);
    assert_eq!(steps[4].0.phys, 0x10_4000);

    // The relocation table is writable — its entries are patched at
    // load time — and never executable.
    assert_eq!(steps[5].0, MapStep {
        phys: 0x10_5000,
        virt: 0xffff_ffff_8000_5000,
        size: FrameSize::Size4KiB,
    });
    assert!(steps[5].1.present && steps[5].1.writable && steps[5].1.no_execute);
}

/// A fixed region takes one fresh frame per page, mapped in order, each
/// page present, writable and never executable.
#[test]
fn fixed_region_sequential_pages() {
    let memmap = vec![entry(0x1000, 0x10000, EntryKind::Usable)];
    let mut alloc = EarlyFrameAllocator::new(memmap);
    let steps = plan_fixed_region(&mut alloc, 0x4444_0000, 3).unwrap();
    let expected = [
        MapStep { phys: 0x1000, virt: 0x4444_0000, size: FrameSize::Size4KiB },
        MapStep { phys: 0x2000, virt: 0x4444_1000, size: FrameSize::Size4KiB },
        MapStep { phys: 0x3000, virt: 0x4444_2000, size: FrameSize::Size4KiB },
    ];
    assert_eq!(steps.len(), expected.len());
    for (got, want) in steps.iter().zip(expected.iter()) {
        assert_eq!(got.0, *want);
        assert!(got.1.present && got.1.writable && got.1.no_execute);
    }
}

/// A region larger than the remaining frames fails with exhaustion.
#[test]
fn fixed_region_exhaustion() {
    let memmap = vec![entry(0x1000, 0x2000, EntryKind::Usable)];
    let mut alloc = EarlyFrameAllocator::new(memmap);
    let r = plan_fixed_region(&mut alloc, 0x4444_0000, 3);
    assert_eq!(r, Err(MapRangeError::MapToError4KiB(MapToError::FrameAllocationFailed)));
}
