use bootcore::align::FrameSize;
use bootcore::early::EarlyFrameAllocator;
use bootcore::memmap::{EntryKind, MemmapEntry};
use bootcore::proper::{MemRange, ProperFrameAllocator};

fn entry(base: u64, length: u64, kind: EntryKind) -> MemmapEntry {
    MemmapEntry { base, length, kind }
}

/// A region of four pages at 0x1000 serves exactly four sequential
/// frames, then reports exhaustion.
#[test]
fn early_four_pages_then_exhausted() {
    let memmap = vec![entry(0x1000, 0x4000, EntryKind::Usable)];
    let mut alloc = EarlyFrameAllocator::new(memmap);
    assert_eq!(alloc.allocate_frame(), Some(0x1000));
    assert_eq!(alloc.allocate_frame(), Some(0x2000));
    assert_eq!(alloc.allocate_frame(), Some(0x3000));
    assert_eq!(alloc.allocate_frame(), Some(0x4000));
    assert_eq!(alloc.allocate_frame(), None);
}

/// Non-USABLE entries are never allocated from; the cursor jumps across
/// them and every returned frame lies inside a USABLE entry.
#[test]
fn early_skips_non_usable() {
    let memmap = vec![
        entry(0x1000, 0x1000, EntryKind::Reserved),
        entry(0x2000, 0x1000, EntryKind::Usable),
        entry(0x3000, 0x1000, EntryKind::Bad),
        entry(0x4000, 0x1000, EntryKind::BootloaderReclaimable),
        entry(0x5000, 0x2000, EntryKind::Usable),
        entry(0x7000, 0x1000, EntryKind::InUse),
    ];
    let mut alloc = EarlyFrameAllocator::new(memmap);
    assert_eq!(alloc.allocate_frame(), Some(0x2000));
    assert_eq!(alloc.allocate_frame(), Some(0x5000));
    assert_eq!(alloc.allocate_frame(), Some(0x6000));
    assert_eq!(alloc.allocate_frame(), None);
}

/// No frame address is ever returned twice, every address is page
/// aligned, and every frame lies strictly inside a USABLE entry.
#[test]
fn early_frames_unique_aligned_contained() {
    let usable = [(0x1000u64, 0x3000u64), (0x8000, 0x2000)];
    let memmap = vec![
        entry(usable[0].0, usable[0].1, EntryKind::Usable),
        entry(0x4000, 0x1000, EntryKind::Reserved),
        entry(usable[1].0, usable[1].1, EntryKind::Usable),
    ];
    let mut alloc = EarlyFrameAllocator::new(memmap);
    let mut seen = Vec::new();
    while let Some(frame) = alloc.allocate_frame() {
        assert_eq!(frame % 0x1000, 0);
        assert!(!seen.contains(&frame));
        assert!(
            usable
                .iter()
                .any(|(base, len)| *base <= frame && frame + 0x1000 <= base + len),
            "frame {frame:#x} outside every USABLE entry"
        );
        seen.push(frame);
    }
    assert_eq!(seen, vec![0x1000, 0x2000, 0x3000, 0x8000, 0x9000]);
}

/// An empty memory map is exhausted from the start.
#[test]
fn early_empty_map_exhausted() {
    let mut alloc = EarlyFrameAllocator::new(Vec::new());
    assert_eq!(alloc.allocate_frame(), None);
}

/// A cursor that stopped at 0x3000 inside the USABLE region
/// `[0x1000, 0x10000)` leaves exactly the remainder `[0x3000, 0x10000)`
/// to the proper allocator.
#[test]
fn proper_construction_remainder_past_cursor() {
    let memmap = vec![entry(0x1000, 0xf000, EntryKind::Usable)];
    let mut early = EarlyFrameAllocator::new(memmap);
    assert_eq!(early.allocate_frame(), Some(0x1000));
    assert_eq!(early.allocate_frame(), Some(0x2000));
    let proper = ProperFrameAllocator::new(early);
    assert_eq!(proper.availables, vec![MemRange { start: 0x3000, end: 0x10000 }]);
}

/// Reclaimable entries are taken whole, adjacent ranges merge during
/// insertion, and a fully consumed USABLE entry contributes nothing.
#[test]
fn proper_construction_merges_adjacent() {
    let memmap = vec![
        entry(0x1000, 0x1000, EntryKind::Usable),
        entry(0x2000, 0x1000, EntryKind::BootloaderReclaimable),
        entry(0x3000, 0x1000, EntryKind::AcpiReclaimable),
        entry(0x5000, 0x1000, EntryKind::Usable),
    ];
    let mut early = EarlyFrameAllocator::new(memmap);
    // Consume the first USABLE entry entirely.
    assert_eq!(early.allocate_frame(), Some(0x1000));
    let proper = ProperFrameAllocator::new(early);
    assert_eq!(
        proper.availables,
        vec![
            MemRange { start: 0x2000, end: 0x4000 },
            MemRange { start: 0x5000, end: 0x6000 },
        ]
    );
    // The built list is fully merged: no adjacent pair left to merge.
    for w in proper.availables.windows(2) {
        assert_ne!(w[0].end, w[1].start);
    }
}

/// The checked range constructor builds exactly `[base, base + size)`.
#[test]
fn address_range_bounds() {
    let r = MemRange::address_range(0x4000, 0x3000);
    assert_eq!(r, MemRange { start: 0x4000, end: 0x7000 });
}

/// An 8 KiB range cannot serve a 2 MiB frame: the allocator leaves it
/// untouched and takes the frame from the next range.
#[test]
fn proper_skips_range_without_aligned_fit() {
    let memmap = vec![
        entry(0x3000, 0x2000, EntryKind::Usable),
        entry(0x20_0000, 0x40_0000, EntryKind::Usable),
    ];
    let early = EarlyFrameAllocator::new(memmap);
    let mut proper = ProperFrameAllocator::new(early);
    assert_eq!(
        proper.availables,
        vec![
            MemRange { start: 0x3000, end: 0x5000 },
            MemRange { start: 0x20_0000, end: 0x60_0000 },
        ]
    );
    let frame = proper.allocate_frame(FrameSize::Size2MiB);
    assert_eq!(frame, Some(0x20_0000));
    // The small range is unchanged; the served range is trimmed and the
    // space after the block is appended at the back.
    assert_eq!(proper.availables[0], MemRange { start: 0x3000, end: 0x5000 });
    assert_eq!(proper.availables[1], MemRange { start: 0x20_0000, end: 0x20_0000 });
    assert_eq!(proper.availables[2], MemRange { start: 0x40_0000, end: 0x60_0000 });
}

/// Alignment holds for every size class, and dead space before the
/// alignment boundary stays in the original slot.
#[test]
fn proper_aligned_allocation_leaves_head() {
    let memmap = vec![entry(0x1000, 0x60_0000, EntryKind::Usable)];
    let early = EarlyFrameAllocator::new(memmap);
    let mut proper = ProperFrameAllocator::new(early);
    let frame = proper.allocate_frame(FrameSize::Size2MiB);
    assert_eq!(frame, Some(0x20_0000));
    assert_eq!(frame.unwrap() % 0x20_0000, 0);
    // The head below the 2 MiB boundary stays available.
    assert_eq!(proper.availables[0], MemRange { start: 0x1000, end: 0x20_0000 });
    // ... and can still serve 4 KiB frames.
    assert_eq!(proper.allocate_frame(FrameSize::Size4KiB), Some(0x1000));
}

/// A request no range can serve fails and mutates nothing.
#[test]
fn proper_exhaustion_leaves_state() {
    let memmap = vec![entry(0x3000, 0x2000, EntryKind::Usable)];
    let early = EarlyFrameAllocator::new(memmap);
    let mut proper = ProperFrameAllocator::new(early);
    let before = proper.availables.clone();
    assert_eq!(proper.allocate_frame(FrameSize::Size1GiB), None);
    assert_eq!(proper.availables, before);
}

/// Frames stay unique across the early-to-proper hand-off: the proper
/// allocator never re-issues a frame the early allocator handed out.
#[test]
fn handoff_never_reissues_frames() {
    let memmap = vec![entry(0x1000, 0x8000, EntryKind::Usable)];
    let mut early = EarlyFrameAllocator::new(memmap);
    let mut seen = Vec::new();
    for _ in 0..3 {
        seen.push(early.allocate_frame().unwrap());
    }
    let mut proper = ProperFrameAllocator::new(early);
    while let Some(frame) = proper.allocate_frame(FrameSize::Size4KiB) {
        assert!(!seen.contains(&frame));
        seen.push(frame);
    }
    assert_eq!(seen, vec![0x1000, 0x2000, 0x3000, 0x4000, 0x5000, 0x6000, 0x7000, 0x8000]);
}
