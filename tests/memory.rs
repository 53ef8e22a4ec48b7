use rust_os::allocator::{HeapMapping, HeapStep, MapToError, HEAP_SIZE, HEAP_START};
use rust_os::memory::{
    nth_usable_frame, translate_addr, BootInfoFrameAllocator, MemoryRegion, PageTables,
    HUGE_PAGE, PRESENT, WRITABLE,
};

fn region(start: u64, end: u64, usable: bool) -> MemoryRegion {
    MemoryRegion { start, end, usable }
}

#[test]
fn frames_come_from_usable_regions_in_order() {
    let map = vec![
        region(0x0, 0x2000, true),
        region(0x2000, 0x10000, false),
        region(0x10800, 0x13000, true),
    ];
    let mut frames = BootInfoFrameAllocator::init(map);
    assert_eq!(frames.allocate_frame(), Some(0x0));
    assert_eq!(frames.allocate_frame(), Some(0x1000));
    // the unaligned region starts at its first whole frame
    assert_eq!(frames.allocate_frame(), Some(0x11000));
    assert_eq!(frames.allocate_frame(), Some(0x12000));
    assert_eq!(frames.allocate_frame(), None);
    assert_eq!(frames.allocate_frame(), None);
}

#[test]
fn nth_usable_frame_skips_partial_frames() {
    let map = vec![region(0x100, 0x1100, true), region(0x5000, 0x7000, true)];
    assert_eq!(nth_usable_frame(&map, 0), Some(0x5000));
    assert_eq!(nth_usable_frame(&map, 1), Some(0x6000));
    assert_eq!(nth_usable_frame(&map, 2), None);
}

fn table_with(entries: &[(usize, u64)]) -> Vec<u64> {
    let mut t = vec![0u64; 512];
    for (i, e) in entries {
        t[*i] = *e;
    }
    t
}

/// Page tables that map the page of `0x0000_1234_5678_9000`.
fn sample_tables() -> (PageTables, u64) {
    let addr: u64 = 0x0000_1234_5678_9abc;
    let i4 = ((addr >> 39) & 0x1ff) as usize;
    let i3 = ((addr >> 30) & 0x1ff) as usize;
    let i2 = ((addr >> 21) & 0x1ff) as usize;
    let i1 = ((addr >> 12) & 0x1ff) as usize;
    let mut pt = PageTables::new(0x1000);
    pt.set_table(0x1000, table_with(&[(i4, 0x2000 | PRESENT | WRITABLE)]));
    pt.set_table(0x2000, table_with(&[(i3, 0x3000 | PRESENT)]));
    pt.set_table(0x3000, table_with(&[(i2, 0x4000 | PRESENT)]));
    pt.set_table(0x4000, table_with(&[(i1, 0xabc000 | PRESENT)]));
    (pt, addr)
}

#[test]
fn translate_walks_four_levels() {
    let (pt, addr) = sample_tables();
    assert_eq!(translate_addr(&pt, addr), Some(0xabcabc));
    assert_eq!(translate_addr(&pt, addr & !0xfff), Some(0xabc000));
}

#[test]
fn translate_not_present_is_none() {
    let (pt, addr) = sample_tables();
    // next page: same upper tables, empty level-1 entry
    assert_eq!(translate_addr(&pt, addr + 0x1000), None);
    // another level-4 slot
    assert_eq!(translate_addr(&pt, 0x0000_7000_0000_0000), None);
    assert_eq!(translate_addr(&pt, 0), None);
}

#[test]
fn translate_uses_each_index() {
    // the same tables answer only for the address whose indices lead there
    let (pt, addr) = sample_tables();
    assert_eq!(translate_addr(&pt, addr ^ (1 << 39)), None);
    assert_eq!(translate_addr(&pt, addr ^ (1 << 30)), None);
    assert_eq!(translate_addr(&pt, addr ^ (1 << 21)), None);
    assert_eq!(translate_addr(&pt, addr ^ (1 << 12)), None);
    assert_eq!(translate_addr(&pt, addr ^ 0x001), Some(0xabcabd));
}

#[test]
fn huge_page_bit_value() {
    assert_eq!(HUGE_PAGE, 0x80);
}

#[test]
fn heap_mapping_covers_each_page_once() {
    let map = vec![region(0x100000, 0x100000 + 64 * 4096, true)];
    let mut frames = BootInfoFrameAllocator::init(map);
    let mut mapping = HeapMapping::new(HEAP_START, HEAP_SIZE);
    let mut pages: Vec<(u64, u64)> = Vec::new();
    loop {
        match mapping.next_step(&mut frames).unwrap() {
            HeapStep::MapPage { page, frame } => pages.push((page, frame)),
            HeapStep::Done => break,
        }
    }
    assert_eq!(pages.len(), 25);
    for (k, (page, frame)) in pages.iter().enumerate() {
        assert_eq!(*page, HEAP_START + 4096 * k as u64);
        assert_eq!(*frame, 0x100000 + 4096 * k as u64);
    }
    assert_eq!(mapping.next_step(&mut frames), Ok(HeapStep::Done));
}

#[test]
fn heap_mapping_fails_without_frames() {
    let map = vec![region(0x100000, 0x100000 + 3 * 4096, true)];
    let mut frames = BootInfoFrameAllocator::init(map);
    let mut mapping = HeapMapping::new(HEAP_START, HEAP_SIZE);
    for _ in 0..3 {
        assert!(matches!(mapping.next_step(&mut frames), Ok(HeapStep::MapPage { .. })));
    }
    assert_eq!(mapping.next_step(&mut frames), Err(MapToError::FrameAllocationFailed));
}

#[test]
fn heap_mapping_of_unaligned_range() {
    let mapping = HeapMapping::new(0x1800, 0x1000);
    assert_eq!(mapping.next_page, 0x1000);
    assert_eq!(mapping.end, 0x3000);
}
