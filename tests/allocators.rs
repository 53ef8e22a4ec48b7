use rust_os::allocator::bump::BumpAllocator;
use rust_os::allocator::fixed_size_block::{block_size, list_index, FixedSizeBlockAllocator};
use rust_os::allocator::linked_list::{LinkedListAllocator, ListNode};
use rust_os::allocator::{align_up, is_power_of_two_u64, Dummy, HEAP_SIZE, HEAP_START};

#[test]
fn align_up_rounds_to_multiple() {
    assert_eq!(align_up(0, 8), Some(0));
    assert_eq!(align_up(1, 8), Some(8));
    assert_eq!(align_up(8, 8), Some(8));
    assert_eq!(align_up(4097, 4096), Some(8192));
    assert_eq!(align_up(u64::MAX, 2), None);
}

#[test]
fn power_of_two_test() {
    assert!(is_power_of_two_u64(1));
    assert!(is_power_of_two_u64(2));
    assert!(is_power_of_two_u64(4096));
    assert!(is_power_of_two_u64(1 << 63));
    assert!(!is_power_of_two_u64(0));
    assert!(!is_power_of_two_u64(3));
    assert!(!is_power_of_two_u64(4097));
    assert!(!is_power_of_two_u64(u64::MAX));
}

#[test]
fn dummy_never_allocates() {
    assert_eq!(Dummy.allocate(8, 8), None);
}

#[test]
fn bump_allocates_aligned_and_in_order() {
    let mut bump = BumpAllocator::new();
    bump.init(1000, 100);
    assert_eq!(bump.allocate(3, 1), Some(1000));
    assert_eq!(bump.allocate(8, 8), Some(1008));
    assert_eq!(bump.allocate(16, 32), Some(1024));
    // 1040 + 61 > 1100
    assert_eq!(bump.allocate(61, 1), None);
    assert_eq!(bump.allocate(60, 1), Some(1040));
    assert_eq!(bump.allocate(1, 1), None);
}

#[test]
fn bump_resets_when_all_returned() {
    let mut bump = BumpAllocator::new();
    bump.init(HEAP_START, HEAP_SIZE);
    let a = bump.allocate(100, 8).unwrap();
    let b = bump.allocate(200, 16).unwrap();
    assert_eq!(a, HEAP_START);
    assert!(b > a);
    bump.deallocate(a, 100, 8);
    // one block still live: the cursor stays
    assert_eq!(b, HEAP_START + 112);
    let c = bump.allocate(4, 4).unwrap();
    assert_eq!(c, HEAP_START + 312);
    bump.deallocate(b, 200, 16);
    assert_eq!(bump.allocate(0x10, 1), Some(HEAP_START + 316));
    bump.deallocate(c, 4, 4);
    bump.deallocate(HEAP_START + 316, 0x10, 1);
    assert_eq!(bump.allocate(4, 4), Some(HEAP_START));
}

#[test]
fn bump_results_lie_in_heap_and_are_aligned() {
    let mut bump = BumpAllocator::new();
    bump.init(HEAP_START + 3, 5000);
    let mut aligns: Vec<u64> = Vec::new();
    for k in 0..10u32 {
        aligns.push(1u64 << k);
    }
    for (i, align) in aligns.iter().enumerate() {
        let size = (i as u64) * 7 + 1;
        let p = bump.allocate(size, *align).unwrap();
        assert_eq!(p % align, 0);
        assert!(p >= HEAP_START + 3);
        assert!(p + size <= HEAP_START + 5003);
    }
}

#[test]
fn list_node_addresses() {
    let n = ListNode::new(64, 32);
    assert_eq!(n.start_addr(), 64);
    assert_eq!(n.end_addr(), 96);
}

#[test]
fn linked_list_size_align_adjusts_for_node() {
    assert_eq!(LinkedListAllocator::size_align(1, 1), (16, 8));
    assert_eq!(LinkedListAllocator::size_align(17, 1), (24, 8));
    assert_eq!(LinkedListAllocator::size_align(24, 16), (32, 16));
    assert_eq!(LinkedListAllocator::size_align(100, 64), (128, 64));
}

#[test]
fn linked_list_first_fit_and_reuse() {
    let mut a = LinkedListAllocator::new();
    a.init(4096, 256);
    let p = a.allocate(32, 8).unwrap();
    assert_eq!(p, 4096);
    let q = a.allocate(32, 8).unwrap();
    assert_eq!(q, 4128);
    // aligned request skips ahead inside the tail region
    let r = a.allocate(16, 64).unwrap();
    assert_eq!(r, 4160);
    a.deallocate(p, 32, 8);
    // the freed block is at the front of the list and fits first
    assert_eq!(a.allocate(32, 8), Some(4096));
    a.deallocate(4096, 32, 8);
    // 24 bytes would leave 8 of the freed block, too little for a node
    assert_eq!(a.allocate(24, 8), Some(4224));
    // the tail of the split region went to the front
    assert_eq!(a.allocate(32, 8), Some(4248));
    assert_eq!(a.allocate(32, 8), Some(4280));
}

#[test]
fn linked_list_exhaustion_returns_none() {
    let mut a = LinkedListAllocator::new();
    a.init(0x1000, 64);
    assert_eq!(a.allocate(64, 8), Some(0x1000));
    assert_eq!(a.allocate(1, 1), None);
}

#[test]
fn linked_list_rejects_region_leaving_tiny_tail() {
    let mut a = LinkedListAllocator::new();
    a.init(0x1000, 40);
    // 32 bytes would leave 8, too little for a node: the region is skipped
    assert_eq!(a.allocate(32, 8), None);
    assert_eq!(a.allocate(40, 8), Some(0x1000));
}

#[test]
fn linked_list_live_blocks_are_disjoint() {
    let mut a = LinkedListAllocator::new();
    a.init(HEAP_START, HEAP_SIZE);
    let mut live: Vec<(u64, u64, u64)> = Vec::new();
    for i in 0..50u64 {
        let size = 8 + (i * 13) % 100;
        let align = 1u64 << (i % 7);
        let p = a.allocate(size, align).unwrap();
        assert_eq!(p % align, 0);
        live.push((p, size, align));
    }
    let mut kept: Vec<(u64, u64, u64)> = Vec::new();
    for (i, (p, size, align)) in live.iter().enumerate() {
        if i % 3 == 0 {
            a.deallocate(*p, *size, *align);
        } else {
            kept.push((*p, *size, *align));
        }
    }
    for i in 0..20u64 {
        let size = 4 + i * 5;
        let p = a.allocate(size, 8).unwrap();
        kept.push((p, size, 8));
    }
    for (i, (p, s, _)) in kept.iter().enumerate() {
        assert!(*p >= HEAP_START && p + s <= HEAP_START + HEAP_SIZE);
        for (q, t, _) in kept.iter().skip(i + 1) {
            assert!(p + s <= *q || q + t <= *p);
        }
    }
}

#[test]
fn fixed_block_list_index() {
    assert_eq!(list_index(1, 1), Some(0));
    assert_eq!(list_index(16, 8), Some(0));
    assert_eq!(list_index(17, 8), Some(1));
    assert_eq!(list_index(24, 8), Some(1));
    assert_eq!(list_index(8, 128), Some(3));
    assert_eq!(list_index(2048, 8), Some(7));
    assert_eq!(list_index(2049, 8), None);
    assert_eq!(block_size(0), 16);
    assert_eq!(block_size(7), 2048);
}

#[test]
fn fixed_block_churn_is_lifo() {
    let mut a = FixedSizeBlockAllocator::new();
    a.init(HEAP_START, HEAP_SIZE);
    let mut last = 0;
    for _ in 0..10_000 {
        let p = a.allocate(24, 8).unwrap();
        assert_eq!(p % 32, 0);
        a.deallocate(p, 24, 8);
        last = p;
    }
    assert_eq!(a.allocate(24, 8), Some(last));
}

#[test]
fn fixed_block_reuses_most_recently_freed() {
    let mut a = FixedSizeBlockAllocator::new();
    a.init(HEAP_START, HEAP_SIZE);
    let p = a.allocate(24, 8).unwrap();
    let q = a.allocate(30, 4).unwrap();
    assert_ne!(p, q);
    a.deallocate(p, 24, 8);
    a.deallocate(q, 30, 4);
    assert_eq!(a.allocate(20, 8), Some(q));
    assert_eq!(a.allocate(20, 8), Some(p));
}

#[test]
fn fixed_block_large_requests_use_fallback() {
    let mut a = FixedSizeBlockAllocator::new();
    a.init(HEAP_START, HEAP_SIZE);
    let big = a.allocate(4000, 8).unwrap();
    assert!(big >= HEAP_START && big + 4000 <= HEAP_START + HEAP_SIZE);
    a.deallocate(big, 4000, 8);
    assert_eq!(a.allocate(4000, 8), Some(big));
    assert_eq!(a.allocate(HEAP_SIZE, 8), None);
}

#[test]
fn heap_holds_a_growing_vector() {
    // a vector of 500 four-byte integers that doubles its capacity as it grows
    let mut a = FixedSizeBlockAllocator::new();
    a.init(HEAP_START, HEAP_SIZE);
    let mut cap: u64 = 4;
    let mut ptr = a.allocate(cap * 4, 4).unwrap();
    for len in 0..500u64 {
        if len == cap {
            let bigger = a.allocate(cap * 8, 4).unwrap();
            a.deallocate(ptr, cap * 4, 4);
            ptr = bigger;
            cap *= 2;
        }
    }
    assert!(cap >= 500);
    assert!(ptr >= HEAP_START && ptr + cap * 4 <= HEAP_START + HEAP_SIZE);
}
