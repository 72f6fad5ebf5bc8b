use unikernel::heap::{align_up, BumpAllocator, HEAP_SIZE};

#[test]
fn align_up_rounds_to_next_multiple() {
    assert_eq!(align_up(5, 8), 8);
    assert_eq!(align_up(8, 8), 8);
    assert_eq!(align_up(0, 16), 0);
    assert_eq!(align_up(17, 16), 32);
    assert_eq!(align_up(3, 1), 3);
    assert_eq!(align_up(4097, 4096), 8192);
}

#[test]
fn allocations_are_aligned_and_disjoint() {
    let mut a = BumpAllocator::new();
    assert_eq!(a.next_offset(), 0);
    let p1 = a.allocate(0, 3, 1).unwrap();
    assert_eq!(p1, 0);
    assert_eq!(a.next_offset(), 3);
    let p2 = a.allocate(0, 8, 8).unwrap();
    assert_eq!(p2, 8);
    assert!(p1 + 3 <= p2);
    let p3 = a.allocate(0, 1, 16).unwrap();
    assert_eq!(p3, 16);
    assert_eq!(a.next_offset(), 17);
}

#[test]
fn addresses_are_aligned_whatever_the_base() {
    let base = 0x10_0010;
    let mut a = BumpAllocator::new();
    assert_eq!(a.allocate(base, 1, 1), Some(base));
    let p = a.allocate(base, 64, 64).unwrap();
    assert_eq!(p % 64, 0);
    assert_eq!(p, 0x10_0040);
    assert_eq!(a.next_offset(), 0x30 + 64);
    let q = a.allocate(base, 8, 4096).unwrap();
    assert_eq!(q, 0x10_1000);
    assert!(p + 64 <= q);
}

#[test]
fn exhausted_heap_returns_none_and_keeps_state() {
    let mut a = BumpAllocator::new();
    assert_eq!(a.allocate(0, HEAP_SIZE - 10, 1), Some(0));
    assert_eq!(a.allocate(0, 16, 8), None);
    assert_eq!(a.next_offset(), HEAP_SIZE - 10);
    assert_eq!(a.allocate(0, 8, 2), Some(HEAP_SIZE - 10));
    assert_eq!(a.next_offset(), HEAP_SIZE - 2);
    assert_eq!(a.allocate(0, 3, 1), None);
    assert_eq!(a.allocate(0, 2, 1), Some(HEAP_SIZE - 2));
    assert_eq!(a.next_offset(), HEAP_SIZE);
    assert_eq!(a.allocate(0, 0, 1), Some(HEAP_SIZE));
    assert_eq!(a.allocate(0, 0, 2), Some(HEAP_SIZE));
    assert_eq!(a.allocate(0, 1, 1), None);
}

#[test]
fn dealloc_gives_nothing_back() {
    let mut a = BumpAllocator::new();
    let p = a.allocate(0, 100, 4).unwrap();
    a.dealloc(p, 100, 4);
    assert_eq!(a.next_offset(), 100);
    assert_eq!(a.allocate(0, 4, 4), Some(100));
}

#[test]
fn whole_heap_in_one_allocation() {
    let mut a = BumpAllocator::new();
    assert_eq!(a.allocate(0, HEAP_SIZE + 1, 1), None);
    assert_eq!(a.allocate(0, HEAP_SIZE, 4096), Some(0));
}

#[test]
fn alignment_gap_past_heap_end_is_refused() {
    let mut a = BumpAllocator::new();
    assert_eq!(a.allocate(8, 0, HEAP_SIZE * 2), None);
    assert_eq!(a.next_offset(), 0);
}
