use apogee::allocator::bump::BumpAllocator;
use apogee::allocator::fixed_size_block::{block_size, FixedSizeBlockAllocator, NUM_BLOCK_SIZES};
use apogee::allocator::linkedlist::{LinkedListAllocator, ListNode, LIST_NODE_ALIGN, LIST_NODE_SIZE};
use apogee::allocator::{align_up, heap_pages, page_range, HEAP_PAGES, HEAP_SIZE, HEAP_START, PAGE_SIZE};

#[test]
fn test_bump_allocator_empty() {
    let allocator = BumpAllocator::empty();
    assert_eq!(allocator.heap_start(), 0);
    assert_eq!(allocator.heap_end(), 0);
    assert_eq!(allocator.next(), 0);
    assert_eq!(allocator.allocations(), 0);
}

#[test]
fn test_bump_allocator_init() {
    let mut allocator = BumpAllocator::empty();
    allocator.init(0x1000, 4096);
    assert_eq!(allocator.heap_start(), 0x1000);
    assert_eq!(allocator.heap_end(), 0x1000 + 4096);
    assert_eq!(allocator.next(), 0x1000);
    assert_eq!(allocator.allocations(), 0);
}

#[test]
fn test_align_up_function() {
    assert_eq!(align_up(0, 8), 0);
    assert_eq!(align_up(1, 8), 8);
    assert_eq!(align_up(8, 8), 8);
    assert_eq!(align_up(9, 8), 16);
    assert_eq!(align_up(1000, 4096), 4096);
}

#[test]
fn test_bump_allocator_alignment() {
    let mut allocator = BumpAllocator::empty();
    allocator.init(0x1000, 4096);
    let ptr = allocator.allocate(8, 16);
    assert!(ptr.is_some());
    assert_eq!(ptr.unwrap() % 16, 0);
}

#[test]
fn bump_init_saturates_heap_end() {
    let mut allocator = BumpAllocator::empty();
    allocator.init(usize::MAX - 10, 100);
    assert_eq!(allocator.heap_end(), usize::MAX);
}

#[test]
fn bump_allocations_are_disjoint_and_aligned() {
    let mut allocator = BumpAllocator::empty();
    allocator.init(0x1001, 4096);
    let a = allocator.allocate(10, 8).unwrap();
    assert_eq!(a, 0x1008);
    let b = allocator.allocate(3, 4).unwrap();
    assert_eq!(b, 0x1014);
    assert!(a + 10 <= b);
    assert_eq!(allocator.next(), 0x1017);
    assert_eq!(allocator.allocations(), 2);
}

#[test]
fn bump_refuses_what_does_not_fit() {
    let mut allocator = BumpAllocator::empty();
    allocator.init(0x1000, 64);
    assert_eq!(allocator.allocate(65, 1), None);
    assert_eq!(allocator.next(), 0x1000);
    assert_eq!(allocator.allocations(), 0);
    assert_eq!(allocator.allocate(64, 1), Some(0x1000));
    assert_eq!(allocator.allocate(1, 1), None);
}

#[test]
fn bump_reclaims_when_all_freed() {
    let mut allocator = BumpAllocator::empty();
    allocator.init(0x1000, 4096);
    allocator.allocate(100, 8).unwrap();
    allocator.allocate(100, 8).unwrap();
    allocator.dealloc();
    assert_eq!(allocator.next(), 0x1000 + 204);
    allocator.dealloc();
    assert_eq!(allocator.next(), 0x1000);
    assert_eq!(allocator.allocations(), 0);
}

#[test]
fn test_list_node() {
    let mut node1 = ListNode::new(0x2000, 42);
    let node2 = ListNode::new(0x3000, 84);
    node1.set_next(Some(Box::new(node2)));
    assert_eq!(node1.get_value(), 42);
    let next_value = node1.get_next().unwrap().get_value();
    assert_eq!(next_value, 84);
    let node1_start = node1.start_addr();
    let node1_end = node1.end_addr();
    assert_eq!(node1_end - node1_start, LIST_NODE_SIZE);
    assert_eq!(LIST_NODE_SIZE, 16);
    assert_eq!(LIST_NODE_ALIGN, 8);
}

#[test]
fn list_node_take_and_set_value() {
    let mut node = ListNode::new(0x2000, 1);
    node.set_next(Some(Box::new(ListNode::new(0x3000, 2))));
    node.set_value(7);
    assert_eq!(node.get_value(), 7);
    assert_eq!(node.start_addr(), 0x2000);
    node.get_next().unwrap().set_value(9);
    let rest = node.take_next().unwrap();
    assert_eq!(rest.get_value(), 9);
    assert_eq!(rest.start_addr(), 0x3000);
    assert!(node.get_next().is_none());
}

#[test]
fn linked_list_allocator_pops_last_value() {
    let mut allocator = LinkedListAllocator::empty();
    allocator.init(0x1000, 4096);
    assert_eq!(allocator.pop_value(), None);
    let mut second = ListNode::new(0x1100, 5);
    second.set_next(Some(Box::new(ListNode::new(0x1200, 6))));
    allocator.head().set_next(Some(Box::new(second)));
    assert_eq!(allocator.pop_value(), Some(6));
    assert_eq!(allocator.pop_value(), Some(5));
    assert_eq!(allocator.pop_value(), None);
}

#[test]
fn linked_list_allocator_allocates_like_bump() {
    let mut allocator = LinkedListAllocator::empty();
    allocator.init(0x1000, 4096);
    assert_eq!(allocator.allocate(16, 16), Some(0x1000));
    assert_eq!(allocator.allocate(8, 32), Some(0x1020));
    allocator.dealloc();
    allocator.dealloc();
    assert_eq!(allocator.allocate(8, 8), Some(0x1000));
}

#[test]
fn test_heap_start_aligned() {
    assert_eq!(HEAP_START % 4096, 0, "HEAP_START must be page-aligned");
}

#[test]
fn test_heap_size_multiple_of_page() {
    assert_eq!(HEAP_SIZE % 4096, 0, "HEAP_SIZE must be multiple of page size");
}

#[test]
fn test_heap_size_100_kib() {
    assert_eq!(HEAP_SIZE, 100 * 1024, "HEAP_SIZE should be 100 KiB");
}

#[test]
fn test_heap_start_address_range() {
    assert!(HEAP_START > 0x1_0000, "HEAP_START should be in valid address range");
}

#[test]
fn heap_pages_cover_the_heap() {
    let pages = heap_pages();
    assert_eq!(pages.len() as u64, HEAP_PAGES);
    assert_eq!(pages[0], HEAP_START);
    assert_eq!(pages[24], HEAP_START + 24 * PAGE_SIZE);
    assert!(pages[24] + PAGE_SIZE >= HEAP_START + HEAP_SIZE as u64);
}

#[test]
fn page_range_of_unaligned_bytes() {
    assert_eq!(page_range(0x1ff0, 0x20), vec![0x1000, 0x2000]);
    assert_eq!(page_range(0x1000, 1), vec![0x1000]);
    assert_eq!(page_range(0x1000, 0x1001), vec![0x1000, 0x2000]);
}

#[test]
fn test_block_sizes_ascending_powers_of_two() {
    for i in 1..NUM_BLOCK_SIZES {
        assert!(block_size(i - 1) < block_size(i), "BLOCK_SIZES must be ascending");
    }
    for i in 0..NUM_BLOCK_SIZES {
        assert!(block_size(i).is_power_of_two(), "block sizes must be powers of two");
    }
}

#[test]
fn test_list_index_smallest_fit() {
    assert_eq!(FixedSizeBlockAllocator::list_index(1, 1), Some(0));
}

#[test]
fn test_list_index_exact_match() {
    assert_eq!(FixedSizeBlockAllocator::list_index(64, 1), Some(3));
}

#[test]
fn test_list_index_uses_alignment_when_larger() {
    assert_eq!(FixedSizeBlockAllocator::list_index(8, 64), Some(3));
}

#[test]
fn test_list_index_too_large_returns_none() {
    assert_eq!(FixedSizeBlockAllocator::list_index(8192, 1), None);
}

#[test]
fn list_index_boundaries() {
    assert_eq!(FixedSizeBlockAllocator::list_index(4096, 1), Some(9));
    assert_eq!(FixedSizeBlockAllocator::list_index(4097, 1), None);
    assert_eq!(FixedSizeBlockAllocator::list_index(9, 1), Some(1));
}

#[test]
fn test_some_block_can_hold_list_node() {
    let fits = (0..NUM_BLOCK_SIZES)
        .any(|i| block_size(i) >= LIST_NODE_SIZE && block_size(i) >= LIST_NODE_ALIGN);
    assert!(fits, "no slab is large enough to host a ListNode");
}

#[test]
fn test_empty_starts_with_no_cached_blocks() {
    let mut alloc = FixedSizeBlockAllocator::empty();
    alloc.init(0x10_0000, 0x1_0000);
    // With no cached blocks every size class is served by a fresh block.
    assert_eq!(alloc.allocate(16, 16), Some(0x10_0000));
}

#[test]
fn fixed_block_freed_block_is_reused_first() {
    let mut alloc = FixedSizeBlockAllocator::empty();
    alloc.init(0x10_0000, 0x1_0000);
    let a = alloc.allocate(24, 8).unwrap();
    assert_eq!(a, 0x10_0000);
    let b = alloc.allocate(30, 8).unwrap();
    assert_eq!(b, 0x10_0020);
    alloc.dealloc(a, 24, 8);
    alloc.dealloc(b, 30, 8);
    assert_eq!(alloc.allocate(32, 32), Some(b));
    assert_eq!(alloc.allocate(17, 1), Some(a));
    assert_eq!(alloc.allocate(20, 4), Some(0x10_0040));
}

#[test]
fn fixed_block_small_and_large_layouts_use_fallback() {
    let mut alloc = FixedSizeBlockAllocator::empty();
    alloc.init(0x10_0000, 0x10_0000);
    let small = alloc.allocate(4, 4).unwrap();
    assert_eq!(small, 0x10_0000);
    let large = alloc.allocate(5000, 8).unwrap();
    assert_eq!(large, 0x10_0008);
    alloc.dealloc(small, 4, 4);
    alloc.dealloc(large, 5000, 8);
    // Both went back to the fallback, whose count is now zero: it starts over.
    assert_eq!(alloc.allocate(8192, 8), Some(0x10_0000));
}

#[test]
fn fixed_block_out_of_memory_is_none() {
    let mut alloc = FixedSizeBlockAllocator::empty();
    alloc.init(0x10_0000, 4096);
    assert_eq!(alloc.allocate(4096, 4096), Some(0x10_0000));
    assert_eq!(alloc.allocate(4096, 4096), None);
}

#[test]
fn freed_block_serves_only_its_own_class() {
    let mut alloc = FixedSizeBlockAllocator::empty();
    alloc.init(0x10_0000, 0x1_0000);
    let a = alloc.allocate(32, 32).unwrap();
    alloc.dealloc(a, 32, 32);
    // A 16-byte layout is of another class: it gets a fresh block.
    assert_eq!(alloc.allocate(16, 16), Some(0x10_0020));
    // The cached 32-byte block is still there for its own class.
    assert_eq!(alloc.allocate(32, 32), Some(a));
}

#[test]
fn can_allocate_and_can_deallocate() {
    let mut alloc = FixedSizeBlockAllocator::empty();
    alloc.init(0x10_0000, 0x1_0000);
    assert!(alloc.can_allocate(16, 16));
    // Nothing was handed out by the fallback yet, so a block too small to
    // cache cannot be given back to it.
    assert!(!alloc.can_deallocate(4, 4));
    assert!(alloc.can_deallocate(32, 32));
    alloc.allocate(4, 4).unwrap();
    assert!(alloc.can_deallocate(4, 4));
}
