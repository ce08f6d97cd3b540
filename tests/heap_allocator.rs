use kernel_memory::heap_allocator::{HeapAllocator, Near, HEAD_SIZE};
use kernel_memory::paging::VirtualAddr;
use kernel_memory::MemoryError;

#[test]
fn scenario_in_a_small_heap() {
    let mut heap = HeapAllocator::new(0x1000, 0x2000);
    let a = heap.allocate(16, 4);
    assert_eq!(a, 0x1024);
    assert_eq!(heap.head_of_heap_heads(), Some(0x1000));
    assert_eq!(a % 4, 0);
    assert!(a + 16 <= 0x2000);

    let b = heap.allocate(32, 8);
    assert_eq!(b, 0x1068);
    assert!(b >= a + 16);
    assert_eq!(b % 8, 0);

    assert_eq!(heap.deallocate(a, 16, 4), Ok(()));
    let c = heap.allocate(8, 2);
    // The freed leading gap is used again.
    assert_eq!(c, 0x1022);
    assert_eq!(heap.head_of_heap_heads(), Some(0x1000));
    assert_eq!(heap.len(), 2);
}

#[test]
fn headers_link_to_their_neighbours() {
    let mut heap = HeapAllocator::new(0x1000, 0x2000);
    let a = heap.allocate(16, 4);
    let b = heap.allocate(32, 8);
    assert_eq!(heap.len(), 2);
    let first = heap.head(0);
    let second = heap.head(1);
    assert_eq!(first.addr, 0x1000);
    assert_eq!(first.allocated_space, a);
    assert_eq!(first.dim, 16);
    assert_eq!(first.prev, Near::Base(VirtualAddr::new(0x1000)));
    assert_eq!(first.next, Near::HeapHead(0x1040));
    assert_eq!(second.addr, 0x1040);
    assert_eq!(second.allocated_space, b);
    assert_eq!(second.prev, Near::HeapHead(0x1000));
    assert_eq!(second.next, Near::Tail(VirtualAddr::new(0x2000)));
    assert_eq!(second.addr % HEAD_SIZE, 0);
}

#[test]
fn live_blocks_are_aligned_and_disjoint() {
    let mut heap = HeapAllocator::new(0x10_0000, 0x10_8000);
    let layouts: [(usize, usize); 8] =
        [(3, 2), (5, 4), (6, 4), (9, 8), (100, 16), (1, 1), (64, 64), (40, 8)];
    let mut live: Vec<(usize, usize)> = Vec::new();
    for &(size, align) in layouts.iter() {
        let p = heap.allocate(size, align);
        assert_ne!(p, 0);
        assert_eq!(p % align, 0);
        assert!(p > 0x10_0000 && p + size <= 0x10_8000);
        live.push((p, size));
    }
    for i in 0..live.len() {
        for j in 0..live.len() {
            if i != j {
                let (p, s) = live[i];
                let (q, t) = live[j];
                assert!(p + s <= q || q + t <= p);
            }
        }
    }
    // Free every other block, allocate again, and check once more.
    for k in [1usize, 3, 5] {
        let (p, s) = live[k];
        assert_eq!(heap.deallocate(p, s, layouts[k].1), Ok(()));
    }
    let mut now: Vec<(usize, usize)> = vec![live[0], live[2], live[4], live[6], live[7]];
    for &(size, align) in [(4usize, 4usize), (2, 2), (12, 4)].iter() {
        let p = heap.allocate(size, align);
        assert_ne!(p, 0);
        assert_eq!(p % align, 0);
        now.push((p, size));
    }
    for i in 0..now.len() {
        for j in 0..now.len() {
            if i != j {
                let (p, s) = now[i];
                let (q, t) = now[j];
                assert!(p + s <= q || q + t <= p);
            }
        }
    }
}

#[test]
fn alloc_then_dealloc_restores_the_chain() {
    let mut heap = HeapAllocator::new(0x1000, 0x2000);
    let first = heap.allocate(16, 4);
    assert_eq!(heap.len(), 1);
    assert_eq!(heap.deallocate(first, 16, 4), Ok(()));
    assert_eq!(heap.len(), 0);
    assert_eq!(heap.head_of_heap_heads(), None);
    assert_eq!(heap.allocate(16, 4), first);
}

#[test]
fn round_trip_in_the_middle_of_the_chain() {
    let mut heap = HeapAllocator::new(0x1000, 0x3000);
    let _a = heap.allocate(10, 2);
    let b = heap.allocate(20, 4);
    let _c = heap.allocate(30, 8);
    let before: Vec<_> = (0..heap.len()).map(|i| heap.head(i)).collect();
    assert_eq!(heap.deallocate(b, 20, 4), Ok(()));
    assert_eq!(heap.len(), 2);
    assert_eq!(heap.head(0).next, Near::HeapHead(heap.head(1).addr));
    assert_eq!(heap.head(1).prev, Near::HeapHead(heap.head(0).addr));
    let again = heap.allocate(20, 4);
    assert_eq!(again, b);
    let after: Vec<_> = (0..heap.len()).map(|i| heap.head(i)).collect();
    assert_eq!(before, after);
}

#[test]
fn empty_heap_too_small_is_out_of_memory() {
    let mut heap = HeapAllocator::new(0x1000, 0x1020);
    assert_eq!(heap.try_allocate(1, 1), Err(MemoryError::OutOfMemory));
    assert_eq!(heap.allocate(1, 1), 0);
    assert_eq!(heap.len(), 0);
}

#[test]
fn full_heap_has_no_fitting_gap() {
    let mut heap = HeapAllocator::new(0x1000, 0x1060);
    assert_eq!(heap.allocate(16, 4), 0x1024);
    assert_eq!(heap.try_allocate(64, 4), Err(MemoryError::AllocImpossible));
    assert_eq!(heap.allocate(64, 4), 0);
    assert_eq!(heap.len(), 1);
}

#[test]
fn block_filling_the_heap_exactly_fits() {
    // Header at 0x1000, payload at 0x1021, 31 bytes up to the end.
    let mut heap = HeapAllocator::new(0x1000, 0x1040);
    assert_eq!(heap.try_allocate(31, 1), Ok(0x1021));
    assert_eq!(heap.try_allocate(1, 1), Err(MemoryError::AllocImpossible));
    let mut heap = HeapAllocator::new(0x1000, 0x1040);
    assert_eq!(heap.try_allocate(32, 1), Err(MemoryError::OutOfMemory));
}

#[test]
fn payload_offset_must_fit_the_marker_byte() {
    // With 256-byte alignment the payload would sit 256 bytes past its header.
    let mut heap = HeapAllocator::new(0x1F00, 0x3000);
    assert_eq!(heap.allocate(8, 256), 0);
    // With 128-byte alignment it sits 128 bytes past it.
    assert_eq!(heap.allocate(8, 128), 0x1F80);
}

#[test]
fn zero_sized_block_gets_its_own_header() {
    let mut heap = HeapAllocator::new(0x1000, 0x2000);
    let a = heap.allocate(0, 1);
    let b = heap.allocate(0, 1);
    assert_eq!(a, 0x1021);
    assert_eq!(b, 0x1061);
    assert_eq!(heap.len(), 2);
}

#[test]
fn dealloc_with_wrong_size_is_corrupt() {
    let mut heap = HeapAllocator::new(0x1000, 0x2000);
    let a = heap.allocate(16, 4);
    assert_eq!(heap.deallocate(a, 17, 4), Err(MemoryError::CorruptFree));
    assert_eq!(heap.len(), 1);
}

#[test]
fn dealloc_with_wrong_alignment_is_corrupt() {
    let mut heap = HeapAllocator::new(0x1000, 0x2000);
    let a = heap.allocate(16, 4);
    assert_eq!(a % 8, 4);
    assert_eq!(heap.deallocate(a, 16, 8), Err(MemoryError::CorruptFree));
    assert_eq!(heap.len(), 1);
}

#[test]
fn dealloc_of_unknown_pointer_is_corrupt() {
    let mut heap = HeapAllocator::new(0x1000, 0x2000);
    let a = heap.allocate(16, 4);
    assert_eq!(heap.deallocate(a + 4, 16, 4), Err(MemoryError::CorruptFree));
    assert_eq!(heap.deallocate(a, 16, 4), Ok(()));
    assert_eq!(heap.deallocate(a, 16, 4), Err(MemoryError::CorruptFree));
}

#[test]
fn freeing_the_head_moves_the_head() {
    let mut heap = HeapAllocator::new(0x1000, 0x2000);
    let a = heap.allocate(16, 4);
    let _b = heap.allocate(16, 4);
    assert_eq!(heap.deallocate(a, 16, 4), Ok(()));
    assert_eq!(heap.head_of_heap_heads(), Some(0x1040));
    assert_eq!(heap.head(0).prev, Near::Base(VirtualAddr::new(0x1000)));
}

#[test]
fn two_adjacent_frees_leave_one_larger_gap() {
    let mut heap = HeapAllocator::new(0x1000, 0x1100);
    let a = heap.allocate(16, 4);
    let b = heap.allocate(16, 4);
    let _c = heap.allocate(16, 4);
    assert_eq!(heap.try_allocate(60, 4), Err(MemoryError::AllocImpossible));
    assert_eq!(heap.deallocate(a, 16, 4), Ok(()));
    assert_eq!(heap.deallocate(b, 16, 4), Ok(()));
    // The gap [0x1000, 0x1080) now holds a 60-byte block.
    assert_eq!(heap.allocate(60, 4), 0x1024);
}

#[test]
fn allocation_sequence_with_frees_in_mixed_order() {
    let start = 0x10_0000;
    let mut heap = HeapAllocator::new(start, 0x20_0000);
    let start_allocation = heap.allocate(3, 2);
    let middle_1_allocation = heap.allocate(5, 4);
    let middle_2_allocation = heap.allocate(6, 4);
    let end_allocation = heap.allocate(9, 8);
    assert_eq!(start_allocation, start + 0x22);
    assert_eq!(middle_1_allocation, start + 0x64);
    assert_eq!(middle_2_allocation, start + 0xA4);
    assert_eq!(end_allocation, start + 0xE8);
    assert_eq!(heap.len(), 4);

    assert_eq!(heap.deallocate(start_allocation, 3, 2), Ok(()));
    assert_eq!(heap.head_of_heap_heads(), Some(start + 0x40));
    let start_allocation = heap.allocate(3, 2);
    assert_eq!(start_allocation, start + 0x22);
    assert_eq!(heap.head_of_heap_heads(), Some(start));

    assert_eq!(heap.deallocate(middle_1_allocation, 5, 4), Ok(()));
    assert_eq!(heap.deallocate(start_allocation, 3, 2), Ok(()));
    assert_eq!(heap.deallocate(end_allocation, 9, 8), Ok(()));
    assert_eq!(heap.len(), 1);
    assert_eq!(heap.head(0).prev, Near::Base(VirtualAddr::new(start)));
    assert_eq!(heap.head(0).next, Near::Tail(VirtualAddr::new(0x20_0000)));
    assert_eq!(heap.deallocate(middle_2_allocation, 6, 4), Ok(()));
    assert_eq!(heap.len(), 0);
    assert_eq!(heap.head_of_heap_heads(), None);
}
