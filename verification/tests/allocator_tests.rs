use kernel_core::allocator::bump::BumpAllocator;
use kernel_core::allocator::fixed_size_block::{block_size, list_index, FixedSizeBlockAllocator};
use kernel_core::allocator::region::{HeapInitError, HeapMapping, HeapRegion, MapRequest, MapStep};
use kernel_core::allocator::{align_up, checked_align_up, HEAP_SIZE, HEAP_START};

#[test]
fn test_align_up() {
    assert_eq!(align_up(1024, 512), 1024);
    assert_eq!(align_up(123, 512), 512);
}

#[test]
fn align_up_exact_values() {
    assert_eq!(align_up(0, 8), 0);
    assert_eq!(align_up(1, 8), 8);
    assert_eq!(align_up(8, 8), 8);
    assert_eq!(align_up(9, 8), 16);
    assert_eq!(align_up(4097, 4096), 8192);
    assert_eq!(align_up(7, 1), 7);
}

#[test]
fn checked_align_up_reports_overflow() {
    assert_eq!(checked_align_up(u64::MAX, 8), None);
    assert_eq!(checked_align_up(u64::MAX - 7, 8), Some(u64::MAX - 7));
    assert_eq!(checked_align_up(13, 4), Some(16));
}

#[test]
fn bump_sequential_allocations_do_not_overlap() {
    let mut bump = BumpAllocator::new();
    bump.init(HEAP_START, HEAP_SIZE);
    let first = bump.allocate(4, 4).unwrap();
    let second = bump.allocate(8, 8).unwrap();
    assert_eq!(first, HEAP_START);
    assert_eq!(second, HEAP_START + 8);
    assert!(first + 4 <= second);
    assert_eq!(bump.next(), HEAP_START + 16);
    assert_eq!(bump.allocations(), 2);
}

#[test]
fn bump_exhaustion_reports_failure() {
    let mut bump = BumpAllocator::new();
    bump.init(0x1000, 64);
    let mut previous_end = 0x1000;
    for _ in 0..4 {
        let addr = bump.allocate(16, 16).unwrap();
        assert!(addr >= previous_end);
        assert!(addr + 16 <= 0x1000 + 64);
        previous_end = addr + 16;
    }
    assert_eq!(bump.allocate(16, 16), None);
    assert_eq!(bump.allocate(1, 1), None);
    assert_eq!(bump.next(), 0x1000 + 64);
    assert_eq!(bump.allocations(), 4);
}

#[test]
fn bump_overflowing_request_fails_without_wrapping() {
    let mut bump = BumpAllocator::new();
    bump.init(u64::MAX - 100, 100);
    assert_eq!(bump.allocate(u64::MAX, 1), None);
    assert_eq!(bump.allocate(8, 1 << 63), None);
    assert_eq!(bump.next(), u64::MAX - 100);
    assert_eq!(bump.allocations(), 0);
}

#[test]
fn bump_reclaims_whole_arena_at_zero() {
    let mut bump = BumpAllocator::new();
    bump.init(0x2000, 1024);
    let before = bump.next();
    let mut blocks = Vec::new();
    for _ in 0..5 {
        blocks.push(bump.allocate(32, 32).unwrap());
    }
    assert_eq!(bump.next(), 0x2000 + 5 * 32);
    for (i, ptr) in blocks.iter().enumerate() {
        bump.deallocate(*ptr, 32, 32);
        if i < 4 {
            assert_eq!(bump.next(), 0x2000 + 5 * 32);
        }
    }
    assert_eq!(bump.next(), before);
    assert_eq!(bump.allocations(), 0);
}

#[test]
fn bump_pointer_stays_in_arena() {
    let mut bump = BumpAllocator::new();
    bump.init(0x3000, 100);
    let sizes = [1u64, 7, 16, 40, 64, 3];
    for size in sizes {
        let _ = bump.allocate(size, 8);
        assert!(bump.heap_start() <= bump.next());
        assert!(bump.next() <= bump.heap_end());
    }
    assert_eq!(bump.heap_start(), 0x3000);
    assert_eq!(bump.heap_end(), 0x3000 + 100);
}

#[test]
fn block_sizes_double() {
    let expected = [8u64, 16, 32, 64, 128, 256, 512, 1024, 2048];
    for (class, bytes) in expected.iter().enumerate() {
        assert_eq!(block_size(class), *bytes);
    }
}

#[test]
fn list_index_picks_smallest_class() {
    assert_eq!(list_index(1, 1), Some(0));
    assert_eq!(list_index(8, 8), Some(0));
    assert_eq!(list_index(9, 1), Some(1));
    assert_eq!(list_index(4, 64), Some(3));
    assert_eq!(list_index(2048, 8), Some(8));
    assert_eq!(list_index(2049, 8), None);
    assert_eq!(list_index(8, 4096), None);
    assert_eq!(list_index(0, 1), Some(0));
}

#[test]
fn block_allocations_are_aligned_and_in_bounds() {
    let mut heap = FixedSizeBlockAllocator::new();
    heap.init(HEAP_START, HEAP_SIZE);
    let pairs = [(1u64, 1u64), (4, 4), (8, 8), (24, 8), (100, 4), (3, 256), (2048, 2048), (5000, 16), (16, 4096)];
    for (size, align) in pairs {
        let addr = heap.allocate(size, align).unwrap();
        assert_ne!(addr, 0);
        assert_eq!(addr % align, 0);
        assert!(addr >= HEAP_START);
        assert!(addr + size <= HEAP_START + HEAP_SIZE);
    }
}

#[test]
fn block_sequential_allocations_do_not_overlap() {
    let mut heap = FixedSizeBlockAllocator::new();
    heap.init(HEAP_START, HEAP_SIZE);
    let first = heap.allocate(4, 4).unwrap();
    let second = heap.allocate(8, 8).unwrap();
    assert_eq!(first, HEAP_START);
    assert_eq!(second, HEAP_START + 8);
    assert!(first + 4 <= second);
}

#[test]
fn freed_block_is_reused_before_arena_grows() {
    let mut heap = FixedSizeBlockAllocator::new();
    heap.init(HEAP_START, HEAP_SIZE);
    let a = heap.allocate(20, 4).unwrap();
    let b = heap.allocate(32, 8).unwrap();
    assert_ne!(a, b);
    let grown = heap.arena_next();
    heap.deallocate(a, 20, 4);
    assert_eq!(heap.free_blocks(2), 1);
    assert_eq!(heap.arena_next(), grown);
    assert_eq!(heap.outstanding(), 1);
    let c = heap.allocate(17, 1).unwrap();
    assert_eq!(c, a);
    assert_eq!(heap.outstanding(), 2);
    assert_eq!(heap.arena_next(), grown);
    assert_eq!(heap.free_blocks(2), 0);
}

#[test]
fn free_chain_is_last_in_first_out_and_per_class() {
    let mut heap = FixedSizeBlockAllocator::new();
    heap.init(0x10000, 4096);
    let a = heap.allocate(8, 8).unwrap();
    let b = heap.allocate(8, 8).unwrap();
    let big = heap.allocate(64, 8).unwrap();
    heap.deallocate(a, 8, 8);
    heap.deallocate(b, 8, 8);
    heap.deallocate(big, 64, 8);
    let grown = heap.arena_next();
    let fresh = heap.allocate(16, 8).unwrap();
    assert_eq!(fresh, grown);
    assert_eq!(heap.allocate(8, 8), Some(b));
    assert_eq!(heap.allocate(8, 8), Some(a));
    assert_eq!(heap.allocate(64, 64), Some(big));
}

#[test]
fn freed_class_blocks_leave_the_arena_where_it_is() {
    let mut heap = FixedSizeBlockAllocator::new();
    heap.init(0x10000, 4096);
    let before = heap.arena_next();
    let a = heap.allocate(8, 8).unwrap();
    heap.deallocate(a, 8, 8);
    assert_eq!(heap.arena_next(), before + 8);
}

#[test]
fn large_objects_go_to_the_arena_and_are_reclaimed_together() {
    let mut heap = FixedSizeBlockAllocator::new();
    heap.init(0x10000, 65536);
    let before = heap.arena_next();
    let mut blocks = Vec::new();
    for _ in 0..3 {
        blocks.push(heap.allocate(4096, 16).unwrap());
    }
    assert_eq!(blocks, vec![0x10000, 0x11000, 0x12000]);
    assert_eq!(heap.arena_next(), 0x13000);
    for ptr in blocks {
        heap.deallocate(ptr, 4096, 16);
    }
    assert_eq!(heap.arena_next(), before);
}

#[test]
fn block_exhaustion_reports_failure() {
    let mut heap = FixedSizeBlockAllocator::new();
    heap.init(0x10000, 1024);
    let mut seen = Vec::new();
    loop {
        match heap.allocate(128, 128) {
            Some(addr) => {
                assert!(addr >= 0x10000 && addr + 128 <= 0x10000 + 1024);
                assert!(!seen.contains(&addr));
                seen.push(addr);
            }
            None => break,
        }
    }
    assert_eq!(seen.len(), 8);
    assert_eq!(heap.outstanding(), 8);
    assert_eq!(heap.allocate(128, 128), None);
    assert_eq!(heap.outstanding(), 8);
    assert_eq!(heap.allocate(4096, 8), None);
    assert_eq!(heap.arena_next(), 0x10000 + 1024);
}

#[test]
fn kernel_heap_is_covered_by_twenty_five_pages() {
    let region = HeapRegion::kernel_heap();
    assert_eq!(region.start, 0x4444_4444_0000);
    assert_eq!(region.size, 100 * 1024);
    assert_eq!(region.first_page(), 0x4444_4444_0000);
    assert_eq!(region.last_page(), 0x4444_4444_0000 + 24 * 4096);
    assert_eq!(region.page_count(), 25);
}

#[test]
fn unaligned_region_covers_partial_pages() {
    let region = HeapRegion { start: 4095, size: 2 };
    assert_eq!(region.first_page(), 0);
    assert_eq!(region.last_page(), 4096);
    assert_eq!(region.page_count(), 2);
}

#[test]
fn heap_is_mapped_page_by_page_before_the_allocator_starts() {
    let region = HeapRegion { start: 0x8000, size: 3 * 4096 };
    let mut mapping = HeapMapping::new(region);
    for i in 0..3u64 {
        let page = 0x8000 + i * 4096;
        assert_eq!(mapping.next_step(), MapStep::RequestFrame { page });
        let request = mapping.on_frame(Some(0x100000 + i * 4096));
        assert_eq!(
            request,
            Ok(MapRequest { page, frame: 0x100000 + i * 4096, present: true, writable: true })
        );
        assert_eq!(mapping.on_mapped(true), Ok(()));
    }
    assert_eq!(
        mapping.next_step(),
        MapStep::InitAllocator { heap_start: 0x8000, heap_size: 3 * 4096 }
    );
}

#[test]
fn heap_mapping_fails_without_a_frame() {
    let mut mapping = HeapMapping::new(HeapRegion { start: 0x8000, size: 8192 });
    assert_eq!(mapping.on_frame(Some(0x5000)).map(|r| r.page), Ok(0x8000));
    assert_eq!(mapping.on_mapped(true), Ok(()));
    assert_eq!(mapping.on_frame(None), Err(HeapInitError::FrameExhausted));
    assert_eq!(mapping.next_step(), MapStep::RequestFrame { page: 0x9000 });
}

#[test]
fn heap_mapping_fails_when_the_page_table_refuses() {
    let mut mapping = HeapMapping::new(HeapRegion { start: 0x8000, size: 8192 });
    assert_eq!(mapping.on_mapped(false), Err(HeapInitError::MappingFailed));
    assert_eq!(mapping.next_step(), MapStep::RequestFrame { page: 0x8000 });
}

#[test]
fn granted_blocks_never_overlap_outstanding_ones() {
    let mut heap = FixedSizeBlockAllocator::new();
    heap.init(0x20000, 8192);
    let requests = [(8u64, 8u64), (24, 8), (8, 8), (100, 4), (3000, 16), (8, 8), (24, 1), (64, 64)];
    let mut held: Vec<(u64, u64, u64, u64)> = Vec::new();
    for (round, (size, align)) in requests.iter().enumerate() {
        let addr = heap.allocate(*size, *align).unwrap();
        for (start, len, _, _) in &held {
            assert!(addr + size <= *start || start + len <= addr);
        }
        held.push((addr, *size, *size, *align));
        if round % 3 == 2 {
            let (ptr, _, size, align) = held.remove(0);
            heap.deallocate(ptr, size, align);
        }
    }
    assert_eq!(heap.outstanding(), held.len() as u64);
}

#[test]
fn uninitialised_arena_grants_nothing_with_bytes() {
    let mut bump = BumpAllocator::new();
    assert_eq!(bump.allocate(1, 1), None);
    assert_eq!(bump.next(), 0);
    let mut heap = FixedSizeBlockAllocator::new();
    assert_eq!(heap.allocate(8, 8), None);
    assert_eq!(heap.outstanding(), 0);
}
