use boot_services_allocator::allocator::{AllocFailure, BootServicesAllocator};
use boot_services_allocator::layout::extend_for_tracker;
use boot_services_allocator::locked::SpinLockedAllocator;
use boot_services_allocator::pool::{PoolError, PoolSource};
use boot_services_allocator::tracker::{AllocationTracker, ALLOC_TRACKER_SIG};

fn bound_allocator(limit: usize) -> BootServicesAllocator {
    let mut allocator = BootServicesAllocator::new();
    allocator.init(PoolSource::new(limit));
    allocator
}

#[test]
fn basic_alloc_and_dealloc() {
    let mut allocator = bound_allocator(0x10000);

    let ptr = allocator.boot_services_alloc(0x40, 0x8);
    assert!(ptr != 0);
    assert!(allocator.pool.as_ref().unwrap().contains_block(ptr));

    allocator.boot_services_dealloc(ptr, 0x40, 0x8);
    assert!(!allocator.pool.as_ref().unwrap().contains_block(ptr));
}

#[test]
fn big_alignment_should_allocate_tracking_structure() {
    let mut allocator = bound_allocator(0x100000);

    let ptr = allocator.boot_services_alloc(0x40, 0x1000);
    assert!(ptr != 0);
    assert_eq!(ptr % 0x1000, 0);

    // reconstruct the tracker record at the recomputed offset.
    let expanded = extend_for_tracker(0x40, 0x1000).unwrap();
    let tracker = allocator
        .pool
        .as_ref()
        .unwrap()
        .read_tracker(ptr + expanded.tracking_offset)
        .expect("tracking pointer is invalid");
    assert_eq!(tracker.signature, ALLOC_TRACKER_SIG);

    let orig_ptr_addr = tracker.original_pointer;
    assert!(allocator.pool.as_ref().unwrap().contains_block(orig_ptr_addr));

    allocator.boot_services_dealloc(ptr, 0x40, 0x1000);
    assert!(!allocator.pool.as_ref().unwrap().contains_block(orig_ptr_addr));
}

#[test]
fn fast_path_returns_pool_pointer_directly() {
    // The first pool address handed out is the pool's initial bump pointer,
    // so a fast-path allocation must return exactly that address.
    let mut pool = PoolSource::new(0x10000);
    let direct = pool.alloc_pool(0x40).unwrap();

    let mut allocator = bound_allocator(0x10000);
    let ptr = allocator.boot_services_alloc(0x40, 0x8);
    assert_eq!(ptr, direct);
    assert_eq!(ptr, 8);
}

#[test]
fn aligned_results_for_larger_powers_of_two() {
    let mut allocator = bound_allocator(0x100000);
    let p16 = allocator.boot_services_alloc(0x31, 0x10);
    assert!(p16 != 0);
    assert_eq!(p16 % 0x10, 0);

    let p4k = allocator.boot_services_alloc(0x200, 0x1000);
    assert!(p4k != 0);
    assert_eq!(p4k % 0x1000, 0);
}

#[test]
fn zero_size_requests_are_satisfied() {
    let mut allocator = bound_allocator(0x10000);
    let ptr = allocator.allocate(0, 0x8).unwrap();
    assert!(ptr != 0);
    assert_eq!(allocator.deallocate(ptr, 0, 0x8), Ok(()));
    assert_eq!(allocator.pool.as_ref().unwrap().live_count(), 0);
}

#[test]
fn slow_path_rounds_the_base_up_exactly() {
    // a fresh pool hands out base address 8, so the first 0x1000-aligned
    // allocation lands exactly at the next multiple, 0x1000.
    let mut allocator = bound_allocator(0x100000);
    let ptr = allocator.boot_services_alloc(0x40, 0x1000);
    assert_eq!(ptr, 0x1000);
}

#[test]
fn round_trip_restores_pool_state() {
    let mut allocator = bound_allocator(0x100000);
    let before = allocator.pool.as_ref().unwrap().live_count();

    let fast = allocator.allocate(0x40, 0x8).unwrap();
    assert_eq!(allocator.deallocate(fast, 0x40, 0x8), Ok(()));
    assert_eq!(allocator.pool.as_ref().unwrap().live_count(), before);

    let slow = allocator.allocate(0x40, 0x1000).unwrap();
    assert_eq!(allocator.deallocate(slow, 0x40, 0x1000), Ok(()));
    assert_eq!(allocator.pool.as_ref().unwrap().live_count(), before);
}

#[test]
fn layout_computation_is_deterministic() {
    let once = extend_for_tracker(0x40, 0x1000);
    let twice = extend_for_tracker(0x40, 0x1000);
    assert_eq!(once, twice);

    let expanded = once.unwrap();
    assert_eq!(expanded.tracking_offset, 0x40);
    assert_eq!(expanded.size, 0x50);
    assert_eq!(expanded.align, 0x1000);

    // an unpadded size is rounded up to the tracker's 8-byte alignment first.
    let uneven = extend_for_tracker(0x31, 0x10).unwrap();
    assert_eq!(uneven.tracking_offset, 0x38);
    assert_eq!(uneven.size, 0x48);
    assert_eq!(uneven.align, 0x10);
}

#[test]
fn uninitialized_allocator_refuses_everything() {
    let mut allocator = BootServicesAllocator::new();
    assert_eq!(allocator.allocate(0x40, 0x8), Err(AllocFailure::Uninitialized));
    assert_eq!(allocator.allocate(0x40, 0x1000), Err(AllocFailure::Uninitialized));
    assert_eq!(allocator.deallocate(0x40, 0x40, 0x8), Err(AllocFailure::Uninitialized));
    assert_eq!(allocator.boot_services_alloc(0x40, 0x8), 0);
}

#[test]
fn pool_exhaustion_is_reported() {
    let mut allocator = bound_allocator(0x20);
    assert_eq!(allocator.allocate(0x100, 0x8), Err(AllocFailure::PoolExhausted));
    assert_eq!(allocator.allocate(0x100, 0x1000), Err(AllocFailure::PoolExhausted));
}

#[test]
fn oversized_layout_is_reported() {
    let mut allocator = bound_allocator(0x10000);
    assert_eq!(allocator.allocate(usize::MAX / 2, 0x10), Err(AllocFailure::InvalidLayout));
}

#[test]
fn mismatched_free_reports_corrupt_tracker() {
    let mut allocator = bound_allocator(0x100000);
    let ptr = allocator.allocate(0x40, 0x1000).unwrap();

    // a different size points the recomputed offset at no tracker record.
    assert_eq!(allocator.deallocate(ptr, 0x48, 0x1000), Err(AllocFailure::CorruptTracker));

    // a record without the expected signature is refused too.
    let expanded = extend_for_tracker(0x40, 0x1000).unwrap();
    allocator.pool.as_mut().unwrap().write_tracker(
        ptr + expanded.tracking_offset,
        AllocationTracker { signature: 0xDEAD_BEEF, original_pointer: 0x8 },
    );
    assert_eq!(allocator.deallocate(ptr, 0x40, 0x1000), Err(AllocFailure::CorruptTracker));
}

#[test]
fn pool_source_hands_out_fresh_aligned_blocks() {
    let mut pool = PoolSource::new(0x1000);
    let a = pool.alloc_pool(0x19).unwrap();
    let b = pool.alloc_pool(0x8).unwrap();
    assert_ne!(a, b);
    assert_eq!(a % 8, 0);
    assert_eq!(b % 8, 0);
    assert!(a != 0 && b != 0);
    assert_eq!(pool.live_count(), 2);

    assert_eq!(pool.free_pool(a), Ok(()));
    assert_eq!(pool.free_pool(a), Err(PoolError::NotAllocated));
    assert_eq!(pool.live_count(), 1);

    // the pool is bounded: a request beyond the limit fails without effect.
    assert_eq!(pool.alloc_pool(0x10000), Err(PoolError::OutOfMemory));
    assert_eq!(pool.live_count(), 1);
}

#[test]
fn tracker_reads_observe_most_recent_write() {
    let mut pool = PoolSource::new(0x1000);
    assert_eq!(pool.read_tracker(0x100), None);
    pool.write_tracker(0x100, AllocationTracker { signature: 1, original_pointer: 0x8 });
    pool.write_tracker(0x100, AllocationTracker { signature: 2, original_pointer: 0x10 });
    pool.write_tracker(0x200, AllocationTracker { signature: 3, original_pointer: 0x18 });
    let t = pool.read_tracker(0x100).unwrap();
    assert_eq!(t.signature, 2);
    assert_eq!(t.original_pointer, 0x10);
    assert_eq!(pool.read_tracker(0x200).unwrap().signature, 3);
}

#[test]
fn spin_locked_allocator_serializes_the_same_logic() {
    let allocator = SpinLockedAllocator::new();
    allocator.init(PoolSource::new(0x100000));

    let ptr = allocator.allocate(0x40, 0x1000);
    assert!(ptr != 0);
    assert_eq!(ptr % 0x1000, 0);
    allocator.deallocate(ptr, 0x40, 0x1000);

    let again = allocator.allocate(0x40, 0x8);
    assert!(again != 0);
}

#[test]
fn spin_locked_allocator_unbound_returns_null() {
    let allocator = SpinLockedAllocator::new();
    assert_eq!(allocator.allocate(0x40, 0x8), 0);
    allocator.deallocate(0x40, 0x40, 0x8);
    assert_eq!(allocator.allocate(0x40, 0x1000), 0);
}
