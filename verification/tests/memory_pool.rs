use std::sync::Arc;

use vulkano::device::{Device, DeviceExtensions, DeviceMemory, Version};
use vulkano::memory_pool::{new_block_size, StandardNonHostVisibleMemoryTypePool, MIN_BLOCK_SIZE};

fn device() -> Arc<Device> {
    Arc::new(Device::from_handle(1, Version::major_minor(1, 0), DeviceExtensions::empty(), 4))
}

fn pool() -> StandardNonHostVisibleMemoryTypePool {
    StandardNonHostVisibleMemoryTypePool::new(device(), 2)
}

#[test]
fn new_pool_keeps_memory_type_index() {
    let p = pool();
    assert_eq!(p.memory_type_index(), 2);
    assert_eq!(p.device().internal_object(), 1);
}

#[test]
fn empty_pool_has_no_room() {
    let mut p = pool();
    assert!(p.allocate(100, 1).is_none());
}

#[test]
fn new_block_size_is_at_least_eight_mib() {
    assert_eq!(MIN_BLOCK_SIZE, 8 * 1024 * 1024);
    assert_eq!(new_block_size(1), 8 * 1024 * 1024);
    assert_eq!(new_block_size(100), 8 * 1024 * 1024);
    assert_eq!(new_block_size(8 * 1024 * 1024), 8 * 1024 * 1024);
}

#[test]
fn new_block_size_rounds_up_to_a_power_of_two() {
    assert_eq!(new_block_size(9 * 1024 * 1024), 16 * 1024 * 1024);
    assert_eq!(new_block_size(16 * 1024 * 1024 + 1), 32 * 1024 * 1024);
    assert_eq!(new_block_size(1 << 63), 1 << 63);
}

#[test]
fn first_range_of_a_new_block_starts_at_zero() {
    let mut p = pool();
    let mem = DeviceMemory::from_handle(7, new_block_size(100), 2);
    let a = p.add_block(mem, 100);
    assert_eq!(a.offset(), 0);
    assert_eq!(a.size(), 100);
    assert_eq!(a.block_index(), 0);
    assert_eq!(a.memory().internal_object(), 7);
    assert_eq!(a.memory().allocation_size(), 8 * 1024 * 1024);
}

#[test]
fn next_range_goes_after_the_last_one_aligned() {
    let mut p = pool();
    p.add_block(DeviceMemory::from_handle(7, 8 * 1024 * 1024, 2), 100);
    // 100 rounded up to a multiple of 64 is 128
    let b = p.allocate(50, 64).unwrap();
    assert_eq!(b.offset(), 128);
    assert_eq!(b.size(), 50);
    assert_eq!(b.block_index(), 0);
    assert_eq!(b.offset() % 64, 0);
}

#[test]
fn gap_between_ranges_is_used_first() {
    let mut p = pool();
    p.add_block(DeviceMemory::from_handle(7, 8 * 1024 * 1024, 2), 100);
    p.allocate(50, 64).unwrap(); // 128..178
    let c = p.allocate(10, 1).unwrap();
    assert_eq!(c.offset(), 100);
    // the gap 110..128 is too small for 20 bytes: they go after 178
    let d = p.allocate(20, 1).unwrap();
    assert_eq!(d.offset(), 178);
    // but 18 bytes fit in it
    let e = p.allocate(18, 1).unwrap();
    assert_eq!(e.offset(), 110);
}

#[test]
fn alignment_applies_to_gaps_too() {
    let mut p = pool();
    p.add_block(DeviceMemory::from_handle(7, 8 * 1024 * 1024, 2), 100);
    p.allocate(100, 1000).unwrap(); // 1000..1100
    // after 100, aligned to 16: 112; 112 + 200 <= 1000
    let c = p.allocate(200, 16).unwrap();
    assert_eq!(c.offset(), 112);
}

#[test]
fn space_in_front_of_the_first_range_is_not_reused() {
    let mut p = pool();
    let a = p.add_block(DeviceMemory::from_handle(7, 8 * 1024 * 1024, 2), 100);
    p.allocate(10, 1).unwrap(); // 100..110
    p.free(&a);
    let c = p.allocate(50, 1).unwrap();
    assert_eq!(c.offset(), 110);
}

#[test]
fn free_then_allocate_reuses_the_gap() {
    let mut p = pool();
    p.add_block(DeviceMemory::from_handle(7, 8 * 1024 * 1024, 2), 100);
    let b = p.allocate(100, 1).unwrap(); // 100..200
    p.allocate(100, 1).unwrap(); // 200..300
    assert_eq!(b.offset(), 100);
    p.free(&b);
    let c = p.allocate(100, 1).unwrap();
    assert_eq!(c.offset(), 100);
}

#[test]
fn free_undoes_allocate() {
    let mut p = pool();
    p.add_block(DeviceMemory::from_handle(7, 8 * 1024 * 1024, 2), 100);
    let b = p.allocate(30, 8).unwrap();
    assert_eq!(b.offset(), 104);
    p.free(&b);
    // the same request lands at the same place again
    let c = p.allocate(30, 8).unwrap();
    assert_eq!(c.offset(), 104);
}

#[test]
fn full_block_sends_requests_to_the_next_block() {
    let mut p = pool();
    p.add_block(DeviceMemory::from_handle(7, 1000, 2), 900);
    assert!(p.allocate(200, 1).is_none());
    p.add_block(DeviceMemory::from_handle(8, 8 * 1024 * 1024, 2), 10);
    let c = p.allocate(200, 1).unwrap();
    assert_eq!(c.block_index(), 1);
    assert_eq!(c.memory().internal_object(), 8);
    assert_eq!(c.offset(), 10);
    // a small request still goes to the first block
    let d = p.allocate(100, 1).unwrap();
    assert_eq!(d.block_index(), 0);
    assert_eq!(d.offset(), 900);
}

#[test]
fn request_larger_than_any_block_finds_no_room() {
    let mut p = pool();
    p.add_block(DeviceMemory::from_handle(7, 8 * 1024 * 1024, 2), 100);
    assert!(p.allocate(1 << 40, 1).is_none());
}

#[test]
fn huge_alignment_finds_no_room() {
    let mut p = pool();
    p.add_block(DeviceMemory::from_handle(7, 8 * 1024 * 1024, 2), 100);
    assert!(p.allocate(1, u64::MAX).is_none());
}

#[test]
fn allocations_stay_live_until_freed() {
    let mut p = pool();
    let a = p.add_block(DeviceMemory::from_handle(7, 8 * 1024 * 1024, 2), 100);
    let b = p.allocate(50, 64).unwrap();
    assert!(p.is_live(&a));
    assert!(p.is_live(&b));
    p.free(&b);
    assert!(!p.is_live(&b));
    assert!(p.is_live(&a));
    // the offset is reused by a range of another size: the freed allocation stays dead
    let c = p.allocate(60, 64).unwrap();
    assert_eq!(c.offset(), 128);
    assert!(!p.is_live(&b));
    assert!(p.is_live(&c));
}

#[test]
fn allocations_come_from_memory_of_the_pool_type() {
    let mut p = pool();
    p.add_block(DeviceMemory::from_handle(7, 8 * 1024 * 1024, 2), 100);
    let b = p.allocate(50, 1).unwrap();
    assert_eq!(b.memory().memory_type_index(), p.memory_type_index());
}
