//! The growable buffer and the allocator's accounting.

use render_core::allocator::{AllocationError, BufferUsage, MemoryLocation, VkAllocator};
use render_core::buffer::EngineBuffer;

#[test]
fn allocate_zero_bytes_is_invalid() {
    let mut al = VkAllocator::new(1024);
    assert_eq!(
        al.allocate(0, MemoryLocation::CpuToGpu, true).unwrap_err(),
        AllocationError::InvalidRequirements
    );
    assert_eq!(al.used_bytes(), 0);
}

#[test]
fn allocate_beyond_budget_is_out_of_memory() {
    let mut al = VkAllocator::new(100);
    let a = al.allocate(80, MemoryLocation::CpuToGpu, true).unwrap();
    assert_eq!(al.used_bytes(), 80);
    assert_eq!(
        al.allocate(21, MemoryLocation::CpuToGpu, true).unwrap_err(),
        AllocationError::OutOfMemory
    );
    al.free(a);
    assert_eq!(al.used_bytes(), 0);
    assert_eq!(al.live_allocations(), 0);
}

#[test]
fn freed_memory_can_be_reused() {
    let mut al = VkAllocator::new(100);
    let a = al.allocate(100, MemoryLocation::GpuOnly, false).unwrap();
    al.free(a);
    let b = al.allocate(100, MemoryLocation::GpuOnly, false).unwrap();
    al.free(b);
    assert_eq!(al.cleanup(), 0);
}

#[test]
fn allocate_buffer_unwinds_on_failure() {
    let mut al = VkAllocator::new(10);
    let before_allocs = al.live_allocations();
    let before_buffers = al.live_buffer_resources();
    let r = al.allocate_buffer(100, BufferUsage::Vertex, MemoryLocation::CpuToGpu, true);
    assert_eq!(r.unwrap_err(), AllocationError::OutOfMemory);
    // The failed call leaves no live allocation and no live resource.
    assert_eq!(al.live_allocations(), before_allocs);
    assert_eq!(al.live_buffer_resources(), before_buffers);
    assert_eq!(al.used_bytes(), 0);
}

#[test]
fn cleanup_reports_leaked_allocations() {
    let mut al = VkAllocator::new(100);
    let _a = al.allocate(10, MemoryLocation::CpuToGpu, true).unwrap();
    let _b = al.allocate(10, MemoryLocation::CpuToGpu, true).unwrap();
    assert_eq!(al.cleanup(), 2);
}

#[test]
fn fill_round_trip_within_capacity() {
    let mut al = VkAllocator::new(1024);
    let mut b = EngineBuffer::new(&mut al, 8, BufferUsage::Vertex, MemoryLocation::CpuToGpu)
        .unwrap();
    b.fill_bytes(&mut al, &[1, 2, 3, 4, 5, 6, 7, 8]).unwrap();
    assert_eq!(&b.mapped_contents()[..], &[1, 2, 3, 4, 5, 6, 7, 8]);
    assert_eq!(b.size_in_bytes(), 8);
}

#[test]
fn fill_round_trip_through_a_grow() {
    let mut al = VkAllocator::new(1024);
    let mut b = EngineBuffer::new(&mut al, 2, BufferUsage::Vertex, MemoryLocation::CpuToGpu)
        .unwrap();
    let payload: Vec<u8> = (0..100).collect();
    b.fill_bytes(&mut al, &payload).unwrap();
    assert_eq!(b.size_in_bytes(), 100);
    assert_eq!(&b.mapped_contents()[..], &payload[..]);
}

#[test]
fn capacity_is_the_running_maximum() {
    // A 100-byte payload, then a 50-byte payload: capacity stays 100 and
    // the first 50 bytes read back as the second payload.
    let mut al = VkAllocator::new(1024);
    let mut b = EngineBuffer::new(&mut al, 0, BufferUsage::Vertex, MemoryLocation::CpuToGpu)
        .unwrap();
    let first: Vec<u8> = vec![7; 100];
    b.fill_bytes(&mut al, &first).unwrap();
    assert_eq!(b.size_in_bytes(), 100);
    let second: Vec<u8> = vec![9; 50];
    b.fill_bytes(&mut al, &second).unwrap();
    assert_eq!(b.size_in_bytes(), 100);
    assert_eq!(&b.mapped_contents()[..50], &second[..]);
    // Only the written prefix is specified; the rest is whatever the
    // region held, which this model keeps from the earlier write.
    assert_eq!(b.mapped_contents().len(), 100);
}

#[test]
fn zero_length_fill_is_a_no_op() {
    let mut al = VkAllocator::new(1024);
    let mut b = EngineBuffer::new(&mut al, 4, BufferUsage::Uniform, MemoryLocation::CpuToGpu)
        .unwrap();
    b.fill_bytes(&mut al, &[1, 2, 3, 4]).unwrap();
    b.fill_bytes(&mut al, &[]).unwrap();
    assert_eq!(b.size_in_bytes(), 4);
    assert_eq!(&b.mapped_contents()[..], &[1, 2, 3, 4]);
}

#[test]
fn grow_releases_the_old_region_before_binding_the_new() {
    // Budget 100: a 60-byte buffer can only grow to 80 if the old region
    // is released first.
    let mut al = VkAllocator::new(100);
    let mut b = EngineBuffer::new(&mut al, 60, BufferUsage::Vertex, MemoryLocation::CpuToGpu)
        .unwrap();
    assert_eq!(al.live_allocations(), 1);
    let payload: Vec<u8> = vec![3; 80];
    b.fill_bytes(&mut al, &payload).unwrap();
    // Exactly one allocation lives after the swap, and usage is exact.
    assert_eq!(al.live_allocations(), 1);
    assert_eq!(al.used_bytes(), 80);
    assert_eq!(&b.mapped_contents()[..], &payload[..]);
    b.cleanup(&mut al);
    assert_eq!(al.live_allocations(), 0);
    assert_eq!(al.used_bytes(), 0);
    assert_eq!(al.cleanup(), 0);
}

#[test]
fn failed_grow_reports_out_of_memory_and_leaks_nothing() {
    let mut al = VkAllocator::new(100);
    let mut b = EngineBuffer::new(&mut al, 60, BufferUsage::Vertex, MemoryLocation::CpuToGpu)
        .unwrap();
    let too_big: Vec<u8> = vec![1; 200];
    assert_eq!(
        b.fill_bytes(&mut al, &too_big).unwrap_err(),
        AllocationError::OutOfMemory
    );
    // The old region was released and nothing new was left behind.
    assert_eq!(al.live_allocations(), 0);
    assert_eq!(al.used_bytes(), 0);
    assert_eq!(b.size_in_bytes(), 0);
    // The buffer recovers on a fill that fits.
    b.fill_bytes(&mut al, &[5, 6]).unwrap();
    assert_eq!(&b.mapped_contents()[..], &[5, 6]);
}

#[test]
fn records_encode_little_endian() {
    let mut al = VkAllocator::new(1024);
    let mut b = EngineBuffer::new(&mut al, 0, BufferUsage::Index, MemoryLocation::CpuToGpu)
        .unwrap();
    let indices: Vec<u32> = vec![1, 0x01020304];
    b.fill(&mut al, &indices).unwrap();
    assert_eq!(
        &b.mapped_contents()[..],
        &[1, 0, 0, 0, 0x04, 0x03, 0x02, 0x01]
    );
}

#[test]
fn image_allocation_lifecycle() {
    let mut al = VkAllocator::new(1 << 20);
    let (image, allocation) = al
        .allocate_image(4096, MemoryLocation::GpuOnly, false)
        .unwrap();
    assert_eq!(al.used_bytes(), 4096);
    assert_eq!(al.live_allocations(), 1);
    al.free(allocation);
    al.destroy_image(image);
    assert_eq!(al.used_bytes(), 0);
    assert_eq!(al.cleanup(), 0);
}

#[test]
fn image_allocation_unwinds_on_failure() {
    let mut al = VkAllocator::new(16);
    assert_eq!(
        al.allocate_image(64, MemoryLocation::GpuOnly, false).unwrap_err(),
        AllocationError::OutOfMemory
    );
    assert_eq!(al.live_allocations(), 0);
    assert_eq!(al.used_bytes(), 0);
}
