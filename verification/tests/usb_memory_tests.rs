use prisma_drivers::usb::error::UsbDriverError;
use prisma_drivers::usb::memory::alignment::{align_down, align_up, is_aligned, CACHE_LINE, PAGE};
use prisma_drivers::usb::memory::{UsbMemoryAllocator, UsbMemoryPool, DMA_POOL_BASE, DMA_POOL_SIZE};

#[test]
fn alignment_helpers() {
    assert_eq!(align_up(13, 8), 16);
    assert_eq!(align_up(16, 8), 16);
    assert_eq!(align_up(0, PAGE), 0);
    assert_eq!(align_down(13, 8), 8);
    assert_eq!(align_down(4097, PAGE), PAGE);
    assert!(is_aligned(128, CACHE_LINE));
    assert!(!is_aligned(130, CACHE_LINE));
}

#[test]
fn pool_first_fit_allocation() {
    let mut pool = UsbMemoryPool::new(0x1000, 0x1000);
    assert_eq!(pool.allocate(64, 16), Ok(0x1000));
    // 100 bytes rounded up to the 64-byte alignment take 128 bytes
    assert_eq!(pool.allocate(100, 64), Ok(0x1040));
    let stats = pool.stats();
    assert_eq!(stats.total_size, 0x1000);
    assert_eq!(stats.allocated_bytes, 192);
    assert_eq!(stats.free_bytes, 0x1000 - 192);
    assert_eq!(stats.allocated_blocks, 2);
    assert_eq!(stats.free_blocks, 1);
}

#[test]
fn pool_alignment_leaves_gap_free() {
    let mut pool = UsbMemoryPool::new(0x1000, 0x1000);
    assert_eq!(pool.allocate(16, 16), Ok(0x1000));
    // the next 256-aligned address is 0x1100; the gap before it stays free
    assert_eq!(pool.allocate(256, 256), Ok(0x1100));
    let stats = pool.stats();
    assert_eq!(stats.allocated_bytes, 16 + 256);
    assert_eq!(stats.free_blocks, 2);
}

#[test]
fn pool_errors() {
    let mut pool = UsbMemoryPool::new(0x1000, 0x1000);
    assert_eq!(pool.allocate(0, 8), Err(UsbDriverError::InvalidParameter));
    assert_eq!(pool.allocate(0x2000, 8), Err(UsbDriverError::MemoryError));
    assert_eq!(pool.deallocate(0x1000), Err(UsbDriverError::InvalidParameter));
}

#[test]
fn pool_deallocate_coalesces() {
    let mut pool = UsbMemoryPool::new(0x1000, 0x1000);
    let a = pool.allocate(64, 16).unwrap();
    let b = pool.allocate(100, 64).unwrap();
    assert_eq!(pool.deallocate(a), Ok(()));
    assert_eq!(pool.stats().free_blocks, 2);
    assert_eq!(pool.deallocate(b), Ok(()));
    let stats = pool.stats();
    assert_eq!(stats.free_blocks, 1);
    assert_eq!(stats.allocated_bytes, 0);
    assert_eq!(stats.free_bytes, 0x1000);
    // freeing twice is refused
    assert_eq!(pool.deallocate(b), Err(UsbDriverError::InvalidParameter));
}

#[test]
fn pool_deallocate_undoes_allocate() {
    let mut pool = UsbMemoryPool::new(0x4000, 0x800);
    let before = pool.stats();
    let addr = pool.allocate(200, 32).unwrap();
    assert_eq!(pool.deallocate(addr), Ok(()));
    let after = pool.stats();
    assert_eq!(before.free_blocks, after.free_blocks);
    assert_eq!(before.free_bytes, after.free_bytes);
    assert_eq!(before.allocated_blocks, after.allocated_blocks);
    // the same request is served at the same place again
    assert_eq!(pool.allocate(200, 32), Ok(addr));
}

#[test]
fn allocator_dma_and_heap_tracking() {
    let mut alloc = UsbMemoryAllocator::new().unwrap();
    assert_eq!(alloc.allocate_dma(4096, 4096), Ok(DMA_POOL_BASE));
    alloc.track_heap_allocation(0x5000, 32);
    alloc.track_heap_allocation(0x4000, 16);
    let stats = alloc.stats();
    assert_eq!(stats.dma_pool.total_size, DMA_POOL_SIZE);
    assert_eq!(stats.dma_pool.allocated_bytes, 4096);
    assert_eq!(stats.heap_allocations, 2);
    assert_eq!(alloc.untrack_heap_allocation(0x5000), Ok(32));
    assert_eq!(alloc.untrack_heap_allocation(0x5000), Err(UsbDriverError::InvalidParameter));
    assert_eq!(alloc.deallocate_dma(DMA_POOL_BASE), Ok(()));
    assert_eq!(alloc.stats().dma_pool.allocated_bytes, 0);
    assert_eq!(alloc.stats().heap_allocations, 1);
}

use prisma_drivers::usb::memory::{ScatterGatherList, UsbBuffer};

#[test]
fn dma_buffer_copy_and_release() {
    let mut alloc = UsbMemoryAllocator::new().unwrap();
    let mut buf = UsbBuffer::new_dma(&mut alloc, 8).unwrap();
    assert!(buf.is_dma());
    assert_eq!(buf.physical_address(), DMA_POOL_BASE);
    assert_eq!(buf.len(), 8);
    assert_eq!(buf.as_slice(), &[0u8; 8]);
    assert_eq!(buf.copy_from_slice(&[1, 2, 3]), Ok(()));
    assert_eq!(buf.as_slice(), &[1, 2, 3, 0, 0, 0, 0, 0]);
    assert_eq!(buf.copy_from_slice(&[9u8; 9]), Err(UsbDriverError::BufferOverflow));
    let mut small = [7u8; 4];
    assert_eq!(buf.copy_to_slice(&mut small), Ok(4));
    assert_eq!(small, [1, 2, 3, 0]);
    let mut large = [7u8; 10];
    assert_eq!(buf.copy_to_slice(&mut large), Ok(8));
    assert_eq!(large, [1, 2, 3, 0, 0, 0, 0, 0, 7, 7]);
    buf.as_mut_slice()[7] = 5;
    assert_eq!(buf.as_slice()[7], 5);
    buf.zero();
    assert_eq!(buf.as_slice(), &[0u8; 8]);
    assert_eq!(alloc.stats().dma_pool.allocated_bytes, 64);
    assert_eq!(buf.release(&mut alloc), Ok(()));
    assert_eq!(alloc.stats().dma_pool.allocated_bytes, 0);
    // the next buffer is 64-byte aligned after an earlier one
    let a = UsbBuffer::new_dma(&mut alloc, 10).unwrap();
    let b = UsbBuffer::new_dma(&mut alloc, 10).unwrap();
    assert_eq!(b.physical_address() - a.physical_address(), 64);
    assert!(UsbBuffer::new_dma(&mut alloc, 0).is_err());
}

#[test]
fn scatter_gather_spreads_data_in_order() {
    let mut alloc = UsbMemoryAllocator::new().unwrap();
    let mut sg = ScatterGatherList::new();
    sg.add_segment(UsbBuffer::new_dma(&mut alloc, 3).unwrap());
    sg.add_segment(UsbBuffer::new_dma(&mut alloc, 2).unwrap());
    sg.add_segment(UsbBuffer::new_dma(&mut alloc, 4).unwrap());
    assert_eq!(sg.total_size(), 9);
    assert_eq!(sg.segment_count(), 3);
    assert_eq!(sg.copy_from_slice(&[1, 2, 3, 4, 5, 6]), Ok(6));
    assert_eq!(sg.segment(0).unwrap().as_slice(), &[1, 2, 3]);
    assert_eq!(sg.segment(1).unwrap().as_slice(), &[4, 5]);
    assert_eq!(sg.segment(2).unwrap().as_slice(), &[6, 0, 0, 0]);
    assert!(sg.segment(3).is_none());
    let mut out = [0u8; 7];
    assert_eq!(sg.copy_to_slice(&mut out), Ok(7));
    assert_eq!(out, [1, 2, 3, 4, 5, 6, 0]);
    let mut big = [9u8; 12];
    assert_eq!(sg.copy_to_slice(&mut big), Ok(9));
    assert_eq!(big, [1, 2, 3, 4, 5, 6, 0, 0, 0, 9, 9, 9]);
    assert_eq!(sg.copy_from_slice(&[8u8; 20]), Ok(9));
    assert_eq!(sg.segments().len(), 3);
    sg.segment_mut(1).unwrap().zero();
    assert_eq!(sg.segment(1).unwrap().as_slice(), &[0, 0]);
}
