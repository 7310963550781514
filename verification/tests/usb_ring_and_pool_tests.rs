use prisma_drivers::ahci::port::{wait_step, WaitStep};
use prisma_drivers::usb::memory::UsbMemoryPool;
use prisma_drivers::usb::types::{SetupPacket, UsbDirection};
use prisma_drivers::usb::xhci::ring::{EventRing, RingSegment, TransferRing};
use prisma_drivers::usb::xhci::transfer::{UsbTransferManager, UsbTransferResult, UsbTransferStatus};
use prisma_drivers::usb::xhci::trb::Trb;

fn trb() -> Trb {
    Trb { parameter: 0, status: 0, control: 0 }
}

#[test]
fn event_ring_dequeue_pointer_walks_the_segments() {
    let s0 = RingSegment::new(2, 0x1000).unwrap();
    let s1 = RingSegment::new(3, 0x2000).unwrap();
    let mut er = EventRing::new(vec![s0, s1]).unwrap();
    er.update_dequeue_pointer(4);
    // segment 1, TRB 2
    assert_eq!(er.dequeue_pointer(), 0x2000 + 32);
    er.update_dequeue_pointer(1);
    // wrapped to segment 0, TRB 0
    assert_eq!(er.dequeue_pointer(), 0x1000);
}

#[test]
fn transfer_ring_position_after_k_enqueues() {
    // two segments of four TRBs: three usable each
    let mut r = TransferRing::new(&[0x1_0000, 0x2_0000], 4).unwrap();
    for k in 1..=13usize {
        r.enqueue_trb(trb()).unwrap();
        let s = r.stats();
        assert_eq!(s.current_trb, k % 3);
        assert_eq!(s.current_segment, (k / 3) % 2);
        assert_eq!(s.cycle_state, (k / 6) % 2 == 0);
    }
}

#[test]
fn pool_allocations_are_aligned_inside_and_disjoint() {
    let base = 0x10_0000usize;
    let mut pool = UsbMemoryPool::new(base, 0x1000);
    let a = pool.allocate(10, 64).unwrap();
    let b = pool.allocate(100, 256).unwrap();
    let c = pool.allocate(1, 16).unwrap();
    let blocks = [(a, 64usize), (b, 256usize), (c, 16usize)];
    for &(p, n) in blocks.iter() {
        assert!(p >= base && p + n <= base + 0x1000);
    }
    assert_eq!(a % 64, 0);
    assert_eq!(b % 256, 0);
    assert_eq!(c % 16, 0);
    for i in 0..3 {
        for j in 0..3 {
            if i != j {
                let (p, n) = blocks[i];
                let (q, m) = blocks[j];
                assert!(p + n <= q || q + m <= p);
            }
        }
    }
    assert_eq!(pool.stats().allocated_bytes, 64 + 256 + 16);
    assert!(pool.allocate(0x1000, 16).is_err());
}

#[test]
fn pool_freeing_everything_merges_back_into_one_block() {
    let mut pool = UsbMemoryPool::new(0x8000, 0x400);
    let a = pool.allocate(0x100, 16).unwrap();
    let b = pool.allocate(0x100, 16).unwrap();
    let c = pool.allocate(0x100, 16).unwrap();
    assert_eq!(pool.deallocate(a), Ok(()));
    assert_eq!(pool.deallocate(c), Ok(()));
    assert_eq!(pool.stats().free_bytes, 0x300);
    assert_eq!(pool.deallocate(b), Ok(()));
    let s = pool.stats();
    assert_eq!((s.free_blocks, s.free_bytes, s.allocated_blocks), (1, 0x400, 0));
}

#[test]
fn transfer_ids_are_fresh_and_collected_once() {
    let mut m = UsbTransferManager::new();
    let mut ring = TransferRing::new(&[0x3_0000], 64).unwrap();
    let setup = SetupPacket::get_descriptor(1, 0, 18);
    let id1 = m.submit_control_transfer(1, 0, setup, vec![0u8; 18], 0x5000, UsbDirection::In, &mut ring).unwrap();
    let id2 = m.submit_bulk_transfer(1, 2, vec![0u8; 70000], 0x6000, UsbDirection::Out, &mut ring).unwrap();
    let id3 = m.submit_control_transfer(1, 0, setup, vec![], 0x5000, UsbDirection::In, &mut ring).unwrap();
    assert_eq!((id1, id2, id3), (1, 2, 3));
    // setup + data + status, two bulk chunks, setup + status
    assert_eq!(ring.stats().current_trb, 3 + 2 + 2);
    assert_eq!(m.get_transfer_status(id2), Some(UsbTransferStatus::InProgress));
    let done = UsbTransferResult {
        transfer_id: id1,
        status: UsbTransferStatus::Completed,
        data: vec![],
        actual_length: 18,
        error: None,
    };
    assert_eq!(m.complete_transfer(id1, done), Ok(()));
    let stats = m.get_stats();
    assert_eq!(stats.control_transfers + stats.bulk_transfers + stats.interrupt_transfers + stats.isochronous_transfers, 3);
    assert_eq!(
        stats.pending_transfers + stats.in_progress_transfers + stats.completed_transfers + stats.failed_transfers
            + stats.cancelled_transfers,
        3
    );
    let first = m.get_completed_transfers();
    assert_eq!(first.len(), 1);
    assert_eq!(first[0].transfer_id, id1);
    assert_eq!(m.get_completed_transfers().len(), 0);
    assert_eq!(m.pending_count(), 2);
    let id4 = m.submit_control_transfer(1, 0, setup, vec![], 0x5000, UsbDirection::In, &mut ring).unwrap();
    assert_eq!(id4, 4);
}

#[test]
fn bounded_wait_counts_down() {
    assert_eq!(wait_step(true, 1), WaitStep::Done);
    assert_eq!(wait_step(false, 1000), WaitStep::Again(999));
    assert_eq!(wait_step(false, 1), WaitStep::TimedOut);
}
