use prisma_drivers::usb::async_ops::{
    BulkTransfer, ControlTransferBuilder, InterruptTransfer, Timeout, TimeoutExt, UsbEvent, UsbEventStream,
};
use prisma_drivers::usb::endpoint::EndpointDirection;
use prisma_drivers::usb::error::UsbDriverError;
use prisma_drivers::usb::transfer::{
    SetupPacket, Transfer, TransferBuffer, TransferBuilder, TransferIds, TransferStatus, TransferType,
};

#[test]
fn setup_packet_requests() {
    let p = SetupPacket::get_descriptor(0x01, 0, 0, 18);
    assert_eq!(p.request_type, 0x80);
    assert_eq!(p.request, 0x06);
    assert_eq!(p.value, 0x0100);
    assert_eq!(p.length, 18);
    assert!(p.is_device_to_host());
    assert_eq!(SetupPacket::get_descriptor(0x03, 2, 0x0409, 255).value, 0x0302);
    let a = SetupPacket::set_address(5);
    assert_eq!((a.request_type, a.request, a.value, a.index, a.length), (0, 5, 5, 0, 0));
    assert!(!a.is_device_to_host());
    let c = SetupPacket::set_configuration(1);
    assert_eq!((c.request, c.value), (9, 1));
    let f = SetupPacket::clear_feature(0, 0x81);
    assert_eq!((f.request_type, f.request, f.index), (0x02, 0x01, 0x81));
    assert_eq!(SetupPacket::new(0xA1, 1, 0, 0, 0).request_type_bits(), (1, 1, 1));
}

#[test]
fn transfer_buffer_lengths() {
    let b = TransferBuffer::new(16);
    assert_eq!(b.len(), 16);
    assert!(!b.is_empty());
    assert_eq!(b.as_slice(), Some(&[0u8; 16][..]));
    let sg = TransferBuffer::scatter_gather(vec![vec![1, 2, 3], vec![], vec![4, 5]]);
    assert_eq!(sg.len(), 5);
    assert_eq!(sg.as_slice(), None);
    let ext = TransferBuffer::external(0x1000, 512);
    assert_eq!(ext.len(), 512);
    assert!(TransferBuffer::new(0).is_empty());
    let mut d = TransferBuffer::from_data(vec![9, 8]);
    if let Some(s) = d.as_mut_slice() {
        s[0] = 1;
    }
    assert_eq!(d.as_slice(), Some(&[1u8, 8][..]));
}

#[test]
fn transfer_ids_count_up() {
    let mut ids = TransferIds::new();
    assert_eq!(ids.next_id(), 1);
    assert_eq!(ids.next_id(), 2);
}

#[test]
fn transfer_defaults_and_status() {
    let mut t = Transfer::bulk(7, 3, 0x81, TransferBuffer::new(64));
    assert_eq!(t.id(), 7);
    assert_eq!(t.device_address(), 3);
    assert_eq!(t.transfer_type(), TransferType::Bulk);
    assert_eq!(t.status(), TransferStatus::Pending);
    assert_eq!(t.timeout(), 5000);
    assert_eq!(t.flags(), 0);
    assert!(t.is_in());
    assert_eq!(t.direction(), EndpointDirection::In);
    assert!(!t.is_complete());
    assert_eq!(t.poll_outcome(), None);
    t.set_bytes_transferred(64);
    t.set_status(TransferStatus::Completed);
    assert!(t.is_complete());
    assert_eq!(t.poll_outcome(), Some(Ok(64)));
    t.cancel();
    assert_eq!(t.poll_outcome(), Some(Err(UsbDriverError::TransferFailed)));
    t.set_status(TransferStatus::Stalled);
    assert_eq!(t.poll_outcome(), Some(Err(UsbDriverError::EndpointError)));
    t.set_status(TransferStatus::Overflow);
    assert_eq!(t.poll_outcome(), Some(Err(UsbDriverError::BufferOverflow)));
    t.set_status(TransferStatus::Timeout);
    assert_eq!(t.poll_outcome(), Some(Err(UsbDriverError::TransferTimeout)));
    let c = Transfer::control(1, 2, SetupPacket::set_address(4), TransferBuffer::new(0));
    assert_eq!(c.endpoint_address(), 0);
    assert!(c.is_out());
    assert_eq!(c.setup_packet(), Some(&SetupPacket::set_address(4)));
}

#[test]
fn transfer_builder_builds() {
    let t = TransferBuilder::new(2, 0x02, TransferType::Bulk)
        .buffer_data(vec![1, 2, 3])
        .timeout(100)
        .flags(4)
        .build(9);
    assert_eq!(t.id(), 9);
    assert_eq!(t.timeout(), 100);
    assert_eq!(t.flags(), 4);
    assert_eq!(t.buffer().as_slice(), Some(&[1u8, 2, 3][..]));
}

#[test]
fn async_transfer_completion() {
    let mut t = BulkTransfer::read(5, 3, 0x01, 32);
    assert_eq!(t.id(), 5);
    assert_eq!(t.transfer().endpoint_address(), 0x81);
    assert_eq!(t.transfer().buffer().len(), 32);
    assert!(!t.is_complete());
    assert_eq!(t.poll(), None);
    t.complete(TransferStatus::Completed, 32, None);
    assert!(t.is_complete());
    assert_eq!(t.poll(), Some(Ok(32)));
}

#[test]
fn async_transfer_errors() {
    let mut t = InterruptTransfer::write(1, 2, 0x02, vec![1]);
    assert_eq!(t.transfer().transfer_type(), TransferType::Interrupt);
    t.cancel();
    assert_eq!(t.poll(), Some(Err(UsbDriverError::TransferFailed)));
    let mut e = BulkTransfer::write(2, 2, 0x02, vec![1, 2]);
    e.complete(TransferStatus::Error, 0, Some(UsbDriverError::DeviceNotFound));
    assert_eq!(e.poll(), Some(Err(UsbDriverError::DeviceNotFound)));
    // the error was handed out; a second poll reports a plain failure
    assert_eq!(e.poll(), Some(Err(UsbDriverError::TransferFailed)));
    let mut s = InterruptTransfer::read(3, 2, 0x03, 8);
    s.complete(TransferStatus::Stalled, 0, None);
    assert_eq!(s.poll(), Some(Err(UsbDriverError::EndpointError)));
    s.complete(TransferStatus::Underflow, 0, None);
    assert_eq!(s.poll(), Some(Err(UsbDriverError::TransferFailed)));
}

#[test]
fn control_transfer_builder_build() {
    let t = ControlTransferBuilder::get_descriptor(0, 0x01, 0, 18).timeout(1000).build(11);
    let tr = t.transfer();
    assert_eq!(tr.id(), 11);
    assert_eq!(tr.transfer_type(), TransferType::Control);
    assert_eq!(tr.timeout(), 1000);
    let p = tr.setup_packet().unwrap();
    assert_eq!((p.request_type, p.request, p.value, p.index, p.length), (0x80, 0x06, 0x0100, 0, 18));
    assert_eq!(tr.buffer().len(), 18);

    let s = ControlTransferBuilder::set_address(0, 7).build(12);
    let p = *s.transfer().setup_packet().unwrap();
    assert_eq!((p.request_type, p.request, p.value, p.length), (0x00, 0x05, 7, 0));
    assert_eq!(s.transfer().timeout(), 5000);
    assert_eq!(s.transfer().buffer().len(), 0);

    let g = ControlTransferBuilder::get_status(1, 0x02, 0x81).build(13);
    let p = *g.transfer().setup_packet().unwrap();
    assert_eq!((p.request_type, p.request, p.index, p.length), (0x82, 0x00, 0x81, 2));

    let c = ControlTransferBuilder::set_configuration(1, 1).build(14);
    assert_eq!(c.transfer().setup_packet().unwrap().request, 0x09);
    let cf = ControlTransferBuilder::clear_feature(1, 0x02, 0, 0x81).build(15);
    assert_eq!(cf.transfer().setup_packet().unwrap().request_type, 0x02);
    assert_eq!(cf.transfer().setup_packet().unwrap().request, 0x01);
    let sf = ControlTransferBuilder::set_feature(1, 0x00, 1, 0).build(16);
    assert_eq!(sf.transfer().setup_packet().unwrap().request, 0x03);
    let custom = ControlTransferBuilder::new(4).request_type(0x21).request(0x0A).value(3).index(1).data(vec![1, 2]).build(17);
    let p = *custom.transfer().setup_packet().unwrap();
    assert_eq!((p.request_type, p.request, p.value, p.index, p.length), (0x21, 0x0A, 3, 1, 2));
    assert_eq!(custom.transfer().device_address(), 4);
}

#[test]
fn timeout_passes_results_on() {
    let mut t = Timeout::new(5u32, 250);
    assert_eq!(t.timeout(), 250);
    assert_eq!(t.on_poll::<u32>(None), None);
    assert_eq!(t.on_poll(Some(9u32)), Some(Ok(9)));
    *t.future_mut() = 6;
    let ext = std::future::ready(3u8).timeout(10);
    assert_eq!(ext.timeout(), 10);
}

#[test]
fn event_stream_is_fifo() {
    let mut s = UsbEventStream::new();
    assert_eq!(s.try_next(), None);
    s.push_event(UsbEvent::DeviceConnected { address: 1 });
    s.push_event(UsbEvent::TransferComplete { transfer_id: 3, status: TransferStatus::Completed });
    s.push_event(UsbEvent::Error { error: UsbDriverError::ControllerError });
    assert_eq!(s.try_next(), Some(UsbEvent::DeviceConnected { address: 1 }));
    s.push_event(UsbEvent::DeviceDisconnected { address: 1 });
    assert_eq!(s.try_next(), Some(UsbEvent::TransferComplete { transfer_id: 3, status: TransferStatus::Completed }));
    assert_eq!(s.try_next(), Some(UsbEvent::Error { error: UsbDriverError::ControllerError }));
    assert_eq!(s.try_next(), Some(UsbEvent::DeviceDisconnected { address: 1 }));
    assert_eq!(s.try_next(), None);
}

use prisma_drivers::usb::async_ops::{
    next_retry_delay, retries_exhausted, retry_step, select_first, wait_for_device_state, DeviceEnumerator,
    EnumerationStep, JoinTransfers,
};
use prisma_drivers::usb::descriptor::{AnyDescriptor, DeviceDescriptor};
use prisma_drivers::usb::device::{DeviceSpeed, DeviceState, UsbConfiguration, UsbDevice};

fn new_device() -> UsbDevice {
    let d = DeviceDescriptor::new(0x0200, 0, 0, 0, 64, 1, 2, 3, 0, 0, 0, 1);
    UsbDevice::new(DeviceSpeed::High, 1, 0, AnyDescriptor::Device(d))
}

#[test]
fn enumerator_walks_the_steps() {
    let mut dev = new_device();
    dev.add_configuration(UsbConfiguration { value: 1, string_index: 0, attributes: 0x80, max_power: 50, interfaces: vec![] });
    let mut e = DeviceEnumerator::new();
    assert_eq!(e.step(), EnumerationStep::ReadDescriptorHead);
    let t = e.request(&dev).unwrap().build(1);
    let p = *t.transfer().setup_packet().unwrap();
    assert_eq!((p.request, p.value, p.length), (0x06, 0x0100, 8));
    assert_eq!(t.transfer().device_address(), 0);
    assert_eq!(e.complete(&mut dev, Ok(8)), Ok(false));
    let t = e.request(&dev).unwrap().build(2);
    assert_eq!(t.transfer().setup_packet().unwrap().request, 0x05);
    assert_eq!(e.complete(&mut dev, Ok(0)), Ok(false));
    assert_eq!(dev.address(), 1);
    assert_eq!(dev.state(), DeviceState::Address);
    let t = e.request(&dev).unwrap().build(3);
    assert_eq!(t.transfer().device_address(), 1);
    assert_eq!(t.transfer().setup_packet().unwrap().length, 18);
    assert_eq!(e.complete(&mut dev, Err(UsbDriverError::TransferTimeout)), Err(UsbDriverError::TransferTimeout));
    assert_eq!(e.step(), EnumerationStep::ReadDeviceDescriptor);
    assert_eq!(e.complete(&mut dev, Ok(18)), Ok(false));
    assert_eq!(e.request(&dev).unwrap().build(4).transfer().setup_packet().unwrap().value, 0x0200);
    assert_eq!(e.complete(&mut dev, Ok(9)), Ok(false));
    assert_eq!(e.request(&dev).unwrap().build(5).transfer().setup_packet().unwrap().request, 0x09);
    assert_eq!(e.complete(&mut dev, Ok(0)), Ok(true));
    assert_eq!(e.step(), EnumerationStep::Finished);
    assert_eq!(dev.current_configuration(), 1);
    assert_eq!(dev.state(), DeviceState::Configured);
    assert!(e.request(&dev).is_none());
}

#[test]
fn enumerator_needs_configuration_one() {
    let mut dev = new_device();
    let mut e = DeviceEnumerator::new();
    for _ in 0..4 {
        assert_eq!(e.complete(&mut dev, Ok(0)), Ok(false));
    }
    assert_eq!(e.complete(&mut dev, Ok(0)), Err(UsbDriverError::InvalidConfiguration));
    assert_eq!(wait_for_device_state(&dev, DeviceState::Configured, 100), Ok(()));
}

#[test]
fn retry_decisions() {
    assert_eq!(retry_step(0, 3, Ok::<u32, UsbDriverError>(5)), Some(Ok(5)));
    assert_eq!(retry_step::<u32>(0, 3, Err(UsbDriverError::TransferFailed)), None);
    assert_eq!(retry_step::<u32>(2, 3, Err(UsbDriverError::TransferTimeout)), Some(Err(UsbDriverError::TransferTimeout)));
    assert_eq!(next_retry_delay(10), 20);
    assert_eq!(retries_exhausted::<u32>(), Err(UsbDriverError::TransferFailed));
}

#[test]
fn select_and_join_transfers() {
    let mut ts = vec![BulkTransfer::read(1, 1, 1, 4), BulkTransfer::read(2, 1, 1, 4), BulkTransfer::read(3, 1, 1, 4)];
    assert_eq!(select_first(&mut ts), Err(UsbDriverError::TransferTimeout));
    ts[1].complete(TransferStatus::Completed, 4, None);
    ts[2].complete(TransferStatus::Completed, 2, None);
    assert_eq!(select_first(&mut ts), Ok((1, 4)));
    ts[0].complete(TransferStatus::Stalled, 0, None);
    assert_eq!(select_first(&mut ts), Err(UsbDriverError::EndpointError));

    let mut pending = vec![BulkTransfer::read(1, 1, 1, 4), BulkTransfer::read(2, 1, 1, 4)];
    pending[0].complete(TransferStatus::Completed, 3, None);
    let mut join = JoinTransfers::new(pending);
    assert_eq!(join.poll(), None);

    let mut done = vec![BulkTransfer::read(1, 1, 1, 4), BulkTransfer::read(2, 1, 1, 4)];
    done[0].complete(TransferStatus::Completed, 3, None);
    done[1].complete(TransferStatus::Completed, 4, None);
    assert_eq!(JoinTransfers::new(done).poll(), Some(Ok(vec![3, 4])));

    let mut failing = vec![BulkTransfer::read(1, 1, 1, 4), BulkTransfer::read(2, 1, 1, 4)];
    failing[0].complete(TransferStatus::Timeout, 0, None);
    assert_eq!(JoinTransfers::new(failing).poll(), Some(Err(UsbDriverError::TransferTimeout)));
    assert_eq!(JoinTransfers::new(vec![]).poll(), Some(Ok(vec![])));
}
