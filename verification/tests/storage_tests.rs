use prisma_drivers::ahci::command::{AtaCommand, BufferId, CommandQueue, CommandResult, CommandType, PrdtBuilder, TransferDirection};
use prisma_drivers::ahci::device::{AhciDevice, DeviceHealth, DeviceType, TransferPart};
use prisma_drivers::ahci::driver::{create_controller, implemented_ports, is_ahci_controller, AhciDriver, AhciHba};
use prisma_drivers::ahci::error::AhciError;
use prisma_drivers::ahci::port::{AhciPort, PortState};
use prisma_drivers::ide::{IdeError, IdeState, PollStep, POLL_TIMEOUT};

#[test]
fn ata_read_commands() {
    let c = AtaCommand::read_dma(0x0123_4567, 8, BufferId(7));
    assert_eq!(c.command, 0xC8);
    assert_eq!(c.count, 8);
    assert_eq!(c.lba, 0x0123_4567);
    assert_eq!(c.device, 0xE1);
    assert_eq!(c.transfer_size, 4096);
    assert_eq!(c.direction, TransferDirection::DeviceToHost);
    assert_eq!(c.command_type, CommandType::DmaData);
    assert!(!c.is_lba48());
    let e = AtaCommand::write_dma_ext(0x1_0000_0000, 300, BufferId(1));
    assert_eq!(e.command, 0x35);
    assert_eq!((e.count, e.count_ext), (44, 1));
    assert_eq!(e.device, 0x40);
    assert!(e.is_lba48());
    let fis = e.build_fis();
    assert_eq!(fis.fis_type, 0x27);
    assert_eq!(fis.command, 0x35);
    assert_eq!((fis.lba0, fis.lba1, fis.lba2, fis.lba3, fis.lba4, fis.lba5), (0, 0, 0, 0, 1, 0));
    assert_eq!((fis.countl, fis.counth), (44, 1));
    assert_eq!(AtaCommand::identify(BufferId(2)).transfer_size, 512);
    assert_eq!(AtaCommand::flush_cache().direction, TransferDirection::NoTransfer);
    assert_eq!(AtaCommand::new(0xEC).with_timeout(5).timeout_ms, 5);
}

#[test]
fn command_queue_slots_and_completions() {
    let mut q = CommandQueue::new();
    assert!(q.is_empty());
    assert_eq!(q.available_count(), 32);
    let s0 = q.allocate_slot().unwrap();
    let s1 = q.allocate_slot().unwrap();
    assert_eq!((s0, s1), (0, 1));
    assert_eq!(q.available_count(), 30);
    assert_eq!(q.submit_command(s0, AtaCommand::flush_cache(), 100), Ok(()));
    assert_eq!(q.submit_command(s0, AtaCommand::flush_cache(), 100), Err(AhciError::Busy));
    assert_eq!(q.submit_command(40, AtaCommand::flush_cache(), 100), Err(AhciError::InvalidParameters));
    assert_eq!(q.active_count(), 1);
    assert_eq!(q.check_timeouts(100 + 30_000), vec![]);
    assert_eq!(q.check_timeouts(100 + 30_001), vec![0]);
    q.complete_command(s1, CommandResult::Success);
    let done = q.process_completions();
    assert_eq!(done, vec![(0, CommandResult::Timeout), (1, CommandResult::Success)]);
    assert_eq!(q.available_count(), 32);
    assert_eq!(q.active_count(), 0);
    q.release_slot(5);
    assert_eq!(q.available_count(), 32);
    assert_eq!(CommandResult::Error(4).error_code(), Some(4));
    assert!(!CommandResult::Aborted.is_success());
}

#[test]
fn command_queue_fills_up() {
    let mut q = CommandQueue::new();
    for i in 0..32u8 {
        assert_eq!(q.allocate_slot(), Some(i));
    }
    assert!(q.is_full());
    assert_eq!(q.allocate_slot(), None);
    q.release_slot(17);
    assert_eq!(q.allocate_slot(), Some(17));
}

#[test]
fn prdt_builder_regions() {
    let mut b = PrdtBuilder::new();
    assert_eq!(b.add_region(0x1_2345_6000, 4096, false), Ok(()));
    assert_eq!(b.add_region(0x2000, 0, false), Err(AhciError::InvalidParameters));
    assert_eq!(b.add_region(0x2000, 0x40_0001, false), Err(AhciError::InvalidParameters));
    assert_eq!(b.add_buffer(&[0x10000, 0x20000], 6000, true), Ok(()));
    assert_eq!(b.entry_count(), 3);
    assert_eq!(b.total_size(), 4096 + 6000);
    let (entries, total) = b.build();
    assert_eq!(total, 10096);
    assert_eq!((entries[0].dba, entries[0].dbau, entries[0].dbc), (0x2345_6000, 1, 4095));
    assert_eq!(entries[1].dbc, 4095);
    assert_eq!(entries[2].dba, 0x20000);
    assert_eq!(entries[2].dbc, (6000 - 4096 - 1) | 0x8000_0000);
}

#[test]
fn ahci_device_lifecycle() {
    let mut dev = AhciDevice::new(0x0000_0101);
    assert_eq!(dev.get_info().device_type, DeviceType::Ata);
    assert!(dev.identify_command(BufferId(1)).is_some());
    assert_eq!(dev.read_parts(0, 1, BufferId(1)), Err(AhciError::DeviceNotReady));
    assert_eq!(dev.complete_identify(CommandResult::Error(4)), Err(AhciError::DeviceNotReady));
    assert_eq!(dev.complete_identify(CommandResult::Success), Ok(()));
    dev.set_online();
    assert_eq!(dev.get_info().total_sectors, 1024 * 1024);
    assert_eq!(
        dev.read_parts(10, 8, BufferId(3)),
        Ok(vec![TransferPart { command: AtaCommand::read_dma(10, 8, BufferId(3)), buffer_offset: 0 }])
    );
    assert_eq!(dev.write_parts(0x1000_0000, 8, BufferId(3)), Err(AhciError::InvalidParameters));
    assert_eq!(dev.write_parts(10, 0, BufferId(3)), Err(AhciError::InvalidParameters));
    assert_eq!(
        dev.write_parts(10, 300, BufferId(3)),
        Ok(vec![TransferPart { command: AtaCommand::write_dma_ext(10, 300, BufferId(3)), buffer_offset: 0 }])
    );
    assert_eq!(dev.complete_transfer(CommandResult::Error(1), 5), Err(AhciError::HardwareError));
    assert_eq!(dev.error_count(), 1);
    assert_eq!(dev.health_check(), Ok(DeviceHealth::Good));
    dev.reset_error_count();
    assert_eq!(dev.error_count(), 0);
    assert_eq!(DeviceHealth::Good.as_percentage() > DeviceHealth::Poor.as_percentage(), true);
    let atapi = AhciDevice::new(0xEB14_0101);
    assert_eq!(atapi.get_info().device_type, DeviceType::Atapi);
    assert!(atapi.identify_command(BufferId(1)).is_none());
}

#[test]
fn ahci_port_decisions() {
    let mut port = AhciPort::new(3);
    assert_eq!(port.port_number(), 3);
    assert_eq!(port.state(), PortState::Uninitialized);
    assert!(AhciPort::link_active(0x123));
    assert!(!AhciPort::link_active(0x001));
    assert_eq!(port.detect_device(0x123, 0x0000_0101), Some(0x0000_0101));
    assert_eq!(port.device_signature(), Some(0x0000_0101));
    assert_eq!(AhciPort::command_result(0, 0x50), CommandResult::Success);
    assert_eq!(AhciPort::command_result(1 << 30, 0x0451), CommandResult::Error(0x51));
    assert_eq!(AhciPort::comreset_value(0x301), 0x301);
    assert_eq!(AhciPort::comreset_release_value(0x301), 0x300);
    port.begin_reset();
    assert_eq!(port.state(), PortState::Resetting);
    assert_eq!(port.fail_reset(), Err(AhciError::ResetFailed));
}

#[test]
fn ahci_driver_registry() {
    assert!(is_ahci_controller(0x01, 0x06, 0x01));
    assert!(!is_ahci_controller(0x01, 0x01, 0x80));
    assert_eq!(create_controller(0, 31, 2, 0x8086, 0x2922, None).err(), Some(AhciError::InvalidBar));
    assert_eq!(create_controller(0, 31, 2, 0x8086, 0x2922, Some(0)).err(), Some(AhciError::InvalidBar));
    let ctrl = create_controller(0, 31, 2, 0x8086, 0x2922, Some(0xFEBF_1000)).unwrap();
    assert_eq!(ctrl.pci_info().vendor_id, 0x8086);
    assert_eq!(ctrl.hba().base_addr, 0xFEBF_1000);
    assert_eq!(ctrl.hba().get_port_registers(2), Ok(0xFEBF_1000 + 0x100 + 2 * 0x80));
    assert_eq!(ctrl.hba().get_port_registers(32), Err(AhciError::InvalidPort));
    assert_eq!(ctrl.check_capabilities(0), Ok(()));
    assert!(ctrl.init_port(40).is_err());
    assert_eq!(AhciHba::ahci_enabled(0), 0x8000_0000);
    assert!(AhciHba::reset_done(0x8000_0000));
    assert!(!AhciHba::reset_done(AhciHba::reset_requested(0)));
    assert_eq!(AhciHba::interrupts_disabled(AhciHba::interrupts_enabled(0x8000_0000)), 0x8000_0000);
    assert_eq!(implemented_ports(0b1000_0101), vec![0, 2, 7]);
    assert_eq!(implemented_ports(0), vec![]);

    let mut driver = AhciDriver::new();
    assert_eq!(driver.finish_scan(), Err(AhciError::NoControllersFound));
    driver.add_controller(ctrl);
    assert_eq!(driver.finish_scan(), Ok(()));
    let mut dev = AhciDevice::new(0x0000_0101);
    dev.complete_identify(CommandResult::Success).unwrap();
    dev.set_online();
    assert_eq!(driver.add_device(dev), 0);
    assert_eq!(driver.device_count(), 1);
    assert_eq!(
        driver.read(0, 0, 1, BufferId(9)),
        Ok(vec![TransferPart { command: AtaCommand::read_dma(0, 1, BufferId(9)), buffer_offset: 0 }])
    );
    assert_eq!(driver.write(1, 0, 1, BufferId(9)), Err(AhciError::DeviceNotFound));
    assert!(driver.get_device_info(1).is_none());
    let list = driver.list_devices();
    assert_eq!(list.len(), 1);
    assert_eq!(list[0].0, 0);
    assert_eq!(list[0].1.model, "AHCI Storage Device");
}

#[test]
fn ide_status_and_setup() {
    assert_eq!(IdeState::poll_status(0x80, true), None);
    assert_eq!(IdeState::poll_status(0x00, false), Some(Ok(())));
    assert_eq!(IdeState::poll_status(0x01, true), Some(Err(IdeError::StatusError)));
    assert_eq!(IdeState::poll_status(0x20, true), Some(Err(IdeError::DriveFault)));
    assert_eq!(IdeState::poll_status(0x40, true), Some(Err(IdeError::DataNotReady)));
    assert_eq!(IdeState::poll_status(0x48, true), Some(Ok(())));
    assert_eq!(IdeState::identify_select(1), 0xB0);
    assert_eq!(IdeState::identify_type(0), 0);
    assert_eq!(IdeState::identify_type(0x14), 1);
    assert_eq!(IdeState::cache_flush_register(), (0x07, 0xE7));

    let mut ide = IdeState::new();
    assert_eq!(ide.register_port(0, 7), 0x1F7);
    assert_eq!(ide.register_port(1, 0x0C), 0x376 + 4);
    assert_eq!(ide.read_sectors_setup(0, 1, 0, 512).err(), Some(IdeError::DriveNotFound));
    assert_eq!(ide.read_sectors_setup(5, 1, 0, 512).err(), Some(IdeError::InvalidParameter));
    let mut data = vec![0u8; 512];
    // 0x100000 sectors in words 60-61
    data[120] = 0x00;
    data[121] = 0x00;
    data[122] = 0x10;
    data[123] = 0x00;
    data[54] = b'D';
    data[55] = b'Q';
    ide.record_identify(0, 1, 0, &data);
    assert_eq!(ide.return_drive_size_bytes(1), Ok(0x10_0000 * 512));
    assert_eq!(ide.return_drive_size_bytes(0).err(), Some(IdeError::DriveNotFound));
    assert_eq!(ide.read_sectors_setup(1, 2, 0x0123_4567, 512).err(), Some(IdeError::BufferTooSmall));
    assert_eq!(ide.read_sectors_setup(1, 1, 0x1000_0000, 512).err(), Some(IdeError::LbaOutOfRange));
    let cmd = ide.read_sectors_setup(1, 2, 0x0123_4567, 1024).unwrap();
    assert_eq!(cmd.bus, 0x1F0);
    assert_eq!(cmd.words, 512);
    assert_eq!(cmd.registers, vec![(6, 0xF1), (2, 2), (3, 0x67), (4, 0x45), (5, 0x23), (7, 0x20)]);
    assert_eq!(ide.write_sectors_setup(1, 1, 0x1000_0000, 512).err(), Some(IdeError::LbaOutOfRange));
    assert_eq!(ide.write_sectors_setup(1, 1, 5, 512).unwrap().registers[5], (7, 0x30));
    assert_eq!(ide.identify_absent(1, 0), Err(IdeError::DriveNotFound));
    ide.reset_devices();
    assert_eq!(ide.return_drive_size_bytes(1).err(), Some(IdeError::DriveNotFound));
}

#[test]
fn ahci_request_larger_than_one_command_is_split() {
    let mut dev = AhciDevice::new(0x0000_0101);
    assert_eq!(dev.complete_identify(CommandResult::Success), Ok(()));
    dev.set_online();
    // a 48-bit command counts at most 65535 sectors: 70000 take two commands
    let parts = dev.read_parts(0, 70000, BufferId(1)).unwrap();
    assert_eq!(
        parts,
        vec![
            TransferPart { command: AtaCommand::read_dma_ext(0, 65535, BufferId(1)), buffer_offset: 0 },
            TransferPart { command: AtaCommand::read_dma_ext(65535, 4465, BufferId(1)), buffer_offset: 65535 * 512 },
        ]
    );
    let total: u32 = parts.iter().map(|p| p.command.count as u32 + p.command.count_ext as u32 * 256).sum();
    assert_eq!(total, 70000);
    assert_eq!(
        dev.read_parts(0, 65535, BufferId(1)),
        Ok(vec![TransferPart { command: AtaCommand::read_dma_ext(0, 65535, BufferId(1)), buffer_offset: 0 }])
    );
}

#[test]
fn ide_poll_step_counts_busy_reads() {
    // not busy: the outcome of the read
    assert!(matches!(IdeState::poll_step(0x00, false, 7), PollStep::Finished(Ok(()))));
    assert!(matches!(IdeState::poll_step(0x01, true, 0), PollStep::Finished(Err(IdeError::StatusError))));
    // busy: read again with one more counted, until the read past the limit
    assert!(matches!(IdeState::poll_step(0x80, false, 0), PollStep::Again(1)));
    assert!(matches!(IdeState::poll_step(0x80, false, POLL_TIMEOUT - 1), PollStep::Again(n) if n == POLL_TIMEOUT));
    assert!(matches!(IdeState::poll_step(0x80, false, POLL_TIMEOUT), PollStep::Finished(Err(IdeError::Timeout))));
}

#[test]
fn ide_absent_drive_is_marked_empty() {
    let mut ide = IdeState::new();
    let data = vec![0u8; 512];
    ide.record_identify(1, 1, 0, &data);
    assert!(ide.return_drive_size_bytes(3).is_ok());
    assert_eq!(ide.identify_absent(1, 1), Err(IdeError::DriveNotFound));
    assert_eq!(ide.return_drive_size_bytes(3).err(), Some(IdeError::DriveNotFound));
}
