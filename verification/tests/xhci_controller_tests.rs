use prisma_drivers::usb::error::UsbError;
use prisma_drivers::usb::types::UsbSpeed;
use prisma_drivers::usb::xhci::context::DeviceContext;
use prisma_drivers::usb::xhci::controller::{register_addresses, SlotMemory, XhciController};
use prisma_drivers::usb::xhci::registers::{
    iman, portsc, usbcmd, usbsts, CapabilityRegisters, DoorbellRegister, InterrupterRegisterSet,
    OperationalRegisters, PortRegisterSet, RuntimeRegisters,
};

fn capability_block() -> CapabilityRegisters {
    CapabilityRegisters {
        caplength_reserved: 0x0120,
        hciversion: 0x0110,
        // 8 slots, 4 interrupters, 2 ports
        hcsparams1: (2 << 24) | (4 << 8) | 8,
        hcsparams2: 0,
        hcsparams3: 0,
        // 64-bit addressing, extended capabilities at 0x500
        hccparams1: (0x500 << 16) | (3 << 12) | 0x01,
        dboff: 0x2003,
        rtsoff: 0x301f,
        hccparams2: 0,
    }
}

fn operational_block() -> OperationalRegisters {
    OperationalRegisters {
        usbcmd: 0,
        usbsts: usbsts::HCH,
        pagesize: 1,
        dnctrl: 0,
        crcr: 0,
        dcbaap: 0,
        config: 0xab00,
    }
}

fn interrupter() -> InterrupterRegisterSet {
    InterrupterRegisterSet { iman: 0, imod: 0, erstsz: 0, erstba: 0, erdp: 0 }
}

fn port(value: u32) -> PortRegisterSet {
    PortRegisterSet { portsc: value, portpmsc: 0, portli: 0, porthlpmc: 0 }
}

fn memory() -> SlotMemory {
    SlotMemory { control_ring: 0x40_0000, device_context: 0x41_0040, input_context: 0x42_0000 }
}

/// A controller taken through the whole initialization sequence, with a high-speed
/// device connected on port 1 whose connect and reset changes are pending.
fn running_controller() -> XhciController {
    let mut c = XhciController::new("xhci", 0xfe00_0000, Some(11));
    let ports = vec![port(portsc::CCS | portsc::CSC | portsc::PRC | (3 << 10)), port(0)];
    let doorbells = vec![DoorbellRegister { doorbell: 0 }; 3];
    let runtime = RuntimeRegisters { mfindex: 0, interrupters: [interrupter(); 1024] };
    c.map_registers(capability_block(), operational_block(), runtime, ports, doorbells).unwrap();
    c.begin_initialize();
    assert_eq!(c.read_capabilities(), Ok(()));
    assert_eq!(c.stop_for_reset(), Ok(()));
    c.update_status(usbsts::HCH);
    assert_eq!(c.issue_reset(), Ok(()));
    c.update_status(usbsts::HCH);
    assert_eq!(c.check_reset_complete(), Ok(()));
    assert_eq!(c.initialize_rings(0x10_0000, 0x20_0000), Ok(()));
    assert_eq!(c.initialize_dcbaa(0x30_0000), Ok(()));
    assert_eq!(c.configure_controller(), Ok(()));
    assert_eq!(c.start_controller(), Ok(()));
    c.update_status(0);
    assert_eq!(c.check_started(), Ok(()));
    assert_eq!(c.initialize_ports(), Ok(()));
    c.finish_initialize();
    c
}

#[test]
fn capability_registers_decode() {
    let cap = capability_block();
    assert_eq!(cap.cap_length(), 0x20);
    assert_eq!(cap.hci_version(), 0x0110);
    assert_eq!(cap.max_device_slots(), 8);
    assert_eq!(cap.max_interrupters(), 4);
    assert_eq!(cap.max_ports(), 2);
    assert!(cap.supports_64bit());
    assert!(!cap.supports_bnc());
    assert!(!cap.context_size_64());
    assert_eq!(cap.max_primary_stream_array_size(), 3);
    assert_eq!(cap.xecp(), 0x500);
    assert_eq!(cap.doorbell_offset(), 0x2000);
    assert_eq!(cap.runtime_offset(), 0x3000);
}

#[test]
fn operational_register_writes() {
    let mut op = operational_block();
    assert!(op.is_halted());
    assert!(!op.is_running());
    op.start();
    assert_eq!(op.usbcmd, usbcmd::RUN_STOP);
    op.enable_interrupts();
    op.reset();
    assert_eq!(op.usbcmd, usbcmd::RUN_STOP | usbcmd::INTE | usbcmd::HCRST);
    op.stop();
    assert_eq!(op.usbcmd, usbcmd::INTE | usbcmd::HCRST);
    op.set_command_ring(0x1234_5678, true);
    assert_eq!(op.crcr, 0x1234_5641);
    op.set_dcbaap(0xdead_beef);
    assert_eq!(op.dcbaap, 0xdead_bec0);
    op.set_max_device_slots(8);
    assert_eq!(op.config, 0xab08);
    assert_eq!(op.get_page_size(), 4096);
    op.pagesize = 4;
    assert_eq!(op.get_page_size(), 16384);
    op.usbsts = usbsts::CNR;
    assert!(op.is_controller_not_ready());
    op.clear_status(usbsts::EINT);
    assert_eq!(op.usbsts, usbsts::EINT);
}

#[test]
fn port_register_writes() {
    let mut p = port(portsc::CCS | portsc::PED | portsc::PP | portsc::CSC | (4 << 10) | (3 << 5));
    assert!(p.is_connected());
    assert!(p.is_enabled());
    assert!(p.is_powered());
    assert_eq!(p.get_speed(), Some(UsbSpeed::Super));
    assert_eq!(p.get_link_state(), 3);
    assert!(p.has_changes());
    assert_eq!(p.get_changes(), portsc::CSC);
    let before = p.portsc;
    p.clear_changes();
    assert_eq!(p.portsc, before);
    p.set_power(false);
    assert!(!p.is_powered());
    assert_eq!(p.portsc & (portsc::CHANGE_BITS | portsc::PED), 0);
    p.reset();
    assert_eq!(p.portsc & portsc::PR, portsc::PR);
    p.enable();
    assert!(p.is_enabled());
    assert_eq!(port(0).get_speed(), None);
    assert_eq!(port(7 << 10).get_speed(), None);
}

#[test]
fn interrupter_and_doorbell_writes() {
    let mut i = interrupter();
    i.enable_interrupts();
    assert_eq!(i.iman, iman::IE);
    i.clear_interrupt_pending();
    assert!(i.is_interrupt_pending());
    i.disable_interrupts();
    assert_eq!(i.iman, iman::IP);
    i.set_event_ring_segment_table(0x1_0000_007f, 1);
    assert_eq!((i.erstba, i.erstsz), (0x1_0000_0040, 1));
    i.set_event_ring_dequeue_pointer(0x2007);
    assert_eq!(i.erdp, 0x2000);
    i.update_erdp(0x3004, true);
    assert_eq!(i.erdp, 0x3008);
    let mut d = DoorbellRegister { doorbell: 0xffff_ffff };
    d.ring(3, 2);
    assert_eq!(d.doorbell, 0x0002_0003);
    d.ring_command();
    assert_eq!(d.doorbell, 0);
}

#[test]
fn register_block_addresses() {
    let a = register_addresses(0xfe00_0000, &capability_block());
    assert_eq!(a.operational, 0xfe00_0020);
    assert_eq!(a.runtime, 0xfe00_3000);
    assert_eq!(a.ports, vec![0xfe00_0420, 0xfe00_0430]);
    assert_eq!(a.doorbells, vec![0xfe00_2000, 0xfe00_2004, 0xfe00_2008]);
}

#[test]
fn controller_initialization_sequence() {
    let c = running_controller();
    assert_eq!(c.name(), "xhci");
    let caps = c.get_capabilities().unwrap();
    assert_eq!(caps.cap_length, 0x20);
    assert_eq!(caps.doorbell_offset, 0x2000);
    assert_eq!(caps.runtime_offset, 0x3000);
    assert!(c.get_devices().is_empty());
    // port 1 was powered on, with its change bits written as 0
    let status = c.get_port_status(1).unwrap();
    assert_eq!(status.portsc, portsc::CCS | portsc::PP | (3 << 10));
    assert!(c.get_port_status(3).is_none());
}

#[test]
fn controller_refuses_missing_registers_and_wrong_page_size() {
    let mut c = XhciController::new("xhci", 0, None);
    assert_eq!(c.read_capabilities(), Err(UsbError::InitializationFailed));
    assert_eq!(c.stop_for_reset(), Err(UsbError::InitializationFailed));
    assert_eq!(c.issue_reset(), Err(UsbError::InitializationFailed));
    assert_eq!(c.configure_controller(), Err(UsbError::InitializationFailed));
    assert_eq!(c.initialize_ports(), Err(UsbError::InitializationFailed));
    assert!(c.get_capabilities().is_none());

    let mut op = operational_block();
    op.pagesize = 2;
    op.usbsts = 0;
    let runtime = RuntimeRegisters { mfindex: 0, interrupters: [interrupter(); 1024] };
    c.map_registers(capability_block(), op, runtime, vec![], vec![]).unwrap();
    // not halted yet: no reset
    assert_eq!(c.issue_reset(), Err(UsbError::InitializationFailed));
    assert_eq!(c.read_capabilities(), Ok(()));
    // 8 KiB pages are refused
    assert_eq!(c.configure_controller(), Err(UsbError::InitializationFailed));
    c.update_status(usbsts::CNR | usbsts::HCH);
    assert_eq!(c.check_reset_complete(), Err(UsbError::InitializationFailed));
    assert_eq!(c.check_started(), Err(UsbError::InitializationFailed));
}

#[test]
fn connected_device_is_enumerated_then_removed() {
    let mut c = running_controller();
    // the hardware reports the connection and the completed reset
    c.update_port_status(1, portsc::CCS | portsc::PP | portsc::CSC | portsc::PRC | (3 << 10));
    assert_eq!(c.handle_port_status_change(1, memory()), Ok(()));
    {
        let devices = c.get_devices();
        assert_eq!(devices.len(), 1);
        assert_eq!(devices[0].address, 0);
        assert_eq!(devices[0].port, 1);
        assert_eq!(devices[0].speed, UsbSpeed::High);
    }
    // the port was reset on the connect change
    assert_eq!(c.get_port_status(1).unwrap().portsc & portsc::PR, portsc::PR);
    // the new device took slot 1, so the next slot is 2
    assert_eq!(c.enable_device_slot(), Ok(2));
    assert_eq!(c.disable_device_slot(2), Ok(()));
    // a disconnect removes the device and frees its slot
    assert_eq!(c.handle_device_disconnected(1), Ok(()));
    assert!(c.get_devices().is_empty());
    assert_eq!(c.disable_device_slot(1), Err(UsbError::InvalidRequest));
    assert_eq!(c.disable_device_slot(0), Err(UsbError::InvalidRequest));
    assert_eq!(c.enable_device_slot(), Ok(1));
    // nothing to do for a port without a device, or a port the controller lacks
    assert_eq!(c.handle_device_disconnected(2), Ok(()));
    assert_eq!(c.handle_device_connected(9), Err(UsbError::InvalidRequest));
    assert_eq!(c.handle_port_status_change(9, memory()), Ok(()));
}

#[test]
fn slots_run_out() {
    let mut c = running_controller();
    for expected in 1..=255u8 {
        assert_eq!(c.enable_device_slot(), Ok(expected));
    }
    assert_eq!(c.enable_device_slot(), Err(UsbError::OutOfMemory));
    // without a command ring a slot is reported but not taken
    let mut bare = XhciController::new("bare", 0, None);
    assert_eq!(bare.enable_device_slot(), Ok(1));
    assert_eq!(bare.enable_device_slot(), Ok(1));
}

#[test]
fn interrupts_are_claimed_on_the_controller_line() {
    let mut c = running_controller();
    assert!(!c.interrupt_handler(5, memory()));
    // no event interrupt pending
    assert!(!c.interrupt_handler(11, memory()));
    c.update_status(usbsts::EINT);
    assert!(c.interrupt_handler(11, memory()));
    let mut lineless = XhciController::new("none", 0, None);
    assert!(!lineless.interrupt_handler(11, memory()));
    assert_eq!(c.shutdown_controller(), Ok(()));
}

#[test]
fn endpoint_context_changes_in_place() {
    let mut ctx = DeviceContext::new();
    assert!(ctx.endpoint_context_mut(0).is_none());
    assert!(ctx.endpoint_context_mut(32).is_none());
    ctx.endpoint_context_mut(2).unwrap().set_max_packet_size(512);
    assert_eq!(ctx.endpoint_context(2).unwrap().max_packet_size(), 512);
    assert_eq!(ctx.endpoint_context(1).unwrap().max_packet_size(), 0);
}
