use prisma_drivers::usb::class::{
    CdcDriver, ClassDriver, ClassDriverRegistry, ClassEvent, ClassType, GenericDriver, HidDriver, HubDriver,
    MassStorageDriver, UsbClassDriver,
};
use prisma_drivers::usb::controller::{ControllerState, UsbController, UsbEvent, UsbMemoryMapper};
use prisma_drivers::usb::descriptor::{AnyDescriptor, DeviceDescriptor};
use prisma_drivers::usb::device::{DeviceSpeed, UsbConfiguration, UsbDevice, UsbInterface};
use prisma_drivers::usb::error::UsbDriverError;
use prisma_drivers::usb::transfer::{SetupPacket, Transfer, TransferBuffer, TransferStatus, TransferType};

fn plain_device() -> UsbDevice {
    let d = DeviceDescriptor::new(0x0200, 0, 0, 0, 64, 0x1234, 0x5678, 0x0100, 0, 0, 0, 1);
    UsbDevice::new(DeviceSpeed::High, 1, 0, AnyDescriptor::Device(d))
}

fn device_with_interface_class(class: u8) -> UsbDevice {
    let mut dev = plain_device();
    dev.add_configuration(UsbConfiguration {
        value: 1,
        string_index: 0,
        attributes: 0x80,
        max_power: 50,
        interfaces: vec![UsbInterface {
            number: 0,
            alternate: 0,
            class,
            subclass: 0,
            protocol: 0,
            string_index: 0,
            endpoints: vec![],
        }],
    });
    dev
}

#[test]
fn memory_mapper_offsets() {
    let m = UsbMemoryMapper::new(0x1000, 0xFFFF_0000);
    assert_eq!(m.map(0x1010), 0xFFFF_0010);
    let identity = UsbMemoryMapper::new(0x1000, 0);
    assert_eq!(identity.map(0x1000), 0x1000);
}

#[test]
fn controller_state_from_byte() {
    assert_eq!(ControllerState::from(2u8), ControllerState::Running);
    assert_eq!(ControllerState::from(5u8), ControllerState::Resetting);
    assert_eq!(ControllerState::from(9u8), ControllerState::Error);
}

#[test]
fn controller_lifecycle() {
    let mut c = UsbController::new(4);
    assert_eq!(c.state(), ControllerState::Uninitialized);
    assert_eq!(c.port_count(), 4);
    c.begin_initialize();
    assert_eq!(c.state(), ControllerState::Initializing);
    c.reset();
    assert_eq!(c.state(), ControllerState::Resetting);
    c.finish_initialize();
    assert_eq!(c.state(), ControllerState::Running);
    c.suspend();
    assert_eq!(c.state(), ControllerState::Suspended);
    c.resume();
    assert_eq!(c.state(), ControllerState::Running);
    c.shutdown();
    assert_eq!(c.state(), ControllerState::Uninitialized);
    assert_eq!(c.allocate_device_address(), 1);
    assert_eq!(c.allocate_device_address(), 2);
}

#[test]
fn controller_submit_transfer() {
    let mut c = UsbController::new(2);
    let t = Transfer::bulk(1, 3, 0x81, TransferBuffer::new(64));
    assert_eq!(c.submit_transfer(t), Err(UsbDriverError::ControllerError));
    c.begin_initialize();
    c.finish_initialize();
    // the first transfer ID handed out is 1, which this transfer carries
    let t = Transfer::bulk(1, 3, 0x81, TransferBuffer::new(64));
    assert_eq!(c.submit_transfer(t), Ok(64));
    // ID 2 is looked up, but the completion is recorded under the transfer's own ID
    let t = Transfer::interrupt(9, 3, 0x82, TransferBuffer::new(8));
    assert_eq!(c.submit_transfer(t), Err(UsbDriverError::TransferTimeout));
    // a completion recorded for ID 3 is collected by the next submission
    assert_eq!(c.complete_transfer(3, TransferStatus::Error), Ok(()));
    let t = Transfer::control(3, 5, SetupPacket::set_configuration(1), TransferBuffer::new(0));
    assert_eq!(c.submit_transfer(t), Err(UsbDriverError::TransferFailed));
    assert_eq!(c.take_doorbell_requests(), vec![(5, 1)]);
    assert_eq!(c.take_doorbell_requests(), vec![]);
    // control transfers need a setup packet and a valid address
    let t = Transfer::control(4, 0, SetupPacket::set_address(1), TransferBuffer::new(0));
    assert_eq!(c.submit_transfer(t), Err(UsbDriverError::InvalidParameter));
    let t = Transfer::new(5, 2, 0, TransferType::Control, TransferBuffer::new(0));
    assert_eq!(c.submit_transfer(t), Err(UsbDriverError::InvalidParameter));
    assert_eq!(c.complete_transfer(6, TransferStatus::Stalled), Ok(()));
    let t = Transfer::control(6, 2, SetupPacket::set_address(1), TransferBuffer::new(0));
    assert_eq!(c.submit_transfer(t), Err(UsbDriverError::EndpointError));
}

#[test]
fn controller_interrupt_events() {
    let mut c = UsbController::new(4);
    c.begin_initialize();
    c.finish_initialize();
    let ports = [(true, true), (false, false), (true, false), (false, true)];
    let ack = c.handle_interrupt(false, true, true, &ports).unwrap();
    assert!(ack.clear_event_interrupt && ack.clear_port_change_detect);
    assert_eq!(c.state(), ControllerState::Running);
    let ack = c.handle_interrupt(true, false, false, &[]).unwrap();
    assert!(!ack.clear_event_interrupt && !ack.clear_port_change_detect);
    assert_eq!(c.state(), ControllerState::Error);
    let events = c.poll_events().unwrap();
    assert_eq!(
        events,
        vec![
            UsbEvent::DeviceConnected { port: 0 },
            UsbEvent::DeviceDisconnected { address: 0 },
            UsbEvent::Error { error: UsbDriverError::ControllerError },
        ]
    );
    assert_eq!(c.poll_events().unwrap(), vec![]);
    assert_eq!(c.get_port_speed(0), Ok(DeviceSpeed::High));
    assert_eq!(c.reset_port(0), Ok(()));
}

#[test]
fn controller_slots() {
    let mut c = UsbController::new(1);
    assert_eq!(c.address_device(1, 5), Err(UsbDriverError::DeviceNotFound));
    assert_eq!(c.enable_slot(), Ok(1));
    assert_eq!(c.address_device(1, 5), Ok(()));
    assert_eq!(c.configure_endpoint(1, 2, TransferType::Bulk), Ok(()));
    assert_eq!(c.configure_endpoint(1, 40, TransferType::Bulk), Ok(()));
    assert_eq!(c.configure_endpoint(2, 2, TransferType::Bulk), Err(UsbDriverError::DeviceNotFound));
    assert_eq!(c.disable_slot(1), Ok(()));
    assert_eq!(c.address_device(1, 5), Err(UsbDriverError::DeviceNotFound));
}

#[test]
fn class_type_codes_round_trip() {
    assert_eq!(ClassType::from(0x08u8), ClassType::MassStorage);
    assert_eq!(ClassType::from(0x03u8), ClassType::Hid);
    assert_eq!(ClassType::from(0x04u8), ClassType::VendorSpecific);
    assert_eq!(u8::from(ClassType::Hub), 0x09);
    assert_eq!(u8::from(ClassType::VendorSpecific), 0xFF);
    for code in [0x01u8, 0x02, 0x03, 0x05, 0x06, 0x07, 0x08, 0x09, 0x0A, 0x0B, 0x0D, 0x0E, 0x0F, 0x10, 0x11, 0xDC, 0xE0, 0xEF, 0xFE, 0xFF] {
        assert_eq!(u8::from(ClassType::from(code)), code);
    }
}

#[test]
fn class_drivers_attach_detach() {
    let mut d = MassStorageDriver::new();
    assert_eq!(d.class_type(), ClassType::MassStorage);
    assert_eq!(d.name(), "USB Mass Storage Driver");
    assert_eq!(d.version(), "1.0.0");
    assert_eq!(d.attach_device(3), Ok(()));
    assert_eq!(d.attach_device(4), Ok(()));
    assert_eq!(d.attach_device(3), Ok(()));
    assert_eq!(d.detach_device(3), Ok(()));
    assert_eq!(d.handle_event(4, ClassEvent::Reset), Ok(()));
    let mut buf = [0u8; 512];
    assert_eq!(d.read_blocks(4, 0, 1, &mut buf), Ok(512));
    assert_eq!(d.write_blocks(4, 0, 1, &buf), Ok(512));
    assert_eq!(HidDriver::new().name(), "USB HID Driver");
    assert_eq!(CdcDriver::new().send_data(1, &[1, 2, 3]), Ok(3));
    assert_eq!(CdcDriver::new().receive_data(1, &mut buf), Ok(0));
    assert_eq!(HubDriver::new().class_type(), ClassType::Hub);
    let g = GenericDriver::new("Vendor Driver".to_string(), ClassType::VendorSpecific);
    assert_eq!(g.name(), "Vendor Driver");
    assert!(g.supports_device(&plain_device()));
}

#[test]
fn class_registry_finds_first_supporting_driver() {
    let registry = ClassDriverRegistry::with_default_drivers();
    assert_eq!(registry.drivers().len(), 4);
    let storage = device_with_interface_class(0x08);
    assert!(matches!(registry.find_driver(&storage), Some(ClassDriver::MassStorage(_))));
    let hid = device_with_interface_class(0x03);
    assert!(matches!(registry.find_driver(&hid), Some(ClassDriver::Hid(_))));
    let hub = device_with_interface_class(0x09);
    assert_eq!(registry.find_driver(&hub).unwrap().class_type(), ClassType::Hub);
    assert!(registry.find_driver(&plain_device()).is_none());
    let mut with_generic = ClassDriverRegistry::new();
    with_generic.register(ClassDriver::Generic(GenericDriver::new("any".to_string(), ClassType::Video)));
    assert!(with_generic.find_driver(&plain_device()).is_some());
}

#[test]
fn class_driver_names_follow_the_driver_held() {
    assert_eq!(ClassDriver::MassStorage(MassStorageDriver::new()).name(), "USB Mass Storage Driver");
    assert_eq!(ClassDriver::Hid(HidDriver::new()).name(), "USB HID Driver");
    assert_eq!(ClassDriver::Cdc(CdcDriver::new()).name(), "USB CDC Driver");
    assert_eq!(ClassDriver::Hub(HubDriver::new()).name(), "USB Hub Driver");
    let g = GenericDriver::new("Camera".to_string(), ClassType::Video);
    assert_eq!(ClassDriver::Generic(g).name(), "Camera");
}
