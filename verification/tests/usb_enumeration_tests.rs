use prisma_drivers::usb::enumeration::{
    DeviceDriver, HidDriver, HubDriver, MassStorageDriver, UsbDeviceDriver, UsbDeviceManager,
};
use prisma_drivers::usb::error::UsbError;
use prisma_drivers::usb::types::{UsbDevice, UsbDeviceState, UsbSpeed};

#[test]
fn enumeration_assigns_addresses_and_configures() {
    let mut mgr = UsbDeviceManager::new();
    mgr.register_driver(DeviceDriver::Hid(HidDriver::new()));
    assert_eq!(mgr.enumerate_device(1, UsbSpeed::High), Ok(1));
    assert_eq!(mgr.enumerate_device(2, UsbSpeed::Low), Ok(2));
    let d = mgr.get_device(1).unwrap();
    assert_eq!(d.port, 1);
    assert_eq!(d.state, UsbDeviceState::Configured);
    assert_eq!(d.active_config, Some(1));
    let desc = d.device_descriptor.unwrap();
    assert_eq!((desc.vendor_id, desc.product_id, desc.max_packet_size0), (0x1234, 0x5678, 64));
    assert_eq!(mgr.get_device(2).unwrap().device_descriptor.unwrap().max_packet_size0, 8);
    assert_eq!(d.config_descriptors.len(), 1);
    // the device class is given per interface, so the HID driver does not take it
    assert_eq!(d.endpoints.len(), 1);
    assert_eq!(mgr.get_devices().len(), 2);
    assert_eq!(mgr.find_devices_by_class(0).len(), 2);
    assert_eq!(mgr.find_devices_by_class(3).len(), 0);
    assert_eq!(mgr.find_devices_by_id(0x1234, 0x5678).len(), 2);
    assert_eq!(mgr.find_devices_by_id(0x1234, 0x0000).len(), 0);
    assert_eq!(mgr.remove_device(1), Ok(()));
    assert_eq!(mgr.remove_device(1), Err(UsbError::DeviceNotFound));
    assert!(mgr.get_device(1).is_none());
    assert!(mgr.get_device(2).is_some());
}

#[test]
fn enumeration_reuses_freed_addresses() {
    let mut mgr = UsbDeviceManager::default();
    for expected in 1..=127u8 {
        assert_eq!(mgr.enumerate_device(0, UsbSpeed::Full), Ok(expected));
    }
    assert_eq!(mgr.enumerate_device(0, UsbSpeed::Full), Err(UsbError::OutOfMemory));
    assert_eq!(mgr.remove_device(5), Ok(()));
    assert_eq!(mgr.enumerate_device(0, UsbSpeed::Full), Ok(5));
    assert_eq!(mgr.enumerate_device(0, UsbSpeed::Full), Err(UsbError::OutOfMemory));
}

#[test]
fn enumeration_drivers_bind_endpoints() {
    let mut dev = UsbDevice::new(4, 1, UsbSpeed::High);
    let mut hub = HubDriver::new();
    assert_eq!(hub.name(), "USB Hub Driver");
    assert_eq!(hub.bind_device(&mut dev), Ok(()));
    assert_eq!(dev.endpoints.len(), 2);
    assert_eq!(dev.find_endpoint(0x81).unwrap().interval, 255);
    assert_eq!(hub.handle_data(4, 1, &[0, 1, 0]), Ok(()));
    assert_eq!(hub.get_port_status(4, 2), Ok(0));
    hub.device_removed(&dev);

    let mut hid = HidDriver::new();
    let mut plain = UsbDevice::new(5, 1, UsbSpeed::Full);
    assert_eq!(hid.bind_device(&mut plain), Ok(()));
    // no configuration yet: no report endpoint
    assert_eq!(plain.endpoints.len(), 1);
    assert_eq!(hid.handle_data(5, 1, &[1, 2, 3]), Ok(()));

    let mut storage = MassStorageDriver::new();
    assert_eq!(storage.read_sectors(5, 100, 8), Ok(vec![]));
    assert_eq!(storage.write_sectors(5, 100, &[0u8; 1024]), Ok(()));
    assert_eq!(storage.name(), "USB Mass Storage Driver");
}

#[test]
fn device_driver_names_and_binding_by_kind() {
    assert_eq!(DeviceDriver::Hid(HidDriver::new()).name(), "USB HID Driver");
    assert_eq!(DeviceDriver::MassStorage(MassStorageDriver::new()).name(), "USB Mass Storage Driver");
    assert_eq!(DeviceDriver::Hub(HubDriver::new()).name(), "USB Hub Driver");

    // a hub always gets its status-change endpoint
    let mut hub = DeviceDriver::Hub(HubDriver::new());
    let mut dev = UsbDevice::new(7, 2, UsbSpeed::High);
    assert_eq!(hub.bind_device(&mut dev), Ok(()));
    assert_eq!(dev.endpoints.len(), 2);
    assert_eq!(dev.address, 7);

    // storage without a configuration adds no endpoint
    let mut storage = DeviceDriver::MassStorage(MassStorageDriver::new());
    let mut plain = UsbDevice::new(8, 3, UsbSpeed::Full);
    assert_eq!(storage.bind_device(&mut plain), Ok(()));
    assert_eq!(plain.endpoints.len(), 1);
}
