use prisma_drivers::usb::descriptor::{
    AnyDescriptor, ConfigurationDescriptor, DescriptorParser, DeviceDescriptor, EndpointDescriptor,
    InterfaceDescriptor, StringDescriptor, UsbDescriptor,
};
use prisma_drivers::usb::device::{DeviceClass, DeviceSpeed, DeviceState, UsbConfiguration, UsbDevice, UsbInterface};
use prisma_drivers::usb::endpoint::{Endpoint, EndpointDirection, EndpointType};
use prisma_drivers::usb::error::UsbDriverError;
use prisma_drivers::usb::hub::{hub_features, HubState, PortStatus, PortStatusChange, UsbHub};

fn sample_device_descriptor() -> DeviceDescriptor {
    DeviceDescriptor::new(0x0200, 0, 0, 0, 64, 0x1234, 0x5678, 0x0100, 1, 2, 3, 1)
}

#[test]
fn device_descriptor_bytes_round_trip() {
    let d = sample_device_descriptor();
    let bytes = d.to_bytes();
    assert_eq!(
        bytes,
        vec![18, 1, 0x00, 0x02, 0, 0, 0, 64, 0x34, 0x12, 0x78, 0x56, 0x00, 0x01, 1, 2, 3, 1]
    );
    assert_eq!(DescriptorParser::parse_device(&bytes), Ok(d));
    assert!(matches!(DeviceDescriptor::from_bytes(&bytes), Ok(AnyDescriptor::Device(x)) if x == d));
    assert_eq!(DescriptorParser::parse_device(&bytes[..17]), Err(UsbDriverError::InvalidParameter));
    let mut wrong_type = bytes.clone();
    wrong_type[1] = 2;
    assert_eq!(DescriptorParser::parse_device(&wrong_type), Err(UsbDriverError::InvalidParameter));
}

#[test]
fn configuration_hierarchy_parses() {
    let config = ConfigurationDescriptor::new(32, 1, 1, 0, 0x80, 50);
    let iface = InterfaceDescriptor::new(0, 0, 2, 0x08, 0x06, 0x50, 0);
    let ep_in = EndpointDescriptor::new(0x81, 0x02, 512, 0);
    let ep_out = EndpointDescriptor::new(0x02, 0x02, 512, 0);
    let mut data = config.to_bytes();
    data.extend(iface.to_bytes());
    data.extend(ep_in.to_bytes());
    data.extend(ep_out.to_bytes());
    assert_eq!(data.len(), 32);
    let (c, descs) = DescriptorParser::parse_configuration(&data).unwrap();
    assert_eq!(c, config);
    assert_eq!(descs.len(), 3);
    assert!(matches!(descs[0], AnyDescriptor::Interface(i) if i == iface));
    assert!(matches!(descs[1], AnyDescriptor::Endpoint(e) if e == ep_in));
    assert!(matches!(descs[2], AnyDescriptor::Endpoint(e) if e == ep_out));
    assert_eq!(DescriptorParser::parse_configuration(&data[..8]).err(), Some(UsbDriverError::InvalidParameter));
    // a short interface descriptor inside is an error
    let mut broken = data.clone();
    broken[9] = 5;
    assert!(DescriptorParser::parse_configuration(&broken).is_err());
    let mut truncated_total = data.clone();
    truncated_total[2] = 18;
    let (_, only_iface) = DescriptorParser::parse_configuration(&truncated_total).unwrap();
    assert_eq!(only_iface.len(), 1);
}

#[test]
fn string_descriptor_round_trip() {
    let s = StringDescriptor::new("USB".to_string());
    let bytes = s.to_bytes();
    assert_eq!(bytes, vec![8, 3, b'U', 0, b'S', 0, b'B', 0]);
    let parsed = DescriptorParser::parse_string(&bytes).unwrap();
    assert_eq!(parsed.string, "USB");
    assert_eq!(parsed.length, 8);
    let langs = StringDescriptor::language_ids(&[0x0409]);
    // each ID is held as two characters, its low byte then its high byte
    assert_eq!(langs.to_bytes(), vec![4, 3, 0x09, 0, 0x04, 0]);
    assert!(DescriptorParser::parse_string(&[1]).is_err());
    // a surrogate unit is dropped
    let with_surrogate = [6u8, 3, 0x00, 0xD8, b'A', 0];
    assert_eq!(DescriptorParser::parse_string(&with_surrogate).unwrap().string, "A");
}

#[test]
fn endpoint_descriptor_conversions() {
    let ep = Endpoint::bulk_in(1, 512);
    let d = EndpointDescriptor::from_endpoint(&ep);
    assert_eq!(d.endpoint_address, 0x81);
    assert_eq!(d.attributes & 0x03, 0x02);
    assert_eq!(d.max_packet_size, 512);
    let back = d.to_endpoint().unwrap();
    assert_eq!(back.address(), 0x81);
    assert_eq!(back.endpoint_type(), EndpointType::Bulk);
    assert_eq!(back.max_packet_size(), 512);
}

#[test]
fn endpoint_helpers() {
    let mut ep = Endpoint::interrupt_in(2, 8, 10);
    assert_eq!(ep.address(), 0x82);
    assert!(ep.is_in());
    assert!(!ep.is_control());
    assert_eq!(ep.interval(), 10);
    assert!(!ep.toggle());
    assert!(ep.flip_toggle());
    assert!(ep.toggle());
    ep.set_stalled(true);
    assert!(ep.is_stalled());
    ep.clear_stall();
    assert!(!ep.is_stalled());
    assert!(!ep.toggle());
    let c = Endpoint::control(64);
    assert!(c.is_control());
    assert_eq!(c.direction(), EndpointDirection::Out);
}

#[test]
fn device_configuration_and_strings() {
    let mut dev = UsbDevice::new(DeviceSpeed::Full, 2, 0, AnyDescriptor::Device(sample_device_descriptor()));
    assert_eq!(dev.state(), DeviceState::Attached);
    assert_eq!(dev.speed(), DeviceSpeed::Full);
    assert_eq!(dev.port(), 2);
    assert_eq!(dev.set_configuration(1), Err(UsbDriverError::InvalidConfiguration));
    dev.add_configuration(UsbConfiguration {
        value: 1,
        string_index: 0,
        attributes: 0x80,
        max_power: 50,
        interfaces: vec![UsbInterface {
            number: 0,
            alternate: 0,
            class: 0x03,
            subclass: 1,
            protocol: 1,
            string_index: 0,
            endpoints: vec![Endpoint::interrupt_in(1, 8, 10)],
        }],
    });
    assert_eq!(dev.set_configuration(1), Ok(()));
    assert_eq!(dev.current_configuration(), 1);
    assert_eq!(dev.state(), DeviceState::Configured);
    assert!(dev.supports_class(DeviceClass::Hid));
    assert!(!dev.supports_class(DeviceClass::MassStorage));
    assert_eq!(dev.get_interface(0).unwrap().class, 0x03);
    assert!(dev.get_interface(1).is_none());
    assert_eq!(dev.get_endpoint(0x81).unwrap().max_packet_size(), 8);
    assert!(dev.get_endpoint(0x02).is_none());
    let idx = dev.add_string("Keyboard".to_string());
    assert_eq!(idx, 1);
    assert_eq!(dev.get_string(1), Some("Keyboard"));
    assert_eq!(dev.get_string(0), None);
    assert_eq!(dev.get_string(2), None);
    dev.set_address(5);
    assert_eq!(dev.address(), 5);
    assert_eq!(dev.suspend(), Ok(()));
    assert_eq!(dev.state(), DeviceState::Suspended);
    assert_eq!(dev.resume(), Ok(()));
    assert_eq!(dev.state(), DeviceState::Configured);
    assert_eq!(dev.reset(), Ok(()));
    assert_eq!(dev.address(), 0);
    assert_eq!(dev.state(), DeviceState::Default);
}

#[test]
fn device_state_and_class_from_byte() {
    assert_eq!(DeviceClass::from(0x09u8), DeviceClass::Hub);
    assert_eq!(DeviceClass::Hub.code(), 0x09);
    assert_eq!(DeviceClass::from(0xFFu8), DeviceClass::VendorSpecific);
    assert_eq!(DeviceState::from(4u8), DeviceState::Configured);
    assert_eq!(DeviceState::from(9u8), DeviceState::Disconnected);
}

#[test]
fn hub_ports_and_features() {
    let mut hub = UsbHub::new_external_hub(3).unwrap();
    assert_eq!(hub.port_count(), 4);
    assert_eq!(hub.state(), HubState::Uninitialized);
    let req = hub.hub_descriptor_request().unwrap();
    assert_eq!(req.0, 3);
    assert_eq!((req.1.request_type, req.1.request, req.1.value, req.1.length), (0xA0, 0x06, 0x2900, 7));
    assert_eq!(hub.initialize(), Ok(()));
    assert_eq!(hub.state(), HubState::Running);
    assert!(hub.get_port_status(0).unwrap().power);
    assert_eq!(hub.get_port_status(4), Err(UsbDriverError::InvalidParameter));
    assert_eq!(hub.set_port_power(1, false), Ok(()));
    assert!(!hub.get_port_status(1).unwrap().power);
    assert_eq!(hub.set_port_power(9, true), Err(UsbDriverError::InvalidParameter));
    assert_eq!(hub.reset_port(0), Ok(()));
    assert!(!hub.get_port_status(0).unwrap().reset);
    assert!(hub.get_port_status_change(0).unwrap().reset_change);
    assert_eq!(hub.check_port_changes(), vec![0]);
    assert_eq!(hub.clear_port_feature(0, hub_features::C_PORT_RESET), Ok(()));
    assert!(!hub.get_port_status_change(0).unwrap().has_changes());
    assert_eq!(hub.set_port_feature(0, hub_features::PORT_TEST), Err(UsbDriverError::NotSupported));
    assert_eq!(hub.suspend_port(2), Ok(()));
    assert!(hub.get_port_status(2).unwrap().suspended);
    assert_eq!(hub.resume_port(2), Ok(()));
    assert!(!hub.get_port_status(2).unwrap().suspended);
    assert_eq!(hub.disable_port(2), Ok(()));
    assert!(!hub.get_port_status(2).unwrap().enabled);
    assert!(!PortStatus::empty().is_connected());
    assert!(!PortStatusChange::empty().has_changes());
}

#[test]
fn hub_connection_and_probe() {
    let mut hub = UsbHub::new_root_hub().unwrap();
    assert_eq!(hub.port_count(), 16);
    assert!(hub.hub_descriptor_request().is_none());
    assert!(hub.probe_port(3).unwrap().is_none());
    hub.simulate_device_connection(3, DeviceSpeed::High);
    let status = hub.get_port_status(3).unwrap();
    assert!(status.is_connected());
    assert_eq!(status.device_speed(), DeviceSpeed::High);
    assert!(hub.get_port_status_change(3).unwrap().connection_change);
    let dev = hub.probe_port(3).unwrap().unwrap();
    assert_eq!(dev.speed(), DeviceSpeed::High);
    assert_eq!(dev.port(), 3);
    assert_eq!(dev.state(), DeviceState::Attached);
    hub.simulate_device_connection(4, DeviceSpeed::Low);
    assert_eq!(hub.get_port_status(4).unwrap().device_speed(), DeviceSpeed::Low);
    hub.simulate_device_disconnection(4);
    assert!(!hub.get_port_status(4).unwrap().is_connected());
    assert_eq!(hub.probe_port(16).err(), Some(UsbDriverError::InvalidParameter));
}

#[test]
fn string_descriptor_length_counts_utf16_units() {
    // two characters that take five bytes in UTF-8 encode to two UTF-16 units
    let s = StringDescriptor::new("\u{fc}\u{20ac}".to_string());
    assert_eq!(s.length, 6);
    assert_eq!(s.to_bytes(), vec![6, 3, 0xFC, 0x00, 0xAC, 0x20]);
}
