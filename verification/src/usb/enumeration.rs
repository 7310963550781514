//! USB device enumeration and management: address assignment, the enumeration steps a new
//! device goes through, the device list, and the drivers bound to devices.
use vstd::prelude::*;

use crate::usb::class::other_than;
use crate::usb::error::UsbError;
use crate::usb::types::{
    class_codes, config_list, config_list_first, config_list_push, control_packet_size, descriptor_types,
    endpoint_list, ConfigDescriptor, DeviceDescriptor, UsbDevice, UsbDeviceState, UsbDirection, UsbEndpoint,
    UsbEndpointType, UsbSpeed,
};

verus! {

/// Whether some device in the list has the address.
pub open spec fn address_in_use(devices: Seq<UsbDevice>, address: u8) -> bool {
    exists|i: int| 0 <= i < devices.len() && (#[trigger] devices[i]).address == address
}

/// The lowest address from `a` up to 127 that no device has.
pub open spec fn first_free_address(devices: Seq<UsbDevice>, a: int) -> Option<u8>
    decreases 128 - a,
{
    if a > 127 || a < 1 {
        None
    } else if !address_in_use(devices, a as u8) {
        Some(a as u8)
    } else {
        first_free_address(devices, a + 1)
    }
}

/// The position of the first device with the address, if any.
pub open spec fn first_device_index(devices: Seq<UsbDevice>, address: u8) -> int {
    if address_in_use(devices, address) {
        choose|p: int|
            0 <= p < devices.len() && devices[p].address == address && forall|j: int|
                0 <= j < p ==> (#[trigger] devices[j]).address != address
    } else {
        -1
    }
}

/// A device whose descriptor has the class code.
pub open spec fn of_class(code: u8) -> spec_fn(UsbDevice) -> bool {
    |d: UsbDevice| d.device_descriptor matches Some(desc) && desc.device_class == code
}

/// A device whose descriptor has the vendor and product IDs.
pub open spec fn with_ids(vendor_id: u16, product_id: u16) -> spec_fn(UsbDevice) -> bool {
    |d: UsbDevice| d.device_descriptor matches Some(desc) && desc.vendor_id == vendor_id && desc.product_id
        == product_id
}

/// The device descriptor enumeration records for a device of a speed: USB 2.0, class given
/// per interface, the control packet size of the speed, and fixed IDs and string indexes.
pub open spec fn enumerated_descriptor(speed: UsbSpeed) -> DeviceDescriptor {
    DeviceDescriptor {
        length: 18,
        descriptor_type: descriptor_types::DEVICE,
        usb_version: 0x0200,
        device_class: class_codes::PER_INTERFACE,
        device_subclass: 0,
        device_protocol: 0,
        max_packet_size0: control_packet_size(speed) as u8,
        vendor_id: 0x1234,
        product_id: 0x5678,
        device_version: 0x0100,
        manufacturer_index: 1,
        product_index: 2,
        serial_index: 3,
        num_configurations: 1,
    }
}

/// The configuration descriptor enumeration records: one interface, value 1, bus powered,
/// 100 mA.
pub open spec fn enumerated_config() -> ConfigDescriptor {
    ConfigDescriptor {
        length: 9,
        descriptor_type: descriptor_types::CONFIGURATION,
        total_length: 34,
        num_interfaces: 1,
        configuration_value: 1,
        configuration_index: 0,
        attributes: 0x80,
        max_power: 50,
    }
}

/// USB Device Driver trait
pub trait UsbDeviceDriver {
    /// Get driver name
    fn name(&self) -> &'static str;

    /// Check if this driver supports the given device
    fn supports_device(&self, device_descriptor: &DeviceDescriptor) -> bool;

    /// Bind to a device
    fn bind_device(&mut self, device: &mut UsbDevice) -> Result<(), UsbError>;

    /// Handle device removal
    fn device_removed(&mut self, device: &UsbDevice);

    /// Handle endpoint data
    fn handle_data(&mut self, device_address: u8, endpoint: u8, data: &[u8]) -> Result<(), UsbError>;
}

/// Remove every occurrence of an address.
fn forget_address(v: &mut Vec<u8>, address: u8)
    ensures
        final(v)@ == old(v)@.filter(other_than(address)),
{
    let mut kept: Vec<u8> = Vec::new();
    let mut i: usize = 0;
    while i < v.len()
        invariant
            i <= v@.len(),
            v@ == old(v)@,
            kept@ == v@.take(i as int).filter(other_than(address)),
        decreases v@.len() - i,
    {
        proof {
            assert(v@.take(i + 1).drop_last() =~= v@.take(i as int));
            reveal(Seq::filter);
        }
        if v[i] != address {
            kept.push(v[i]);
        }
        i = i + 1;
    }
    proof {
        assert(v@.take(v@.len() as int) =~= v@);
    }
    *v = kept;
}

/// Add an endpoint to a device, reporting a full endpoint list as an invalid endpoint.
fn add_device_endpoint(device: &mut UsbDevice, endpoint: UsbEndpoint) -> (r: Result<(), UsbError>)
    ensures
        endpoint_list(old(device).endpoints).len() < 32 ==> r is Ok && endpoint_list(final(device).endpoints)
            == endpoint_list(old(device).endpoints).push(endpoint),
        endpoint_list(old(device).endpoints).len() >= 32 ==> r == Err::<(), UsbError>(UsbError::InvalidEndpoint)
            && endpoint_list(final(device).endpoints) == endpoint_list(old(device).endpoints),
        final(device).address == old(device).address,
        final(device).state == old(device).state,
        final(device).device_descriptor == old(device).device_descriptor,
        config_list(final(device).config_descriptors) == config_list(old(device).config_descriptors),
        final(device).active_config == old(device).active_config,
{
    match device.add_endpoint(endpoint) {
        Ok(()) => Ok(()),
        Err(()) => Err(UsbError::InvalidEndpoint),
    }
}

/// HID (Human Interface Device) Driver
pub struct HidDriver {
    /// Bound devices
    bound_devices: Vec<u8>,
}

impl HidDriver {
    /// The addresses of the bound devices, in binding order.
    pub closed spec fn bound(&self) -> Seq<u8> {
        self.bound_devices@
    }

    /// Create a new HID driver
    pub fn new() -> (r: Self)
        ensures
            r.bound() == Seq::<u8>::empty(),
    {
        Self { bound_devices: Vec::new() }
    }

    /// Process an input report: at least three bytes (buttons, x and y movement) make an
    /// input event; anything else is ignored.
    fn process_hid_report(&mut self, device_address: u8, data: &[u8]) -> (r: Result<(), UsbError>)
        ensures
            r is Ok,
            final(self).bound() == old(self).bound(),
    {
        if data.len() >= 3 {
            let buttons = data[0];
            let x_movement = data[1];
            let y_movement = data[2];
            if buttons != 0 || x_movement != 0 || y_movement != 0 {
                return self.send_input_event(device_address, buttons, x_movement, y_movement);
            }
        }
        Ok(())
    }

    /// Send input event to system: no input subsystem is attached, so nothing is sent.
    fn send_input_event(&mut self, device_address: u8, buttons: u8, x: u8, y: u8) -> (r: Result<(), UsbError>)
        ensures
            r is Ok,
            final(self).bound() == old(self).bound(),
    {
        Ok(())
    }
}

impl UsbDeviceDriver for HidDriver {
    fn name(&self) -> (r: &'static str)
        ensures
            r@ == "USB HID Driver"@,
    {
        "USB HID Driver"
    }

    fn supports_device(&self, device_descriptor: &DeviceDescriptor) -> (r: bool)
        ensures
            r == (device_descriptor.device_class == class_codes::HID),
    {
        device_descriptor.device_class == class_codes::HID
    }

    /// The device is recorded; a configured device gets an interrupt IN endpoint for reports.
    fn bind_device(&mut self, device: &mut UsbDevice) -> (r: Result<(), UsbError>)
        ensures
            final(self).bound() == old(self).bound().push(old(device).address),
            config_list(old(device).config_descriptors).len() == 0 ==> r is Ok && endpoint_list(
                final(device).endpoints,
            ) == endpoint_list(old(device).endpoints),
            config_list(old(device).config_descriptors).len() > 0 ==> (if endpoint_list(old(device).endpoints).len()
                < 32 {
                r is Ok && endpoint_list(final(device).endpoints) == endpoint_list(old(device).endpoints).push(
                    UsbEndpoint {
                        number: 1,
                        direction: UsbDirection::In,
                        endpoint_type: UsbEndpointType::Interrupt,
                        max_packet_size: 8,
                        interval: 10,
                    },
                )
            } else {
                r == Err::<(), UsbError>(UsbError::InvalidEndpoint)
            }),
            final(device).address == old(device).address,
            final(device).state == old(device).state,
            final(device).device_descriptor == old(device).device_descriptor,
            config_list(final(device).config_descriptors) == config_list(old(device).config_descriptors),
            final(device).active_config == old(device).active_config,
    {
        self.bound_devices.push(device.address);
        let has_config = match config_list_first(&device.config_descriptors) {
            Some(_) => true,
            None => false,
        };
        if has_config {
            let interrupt_endpoint = UsbEndpoint::interrupt(1, UsbDirection::In, 8, 10);
            return add_device_endpoint(device, interrupt_endpoint);
        }
        Ok(())
    }

    fn device_removed(&mut self, device: &UsbDevice)
        ensures
            final(self).bound() == old(self).bound().filter(other_than(device.address)),
    {
        forget_address(&mut self.bound_devices, device.address);
    }

    fn handle_data(&mut self, device_address: u8, endpoint: u8, data: &[u8]) -> (r: Result<(), UsbError>)
        ensures
            r is Ok,
            final(self).bound() == old(self).bound(),
    {
        let mut bound = false;
        let mut i: usize = 0;
        while i < self.bound_devices.len()
            invariant
                i <= self.bound_devices@.len(),
                self.bound_devices@ == old(self).bound_devices@,
            decreases self.bound_devices@.len() - i,
        {
            if self.bound_devices[i] == device_address {
                bound = true;
            }
            i = i + 1;
        }
        if bound {
            return self.process_hid_report(device_address, data);
        }
        Ok(())
    }
}

/// A SCSI READ(10) or WRITE(10) command block: opcode, the low 32 bits of the LBA
/// big-endian in bytes 2..5, the low 16 bits of the count big-endian in bytes 7..8.
pub open spec fn scsi_block(opcode: u8, lba: u64, count: u32) -> Seq<u8> {
    seq![
        opcode,
        0u8,
        ((lba / 0x100_0000) % 256) as u8,
        ((lba / 0x1_0000) % 256) as u8,
        ((lba / 0x100) % 256) as u8,
        (lba % 256) as u8,
        0u8,
        ((count / 0x100) % 256) as u8,
        (count % 256) as u8,
        0u8,
    ]
}

/// Mass Storage Device Driver
pub struct MassStorageDriver {
    /// Bound devices
    bound_devices: Vec<u8>,
}

impl MassStorageDriver {
    /// The addresses of the bound devices, in binding order.
    pub closed spec fn bound(&self) -> Seq<u8> {
        self.bound_devices@
    }

    /// Create a new mass storage driver
    pub fn new() -> (r: Self)
        ensures
            r.bound() == Seq::<u8>::empty(),
    {
        Self { bound_devices: Vec::new() }
    }

    /// The command block of a read or write.
    fn scsi_command(opcode: u8, lba: u64, count: u32) -> (r: Vec<u8>)
        ensures
            r@ == scsi_block(opcode, lba, count),
    {
        let mut command: Vec<u8> = Vec::new();
        command.push(opcode);
        command.push(0);
        command.push(((lba / 0x100_0000) % 256) as u8);
        command.push(((lba / 0x1_0000) % 256) as u8);
        command.push(((lba / 0x100) % 256) as u8);
        command.push((lba % 256) as u8);
        command.push(0);
        command.push(((count / 0x100) % 256) as u8);
        command.push((count % 256) as u8);
        command.push(0);
        proof {
            assert(command@ =~= scsi_block(opcode, lba, count));
        }
        command
    }

    /// Execute SCSI command: no bulk transport is attached, so the response is empty.
    fn execute_scsi_command(&mut self, device_address: u8, command: &[u8]) -> (r: Result<Vec<u8>, UsbError>)
        ensures
            r matches Ok(v) && v@.len() == 0,
            final(self).bound() == old(self).bound(),
    {
        Ok(Vec::new())
    }

    /// Read sectors from storage device with READ(10); the response is what comes back
    pub fn read_sectors(&mut self, device_address: u8, lba: u64, sector_count: u32) -> (r: Result<Vec<u8>, UsbError>)
        ensures
            r matches Ok(v) && v@.len() == 0,
            final(self).bound() == old(self).bound(),
    {
        let command = Self::scsi_command(0x28, lba, sector_count);
        self.execute_scsi_command(device_address, command.as_slice())
    }

    /// Write sectors to storage device with WRITE(10), one sector per 512 bytes of data
    pub fn write_sectors(&mut self, device_address: u8, lba: u64, data: &[u8]) -> (r: Result<(), UsbError>)
        ensures
            r is Ok,
            final(self).bound() == old(self).bound(),
    {
        let sector_count = (data.len() / 512) as u32;
        let command = Self::scsi_command(0x2A, lba, sector_count);
        match self.execute_scsi_command(device_address, command.as_slice()) {
            Ok(_) => Ok(()),
            Err(e) => Err(e),
        }
    }
}

impl UsbDeviceDriver for MassStorageDriver {
    fn name(&self) -> (r: &'static str)
        ensures
            r@ == "USB Mass Storage Driver"@,
    {
        "USB Mass Storage Driver"
    }

    fn supports_device(&self, device_descriptor: &DeviceDescriptor) -> (r: bool)
        ensures
            r == (device_descriptor.device_class == class_codes::MASS_STORAGE),
    {
        device_descriptor.device_class == class_codes::MASS_STORAGE
    }

    /// The device is recorded; a configured device gets a bulk IN and a bulk OUT endpoint.
    fn bind_device(&mut self, device: &mut UsbDevice) -> (r: Result<(), UsbError>)
        ensures
            final(self).bound() == old(self).bound().push(old(device).address),
            config_list(old(device).config_descriptors).len() == 0 ==> r is Ok && endpoint_list(
                final(device).endpoints,
            ) == endpoint_list(old(device).endpoints),
            config_list(old(device).config_descriptors).len() > 0 && endpoint_list(old(device).endpoints).len() < 31
                ==> r is Ok && endpoint_list(final(device).endpoints) == endpoint_list(old(device).endpoints).push(
                UsbEndpoint { number: 1, direction: UsbDirection::In, endpoint_type: UsbEndpointType::Bulk, max_packet_size: 512, interval: 0 },
            ).push(UsbEndpoint { number: 2, direction: UsbDirection::Out, endpoint_type: UsbEndpointType::Bulk, max_packet_size: 512, interval: 0 }),
            config_list(old(device).config_descriptors).len() > 0 && endpoint_list(old(device).endpoints).len()
                >= 31 ==> r == Err::<(), UsbError>(UsbError::InvalidEndpoint),
            final(device).address == old(device).address,
            final(device).state == old(device).state,
            final(device).device_descriptor == old(device).device_descriptor,
            config_list(final(device).config_descriptors) == config_list(old(device).config_descriptors),
            final(device).active_config == old(device).active_config,
    {
        self.bound_devices.push(device.address);
        let has_config = match config_list_first(&device.config_descriptors) {
            Some(_) => true,
            None => false,
        };
        if has_config {
            let bulk_in = UsbEndpoint::bulk(1, UsbDirection::In, 512);
            let bulk_out = UsbEndpoint::bulk(2, UsbDirection::Out, 512);
            match add_device_endpoint(device, bulk_in) {
                Ok(()) => {},
                Err(e) => return Err(e),
            }
            return add_device_endpoint(device, bulk_out);
        }
        Ok(())
    }

    fn device_removed(&mut self, device: &UsbDevice)
        ensures
            final(self).bound() == old(self).bound().filter(other_than(device.address)),
    {
        forget_address(&mut self.bound_devices, device.address);
    }

    fn handle_data(&mut self, device_address: u8, endpoint: u8, data: &[u8]) -> (r: Result<(), UsbError>)
        ensures
            r is Ok,
            final(self).bound() == old(self).bound(),
    {
        Ok(())
    }
}

/// Hub Driver for USB hubs
pub struct HubDriver {
    /// Bound hubs
    bound_hubs: Vec<u8>,
}

impl HubDriver {
    /// The addresses of the bound hubs, in binding order.
    pub closed spec fn bound(&self) -> Seq<u8> {
        self.bound_hubs@
    }

    /// Create a new hub driver
    pub fn new() -> (r: Self)
        ensures
            r.bound() == Seq::<u8>::empty(),
    {
        Self { bound_hubs: Vec::new() }
    }

    /// Get hub descriptor: no request is sent
    fn get_hub_descriptor(&mut self, device_address: u8) -> (r: Result<(), UsbError>)
        ensures
            r is Ok,
            final(self).bound() == old(self).bound(),
    {
        Ok(())
    }

    /// Set port power: no request is sent
    pub fn set_port_power(&mut self, device_address: u8, port: u8, power: bool) -> (r: Result<(), UsbError>)
        ensures
            r is Ok,
            final(self).bound() == old(self).bound(),
    {
        Ok(())
    }

    /// Get port status: no request is sent, and the status reads as zero
    pub fn get_port_status(&mut self, device_address: u8, port: u8) -> (r: Result<u16, UsbError>)
        ensures
            r == Ok::<u16, UsbError>(0),
            final(self).bound() == old(self).bound(),
    {
        Ok(0)
    }

    /// Reset port: no request is sent
    pub fn reset_port(&mut self, device_address: u8, port: u8) -> (r: Result<(), UsbError>)
        ensures
            r is Ok,
            final(self).bound() == old(self).bound(),
    {
        Ok(())
    }
}

impl UsbDeviceDriver for HubDriver {
    fn name(&self) -> (r: &'static str)
        ensures
            r@ == "USB Hub Driver"@,
    {
        "USB Hub Driver"
    }

    fn supports_device(&self, device_descriptor: &DeviceDescriptor) -> (r: bool)
        ensures
            r == (device_descriptor.device_class == class_codes::HUB),
    {
        device_descriptor.device_class == class_codes::HUB
    }

    /// The hub is recorded and gets an interrupt IN endpoint for status changes.
    fn bind_device(&mut self, device: &mut UsbDevice) -> (r: Result<(), UsbError>)
        ensures
            final(self).bound() == old(self).bound().push(old(device).address),
            endpoint_list(old(device).endpoints).len() < 32 ==> r is Ok && endpoint_list(final(device).endpoints)
                == endpoint_list(old(device).endpoints).push(
                UsbEndpoint {
                    number: 1,
                    direction: UsbDirection::In,
                    endpoint_type: UsbEndpointType::Interrupt,
                    max_packet_size: 1,
                    interval: 255,
                },
            ),
            endpoint_list(old(device).endpoints).len() >= 32 ==> r == Err::<(), UsbError>(UsbError::InvalidEndpoint),
            final(device).address == old(device).address,
            final(device).state == old(device).state,
            final(device).device_descriptor == old(device).device_descriptor,
            config_list(final(device).config_descriptors) == config_list(old(device).config_descriptors),
            final(device).active_config == old(device).active_config,
    {
        self.bound_hubs.push(device.address);
        match self.get_hub_descriptor(device.address) {
            Ok(()) => {},
            Err(e) => return Err(e),
        }
        let interrupt_endpoint = UsbEndpoint::interrupt(1, UsbDirection::In, 1, 255);
        add_device_endpoint(device, interrupt_endpoint)
    }

    fn device_removed(&mut self, device: &UsbDevice)
        ensures
            final(self).bound() == old(self).bound().filter(other_than(device.address)),
    {
        forget_address(&mut self.bound_hubs, device.address);
    }

    /// Status-change data of a bound hub: the status of each port flagged is read.
    fn handle_data(&mut self, device_address: u8, endpoint: u8, data: &[u8]) -> (r: Result<(), UsbError>)
        ensures
            r is Ok,
            final(self).bound() == old(self).bound(),
    {
        let mut bound = false;
        let mut i: usize = 0;
        while i < self.bound_hubs.len()
            invariant
                i <= self.bound_hubs@.len(),
                self.bound_hubs@ == old(self).bound_hubs@,
            decreases self.bound_hubs@.len() - i,
        {
            if self.bound_hubs[i] == device_address {
                bound = true;
            }
            i = i + 1;
        }
        if bound {
            let mut port: usize = 0;
            while port < data.len()
                invariant
                    port <= data@.len(),
                    self.bound_hubs@ == old(self).bound_hubs@,
                decreases data@.len() - port,
            {
                if data[port] != 0 {
                    let port_number = ((port % 256) as u8).wrapping_add(1);
                    let _port_status = self.get_port_status(device_address, port_number);
                }
                port = port + 1;
            }
        }
        Ok(())
    }
}

/// A driver of one of the kinds the library provides.
pub enum DeviceDriver {
    Hid(HidDriver),
    MassStorage(MassStorageDriver),
    Hub(HubDriver),
}

impl DeviceDriver {
    /// The class code the driver takes.
    pub open spec fn class(&self) -> u8 {
        match self {
            DeviceDriver::Hid(_) => class_codes::HID,
            DeviceDriver::MassStorage(_) => class_codes::MASS_STORAGE,
            DeviceDriver::Hub(_) => class_codes::HUB,
        }
    }

    /// The addresses of the bound devices.
    pub open spec fn bound(&self) -> Seq<u8> {
        match self {
            DeviceDriver::Hid(d) => d.bound(),
            DeviceDriver::MassStorage(d) => d.bound(),
            DeviceDriver::Hub(d) => d.bound(),
        }
    }

    /// The same kind of driver.
    pub open spec fn same_kind(&self, other: DeviceDriver) -> bool {
        self.class() == other.class()
    }

    /// The driver's name.
    pub open spec fn spec_name(&self) -> Seq<char> {
        match self {
            DeviceDriver::Hid(_) => "USB HID Driver"@,
            DeviceDriver::MassStorage(_) => "USB Mass Storage Driver"@,
            DeviceDriver::Hub(_) => "USB Hub Driver"@,
        }
    }

    /// What binding the device `before` does, by the kind of driver: the result `r`, and the
    /// endpoints the device has afterwards (`after`) wherever binding succeeds.
    pub open spec fn binds(&self, before: UsbDevice, after: UsbDevice, r: Result<(), UsbError>) -> bool {
        let configs = config_list(before.config_descriptors).len();
        let eps = endpoint_list(before.endpoints);
        let eps_after = endpoint_list(after.endpoints);
        match self {
            DeviceDriver::Hid(_) => if configs == 0 {
                r is Ok && eps_after == eps
            } else if eps.len() < 32 {
                r is Ok && eps_after == eps.push(
                    UsbEndpoint {
                        number: 1,
                        direction: UsbDirection::In,
                        endpoint_type: UsbEndpointType::Interrupt,
                        max_packet_size: 8,
                        interval: 10,
                    },
                )
            } else {
                r == Err::<(), UsbError>(UsbError::InvalidEndpoint)
            },
            DeviceDriver::MassStorage(_) => if configs == 0 {
                r is Ok && eps_after == eps
            } else if eps.len() < 31 {
                r is Ok && eps_after == eps.push(
                    UsbEndpoint {
                        number: 1,
                        direction: UsbDirection::In,
                        endpoint_type: UsbEndpointType::Bulk,
                        max_packet_size: 512,
                        interval: 0,
                    },
                ).push(
                    UsbEndpoint {
                        number: 2,
                        direction: UsbDirection::Out,
                        endpoint_type: UsbEndpointType::Bulk,
                        max_packet_size: 512,
                        interval: 0,
                    },
                )
            } else {
                r == Err::<(), UsbError>(UsbError::InvalidEndpoint)
            },
            DeviceDriver::Hub(_) => if eps.len() < 32 {
                r is Ok && eps_after == eps.push(
                    UsbEndpoint {
                        number: 1,
                        direction: UsbDirection::In,
                        endpoint_type: UsbEndpointType::Interrupt,
                        max_packet_size: 1,
                        interval: 255,
                    },
                )
            } else {
                r == Err::<(), UsbError>(UsbError::InvalidEndpoint)
            },
        }
    }
}

/// The position of the first driver from `from` on that takes the class code, or -1.
pub open spec fn first_of_class(drivers: Seq<DeviceDriver>, code: u8, from: int) -> int
    decreases drivers.len() - from,
{
    if from < 0 || from >= drivers.len() {
        -1
    } else if drivers[from].class() == code {
        from
    } else {
        first_of_class(drivers, code, from + 1)
    }
}

impl UsbDeviceDriver for DeviceDriver {
    fn name(&self) -> (r: &'static str)
        ensures
            r@ == self.spec_name(),
    {
        match self {
            DeviceDriver::Hid(d) => d.name(),
            DeviceDriver::MassStorage(d) => d.name(),
            DeviceDriver::Hub(d) => d.name(),
        }
    }

    fn supports_device(&self, device_descriptor: &DeviceDescriptor) -> (r: bool)
        ensures
            r == (device_descriptor.device_class == self.class()),
    {
        match self {
            DeviceDriver::Hid(d) => d.supports_device(device_descriptor),
            DeviceDriver::MassStorage(d) => d.supports_device(device_descriptor),
            DeviceDriver::Hub(d) => d.supports_device(device_descriptor),
        }
    }

    fn bind_device(&mut self, device: &mut UsbDevice) -> (r: Result<(), UsbError>)
        ensures
            final(self).same_kind(*old(self)),
            final(self).bound() == old(self).bound().push(old(device).address),
            old(self).binds(*old(device), *final(device), r),
            final(device).address == old(device).address,
            final(device).state == old(device).state,
            final(device).device_descriptor == old(device).device_descriptor,
            config_list(final(device).config_descriptors) == config_list(old(device).config_descriptors),
            final(device).active_config == old(device).active_config,
    {
        match self {
            DeviceDriver::Hid(d) => d.bind_device(device),
            DeviceDriver::MassStorage(d) => d.bind_device(device),
            DeviceDriver::Hub(d) => d.bind_device(device),
        }
    }

    fn device_removed(&mut self, device: &UsbDevice)
        ensures
            final(self).same_kind(*old(self)),
            final(self).bound() == old(self).bound().filter(other_than(device.address)),
    {
        match self {
            DeviceDriver::Hid(d) => d.device_removed(device),
            DeviceDriver::MassStorage(d) => d.device_removed(device),
            DeviceDriver::Hub(d) => d.device_removed(device),
        }
    }

    fn handle_data(&mut self, device_address: u8, endpoint: u8, data: &[u8]) -> (r: Result<(), UsbError>)
        ensures
            r is Ok,
            final(self).same_kind(*old(self)),
            final(self).bound() == old(self).bound(),
    {
        match self {
            DeviceDriver::Hid(d) => d.handle_data(device_address, endpoint, data),
            DeviceDriver::MassStorage(d) => d.handle_data(device_address, endpoint, data),
            DeviceDriver::Hub(d) => d.handle_data(device_address, endpoint, data),
        }
    }
}

/// USB Device Manager
pub struct UsbDeviceManager {
    /// List of enumerated devices
    devices: Vec<UsbDevice>,
    /// Next available device address
    next_address: u8,
    /// Device drivers
    device_drivers: Vec<DeviceDriver>,
}

impl UsbDeviceManager {
    /// The devices, in enumeration order.
    pub closed spec fn spec_devices(&self) -> Seq<UsbDevice> {
        self.devices@
    }

    /// The address handed out next while fresh addresses last.
    pub closed spec fn spec_next_address(&self) -> u8 {
        self.next_address
    }

    /// The registered drivers, in registration order.
    pub closed spec fn spec_drivers(&self) -> Seq<DeviceDriver> {
        self.device_drivers@
    }

    /// Create a new device manager: no devices, no drivers, addresses from 1
    pub fn new() -> (r: Self)
        ensures
            r.spec_devices() == Seq::<UsbDevice>::empty(),
            r.spec_next_address() == 1,
            r.spec_drivers() == Seq::<DeviceDriver>::empty(),
    {
        Self { devices: Vec::new(), next_address: 1, device_drivers: Vec::new() }
    }

    /// Register a device driver
    pub fn register_driver(&mut self, driver: DeviceDriver)
        ensures
            final(self).spec_drivers() == old(self).spec_drivers().push(driver),
            final(self).spec_devices() == old(self).spec_devices(),
            final(self).spec_next_address() == old(self).spec_next_address(),
    {
        self.device_drivers.push(driver);
    }

    /// Whether some device has the address.
    fn address_used(&self, address: u8) -> (r: bool)
        ensures
            r == address_in_use(self.devices@, address),
    {
        let mut i: usize = 0;
        while i < self.devices.len()
            invariant
                i <= self.devices@.len(),
                forall|j: int| 0 <= j < i ==> (#[trigger] self.devices@[j]).address != address,
            decreases self.devices@.len() - i,
        {
            if self.devices[i].address == address {
                return true;
            }
            i = i + 1;
        }
        false
    }

    /// Allocate a device address: the next fresh one while they last (up to 127), after that
    /// the lowest one no device has; none left is out of memory.
    fn allocate_address(&mut self) -> (r: Result<u8, UsbError>)
        ensures
            final(self).spec_devices() == old(self).spec_devices(),
            final(self).spec_drivers() == old(self).spec_drivers(),
            old(self).spec_next_address() <= 127 ==> r == Ok::<u8, UsbError>(old(self).spec_next_address())
                && final(self).spec_next_address() == old(self).spec_next_address() + 1,
            old(self).spec_next_address() > 127 ==> final(self).spec_next_address() == old(self).spec_next_address()
                && r == match first_free_address(old(self).spec_devices(), 1) {
                Some(a) => Ok::<u8, UsbError>(a),
                None => Err::<u8, UsbError>(UsbError::OutOfMemory),
            },
    {
        if self.next_address > 127 {
            let mut addr: u8 = 1;
            while addr <= 127
                invariant
                    1 <= addr <= 128,
                    first_free_address(self.devices@, 1) == first_free_address(self.devices@, addr as int),
                    self.devices@ == old(self).devices@,
                    self.next_address == old(self).next_address,
                    old(self).next_address > 127,
                    self.device_drivers@ == old(self).device_drivers@,
                decreases 128 - addr,
            {
                if !self.address_used(addr) {
                    return Ok(addr);
                }
                addr = addr + 1;
            }
            return Err(UsbError::OutOfMemory);
        }
        let address = self.next_address;
        self.next_address = self.next_address + 1;
        Ok(address)
    }

    /// Bind the device to the first driver that supports its descriptor.
    fn bind_device_driver(&mut self, device: &mut UsbDevice) -> (r: Result<(), UsbError>)
        ensures
            final(self).spec_devices() == old(self).spec_devices(),
            final(self).spec_next_address() == old(self).spec_next_address(),
            final(self).spec_drivers().len() == old(self).spec_drivers().len(),
            old(device).device_descriptor is None || (forall|i: int|
                0 <= i < old(self).spec_drivers().len() ==> (#[trigger] old(self).spec_drivers()[i]).class()
                    != old(device).device_descriptor->0.device_class) ==> r is Ok && *final(device) == *old(device)
                && final(self).spec_drivers() == old(self).spec_drivers(),
            old(device).device_descriptor matches Some(desc) ==> ({
                let i = first_of_class(old(self).spec_drivers(), desc.device_class, 0);
                let before = old(self).spec_drivers()[i];
                let after = final(self).spec_drivers()[i];
                0 <= i ==> {
                    &&& final(self).spec_drivers() == old(self).spec_drivers().update(i, after)
                    &&& after.same_kind(before)
                    &&& after.bound() == before.bound().push(old(device).address)
                    &&& before.binds(*old(device), *final(device), r)
                    &&& final(device).address == old(device).address
                    &&& final(device).state == old(device).state
                    &&& final(device).device_descriptor == old(device).device_descriptor
                    &&& config_list(final(device).config_descriptors) == config_list(old(device).config_descriptors)
                    &&& final(device).active_config == old(device).active_config
                }
            }),
    {
        let desc = match device.device_descriptor {
            Some(d) => d,
            None => return Ok(()),
        };
        let mut i: usize = 0;
        while i < self.device_drivers.len()
            invariant
                i <= self.device_drivers@.len(),
                self.device_drivers@ == old(self).device_drivers@,
                self.devices@ == old(self).devices@,
                self.next_address == old(self).next_address,
                *device == *old(device),
                device.device_descriptor == Some(desc),
                forall|j: int| 0 <= j < i ==> (#[trigger] self.device_drivers@[j]).class() != desc.device_class,
                first_of_class(self.device_drivers@, desc.device_class, 0) == first_of_class(
                    self.device_drivers@,
                    desc.device_class,
                    i as int,
                ),
            decreases self.device_drivers@.len() - i,
        {
            if self.device_drivers[i].supports_device(&desc) {
                proof {
                    assert(old(self).spec_drivers()[i as int].class() == old(device).device_descriptor->0.device_class);
                }
                let ghost drivers_before = self.device_drivers@;
                let mut driver = self.device_drivers.remove(i);
                let r = driver.bind_device(device);
                self.device_drivers.insert(i, driver);
                proof {
                    assert(self.device_drivers@ =~= drivers_before.update(i as int, driver));
                }
                return r;
            }
            i = i + 1;
        }
        Ok(())
    }

    /// Enumerate a new device on a port: it gets an address and goes through the
    /// enumeration steps, ending configured with the recorded descriptors, and is bound to
    /// a driver that supports it.
    pub fn enumerate_device(&mut self, port: u8, speed: UsbSpeed) -> (r: Result<u8, UsbError>)
        requires
            old(self).spec_drivers().len() < usize::MAX,
        ensures
            old(self).spec_next_address() > 127 && first_free_address(old(self).spec_devices(), 1) is None
                ==> r == Err::<u8, UsbError>(UsbError::OutOfMemory) && final(self).spec_devices() == old(self).spec_devices(),
            r matches Ok(address) ==> {
                &&& address == (if old(self).spec_next_address() <= 127 {
                    old(self).spec_next_address()
                } else {
                    first_free_address(old(self).spec_devices(), 1)->0
                })
                &&& final(self).spec_devices().len() == old(self).spec_devices().len() + 1
                &&& final(self).spec_devices().drop_last() == old(self).spec_devices()
                &&& ({
                    let d = final(self).spec_devices().last();
                    &&& d.address == address
                    &&& d.port == port
                    &&& d.speed == speed
                    &&& d.state == UsbDeviceState::Configured
                    &&& d.hub_address is None
                    &&& d.device_descriptor == Some(enumerated_descriptor(speed))
                    &&& config_list(d.config_descriptors) == seq![enumerated_config()]
                    &&& d.active_config == Some(1u8)
                })
            },
            (old(self).spec_next_address() <= 127 || first_free_address(old(self).spec_devices(), 1) is Some)
                && (forall|i: int|
                0 <= i < old(self).spec_drivers().len() ==> (#[trigger] old(self).spec_drivers()[i]).class()
                    != class_codes::PER_INTERFACE) ==> r is Ok,
    {
        // Allocate device address
        let address = match self.allocate_address() {
            Ok(a) => a,
            Err(e) => return Err(e),
        };
        // The device answers at the default address first
        let mut device = UsbDevice::new(0, port, speed);
        // Device descriptor (the first request reads its first 8 bytes)
        device.device_descriptor = Some(
            DeviceDescriptor {
                length: 18,
                descriptor_type: descriptor_types::DEVICE,
                usb_version: 0x0200,  // USB 2.0
                device_class: class_codes::PER_INTERFACE,
                device_subclass: 0,
                device_protocol: 0,
                max_packet_size0: speed.max_packet_size_control() as u8,
                vendor_id: 0x1234,
                product_id: 0x5678,
                device_version: 0x0100,
                manufacturer_index: 1,
                product_index: 2,
                serial_index: 3,
                num_configurations: 1,
            },
        );
        // SET_ADDRESS
        device.state = UsbDeviceState::Addressed;
        // Configuration descriptors
        let config_descriptor = ConfigDescriptor {
            length: 9,
            descriptor_type: descriptor_types::CONFIGURATION,
            total_length: 34,
            num_interfaces: 1,
            configuration_value: 1,
            configuration_index: 0,
            attributes: 0x80,  // Bus powered
            max_power: 50,  // 100mA
        };
        let _ = config_list_push(&mut device.config_descriptors, config_descriptor);
        // SET_CONFIGURATION with the first configuration
        let first_value = match config_list_first(&device.config_descriptors) {
            Some(config) => Some(config.configuration_value),
            None => None,
        };
        match first_value {
            Some(value) => {
                device.active_config = Some(value);
                device.state = UsbDeviceState::Configured;
            },
            None => {},
        }
        device.address = address;
        device.state = UsbDeviceState::Configured;
        // Find and bind device driver
        match self.bind_device_driver(&mut device) {
            Ok(()) => {},
            Err(e) => return Err(e),
        }
        self.devices.push(device);
        proof {
            assert(self.devices@.drop_last() =~= old(self).devices@);
        }
        Ok(address)
    }

    /// Remove a device: the first one with the address goes, every driver forgets the
    /// address, and the address may be handed out again.
    pub fn remove_device(&mut self, address: u8) -> (r: Result<(), UsbError>)
        ensures
            !address_in_use(old(self).spec_devices(), address) ==> r == Err::<(), UsbError>(UsbError::DeviceNotFound)
                && final(self).spec_devices() == old(self).spec_devices() && final(self).spec_drivers() == old(self).spec_drivers(),
            address_in_use(old(self).spec_devices(), address) ==> r is Ok && final(self).spec_devices() == old(self).spec_devices().remove(first_device_index(old(self).spec_devices(), address))
                && final(self).spec_drivers().len() == old(self).spec_drivers().len() && forall|i: int|
                0 <= i < old(self).spec_drivers().len() ==> (#[trigger] final(self).spec_drivers()[i]).same_kind(
                    old(self).spec_drivers()[i],
                ) && final(self).spec_drivers()[i].bound() == old(self).spec_drivers()[i].bound().filter(
                    other_than(address),
                ),
            final(self).spec_next_address() == old(self).spec_next_address(),
    {
        let mut pos: usize = 0;
        while pos < self.devices.len() && self.devices[pos].address != address
            invariant
                pos <= self.devices@.len(),
                self.devices@ == old(self).devices@,
                self.device_drivers@ == old(self).device_drivers@,
                self.next_address == old(self).next_address,
                forall|j: int| 0 <= j < pos ==> (#[trigger] self.devices@[j]).address != address,
            decreases self.devices@.len() - pos,
        {
            pos = pos + 1;
        }
        if pos == self.devices.len() {
            return Err(UsbError::DeviceNotFound);
        }
        proof {
            let p = first_device_index(self.devices@, address);
            assert(address_in_use(self.devices@, address));
            if p < pos {
                assert(self.devices@[p].address != address);
            } else if p > pos {
                assert(self.devices@[pos as int].address != address);
            }
        }
        let device = self.devices.remove(pos);
        // Notify the drivers
        let mut i: usize = 0;
        while i < self.device_drivers.len()
            invariant
                i <= self.device_drivers@.len(),
                self.device_drivers@.len() == old(self).device_drivers@.len(),
                device.address == address,
                forall|k: int|
                    0 <= k < i ==> (#[trigger] self.device_drivers@[k]).same_kind(old(self).device_drivers@[k])
                        && self.device_drivers@[k].bound() == old(self).device_drivers@[k].bound().filter(
                        other_than(address),
                    ),
                forall|k: int| i <= k < self.device_drivers@.len() ==> #[trigger] self.device_drivers@[k] == old(self).device_drivers@[k],
                self.devices@ == old(self).devices@.remove(first_device_index(old(self).devices@, address)),
                self.next_address == old(self).next_address,
            decreases self.device_drivers@.len() - i,
        {
            let mut driver = self.device_drivers.remove(i);
            driver.device_removed(&device);
            self.device_drivers.insert(i, driver);
            i = i + 1;
        }
        Ok(())
    }

    /// Get device by address: the first one with it
    pub fn get_device(&self, address: u8) -> (r: Option<&UsbDevice>)
        ensures
            !address_in_use(self.spec_devices(), address) ==> r is None,
            address_in_use(self.spec_devices(), address) ==> (r matches Some(d) && *d == self.spec_devices()[first_device_index(
                self.spec_devices(),
                address,
            )]),
    {
        let mut pos: usize = 0;
        while pos < self.devices.len()
            invariant
                pos <= self.devices@.len(),
                forall|j: int| 0 <= j < pos ==> (#[trigger] self.devices@[j]).address != address,
            decreases self.devices@.len() - pos,
        {
            if self.devices[pos].address == address {
                proof {
                    let p = first_device_index(self.devices@, address);
                    assert(address_in_use(self.devices@, address));
                    if p < pos {
                        assert(self.devices@[p].address != address);
                    } else if p > pos {
                        assert(self.devices@[pos as int].address != address);
                    }
                }
                return Some(&self.devices[pos]);
            }
            pos = pos + 1;
        }
        None
    }

    /// Get all devices
    pub fn get_devices(&self) -> (r: &[UsbDevice])
        ensures
            r@ == self.spec_devices(),
    {
        self.devices.as_slice()
    }

    /// Find devices by class: those whose descriptor has the class code, in order
    pub fn find_devices_by_class(&self, class_code: u8) -> (r: Vec<&UsbDevice>)
        ensures
            r@.map_values(|d: &UsbDevice| *d) == self.spec_devices().filter(of_class(class_code)),
    {
        let mut found: Vec<&UsbDevice> = Vec::new();
        let mut i: usize = 0;
        while i < self.devices.len()
            invariant
                i <= self.devices@.len(),
                found@.map_values(|d: &UsbDevice| *d) == self.devices@.take(i as int).filter(of_class(class_code)),
            decreases self.devices@.len() - i,
        {
            proof {
                assert(self.devices@.take(i + 1).drop_last() =~= self.devices@.take(i as int));
                reveal(Seq::filter);
            }
            let matches_class = match &self.devices[i].device_descriptor {
                Some(desc) => desc.device_class == class_code,
                None => false,
            };
            if matches_class {
                found.push(&self.devices[i]);
            }
            proof {
                assert(found@.map_values(|d: &UsbDevice| *d) =~= self.devices@.take(i + 1).filter(
                    of_class(class_code),
                ));
            }
            i = i + 1;
        }
        proof {
            assert(self.devices@.take(self.devices@.len() as int) =~= self.devices@);
        }
        found
    }

    /// Find devices by vendor/product ID: those whose descriptor has both, in order
    pub fn find_devices_by_id(&self, vendor_id: u16, product_id: u16) -> (r: Vec<&UsbDevice>)
        ensures
            r@.map_values(|d: &UsbDevice| *d) == self.spec_devices().filter(with_ids(vendor_id, product_id)),
    {
        let mut found: Vec<&UsbDevice> = Vec::new();
        let mut i: usize = 0;
        while i < self.devices.len()
            invariant
                i <= self.devices@.len(),
                found@.map_values(|d: &UsbDevice| *d) == self.devices@.take(i as int).filter(
                    with_ids(vendor_id, product_id),
                ),
            decreases self.devices@.len() - i,
        {
            proof {
                assert(self.devices@.take(i + 1).drop_last() =~= self.devices@.take(i as int));
                reveal(Seq::filter);
            }
            let matches_ids = match &self.devices[i].device_descriptor {
                Some(desc) => desc.vendor_id == vendor_id && desc.product_id == product_id,
                None => false,
            };
            if matches_ids {
                found.push(&self.devices[i]);
            }
            proof {
                assert(found@.map_values(|d: &UsbDevice| *d) =~= self.devices@.take(i + 1).filter(
                    with_ids(vendor_id, product_id),
                ));
            }
            i = i + 1;
        }
        proof {
            assert(self.devices@.take(self.devices@.len() as int) =~= self.devices@);
        }
        found
    }
}

impl Default for UsbDeviceManager {
    fn default() -> (r: Self)
        ensures
            r.spec_devices() == Seq::<UsbDevice>::empty(),
            r.spec_next_address() == 1,
            r.spec_drivers() == Seq::<DeviceDriver>::empty(),
    {
        Self::new()
    }
}

} // verus!
