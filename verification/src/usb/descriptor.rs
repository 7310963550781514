use vstd::prelude::*;
use vstd::string::*;

use crate::usb::endpoint::{endpoint_address, direction_of, Endpoint, EndpointDirection, EndpointType, EndpointView};
use crate::usb::error::UsbDriverError;

pub mod class_codes;
pub mod descriptor_types;
pub mod language_ids;

verus! {

/// Low byte of a little-endian 16-bit field.
pub open spec fn lo(v: u16) -> u8 {
    (v % 256) as u8
}

/// High byte of a little-endian 16-bit field.
pub open spec fn hi(v: u16) -> u8 {
    (v / 256) as u8
}

/// The 16-bit value of two little-endian bytes.
pub open spec fn le16(l: u8, h: u8) -> u16 {
    (l + h * 256) as u16
}

/// Splitting a 16-bit value into bytes and joining them gives it back, and the other way round.
pub proof fn lemma_le16(v: u16, l: u8, h: u8)
    ensures
        le16(lo(v), hi(v)) == v,
        lo(le16(l, h)) == l,
        hi(le16(l, h)) == h,
{
}

fn push_u16(v: &mut Vec<u8>, x: u16)
    ensures
        final(v)@ == old(v)@.push(lo(x)).push(hi(x)),
{
    v.push((x % 256) as u8);
    v.push((x / 256) as u8);
}

fn read_u16(data: &[u8], i: usize) -> (r: u16)
    requires
        i + 1 < data@.len(),
    ensures
        r == le16(data@[i as int], data@[i + 1]),
{
    data[i] as u16 + (data[i + 1] as u16) * 256
}

/// USB Descriptor trait
pub trait UsbDescriptor {
    /// Get descriptor type
    fn descriptor_type(&self) -> u8;

    /// Get descriptor length
    fn length(&self) -> u8;

    /// Serialize descriptor to bytes
    fn to_bytes(&self) -> Vec<u8>;

    /// The byte strings that this kind of descriptor can be parsed from without a fault.
    spec fn parsable(data: Seq<u8>) -> bool;

    /// Parse descriptor from bytes - returns specific descriptor type
    fn from_bytes(data: &[u8]) -> Result<AnyDescriptor, UsbDriverError> where Self: Sized
        requires
            Self::parsable(data@),
    ;
}

/// Standard Device Descriptor
#[derive(Debug, Clone, Copy, PartialEq, Eq, Structural)]
pub struct DeviceDescriptor {
    pub length: u8,
    pub descriptor_type: u8,
    pub bcd_usb: u16,
    pub device_class: u8,
    pub device_subclass: u8,
    pub device_protocol: u8,
    pub max_packet_size_0: u8,
    pub vendor_id: u16,
    pub product_id: u16,
    pub bcd_device: u16,
    pub manufacturer_string: u8,
    pub product_string: u8,
    pub serial_number_string: u8,
    pub num_configurations: u8,
}

impl DeviceDescriptor {
    pub const LENGTH: u8 = 18;

    /// The descriptor `new` builds.
    pub open spec fn new_spec(
        bcd_usb: u16,
        device_class: u8,
        device_subclass: u8,
        device_protocol: u8,
        max_packet_size_0: u8,
        vendor_id: u16,
        product_id: u16,
        bcd_device: u16,
        manufacturer_string: u8,
        product_string: u8,
        serial_number_string: u8,
        num_configurations: u8,
    ) -> DeviceDescriptor {
        DeviceDescriptor {
            length: 18,
            descriptor_type: descriptor_types::DEVICE,
            bcd_usb,
            device_class,
            device_subclass,
            device_protocol,
            max_packet_size_0,
            vendor_id,
            product_id,
            bcd_device,
            manufacturer_string,
            product_string,
            serial_number_string,
            num_configurations,
        }
    }

    /// The wire form: every field in order, 16-bit fields little-endian.
    pub open spec fn encoded(self) -> Seq<u8> {
        seq![
            self.length,
            self.descriptor_type,
            lo(self.bcd_usb),
            hi(self.bcd_usb),
            self.device_class,
            self.device_subclass,
            self.device_protocol,
            self.max_packet_size_0,
            lo(self.vendor_id),
            hi(self.vendor_id),
            lo(self.product_id),
            hi(self.product_id),
            lo(self.bcd_device),
            hi(self.bcd_device),
            self.manufacturer_string,
            self.product_string,
            self.serial_number_string,
            self.num_configurations,
        ]
    }

    /// The descriptor that the first 18 bytes of `s` spell.
    pub open spec fn decoded(s: Seq<u8>) -> DeviceDescriptor {
        DeviceDescriptor {
            length: s[0],
            descriptor_type: s[1],
            bcd_usb: le16(s[2], s[3]),
            device_class: s[4],
            device_subclass: s[5],
            device_protocol: s[6],
            max_packet_size_0: s[7],
            vendor_id: le16(s[8], s[9]),
            product_id: le16(s[10], s[11]),
            bcd_device: le16(s[12], s[13]),
            manufacturer_string: s[14],
            product_string: s[15],
            serial_number_string: s[16],
            num_configurations: s[17],
        }
    }

    /// What parsing `s` as a device descriptor gives: too short, or a wrong length or type
    /// byte, is refused.
    pub open spec fn parsed(s: Seq<u8>) -> Result<DeviceDescriptor, UsbDriverError> {
        if s.len() < 18 {
            Err(UsbDriverError::InvalidParameter)
        } else if Self::decoded(s).length != 18 || Self::decoded(s).descriptor_type
            != descriptor_types::DEVICE {
            Err(UsbDriverError::InvalidParameter)
        } else {
            Ok(Self::decoded(s))
        }
    }

    pub fn new(
        bcd_usb: u16,
        device_class: u8,
        device_subclass: u8,
        device_protocol: u8,
        max_packet_size_0: u8,
        vendor_id: u16,
        product_id: u16,
        bcd_device: u16,
        manufacturer_string: u8,
        product_string: u8,
        serial_number_string: u8,
        num_configurations: u8,
    ) -> (r: Self)
        ensures
            r == (DeviceDescriptor {
                length: 18,
                descriptor_type: descriptor_types::DEVICE,
                bcd_usb,
                device_class,
                device_subclass,
                device_protocol,
                max_packet_size_0,
                vendor_id,
                product_id,
                bcd_device,
                manufacturer_string,
                product_string,
                serial_number_string,
                num_configurations,
            }),
    {
        Self {
            length: Self::LENGTH,
            descriptor_type: descriptor_types::DEVICE,
            bcd_usb,
            device_class,
            device_subclass,
            device_protocol,
            max_packet_size_0,
            vendor_id,
            product_id,
            bcd_device,
            manufacturer_string,
            product_string,
            serial_number_string,
            num_configurations,
        }
    }

    fn read(data: &[u8]) -> (r: Self)
        requires
            data@.len() >= 18,
        ensures
            r == Self::decoded(data@),
    {
        DeviceDescriptor {
            length: data[0],
            descriptor_type: data[1],
            bcd_usb: read_u16(data, 2),
            device_class: data[4],
            device_subclass: data[5],
            device_protocol: data[6],
            max_packet_size_0: data[7],
            vendor_id: read_u16(data, 8),
            product_id: read_u16(data, 10),
            bcd_device: read_u16(data, 12),
            manufacturer_string: data[14],
            product_string: data[15],
            serial_number_string: data[16],
            num_configurations: data[17],
        }
    }

    fn parse(data: &[u8]) -> (r: Result<Self, UsbDriverError>)
        ensures
            r == Self::parsed(data@),
    {
        if data.len() < 18 {
            return Err(UsbDriverError::InvalidParameter);
        }
        let descriptor = Self::read(data);
        if descriptor.length != Self::LENGTH || descriptor.descriptor_type != descriptor_types::DEVICE {
            return Err(UsbDriverError::InvalidParameter);
        }
        Ok(descriptor)
    }
}

impl UsbDescriptor for DeviceDescriptor {
    open spec fn parsable(data: Seq<u8>) -> bool {
        true
    }

    fn descriptor_type(&self) -> (r: u8)
        ensures
            r == descriptor_types::DEVICE,
    {
        descriptor_types::DEVICE
    }

    fn length(&self) -> (r: u8)
        ensures
            r == 18,
    {
        Self::LENGTH
    }

    fn to_bytes(&self) -> (r: Vec<u8>)
        ensures
            r@ == self.encoded(),
    {
        let mut v: Vec<u8> = Vec::new();
        v.push(self.length);
        v.push(self.descriptor_type);
        push_u16(&mut v, self.bcd_usb);
        v.push(self.device_class);
        v.push(self.device_subclass);
        v.push(self.device_protocol);
        v.push(self.max_packet_size_0);
        push_u16(&mut v, self.vendor_id);
        push_u16(&mut v, self.product_id);
        push_u16(&mut v, self.bcd_device);
        v.push(self.manufacturer_string);
        v.push(self.product_string);
        v.push(self.serial_number_string);
        v.push(self.num_configurations);
        proof {
            assert(v@ =~= self.encoded());
        }
        v
    }

    fn from_bytes(data: &[u8]) -> (r: Result<AnyDescriptor, UsbDriverError>)
        ensures
            r == match Self::parsed(data@) {
                Ok(d) => Ok(AnyDescriptor::Device(d)),
                Err(e) => Err::<AnyDescriptor, UsbDriverError>(e),
            },
    {
        match Self::parse(data) {
            Ok(d) => Ok(AnyDescriptor::Device(d)),
            Err(e) => Err(e),
        }
    }
}

/// Configuration Descriptor
#[derive(Debug, Clone, Copy, PartialEq, Eq, Structural)]
pub struct ConfigurationDescriptor {
    pub length: u8,
    pub descriptor_type: u8,
    pub total_length: u16,
    pub num_interfaces: u8,
    pub configuration_value: u8,
    pub configuration_string: u8,
    pub attributes: u8,
    pub max_power: u8,
}

impl ConfigurationDescriptor {
    pub const LENGTH: u8 = 9;

    /// Self-powered device
    pub const SELF_POWERED: u8 = 0x40;

    /// Remote wakeup capable
    pub const REMOTE_WAKEUP: u8 = 0x20;

    /// Must be set
    pub const RESERVED: u8 = 0x80;

    /// The wire form: every field in order, 16-bit fields little-endian.
    pub open spec fn encoded(self) -> Seq<u8> {
        seq![
            self.length,
            self.descriptor_type,
            lo(self.total_length),
            hi(self.total_length),
            self.num_interfaces,
            self.configuration_value,
            self.configuration_string,
            self.attributes,
            self.max_power,
        ]
    }

    /// The descriptor that the first 9 bytes of `s` spell.
    pub open spec fn decoded(s: Seq<u8>) -> ConfigurationDescriptor {
        ConfigurationDescriptor {
            length: s[0],
            descriptor_type: s[1],
            total_length: le16(s[2], s[3]),
            num_interfaces: s[4],
            configuration_value: s[5],
            configuration_string: s[6],
            attributes: s[7],
            max_power: s[8],
        }
    }

    /// What parsing `s` as this kind of descriptor gives: too short, or a wrong length or
    /// type byte, is refused.
    pub open spec fn parsed(s: Seq<u8>) -> Result<ConfigurationDescriptor, UsbDriverError> {
        if s.len() < 9 {
            Err(UsbDriverError::InvalidParameter)
        } else if Self::decoded(s).length != 9 || Self::decoded(s).descriptor_type
            != descriptor_types::CONFIGURATION {
            Err(UsbDriverError::InvalidParameter)
        } else {
            Ok(Self::decoded(s))
        }
    }

    pub fn new(
        total_length: u16,
        num_interfaces: u8,
        configuration_value: u8,
        configuration_string: u8,
        attributes: u8,
        max_power: u8,
    ) -> (r: Self)
        ensures
            r == (ConfigurationDescriptor {
                length: 9,
                descriptor_type: descriptor_types::CONFIGURATION,
                total_length,
                num_interfaces,
                configuration_value,
                configuration_string,
                attributes: attributes | 0x80,
                max_power,
            }),
    {
        Self {
            length: Self::LENGTH,
            descriptor_type: descriptor_types::CONFIGURATION,
            total_length,
            num_interfaces,
            configuration_value,
            configuration_string,
            attributes: attributes | Self::RESERVED,
            max_power,
        }
    }

    fn read(data: &[u8]) -> (r: Self)
        requires
            data@.len() >= 9,
        ensures
            r == Self::decoded(data@),
    {
        ConfigurationDescriptor {
            length: data[0],
            descriptor_type: data[1],
            total_length: read_u16(data, 2),
            num_interfaces: data[4],
            configuration_value: data[5],
            configuration_string: data[6],
            attributes: data[7],
            max_power: data[8],
        }
    }

    fn parse(data: &[u8]) -> (r: Result<Self, UsbDriverError>)
        ensures
            r == Self::parsed(data@),
    {
        if data.len() < 9 {
            return Err(UsbDriverError::InvalidParameter);
        }
        let descriptor = Self::read(data);
        if descriptor.length != Self::LENGTH || descriptor.descriptor_type != descriptor_types::CONFIGURATION {
            return Err(UsbDriverError::InvalidParameter);
        }
        Ok(descriptor)
    }
}

impl UsbDescriptor for ConfigurationDescriptor {
    open spec fn parsable(data: Seq<u8>) -> bool {
        true
    }

    fn descriptor_type(&self) -> (r: u8)
        ensures
            r == descriptor_types::CONFIGURATION,
    {
        descriptor_types::CONFIGURATION
    }

    fn length(&self) -> (r: u8)
        ensures
            r == 9,
    {
        Self::LENGTH
    }

    fn to_bytes(&self) -> (r: Vec<u8>)
        ensures
            r@ == self.encoded(),
    {
        let mut v: Vec<u8> = Vec::new();
        v.push(self.length);
        v.push(self.descriptor_type);
        push_u16(&mut v, self.total_length);
        v.push(self.num_interfaces);
        v.push(self.configuration_value);
        v.push(self.configuration_string);
        v.push(self.attributes);
        v.push(self.max_power);
        proof {
            assert(v@ =~= self.encoded());
        }
        v
    }

    fn from_bytes(data: &[u8]) -> (r: Result<AnyDescriptor, UsbDriverError>)
        ensures
            r == match Self::parsed(data@) {
                Ok(d) => Ok(AnyDescriptor::Configuration(d)),
                Err(e) => Err::<AnyDescriptor, UsbDriverError>(e),
            },
    {
        match Self::parse(data) {
            Ok(d) => Ok(AnyDescriptor::Configuration(d)),
            Err(e) => Err(e),
        }
    }
}

/// Interface Descriptor
#[derive(Debug, Clone, Copy, PartialEq, Eq, Structural)]
pub struct InterfaceDescriptor {
    pub length: u8,
    pub descriptor_type: u8,
    pub interface_number: u8,
    pub alternate_setting: u8,
    pub num_endpoints: u8,
    pub interface_class: u8,
    pub interface_subclass: u8,
    pub interface_protocol: u8,
    pub interface_string: u8,
}

impl InterfaceDescriptor {
    pub const LENGTH: u8 = 9;

    /// The wire form: every field in order, 16-bit fields little-endian.
    pub open spec fn encoded(self) -> Seq<u8> {
        seq![
            self.length,
            self.descriptor_type,
            self.interface_number,
            self.alternate_setting,
            self.num_endpoints,
            self.interface_class,
            self.interface_subclass,
            self.interface_protocol,
            self.interface_string,
        ]
    }

    /// The descriptor that the first 9 bytes of `s` spell.
    pub open spec fn decoded(s: Seq<u8>) -> InterfaceDescriptor {
        InterfaceDescriptor {
            length: s[0],
            descriptor_type: s[1],
            interface_number: s[2],
            alternate_setting: s[3],
            num_endpoints: s[4],
            interface_class: s[5],
            interface_subclass: s[6],
            interface_protocol: s[7],
            interface_string: s[8],
        }
    }

    /// What parsing `s` as this kind of descriptor gives: too short, or a wrong length or
    /// type byte, is refused.
    pub open spec fn parsed(s: Seq<u8>) -> Result<InterfaceDescriptor, UsbDriverError> {
        if s.len() < 9 {
            Err(UsbDriverError::InvalidParameter)
        } else if Self::decoded(s).length != 9 || Self::decoded(s).descriptor_type
            != descriptor_types::INTERFACE {
            Err(UsbDriverError::InvalidParameter)
        } else {
            Ok(Self::decoded(s))
        }
    }

    pub fn new(
        interface_number: u8,
        alternate_setting: u8,
        num_endpoints: u8,
        interface_class: u8,
        interface_subclass: u8,
        interface_protocol: u8,
        interface_string: u8,
    ) -> (r: Self)
        ensures
            r == (InterfaceDescriptor {
                length: 9,
                descriptor_type: descriptor_types::INTERFACE,
                interface_number,
                alternate_setting,
                num_endpoints,
                interface_class,
                interface_subclass,
                interface_protocol,
                interface_string,
            }),
    {
        Self {
            length: Self::LENGTH,
            descriptor_type: descriptor_types::INTERFACE,
            interface_number,
            alternate_setting,
            num_endpoints,
            interface_class,
            interface_subclass,
            interface_protocol,
            interface_string,
        }
    }

    fn read(data: &[u8]) -> (r: Self)
        requires
            data@.len() >= 9,
        ensures
            r == Self::decoded(data@),
    {
        InterfaceDescriptor {
            length: data[0],
            descriptor_type: data[1],
            interface_number: data[2],
            alternate_setting: data[3],
            num_endpoints: data[4],
            interface_class: data[5],
            interface_subclass: data[6],
            interface_protocol: data[7],
            interface_string: data[8],
        }
    }

    fn parse(data: &[u8]) -> (r: Result<Self, UsbDriverError>)
        ensures
            r == Self::parsed(data@),
    {
        if data.len() < 9 {
            return Err(UsbDriverError::InvalidParameter);
        }
        let descriptor = Self::read(data);
        if descriptor.length != Self::LENGTH || descriptor.descriptor_type != descriptor_types::INTERFACE {
            return Err(UsbDriverError::InvalidParameter);
        }
        Ok(descriptor)
    }
}

impl UsbDescriptor for InterfaceDescriptor {
    open spec fn parsable(data: Seq<u8>) -> bool {
        true
    }

    fn descriptor_type(&self) -> (r: u8)
        ensures
            r == descriptor_types::INTERFACE,
    {
        descriptor_types::INTERFACE
    }

    fn length(&self) -> (r: u8)
        ensures
            r == 9,
    {
        Self::LENGTH
    }

    fn to_bytes(&self) -> (r: Vec<u8>)
        ensures
            r@ == self.encoded(),
    {
        let mut v: Vec<u8> = Vec::new();
        v.push(self.length);
        v.push(self.descriptor_type);
        v.push(self.interface_number);
        v.push(self.alternate_setting);
        v.push(self.num_endpoints);
        v.push(self.interface_class);
        v.push(self.interface_subclass);
        v.push(self.interface_protocol);
        v.push(self.interface_string);
        proof {
            assert(v@ =~= self.encoded());
        }
        v
    }

    fn from_bytes(data: &[u8]) -> (r: Result<AnyDescriptor, UsbDriverError>)
        ensures
            r == match Self::parsed(data@) {
                Ok(d) => Ok(AnyDescriptor::Interface(d)),
                Err(e) => Err::<AnyDescriptor, UsbDriverError>(e),
            },
    {
        match Self::parse(data) {
            Ok(d) => Ok(AnyDescriptor::Interface(d)),
            Err(e) => Err(e),
        }
    }
}

/// Endpoint Descriptor
#[derive(Debug, Clone, Copy, PartialEq, Eq, Structural)]
pub struct EndpointDescriptor {
    pub length: u8,
    pub descriptor_type: u8,
    pub endpoint_address: u8,
    pub attributes: u8,
    pub max_packet_size: u16,
    pub interval: u8,
}

impl EndpointDescriptor {
    pub const LENGTH: u8 = 7;

    /// Endpoint attributes
    pub const TRANSFER_TYPE_MASK: u8 = 0x03;

    pub const TRANSFER_TYPE_CONTROL: u8 = 0x00;

    pub const TRANSFER_TYPE_ISOCHRONOUS: u8 = 0x01;

    pub const TRANSFER_TYPE_BULK: u8 = 0x02;

    pub const TRANSFER_TYPE_INTERRUPT: u8 = 0x03;

    /// The wire form: every field in order, 16-bit fields little-endian.
    pub open spec fn encoded(self) -> Seq<u8> {
        seq![
            self.length,
            self.descriptor_type,
            self.endpoint_address,
            self.attributes,
            lo(self.max_packet_size),
            hi(self.max_packet_size),
            self.interval,
        ]
    }

    /// The descriptor that the first 7 bytes of `s` spell.
    pub open spec fn decoded(s: Seq<u8>) -> EndpointDescriptor {
        EndpointDescriptor {
            length: s[0],
            descriptor_type: s[1],
            endpoint_address: s[2],
            attributes: s[3],
            max_packet_size: le16(s[4], s[5]),
            interval: s[6],
        }
    }

    /// What parsing `s` as this kind of descriptor gives: too short, or a wrong length or
    /// type byte, is refused.
    pub open spec fn parsed(s: Seq<u8>) -> Result<EndpointDescriptor, UsbDriverError> {
        if s.len() < 7 {
            Err(UsbDriverError::InvalidParameter)
        } else if Self::decoded(s).length != 7 || Self::decoded(s).descriptor_type
            != descriptor_types::ENDPOINT {
            Err(UsbDriverError::InvalidParameter)
        } else {
            Ok(Self::decoded(s))
        }
    }

    pub fn new(
        endpoint_address: u8,
        attributes: u8,
        max_packet_size: u16,
        interval: u8,
    ) -> (r: Self)
        ensures
            r == (EndpointDescriptor {
                length: 7,
                descriptor_type: descriptor_types::ENDPOINT,
                endpoint_address,
                attributes,
                max_packet_size,
                interval,
            }),
    {
        Self {
            length: Self::LENGTH,
            descriptor_type: descriptor_types::ENDPOINT,
            endpoint_address,
            attributes,
            max_packet_size,
            interval,
        }
    }

    fn read(data: &[u8]) -> (r: Self)
        requires
            data@.len() >= 7,
        ensures
            r == Self::decoded(data@),
    {
        EndpointDescriptor {
            length: data[0],
            descriptor_type: data[1],
            endpoint_address: data[2],
            attributes: data[3],
            max_packet_size: read_u16(data, 4),
            interval: data[6],
        }
    }

    fn parse(data: &[u8]) -> (r: Result<Self, UsbDriverError>)
        ensures
            r == Self::parsed(data@),
    {
        if data.len() < 7 {
            return Err(UsbDriverError::InvalidParameter);
        }
        let descriptor = Self::read(data);
        if descriptor.length != Self::LENGTH || descriptor.descriptor_type != descriptor_types::ENDPOINT {
            return Err(UsbDriverError::InvalidParameter);
        }
        Ok(descriptor)
    }
}

impl UsbDescriptor for EndpointDescriptor {
    open spec fn parsable(data: Seq<u8>) -> bool {
        true
    }

    fn descriptor_type(&self) -> (r: u8)
        ensures
            r == descriptor_types::ENDPOINT,
    {
        descriptor_types::ENDPOINT
    }

    fn length(&self) -> (r: u8)
        ensures
            r == 7,
    {
        Self::LENGTH
    }

    fn to_bytes(&self) -> (r: Vec<u8>)
        ensures
            r@ == self.encoded(),
    {
        let mut v: Vec<u8> = Vec::new();
        v.push(self.length);
        v.push(self.descriptor_type);
        v.push(self.endpoint_address);
        v.push(self.attributes);
        push_u16(&mut v, self.max_packet_size);
        v.push(self.interval);
        proof {
            assert(v@ =~= self.encoded());
        }
        v
    }

    fn from_bytes(data: &[u8]) -> (r: Result<AnyDescriptor, UsbDriverError>)
        ensures
            r == match Self::parsed(data@) {
                Ok(d) => Ok(AnyDescriptor::Endpoint(d)),
                Err(e) => Err::<AnyDescriptor, UsbDriverError>(e),
            },
    {
        match Self::parse(data) {
            Ok(d) => Ok(AnyDescriptor::Endpoint(d)),
            Err(e) => Err(e),
        }
    }
}

/// A parsed descriptor of any of the kinds this crate knows.
#[derive(Debug, Clone)]
pub enum AnyDescriptor {
    Device(DeviceDescriptor),
    Configuration(ConfigurationDescriptor),
    Interface(InterfaceDescriptor),
    Endpoint(EndpointDescriptor),
    String(StringDescriptor),
}

/// Reading back the bytes of a device descriptor gives it back (and parsing accepts them
/// when the length and type bytes are the standard ones); writing out what was read from at
/// least 18 bytes gives back those bytes.
pub proof fn lemma_device_roundtrip(d: DeviceDescriptor, s: Seq<u8>)
    ensures
        DeviceDescriptor::decoded(d.encoded()) == d,
        d.length == 18 && d.descriptor_type == descriptor_types::DEVICE ==> DeviceDescriptor::parsed(d.encoded())
            == Ok::<DeviceDescriptor, UsbDriverError>(d),
        s.len() >= 18 ==> DeviceDescriptor::decoded(s).encoded() == s.take(18),
{
    if s.len() >= 18 {
        lemma_le16(d.bcd_usb, s[2], s[3]);
    lemma_le16(d.vendor_id, s[8], s[9]);
    lemma_le16(d.product_id, s[10], s[11]);
    lemma_le16(d.bcd_device, s[12], s[13]);
        assert(DeviceDescriptor::decoded(s).encoded() =~= s.take(18));
    }
}

/// Reading back the bytes of a configuration descriptor gives it back (and parsing accepts them
/// when the length and type bytes are the standard ones); writing out what was read from at
/// least 9 bytes gives back those bytes.
pub proof fn lemma_configuration_roundtrip(d: ConfigurationDescriptor, s: Seq<u8>)
    ensures
        ConfigurationDescriptor::decoded(d.encoded()) == d,
        d.length == 9 && d.descriptor_type == descriptor_types::CONFIGURATION ==> ConfigurationDescriptor::parsed(d.encoded())
            == Ok::<ConfigurationDescriptor, UsbDriverError>(d),
        s.len() >= 9 ==> ConfigurationDescriptor::decoded(s).encoded() == s.take(9),
{
    if s.len() >= 9 {
        lemma_le16(d.total_length, s[2], s[3]);
        assert(ConfigurationDescriptor::decoded(s).encoded() =~= s.take(9));
    }
}

/// Reading back the bytes of a interface descriptor gives it back (and parsing accepts them
/// when the length and type bytes are the standard ones); writing out what was read from at
/// least 9 bytes gives back those bytes.
pub proof fn lemma_interface_roundtrip(d: InterfaceDescriptor, s: Seq<u8>)
    ensures
        InterfaceDescriptor::decoded(d.encoded()) == d,
        d.length == 9 && d.descriptor_type == descriptor_types::INTERFACE ==> InterfaceDescriptor::parsed(d.encoded())
            == Ok::<InterfaceDescriptor, UsbDriverError>(d),
        s.len() >= 9 ==> InterfaceDescriptor::decoded(s).encoded() == s.take(9),
{
    if s.len() >= 9 {
        
        assert(InterfaceDescriptor::decoded(s).encoded() =~= s.take(9));
    }
}

/// Reading back the bytes of a endpoint descriptor gives it back (and parsing accepts them
/// when the length and type bytes are the standard ones); writing out what was read from at
/// least 7 bytes gives back those bytes.
pub proof fn lemma_endpoint_roundtrip(d: EndpointDescriptor, s: Seq<u8>)
    ensures
        EndpointDescriptor::decoded(d.encoded()) == d,
        d.length == 7 && d.descriptor_type == descriptor_types::ENDPOINT ==> EndpointDescriptor::parsed(d.encoded())
            == Ok::<EndpointDescriptor, UsbDriverError>(d),
        s.len() >= 7 ==> EndpointDescriptor::decoded(s).encoded() == s.take(7),
{
    if s.len() >= 7 {
        lemma_le16(d.max_packet_size, s[4], s[5]);
        assert(EndpointDescriptor::decoded(s).encoded() =~= s.take(7));
    }
}

/// The endpoint type that the transfer-type bits of an attributes byte encode.
pub open spec fn transfer_type_of(attributes: u8) -> EndpointType {
    let t = attributes & 0x03;
    if t == 0 {
        EndpointType::Control
    } else if t == 1 {
        EndpointType::Isochronous
    } else if t == 2 {
        EndpointType::Bulk
    } else {
        EndpointType::Interrupt
    }
}

impl EndpointDescriptor {
    /// Create from endpoint
    pub fn from_endpoint(endpoint: &Endpoint) -> (r: Self)
        ensures
            r == (EndpointDescriptor {
                length: 7,
                descriptor_type: descriptor_types::ENDPOINT,
                endpoint_address: endpoint@.address,
                attributes: crate::usb::endpoint::endpoint_type_code(endpoint@.endpoint_type),
                max_packet_size: endpoint@.max_packet_size,
                interval: endpoint@.interval,
            }),
    {
        let attributes = match endpoint.endpoint_type() {
            EndpointType::Control => Self::TRANSFER_TYPE_CONTROL,
            EndpointType::Isochronous => Self::TRANSFER_TYPE_ISOCHRONOUS,
            EndpointType::Bulk => Self::TRANSFER_TYPE_BULK,
            EndpointType::Interrupt => Self::TRANSFER_TYPE_INTERRUPT,
        };
        Self::new(endpoint.address(), attributes, endpoint.max_packet_size(), endpoint.interval())
    }

    /// Convert to endpoint
    ///
    /// The endpoint number is the low four bits of the address, the direction its bit 7, and
    /// the type the transfer-type bits of the attributes; every attributes byte names a type.
    pub fn to_endpoint(&self) -> (r: Result<Endpoint, UsbDriverError>)
        ensures
            r matches Ok(e) && e@ == (EndpointView {
                address: endpoint_address(self.endpoint_address & 0x0f, direction_of(self.endpoint_address)),
                endpoint_type: transfer_type_of(self.attributes),
                max_packet_size: self.max_packet_size,
                interval: self.interval,
                toggle: false,
                stalled: false,
            }),
    {
        let number = self.endpoint_address & 0x0F;
        let direction = if self.endpoint_address & 0x80 != 0 {
            EndpointDirection::In
        } else {
            EndpointDirection::Out
        };
        proof {
            crate::bits::lemma_and_bounds();
            assert(self.attributes & 0x03 <= 0x03);
        }
        let endpoint_type = match self.attributes & Self::TRANSFER_TYPE_MASK {
            0 => EndpointType::Control,
            1 => EndpointType::Isochronous,
            2 => EndpointType::Bulk,
            3 => EndpointType::Interrupt,
            _ => return Err(UsbDriverError::InvalidParameter),
        };
        Ok(Endpoint::new(number, direction, endpoint_type, self.max_packet_size, self.interval))
    }
}

/// An address whose bits 4..6 are clear is its low four bits plus its direction bit.
pub proof fn lemma_address_parts(a: u8)
    by (bit_vector)
    requires
        a & 0x70 == 0,
    ensures
        a & 0x80 != 0 ==> (a & 0x0f) | 0x80 == a,
        a & 0x80 == 0 ==> (a & 0x0f) | 0x00 == a,
{
}

/// An endpoint whose address has no bits set between the number and the direction bit comes
/// back from its descriptor with the same address, type, packet size and interval.
pub proof fn lemma_endpoint_descriptor_roundtrip(e: EndpointView)
    requires
        e.address & 0x70 == 0,
    ensures
        endpoint_address(e.address & 0x0f, direction_of(e.address)) == e.address,
        transfer_type_of(crate::usb::endpoint::endpoint_type_code(e.endpoint_type)) == e.endpoint_type,
{
    lemma_address_parts(e.address);
    assert(0u8 & 0x03u8 == 0u8 && 1u8 & 0x03u8 == 1u8 && 2u8 & 0x03u8 == 2u8 && 3u8 & 0x03u8 == 3u8) by (bit_vector);
}

/// `String::push` from std: appends one character to the string.
#[verifier::external_body]
fn string_push(s: &mut String, c: char)
    ensures
        final(s)@ == old(s)@.push(c),
{
    s.push(c);
}

/// A Unicode scalar value: not a surrogate and not above 0x10FFFF.
pub open spec fn is_scalar(v: u32) -> bool {
    v < 0xD800 || (0xE000 <= v && v <= 0x10FFFF)
}

/// `char::from_u32` from std: the character with that code, or none where the code is a
/// surrogate or above 0x10FFFF.
#[verifier::external_body]
fn char_from_u32(v: u32) -> (r: Option<char>)
    ensures
        r == (if is_scalar(v) {
            Some(v as char)
        } else {
            None
        }),
{
    char::from_u32(v)
}

/// The UTF-16 unit written for a character: its code, cut to 16 bits.
pub open spec fn utf16_unit(c: char) -> u16 {
    ((c as u32) % 0x10000) as u16
}

/// Each character as two little-endian bytes of its UTF-16 unit.
pub open spec fn utf16_bytes(cs: Seq<char>) -> Seq<u8>
    decreases cs.len(),
{
    if cs.len() == 0 {
        Seq::empty()
    } else {
        seq![lo(utf16_unit(cs[0])), hi(utf16_unit(cs[0]))] + utf16_bytes(cs.drop_first())
    }
}

/// The characters that the whole byte pairs of `data[2..length]` from pair `k` on decode to;
/// a pair that is no Unicode scalar value is dropped.
pub open spec fn decode_units(data: Seq<u8>, length: int, k: int) -> Seq<char>
    decreases length - k,
{
    if k < 0 || 2 * k + 3 >= length {
        Seq::empty()
    } else {
        let u = le16(data[2 * k + 2], data[2 * k + 3]);
        let rest = decode_units(data, length, k + 1);
        if is_scalar(u as u32) {
            seq![(u as u32) as char] + rest
        } else {
            rest
        }
    }
}

/// The bytes on which string parsing would cut a slice that starts past its end.
pub open spec fn string_slice_fails(data: Seq<u8>) -> bool {
    data.len() >= 2 && data[1] == descriptor_types::STRING && data.len() >= data[0] && data[0] < 2
}

/// String parsing accepts at least two bytes, of the string type, that hold the length byte's
/// count.
pub open spec fn string_accepted(data: Seq<u8>) -> bool {
    data.len() >= 2 && data[1] == descriptor_types::STRING && data.len() >= data[0]
}

/// The characters of a language-ID list: each ID as its low then its high byte.
pub open spec fn lang_chars(ids: Seq<u16>) -> Seq<char>
    decreases ids.len(),
{
    if ids.len() == 0 {
        Seq::empty()
    } else {
        seq![(lo(ids[0]) as u32) as char, (hi(ids[0]) as u32) as char] + lang_chars(ids.drop_first())
    }
}

/// String Descriptor
#[derive(Debug, Clone)]
pub struct StringDescriptor {
    pub length: u8,
    pub descriptor_type: u8,
    pub string: String,
}

impl StringDescriptor {
    /// The wire form: length, type, then every character as a little-endian UTF-16 unit.
    pub open spec fn encoded(&self) -> Seq<u8> {
        seq![self.length, self.descriptor_type] + utf16_bytes(self.string@)
    }

    /// The length byte counts what the descriptor encodes to: two bytes of header and one
    /// UTF-16 unit (two bytes) per character.
    pub fn new(string: String) -> (r: Self)
        requires
            string@.len() * 2 <= usize::MAX,
            string@.len() % 128 != 127,
        ensures
            r.length == 2 + (string@.len() * 2) % 256,
            r.descriptor_type == descriptor_types::STRING,
            r.string@ == string@,
    {
        let n = string.as_str().unicode_len();
        let doubled = ((n * 2) % 256) as u8;
        Self { length: 2 + doubled, descriptor_type: descriptor_types::STRING, string }
    }

    /// Create language ID descriptor (index 0)
    ///
    /// The IDs are kept as characters, two per ID: its low byte, then its high byte.
    pub fn language_ids(lang_ids: &[u16]) -> (r: Self)
        requires
            lang_ids@.len() * 2 <= usize::MAX,
            lang_ids@.len() % 128 != 127,
        ensures
            r.length == 2 + (lang_ids@.len() * 2) % 256,
            r.descriptor_type == descriptor_types::STRING,
            r.string@ == lang_chars(lang_ids@),
    {
        let n = lang_ids.len();
        let doubled = ((n * 2) % 256) as u8;
        let mut descriptor = Self {
            length: 2 + doubled,
            descriptor_type: descriptor_types::STRING,
            string: String::new(),
        };
        let mut i: usize = 0;
        proof {
            assert(lang_ids@.skip(0) =~= lang_ids@);
            assert(descriptor.string@ + lang_chars(lang_ids@) =~= lang_chars(lang_ids@));
        }
        while i < n
            invariant
                i <= n,
                n == lang_ids@.len(),
                descriptor.length == 2 + (n * 2) % 256,
                descriptor.descriptor_type == descriptor_types::STRING,
                descriptor.string@ + lang_chars(lang_ids@.skip(i as int)) == lang_chars(lang_ids@),
            decreases n - i,
        {
            let lang_id = lang_ids[i];
            let low = (lang_id % 256) as u8;
            let high = (lang_id / 256) as u8;
            proof {
                let rest = lang_ids@.skip(i as int);
                assert(rest.drop_first() =~= lang_ids@.skip(i + 1));
                assert(rest[0] == lang_id);
            }
            string_push(&mut descriptor.string, low as char);
            string_push(&mut descriptor.string, high as char);
            proof {
                let old_s = descriptor.string@.drop_last().drop_last();
                assert(descriptor.string@ + lang_chars(lang_ids@.skip(i + 1)) =~= old_s + lang_chars(
                    lang_ids@.skip(i as int),
                ));
            }
            i = i + 1;
        }
        proof {
            assert(lang_ids@.skip(n as int) =~= Seq::<u16>::empty());
            assert(descriptor.string@ + Seq::<char>::empty() =~= descriptor.string@);
        }
        descriptor
    }
}

/// Parse the bytes of a string descriptor.
fn parse_string_bytes(data: &[u8]) -> (r: Result<StringDescriptor, UsbDriverError>)
    requires
        !string_slice_fails(data@),
    ensures
        r is Ok <==> string_accepted(data@),
        r is Err ==> r == Err::<StringDescriptor, UsbDriverError>(UsbDriverError::InvalidParameter),
        r matches Ok(d) ==> d.length == data@[0] && d.descriptor_type == data@[1] && d.string@
            == decode_units(data@, data@[0] as int, 0),
{
    if data.len() < 2 {
        return Err(UsbDriverError::InvalidParameter);
    }
    let length = data[0];
    let descriptor_type = data[1];
    if descriptor_type != descriptor_types::STRING || data.len() < length as usize {
        return Err(UsbDriverError::InvalidParameter);
    }
    let end = length as usize;
    let mut string = String::new();
    let mut i: usize = 0;
    proof {
        assert(string@ + decode_units(data@, end as int, 0) =~= decode_units(data@, end as int, 0));
    }
    while 2 * i + 3 < end
        invariant
            end <= data@.len(),
            end <= 255,
            end >= 2,
            2 * i <= end,
            string@ + decode_units(data@, end as int, i as int) == decode_units(data@, end as int, 0),
        decreases end - 2 * i,
    {
        let unit = read_u16(data, 2 * i + 2);
        let ghost before = string@;
        let ghost rest = decode_units(data@, end as int, i + 1);
        match char_from_u32(unit as u32) {
            Some(ch) => {
                string_push(&mut string, ch);
                proof {
                    assert(string@ + rest =~= before + (seq![ch] + rest));
                }
            },
            None => {},
        }
        i = i + 1;
    }
    proof {
        assert(string@ + Seq::<char>::empty() =~= string@);
    }
    Ok(StringDescriptor { length, descriptor_type, string })
}

impl UsbDescriptor for StringDescriptor {
    open spec fn parsable(data: Seq<u8>) -> bool {
        !string_slice_fails(data)
    }

    fn descriptor_type(&self) -> (r: u8)
        ensures
            r == descriptor_types::STRING,
    {
        descriptor_types::STRING
    }

    fn length(&self) -> (r: u8)
        ensures
            r == self.length,
    {
        self.length
    }

    fn to_bytes(&self) -> (r: Vec<u8>)
        ensures
            r@ == self.encoded(),
    {
        let mut bytes: Vec<u8> = Vec::new();
        bytes.push(self.length);
        bytes.push(self.descriptor_type);
        let s = self.string.as_str();
        let n = s.unicode_len();
        let mut i: usize = 0;
        proof {
            assert(self.string@.skip(0) =~= self.string@);
        }
        while i < n
            invariant
                i <= n,
                n == self.string@.len(),
                s@ == self.string@,
                bytes@ + utf16_bytes(self.string@.skip(i as int)) == self.encoded(),
            decreases n - i,
        {
            let ch = s.get_char(i);
            let unit = ((ch as u32) % 0x10000) as u16;
            let ghost before = bytes@;
            proof {
                let rest = self.string@.skip(i as int);
                assert(rest.drop_first() =~= self.string@.skip(i + 1));
                assert(rest[0] == ch);
            }
            push_u16(&mut bytes, unit);
            proof {
                assert(bytes@ + utf16_bytes(self.string@.skip(i + 1)) =~= before + utf16_bytes(
                    self.string@.skip(i as int),
                ));
            }
            i = i + 1;
        }
        proof {
            assert(self.string@.skip(n as int) =~= Seq::<char>::empty());
            assert(bytes@ + Seq::<u8>::empty() =~= bytes@);
        }
        bytes
    }

    fn from_bytes(data: &[u8]) -> (r: Result<AnyDescriptor, UsbDriverError>)
        ensures
            r is Ok <==> string_accepted(data@),
            r is Err ==> r == Err::<AnyDescriptor, UsbDriverError>(UsbDriverError::InvalidParameter),
            r matches Ok(AnyDescriptor::String(d)) ==> d.length == data@[0] && d.descriptor_type
                == data@[1] && d.string@ == decode_units(data@, data@[0] as int, 0),
            r is Ok ==> r matches Ok(AnyDescriptor::String(_)),
    {
        match parse_string_bytes(data) {
            Ok(d) => Ok(AnyDescriptor::String(d)),
            Err(e) => Err(e),
        }
    }
}

impl AnyDescriptor {
    /// The wire form of the descriptor held.
    pub open spec fn encoded(&self) -> Seq<u8> {
        match self {
            AnyDescriptor::Device(d) => d.encoded(),
            AnyDescriptor::Configuration(d) => d.encoded(),
            AnyDescriptor::Interface(d) => d.encoded(),
            AnyDescriptor::Endpoint(d) => d.encoded(),
            AnyDescriptor::String(d) => d.encoded(),
        }
    }

    /// Get descriptor type
    pub fn descriptor_type(&self) -> (r: u8)
        ensures
            r == match self {
                AnyDescriptor::Device(_) => descriptor_types::DEVICE,
                AnyDescriptor::Configuration(_) => descriptor_types::CONFIGURATION,
                AnyDescriptor::Interface(_) => descriptor_types::INTERFACE,
                AnyDescriptor::Endpoint(_) => descriptor_types::ENDPOINT,
                AnyDescriptor::String(_) => descriptor_types::STRING,
            },
    {
        match self {
            AnyDescriptor::Device(d) => d.descriptor_type(),
            AnyDescriptor::Configuration(d) => d.descriptor_type(),
            AnyDescriptor::Interface(d) => d.descriptor_type(),
            AnyDescriptor::Endpoint(d) => d.descriptor_type(),
            AnyDescriptor::String(d) => d.descriptor_type(),
        }
    }

    /// Get descriptor length
    pub fn length(&self) -> (r: u8)
        ensures
            r == match self {
                AnyDescriptor::Device(_) => 18u8,
                AnyDescriptor::Configuration(_) => 9u8,
                AnyDescriptor::Interface(_) => 9u8,
                AnyDescriptor::Endpoint(_) => 7u8,
                AnyDescriptor::String(d) => d.length,
            },
    {
        match self {
            AnyDescriptor::Device(d) => d.length(),
            AnyDescriptor::Configuration(d) => d.length(),
            AnyDescriptor::Interface(d) => d.length(),
            AnyDescriptor::Endpoint(d) => d.length(),
            AnyDescriptor::String(d) => d.length(),
        }
    }

    /// Serialize descriptor to bytes
    pub fn to_bytes(&self) -> (r: Vec<u8>)
        ensures
            r@ == self.encoded(),
    {
        match self {
            AnyDescriptor::Device(d) => d.to_bytes(),
            AnyDescriptor::Configuration(d) => d.to_bytes(),
            AnyDescriptor::Interface(d) => d.to_bytes(),
            AnyDescriptor::Endpoint(d) => d.to_bytes(),
            AnyDescriptor::String(d) => d.to_bytes(),
        }
    }
}

/// A descriptor list with `pre` in front of what `r` holds, or the error of `r`.
pub open spec fn prepend(
    pre: Seq<AnyDescriptor>,
    r: Result<Seq<AnyDescriptor>, UsbDriverError>,
) -> Result<Seq<AnyDescriptor>, UsbDriverError> {
    match r {
        Ok(rest) => Ok(pre + rest),
        Err(e) => Err(e),
    }
}

/// How a descriptor of type `t` inside a configuration is read: interfaces and endpoints are
/// parsed (and their errors stop the walk); any other type is skipped.
pub open spec fn sub_descriptor(chunk: Seq<u8>, t: u8) -> Option<Result<AnyDescriptor, UsbDriverError>> {
    if t == descriptor_types::INTERFACE {
        Some(
            match InterfaceDescriptor::parsed(chunk) {
                Ok(d) => Ok(AnyDescriptor::Interface(d)),
                Err(e) => Err(e),
            },
        )
    } else if t == descriptor_types::ENDPOINT {
        Some(
            match EndpointDescriptor::parsed(chunk) {
                Ok(d) => Ok(AnyDescriptor::Endpoint(d)),
                Err(e) => Err(e),
            },
        )
    } else {
        None
    }
}

/// The descriptors that follow a configuration descriptor, read from `offset` on: each one
/// starts with its length and type; the walk stops at `total`, at the end of the data, at a
/// length of zero or at a descriptor that would run past the data.
pub open spec fn parse_walk(data: Seq<u8>, offset: int, total: int) -> Result<Seq<AnyDescriptor>, UsbDriverError>
    decreases data.len() - offset,
{
    if offset < 0 || offset >= data.len() || offset >= total || offset + 2 > data.len() {
        Ok(Seq::empty())
    } else {
        let dl = data[offset] as int;
        if dl == 0 || offset + dl > data.len() {
            Ok(Seq::empty())
        } else {
            let next = parse_walk(data, offset + dl, total);
            match sub_descriptor(data.subrange(offset, offset + dl), data[offset + 1]) {
                None => next,
                Some(Err(e)) => Err(e),
                Some(Ok(d)) => prepend(seq![d], next),
            }
        }
    }
}

/// Descriptor Parser for parsing configuration descriptor hierarchies
pub struct DescriptorParser;

impl DescriptorParser {
    /// Parse a configuration descriptor and all its subordinate descriptors
    pub fn parse_configuration(data: &[u8]) -> (r: Result<
        (ConfigurationDescriptor, Vec<AnyDescriptor>),
        UsbDriverError,
    >)
        ensures
            match ConfigurationDescriptor::parsed(data@) {
                Err(e) => r == Err::<(ConfigurationDescriptor, Vec<AnyDescriptor>), UsbDriverError>(e),
                Ok(c) => match parse_walk(data@, 9, c.total_length as int) {
                    Err(e) => r == Err::<(ConfigurationDescriptor, Vec<AnyDescriptor>), UsbDriverError>(e),
                    Ok(ds) => r matches Ok((c2, v)) && c2 == c && v@ == ds,
                },
            },
    {
        let config_desc = match ConfigurationDescriptor::parse(data) {
            Ok(c) => c,
            Err(e) => return Err(e),
        };
        let total = config_desc.total_length as usize;
        let mut descriptors: Vec<AnyDescriptor> = Vec::new();
        let mut offset: usize = 9;
        proof {
            assert(descriptors@ + Seq::<AnyDescriptor>::empty() =~= descriptors@);
            assert(forall|x: Seq<AnyDescriptor>| Seq::<AnyDescriptor>::empty() + x =~= x);
        }
        loop
            invariant
                9 <= offset,
                total == config_desc.total_length,
                config_desc == ConfigurationDescriptor::decoded(data@),
                ConfigurationDescriptor::parsed(data@) == Ok::<ConfigurationDescriptor, UsbDriverError>(config_desc),
                parse_walk(data@, 9, total as int) == prepend(
                    descriptors@,
                    parse_walk(data@, offset as int, total as int),
                ),
            ensures
                parse_walk(data@, offset as int, total as int) == Ok::<Seq<AnyDescriptor>, UsbDriverError>(
                    Seq::empty(),
                ),
            decreases data@.len() - offset,
        {
            if !(offset < data.len() && offset < total) {
                break;
            }
            if data.len() - offset < 2 {
                break;
            }
            let desc_len = data[offset] as usize;
            let desc_type = data[offset + 1];
            if desc_len == 0 || desc_len > data.len() - offset {
                break;
            }
            let ghost next = parse_walk(data@, offset + desc_len, total as int);
            let desc_data = vstd::slice::slice_subrange(data, offset, offset + desc_len);
            if desc_type == descriptor_types::INTERFACE {
                match InterfaceDescriptor::from_bytes(desc_data) {
                    Ok(d) => {
                        proof {
                            match next {
                                Ok(rest) => {
                                    assert(descriptors@ + (seq![d] + rest) =~= descriptors@.push(d) + rest);
                                },
                                Err(_) => {},
                            }
                        }
                        descriptors.push(d);
                    },
                    Err(e) => return Err(e),
                }
            } else if desc_type == descriptor_types::ENDPOINT {
                match EndpointDescriptor::from_bytes(desc_data) {
                    Ok(d) => {
                        proof {
                            match next {
                                Ok(rest) => {
                                    assert(descriptors@ + (seq![d] + rest) =~= descriptors@.push(d) + rest);
                                },
                                Err(_) => {},
                            }
                        }
                        descriptors.push(d);
                    },
                    Err(e) => return Err(e),
                }
            }
            offset = offset + desc_len;
        }
        proof {
            assert(descriptors@ + Seq::<AnyDescriptor>::empty() =~= descriptors@);
        }
        Ok((config_desc, descriptors))
    }

    /// Parse device descriptor
    pub fn parse_device(data: &[u8]) -> (r: Result<DeviceDescriptor, UsbDriverError>)
        ensures
            r == DeviceDescriptor::parsed(data@),
    {
        DeviceDescriptor::parse(data)
    }

    /// Parse string descriptor
    ///
    /// The length byte bounds the string; whole UTF-16 units after the two header bytes become
    /// characters, and units that are surrogates are dropped.
    pub fn parse_string(data: &[u8]) -> (r: Result<StringDescriptor, UsbDriverError>)
        requires
            !string_slice_fails(data@),
        ensures
            r is Ok <==> string_accepted(data@),
            r is Err ==> r == Err::<StringDescriptor, UsbDriverError>(UsbDriverError::InvalidParameter),
            r matches Ok(d) ==> d.length == data@[0] && d.descriptor_type == data@[1] && d.string@
                == decode_units(data@, data@[0] as int, 0),
    {
        parse_string_bytes(data)
    }
}

/// The bytes written for characters: two per character, its unit's low then high byte.
pub proof fn lemma_utf16_bytes(cs: Seq<char>)
    ensures
        utf16_bytes(cs).len() == 2 * cs.len(),
        forall|k: int|
            0 <= k < cs.len() ==> utf16_bytes(cs)[2 * k] == lo(utf16_unit(#[trigger] cs[k]))
                && utf16_bytes(cs)[2 * k + 1] == hi(utf16_unit(cs[k])),
    decreases cs.len(),
{
    if cs.len() > 0 {
        let t = cs.drop_first();
        lemma_utf16_bytes(t);
        assert forall|k: int| 0 <= k < cs.len() implies utf16_bytes(cs)[2 * k] == lo(
            utf16_unit(#[trigger] cs[k]),
        ) && utf16_bytes(cs)[2 * k + 1] == hi(utf16_unit(cs[k])) by {
            if k > 0 {
                assert(cs[k] == t[k - 1]);
            }
        }
    }
}

/// Decoding the bytes written for characters below the surrogates (or between them and
/// 0xFFFF) gives back those characters, from any of them on.
pub proof fn lemma_decode_encoded(d: StringDescriptor, k: int)
    requires
        d.length == 2 + 2 * d.string@.len(),
        0 <= k <= d.string@.len(),
        forall|i: int|
            0 <= i < d.string@.len() ==> (#[trigger] d.string@[i] as u32) < 0xD800 || (0xE000
                <= (d.string@[i] as u32) && (d.string@[i] as u32) <= 0xFFFF),
    ensures
        decode_units(d.encoded(), d.length as int, k) == d.string@.skip(k),
    decreases d.string@.len() - k,
{
    let cs = d.string@;
    let b = d.encoded();
    lemma_utf16_bytes(cs);
    if k == cs.len() {
        assert(cs.skip(k) =~= Seq::<char>::empty());
    } else {
        lemma_decode_encoded(d, k + 1);
        let c = cs[k];
        assert(b[2 * k + 2] == utf16_bytes(cs)[2 * k]);
        assert(b[2 * k + 3] == utf16_bytes(cs)[2 * k + 1]);
        assert(le16(lo(utf16_unit(c)), hi(utf16_unit(c))) == utf16_unit(c));
        assert(utf16_unit(c) as u32 == c as u32);
        let u = le16(b[2 * k + 2], b[2 * k + 3]);
        assert(u == utf16_unit(c));
        assert(is_scalar(u as u32));
        vstd::utf8::char_u32_cast(c, u as u32);
        assert(2 * k + 3 < d.length);
        assert(cs.skip(k) =~= seq![c] + cs.skip(k + 1));
    }
}

/// A string descriptor whose length byte counts its characters, of the type byte for strings,
/// with every character a single UTF-16 unit that is no surrogate, parses back from its bytes
/// to the same length, type and characters.
pub proof fn lemma_string_roundtrip(d: StringDescriptor)
    requires
        d.length == 2 + 2 * d.string@.len(),
        d.descriptor_type == descriptor_types::STRING,
        forall|i: int|
            0 <= i < d.string@.len() ==> (#[trigger] d.string@[i] as u32) < 0xD800 || (0xE000
                <= (d.string@[i] as u32) && (d.string@[i] as u32) <= 0xFFFF),
    ensures
        !string_slice_fails(d.encoded()),
        string_accepted(d.encoded()),
        d.encoded()[0] == d.length,
        d.encoded()[1] == d.descriptor_type,
        decode_units(d.encoded(), d.encoded()[0] as int, 0) == d.string@,
{
    lemma_utf16_bytes(d.string@);
    lemma_decode_encoded(d, 0);
    assert(d.string@.skip(0) =~= d.string@);
}

} // verus!
