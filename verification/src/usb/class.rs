//! USB class drivers: class types, class events, the drivers for the common classes and a
//! registry that finds the driver for a device.
use vstd::prelude::*;

use crate::usb::descriptor::class_codes;
use crate::usb::device::{any_interface_of_class, class_code, DeviceClass, UsbDevice};
use crate::usb::error::UsbDriverError;

verus! {

/// USB Class Type
#[derive(Debug, Clone, Copy, PartialEq, Eq, Structural)]
pub enum ClassType {
    Audio,
    CommAndCdcControl,
    Hid,
    Physical,
    Image,
    Printer,
    MassStorage,
    Hub,
    CdcData,
    SmartCard,
    ContentSecurity,
    Video,
    PersonalHealthcare,
    AudioVideo,
    Billboard,
    Diagnostic,
    Wireless,
    Miscellaneous,
    ApplicationSpecific,
    VendorSpecific,
}

/// The class type of a class code; a code of no listed class is vendor specific.
pub open spec fn class_type_of(code: u8) -> ClassType {
    if code == class_codes::AUDIO {
        ClassType::Audio
    } else if code == class_codes::COMM_AND_CDC_CONTROL {
        ClassType::CommAndCdcControl
    } else if code == class_codes::HID {
        ClassType::Hid
    } else if code == class_codes::PHYSICAL {
        ClassType::Physical
    } else if code == class_codes::IMAGE {
        ClassType::Image
    } else if code == class_codes::PRINTER {
        ClassType::Printer
    } else if code == class_codes::MASS_STORAGE {
        ClassType::MassStorage
    } else if code == class_codes::HUB {
        ClassType::Hub
    } else if code == class_codes::CDC_DATA {
        ClassType::CdcData
    } else if code == class_codes::SMART_CARD {
        ClassType::SmartCard
    } else if code == class_codes::CONTENT_SECURITY {
        ClassType::ContentSecurity
    } else if code == class_codes::VIDEO {
        ClassType::Video
    } else if code == class_codes::PERSONAL_HEALTHCARE {
        ClassType::PersonalHealthcare
    } else if code == class_codes::AUDIO_VIDEO {
        ClassType::AudioVideo
    } else if code == class_codes::BILLBOARD {
        ClassType::Billboard
    } else if code == class_codes::DIAGNOSTIC {
        ClassType::Diagnostic
    } else if code == class_codes::WIRELESS {
        ClassType::Wireless
    } else if code == class_codes::MISCELLANEOUS {
        ClassType::Miscellaneous
    } else if code == class_codes::APPLICATION_SPECIFIC {
        ClassType::ApplicationSpecific
    } else {
        ClassType::VendorSpecific
    }
}

/// The class code of a class type.
pub open spec fn class_type_code(t: ClassType) -> u8 {
    match t {
        ClassType::Audio => class_codes::AUDIO,
        ClassType::CommAndCdcControl => class_codes::COMM_AND_CDC_CONTROL,
        ClassType::Hid => class_codes::HID,
        ClassType::Physical => class_codes::PHYSICAL,
        ClassType::Image => class_codes::IMAGE,
        ClassType::Printer => class_codes::PRINTER,
        ClassType::MassStorage => class_codes::MASS_STORAGE,
        ClassType::Hub => class_codes::HUB,
        ClassType::CdcData => class_codes::CDC_DATA,
        ClassType::SmartCard => class_codes::SMART_CARD,
        ClassType::ContentSecurity => class_codes::CONTENT_SECURITY,
        ClassType::Video => class_codes::VIDEO,
        ClassType::PersonalHealthcare => class_codes::PERSONAL_HEALTHCARE,
        ClassType::AudioVideo => class_codes::AUDIO_VIDEO,
        ClassType::Billboard => class_codes::BILLBOARD,
        ClassType::Diagnostic => class_codes::DIAGNOSTIC,
        ClassType::Wireless => class_codes::WIRELESS,
        ClassType::Miscellaneous => class_codes::MISCELLANEOUS,
        ClassType::ApplicationSpecific => class_codes::APPLICATION_SPECIFIC,
        ClassType::VendorSpecific => class_codes::VENDOR_SPECIFIC,
    }
}

impl From<u8> for ClassType {
    fn from(class_code: u8) -> (r: Self) {
        match class_code {
            class_codes::AUDIO => ClassType::Audio,
            class_codes::COMM_AND_CDC_CONTROL => ClassType::CommAndCdcControl,
            class_codes::HID => ClassType::Hid,
            class_codes::PHYSICAL => ClassType::Physical,
            class_codes::IMAGE => ClassType::Image,
            class_codes::PRINTER => ClassType::Printer,
            class_codes::MASS_STORAGE => ClassType::MassStorage,
            class_codes::HUB => ClassType::Hub,
            class_codes::CDC_DATA => ClassType::CdcData,
            class_codes::SMART_CARD => ClassType::SmartCard,
            class_codes::CONTENT_SECURITY => ClassType::ContentSecurity,
            class_codes::VIDEO => ClassType::Video,
            class_codes::PERSONAL_HEALTHCARE => ClassType::PersonalHealthcare,
            class_codes::AUDIO_VIDEO => ClassType::AudioVideo,
            class_codes::BILLBOARD => ClassType::Billboard,
            class_codes::DIAGNOSTIC => ClassType::Diagnostic,
            class_codes::WIRELESS => ClassType::Wireless,
            class_codes::MISCELLANEOUS => ClassType::Miscellaneous,
            class_codes::APPLICATION_SPECIFIC => ClassType::ApplicationSpecific,
            _ => ClassType::VendorSpecific,
        }
    }
}

impl vstd::std_specs::convert::FromSpecImpl<u8> for ClassType {
    open spec fn obeys_from_spec() -> bool {
        true
    }

    open spec fn from_spec(class_code: u8) -> ClassType {
        class_type_of(class_code)
    }
}

impl From<ClassType> for u8 {
    fn from(t: ClassType) -> (r: u8) {
        match t {
            ClassType::Audio => class_codes::AUDIO,
            ClassType::CommAndCdcControl => class_codes::COMM_AND_CDC_CONTROL,
            ClassType::Hid => class_codes::HID,
            ClassType::Physical => class_codes::PHYSICAL,
            ClassType::Image => class_codes::IMAGE,
            ClassType::Printer => class_codes::PRINTER,
            ClassType::MassStorage => class_codes::MASS_STORAGE,
            ClassType::Hub => class_codes::HUB,
            ClassType::CdcData => class_codes::CDC_DATA,
            ClassType::SmartCard => class_codes::SMART_CARD,
            ClassType::ContentSecurity => class_codes::CONTENT_SECURITY,
            ClassType::Video => class_codes::VIDEO,
            ClassType::PersonalHealthcare => class_codes::PERSONAL_HEALTHCARE,
            ClassType::AudioVideo => class_codes::AUDIO_VIDEO,
            ClassType::Billboard => class_codes::BILLBOARD,
            ClassType::Diagnostic => class_codes::DIAGNOSTIC,
            ClassType::Wireless => class_codes::WIRELESS,
            ClassType::Miscellaneous => class_codes::MISCELLANEOUS,
            ClassType::ApplicationSpecific => class_codes::APPLICATION_SPECIFIC,
            ClassType::VendorSpecific => class_codes::VENDOR_SPECIFIC,
        }
    }
}

impl vstd::std_specs::convert::FromSpecImpl<ClassType> for u8 {
    open spec fn obeys_from_spec() -> bool {
        true
    }

    open spec fn from_spec(t: ClassType) -> u8 {
        class_type_code(t)
    }
}

/// A class type turned into its code and back is the same class type; a code of a listed
/// class turned into its class type and back is the same code.
pub proof fn lemma_class_type_roundtrip(t: ClassType, code: u8)
    ensures
        class_type_of(class_type_code(t)) == t,
        class_type_of(code) != ClassType::VendorSpecific ==> class_type_code(class_type_of(code)) == code,
{
}

/// USB Class Events
#[derive(Debug, Clone, Copy, PartialEq, Eq, Structural)]
pub enum ClassEvent {
    /// Device configuration changed
    ConfigurationChanged { config: u8 },
    /// Interface alternate setting changed
    AlternateSettingChanged { interface: u8, alternate: u8 },
    /// Endpoint error occurred
    EndpointError { endpoint: u8, error: UsbDriverError },
    /// Transfer completed
    TransferCompleted { endpoint: u8, bytes: usize },
    /// Device suspended
    Suspended,
    /// Device resumed
    Resumed,
    /// Device reset
    Reset,
}

/// A device belongs to a class when its own class is that class or one of its interfaces
/// has the class's code.
pub open spec fn device_supports(device: UsbDevice, class: DeviceClass) -> bool {
    device@.device_class == class || any_interface_of_class(device.configs(), class_code(class))
}

/// USB Class Driver trait
pub trait UsbClassDriver {
    /// The class type the driver is for.
    spec fn spec_class_type(&self) -> ClassType;

    /// Whether the driver takes the device.
    spec fn spec_supports(&self, device: UsbDevice) -> bool;

    /// The addresses of the devices attached, oldest first.
    spec fn spec_attached(&self) -> Seq<u8>;

    /// The driver's name.
    spec fn spec_name(&self) -> Seq<char>;

    /// Get the class type this driver supports
    fn class_type(&self) -> (r: ClassType)
        ensures
            r == self.spec_class_type(),
    ;

    /// Check if this driver supports the given device
    fn supports_device(&self, device: &UsbDevice) -> (r: bool)
        ensures
            r == self.spec_supports(*device),
    ;

    /// Attach to a device: its address is recorded
    fn attach_device(&mut self, device_address: u8) -> (r: Result<(), UsbDriverError>)
        ensures
            r is Ok,
            final(self).spec_attached() == old(self).spec_attached().push(device_address),
    ;

    /// Detach from a device: every record of its address goes
    fn detach_device(&mut self, device_address: u8) -> (r: Result<(), UsbDriverError>)
        ensures
            r is Ok,
            final(self).spec_attached() == old(self).spec_attached().filter(other_than(device_address)),
    ;

    /// Handle device events
    fn handle_event(&self, device_address: u8, event: ClassEvent) -> (r: Result<(), UsbDriverError>)
        ensures
            r is Ok,
    ;

    /// Get driver name
    fn name(&self) -> (r: &str)
        ensures
            r@ == self.spec_name(),
    ;

    /// Get driver version
    fn version(&self) -> (r: &str)
        ensures
            r@ == "1.0.0"@,
    {
        "1.0.0"
    }
}

/// Whether an address is another than the one given.
pub open spec fn other_than(device_address: u8) -> spec_fn(u8) -> bool {
    |a: u8| a != device_address
}

/// Remove every occurrence of an address.
fn remove_address(v: &mut Vec<u8>, device_address: u8)
    ensures
        final(v)@ == old(v)@.filter(other_than(device_address)),
{
    let mut kept: Vec<u8> = Vec::new();
    let mut i: usize = 0;
    while i < v.len()
        invariant
            i <= v@.len(),
            v@ == old(v)@,
            kept@ == v@.take(i as int).filter(other_than(device_address)),
        decreases v@.len() - i,
    {
        proof {
            assert(v@.take(i + 1).drop_last() =~= v@.take(i as int));
            reveal(Seq::filter);
        }
        if v[i] != device_address {
            kept.push(v[i]);
        }
        i = i + 1;
    }
    proof {
        assert(v@.take(v@.len() as int) =~= v@);
    }
    *v = kept;
}

/// Mass Storage Class Driver
#[derive(Debug)]
pub struct MassStorageDriver {
    name: String,
    attached_devices: Vec<u8>,
}

impl MassStorageDriver {
    /// Create a new mass storage driver
    pub fn new() -> (r: Self)
        ensures
            r.spec_attached() == Seq::<u8>::empty(),
            r.spec_name() == "USB Mass Storage Driver"@,
    {
        Self { name: "USB Mass Storage Driver".to_owned(), attached_devices: Vec::new() }
    }

    /// Read from storage device: the whole buffer is taken as read
    pub fn read_blocks(&self, device_address: u8, start_block: u64, block_count: u32, buffer: &mut [u8]) -> (r:
        Result<usize, UsbDriverError>)
        ensures
            r == Ok::<usize, UsbDriverError>(old(buffer)@.len() as usize),
            final(buffer)@ == old(buffer)@,
    {
        Ok(buffer.len())
    }

    /// Write to storage device: the whole buffer is taken as written
    pub fn write_blocks(&self, device_address: u8, start_block: u64, block_count: u32, buffer: &[u8]) -> (r:
        Result<usize, UsbDriverError>)
        ensures
            r == Ok::<usize, UsbDriverError>(buffer@.len() as usize),
    {
        Ok(buffer.len())
    }
}

impl UsbClassDriver for MassStorageDriver {
    open spec fn spec_class_type(&self) -> ClassType {
        ClassType::MassStorage
    }

    open spec fn spec_supports(&self, device: UsbDevice) -> bool {
        device_supports(device, DeviceClass::MassStorage)
    }

    closed spec fn spec_attached(&self) -> Seq<u8> {
        self.attached_devices@
    }

    closed spec fn spec_name(&self) -> Seq<char> {
        self.name@
    }

    fn class_type(&self) -> (r: ClassType) {
        ClassType::MassStorage
    }

    fn supports_device(&self, device: &UsbDevice) -> (r: bool) {
        device.device_class() == DeviceClass::MassStorage || device.supports_class(DeviceClass::MassStorage)
    }

    fn attach_device(&mut self, device_address: u8) -> (r: Result<(), UsbDriverError>) {
        self.attached_devices.push(device_address);
        Ok(())
    }

    fn detach_device(&mut self, device_address: u8) -> (r: Result<(), UsbDriverError>) {
        remove_address(&mut self.attached_devices, device_address);
        Ok(())
    }

    fn handle_event(&self, device_address: u8, event: ClassEvent) -> (r: Result<(), UsbDriverError>) {
        Ok(())
    }

    fn name(&self) -> &str {
        self.name.as_str()
    }
}

/// Human Interface Device (HID) Driver
#[derive(Debug)]
pub struct HidDriver {
    name: String,
    attached_devices: Vec<u8>,
}

impl HidDriver {
    /// Create a new HID driver
    pub fn new() -> (r: Self)
        ensures
            r.spec_attached() == Seq::<u8>::empty(),
            r.spec_name() == "USB HID Driver"@,
    {
        Self { name: "USB HID Driver".to_owned(), attached_devices: Vec::new() }
    }

    /// Get HID report: no bytes are read
    pub fn get_report(&self, device_address: u8, report_type: u8, report_id: u8, buffer: &mut [u8]) -> (r:
        Result<usize, UsbDriverError>)
        ensures
            r == Ok::<usize, UsbDriverError>(0),
            final(buffer)@ == old(buffer)@,
    {
        Ok(0)
    }

    /// Set HID report
    pub fn set_report(&self, device_address: u8, report_type: u8, report_id: u8, buffer: &[u8]) -> (r: Result<
        (),
        UsbDriverError,
    >)
        ensures
            r is Ok,
    {
        Ok(())
    }
}

impl UsbClassDriver for HidDriver {
    open spec fn spec_class_type(&self) -> ClassType {
        ClassType::Hid
    }

    open spec fn spec_supports(&self, device: UsbDevice) -> bool {
        device_supports(device, DeviceClass::Hid)
    }

    closed spec fn spec_attached(&self) -> Seq<u8> {
        self.attached_devices@
    }

    closed spec fn spec_name(&self) -> Seq<char> {
        self.name@
    }

    fn class_type(&self) -> (r: ClassType) {
        ClassType::Hid
    }

    fn supports_device(&self, device: &UsbDevice) -> (r: bool) {
        device.device_class() == DeviceClass::Hid || device.supports_class(DeviceClass::Hid)
    }

    fn attach_device(&mut self, device_address: u8) -> (r: Result<(), UsbDriverError>) {
        self.attached_devices.push(device_address);
        Ok(())
    }

    fn detach_device(&mut self, device_address: u8) -> (r: Result<(), UsbDriverError>) {
        remove_address(&mut self.attached_devices, device_address);
        Ok(())
    }

    fn handle_event(&self, device_address: u8, event: ClassEvent) -> (r: Result<(), UsbDriverError>) {
        Ok(())
    }

    fn name(&self) -> &str {
        self.name.as_str()
    }
}

/// Communications Device Class (CDC) Driver
#[derive(Debug)]
pub struct CdcDriver {
    name: String,
    attached_devices: Vec<u8>,
}

impl CdcDriver {
    /// Create a new CDC driver
    pub fn new() -> (r: Self)
        ensures
            r.spec_attached() == Seq::<u8>::empty(),
            r.spec_name() == "USB CDC Driver"@,
    {
        Self { name: "USB CDC Driver".to_owned(), attached_devices: Vec::new() }
    }

    /// Send data over CDC interface: all of it is taken as sent
    pub fn send_data(&self, device_address: u8, data: &[u8]) -> (r: Result<usize, UsbDriverError>)
        ensures
            r == Ok::<usize, UsbDriverError>(data@.len() as usize),
    {
        Ok(data.len())
    }

    /// Receive data from CDC interface: nothing is received
    pub fn receive_data(&self, device_address: u8, buffer: &mut [u8]) -> (r: Result<usize, UsbDriverError>)
        ensures
            r == Ok::<usize, UsbDriverError>(0),
            final(buffer)@ == old(buffer)@,
    {
        Ok(0)
    }

    /// Set line coding
    pub fn set_line_coding(
        &self,
        device_address: u8,
        baud_rate: u32,
        data_bits: u8,
        parity: u8,
        stop_bits: u8,
    ) -> (r: Result<(), UsbDriverError>)
        ensures
            r is Ok,
    {
        Ok(())
    }
}

impl UsbClassDriver for CdcDriver {
    open spec fn spec_class_type(&self) -> ClassType {
        ClassType::CommAndCdcControl
    }

    open spec fn spec_supports(&self, device: UsbDevice) -> bool {
        device_supports(device, DeviceClass::CommAndCdcControl)
    }

    closed spec fn spec_attached(&self) -> Seq<u8> {
        self.attached_devices@
    }

    closed spec fn spec_name(&self) -> Seq<char> {
        self.name@
    }

    fn class_type(&self) -> (r: ClassType) {
        ClassType::CommAndCdcControl
    }

    fn supports_device(&self, device: &UsbDevice) -> (r: bool) {
        device.device_class() == DeviceClass::CommAndCdcControl || device.supports_class(
            DeviceClass::CommAndCdcControl,
        )
    }

    fn attach_device(&mut self, device_address: u8) -> (r: Result<(), UsbDriverError>) {
        self.attached_devices.push(device_address);
        Ok(())
    }

    fn detach_device(&mut self, device_address: u8) -> (r: Result<(), UsbDriverError>) {
        remove_address(&mut self.attached_devices, device_address);
        Ok(())
    }

    fn handle_event(&self, device_address: u8, event: ClassEvent) -> (r: Result<(), UsbDriverError>) {
        Ok(())
    }

    fn name(&self) -> &str {
        self.name.as_str()
    }
}

/// Hub Class Driver
#[derive(Debug)]
pub struct HubDriver {
    name: String,
    attached_devices: Vec<u8>,
}

impl HubDriver {
    /// Create a new hub driver
    pub fn new() -> (r: Self)
        ensures
            r.spec_attached() == Seq::<u8>::empty(),
            r.spec_name() == "USB Hub Driver"@,
    {
        Self { name: "USB Hub Driver".to_owned(), attached_devices: Vec::new() }
    }
}

impl UsbClassDriver for HubDriver {
    open spec fn spec_class_type(&self) -> ClassType {
        ClassType::Hub
    }

    open spec fn spec_supports(&self, device: UsbDevice) -> bool {
        device_supports(device, DeviceClass::Hub)
    }

    closed spec fn spec_attached(&self) -> Seq<u8> {
        self.attached_devices@
    }

    closed spec fn spec_name(&self) -> Seq<char> {
        self.name@
    }

    fn class_type(&self) -> (r: ClassType) {
        ClassType::Hub
    }

    fn supports_device(&self, device: &UsbDevice) -> (r: bool) {
        device.device_class() == DeviceClass::Hub || device.supports_class(DeviceClass::Hub)
    }

    fn attach_device(&mut self, device_address: u8) -> (r: Result<(), UsbDriverError>) {
        self.attached_devices.push(device_address);
        Ok(())
    }

    fn detach_device(&mut self, device_address: u8) -> (r: Result<(), UsbDriverError>) {
        remove_address(&mut self.attached_devices, device_address);
        Ok(())
    }

    fn handle_event(&self, device_address: u8, event: ClassEvent) -> (r: Result<(), UsbDriverError>) {
        Ok(())
    }

    fn name(&self) -> &str {
        self.name.as_str()
    }
}

/// Generic/Vendor-specific Class Driver
#[derive(Debug)]
pub struct GenericDriver {
    name: String,
    class_type: ClassType,
    attached_devices: Vec<u8>,
}

impl GenericDriver {
    /// Create a new generic driver
    pub fn new(name: String, class_type: ClassType) -> (r: Self)
        ensures
            r.spec_class_type() == class_type,
            r.spec_attached() == Seq::<u8>::empty(),
            r.spec_name() == name@,
    {
        Self { name, class_type, attached_devices: Vec::new() }
    }
}

impl UsbClassDriver for GenericDriver {
    closed spec fn spec_class_type(&self) -> ClassType {
        self.class_type
    }

    /// A generic driver takes every device: any device supports its own class.
    open spec fn spec_supports(&self, device: UsbDevice) -> bool {
        true
    }

    closed spec fn spec_attached(&self) -> Seq<u8> {
        self.attached_devices@
    }

    closed spec fn spec_name(&self) -> Seq<char> {
        self.name@
    }

    fn class_type(&self) -> (r: ClassType) {
        self.class_type
    }

    fn supports_device(&self, device: &UsbDevice) -> (r: bool) {
        let device_class: u8 = u8::from(self.class_type);
        device.device_class().code() == device_class || device.supports_class(device.device_class())
    }

    fn attach_device(&mut self, device_address: u8) -> (r: Result<(), UsbDriverError>) {
        self.attached_devices.push(device_address);
        Ok(())
    }

    fn detach_device(&mut self, device_address: u8) -> (r: Result<(), UsbDriverError>) {
        remove_address(&mut self.attached_devices, device_address);
        Ok(())
    }

    fn handle_event(&self, device_address: u8, event: ClassEvent) -> (r: Result<(), UsbDriverError>) {
        Ok(())
    }

    fn name(&self) -> &str {
        self.name.as_str()
    }
}

/// A driver of one of the kinds the library provides.
#[derive(Debug)]
pub enum ClassDriver {
    MassStorage(MassStorageDriver),
    Hid(HidDriver),
    Cdc(CdcDriver),
    Hub(HubDriver),
    Generic(GenericDriver),
}

impl UsbClassDriver for ClassDriver {
    open spec fn spec_class_type(&self) -> ClassType {
        match self {
            ClassDriver::MassStorage(d) => d.spec_class_type(),
            ClassDriver::Hid(d) => d.spec_class_type(),
            ClassDriver::Cdc(d) => d.spec_class_type(),
            ClassDriver::Hub(d) => d.spec_class_type(),
            ClassDriver::Generic(d) => d.spec_class_type(),
        }
    }

    open spec fn spec_supports(&self, device: UsbDevice) -> bool {
        match self {
            ClassDriver::MassStorage(d) => d.spec_supports(device),
            ClassDriver::Hid(d) => d.spec_supports(device),
            ClassDriver::Cdc(d) => d.spec_supports(device),
            ClassDriver::Hub(d) => d.spec_supports(device),
            ClassDriver::Generic(d) => d.spec_supports(device),
        }
    }

    open spec fn spec_attached(&self) -> Seq<u8> {
        match self {
            ClassDriver::MassStorage(d) => d.spec_attached(),
            ClassDriver::Hid(d) => d.spec_attached(),
            ClassDriver::Cdc(d) => d.spec_attached(),
            ClassDriver::Hub(d) => d.spec_attached(),
            ClassDriver::Generic(d) => d.spec_attached(),
        }
    }

    open spec fn spec_name(&self) -> Seq<char> {
        match self {
            ClassDriver::MassStorage(d) => d.spec_name(),
            ClassDriver::Hid(d) => d.spec_name(),
            ClassDriver::Cdc(d) => d.spec_name(),
            ClassDriver::Hub(d) => d.spec_name(),
            ClassDriver::Generic(d) => d.spec_name(),
        }
    }

    fn class_type(&self) -> (r: ClassType) {
        match self {
            ClassDriver::MassStorage(d) => d.class_type(),
            ClassDriver::Hid(d) => d.class_type(),
            ClassDriver::Cdc(d) => d.class_type(),
            ClassDriver::Hub(d) => d.class_type(),
            ClassDriver::Generic(d) => d.class_type(),
        }
    }

    fn supports_device(&self, device: &UsbDevice) -> (r: bool) {
        match self {
            ClassDriver::MassStorage(d) => d.supports_device(device),
            ClassDriver::Hid(d) => d.supports_device(device),
            ClassDriver::Cdc(d) => d.supports_device(device),
            ClassDriver::Hub(d) => d.supports_device(device),
            ClassDriver::Generic(d) => d.supports_device(device),
        }
    }

    fn attach_device(&mut self, device_address: u8) -> (r: Result<(), UsbDriverError>) {
        match self {
            ClassDriver::MassStorage(d) => d.attach_device(device_address),
            ClassDriver::Hid(d) => d.attach_device(device_address),
            ClassDriver::Cdc(d) => d.attach_device(device_address),
            ClassDriver::Hub(d) => d.attach_device(device_address),
            ClassDriver::Generic(d) => d.attach_device(device_address),
        }
    }

    fn detach_device(&mut self, device_address: u8) -> (r: Result<(), UsbDriverError>) {
        match self {
            ClassDriver::MassStorage(d) => d.detach_device(device_address),
            ClassDriver::Hid(d) => d.detach_device(device_address),
            ClassDriver::Cdc(d) => d.detach_device(device_address),
            ClassDriver::Hub(d) => d.detach_device(device_address),
            ClassDriver::Generic(d) => d.detach_device(device_address),
        }
    }

    fn handle_event(&self, device_address: u8, event: ClassEvent) -> (r: Result<(), UsbDriverError>) {
        Ok(())
    }

    fn name(&self) -> &str {
        match self {
            ClassDriver::MassStorage(d) => d.name(),
            ClassDriver::Hid(d) => d.name(),
            ClassDriver::Cdc(d) => d.name(),
            ClassDriver::Hub(d) => d.name(),
            ClassDriver::Generic(d) => d.name(),
        }
    }
}

/// Class Driver Registry
pub struct ClassDriverRegistry {
    drivers: Vec<ClassDriver>,
}

impl View for ClassDriverRegistry {
    type V = Seq<ClassDriver>;

    closed spec fn view(&self) -> Seq<ClassDriver> {
        self.drivers@
    }
}

impl ClassDriverRegistry {
    /// Create a new registry
    pub fn new() -> (r: Self)
        ensures
            r@ == Seq::<ClassDriver>::empty(),
    {
        Self { drivers: Vec::new() }
    }

    /// Register a class driver: it is asked after those registered before it
    pub fn register(&mut self, driver: ClassDriver)
        ensures
            final(self)@ == old(self)@.push(driver),
    {
        self.drivers.push(driver);
    }

    /// Find a driver for a device: the first registered driver that supports it
    pub fn find_driver(&self, device: &UsbDevice) -> (r: Option<&ClassDriver>)
        ensures
            r is None <==> forall|i: int| 0 <= i < self@.len() ==> !(#[trigger] self@[i]).spec_supports(*device),
            r matches Some(d) ==> exists|i: int|
                0 <= i < self@.len() && *d == #[trigger] self@[i] && d.spec_supports(*device) && forall|j: int|
                    0 <= j < i ==> !(#[trigger] self@[j]).spec_supports(*device),
    {
        let mut i: usize = 0;
        while i < self.drivers.len()
            invariant
                i <= self.drivers@.len(),
                forall|j: int| 0 <= j < i ==> !(#[trigger] self.drivers@[j]).spec_supports(*device),
            decreases self.drivers@.len() - i,
        {
            if self.drivers[i].supports_device(device) {
                proof {
                    assert(self@[i as int] == self.drivers@[i as int]);
                    assert(!(forall|k: int| 0 <= k < self@.len() ==> !(#[trigger] self@[k]).spec_supports(*device)));
                }
                return Some(&self.drivers[i]);
            }
            i = i + 1;
        }
        None
    }

    /// Get all drivers
    pub fn drivers(&self) -> (r: &[ClassDriver])
        ensures
            r@ == self@,
    {
        self.drivers.as_slice()
    }

    /// Create default registry with common drivers: mass storage, HID, CDC and hub, in
    /// that order
    pub fn with_default_drivers() -> (r: Self)
        ensures
            r@.len() == 4,
            r@[0] is MassStorage && r@[0].spec_attached() == Seq::<u8>::empty(),
            r@[1] is Hid && r@[1].spec_attached() == Seq::<u8>::empty(),
            r@[2] is Cdc && r@[2].spec_attached() == Seq::<u8>::empty(),
            r@[3] is Hub && r@[3].spec_attached() == Seq::<u8>::empty(),
    {
        let mut registry = Self::new();
        registry.register(ClassDriver::MassStorage(MassStorageDriver::new()));
        registry.register(ClassDriver::Hid(HidDriver::new()));
        registry.register(ClassDriver::Cdc(CdcDriver::new()));
        registry.register(ClassDriver::Hub(HubDriver::new()));
        registry
    }
}

} // verus!
