use vstd::prelude::*;

use crate::usb::descriptor::AnyDescriptor;
use crate::usb::endpoint::Endpoint;
use crate::usb::error::UsbDriverError;

verus! {

/// USB Device State
#[derive(Debug, Clone, Copy, PartialEq, Eq, Structural)]
pub enum DeviceState {
    Attached,
    Powered,
    Default,
    Address,
    Configured,
    Suspended,
    Disconnected,
}

/// The state a stored code stands for: codes past 5 mean disconnected.
pub open spec fn device_state_of(value: u8) -> DeviceState {
    if value == 0 {
        DeviceState::Attached
    } else if value == 1 {
        DeviceState::Powered
    } else if value == 2 {
        DeviceState::Default
    } else if value == 3 {
        DeviceState::Address
    } else if value == 4 {
        DeviceState::Configured
    } else if value == 5 {
        DeviceState::Suspended
    } else {
        DeviceState::Disconnected
    }
}

impl From<u8> for DeviceState {
    fn from(value: u8) -> (r: Self) {
        match value {
            0 => DeviceState::Attached,
            1 => DeviceState::Powered,
            2 => DeviceState::Default,
            3 => DeviceState::Address,
            4 => DeviceState::Configured,
            5 => DeviceState::Suspended,
            _ => DeviceState::Disconnected,
        }
    }
}

impl vstd::std_specs::convert::FromSpecImpl<u8> for DeviceState {
    open spec fn obeys_from_spec() -> bool {
        true
    }

    open spec fn from_spec(value: u8) -> DeviceState {
        device_state_of(value)
    }
}

/// USB Device Class
#[derive(Debug, Clone, Copy, PartialEq, Eq, Structural)]
pub enum DeviceClass {
    /// Use class information in the Interface Descriptors
    PerInterface,
    /// Audio
    Audio,
    /// Communications and CDC Control
    CommAndCdcControl,
    /// Human Interface Device
    Hid,
    /// Physical
    Physical,
    /// Image
    Image,
    /// Printer
    Printer,
    /// Mass Storage
    MassStorage,
    /// Hub
    Hub,
    /// CDC Data
    CdcData,
    /// Smart Card
    SmartCard,
    /// Content Security
    ContentSecurity,
    /// Video
    Video,
    /// Personal Healthcare
    PersonalHealthcare,
    /// Audio/Video Devices
    AudioVideo,
    /// Billboard Device
    Billboard,
    /// USB Type-C Bridge
    TypeCBridge,
    /// Diagnostic Device
    Diagnostic,
    /// Wireless Controller
    Wireless,
    /// Miscellaneous
    Miscellaneous,
    /// Application Specific
    ApplicationSpecific,
    /// Vendor Specific
    VendorSpecific,
}

/// The class code of each class.
pub open spec fn class_code(c: DeviceClass) -> u8 {
    match c {
        DeviceClass::PerInterface => 0x00,
        DeviceClass::Audio => 0x01,
        DeviceClass::CommAndCdcControl => 0x02,
        DeviceClass::Hid => 0x03,
        DeviceClass::Physical => 0x05,
        DeviceClass::Image => 0x06,
        DeviceClass::Printer => 0x07,
        DeviceClass::MassStorage => 0x08,
        DeviceClass::Hub => 0x09,
        DeviceClass::CdcData => 0x0A,
        DeviceClass::SmartCard => 0x0B,
        DeviceClass::ContentSecurity => 0x0D,
        DeviceClass::Video => 0x0E,
        DeviceClass::PersonalHealthcare => 0x0F,
        DeviceClass::AudioVideo => 0x10,
        DeviceClass::Billboard => 0x11,
        DeviceClass::TypeCBridge => 0x12,
        DeviceClass::Diagnostic => 0xDC,
        DeviceClass::Wireless => 0xE0,
        DeviceClass::Miscellaneous => 0xEF,
        DeviceClass::ApplicationSpecific => 0xFE,
        DeviceClass::VendorSpecific => 0xFF,
    }
}

/// The class a code names; unknown codes are vendor specific.
pub open spec fn class_of(value: u8) -> DeviceClass {
    if value == 0x00 {
        DeviceClass::PerInterface
    } else if value == 0x01 {
        DeviceClass::Audio
    } else if value == 0x02 {
        DeviceClass::CommAndCdcControl
    } else if value == 0x03 {
        DeviceClass::Hid
    } else if value == 0x05 {
        DeviceClass::Physical
    } else if value == 0x06 {
        DeviceClass::Image
    } else if value == 0x07 {
        DeviceClass::Printer
    } else if value == 0x08 {
        DeviceClass::MassStorage
    } else if value == 0x09 {
        DeviceClass::Hub
    } else if value == 0x0A {
        DeviceClass::CdcData
    } else if value == 0x0B {
        DeviceClass::SmartCard
    } else if value == 0x0D {
        DeviceClass::ContentSecurity
    } else if value == 0x0E {
        DeviceClass::Video
    } else if value == 0x0F {
        DeviceClass::PersonalHealthcare
    } else if value == 0x10 {
        DeviceClass::AudioVideo
    } else if value == 0x11 {
        DeviceClass::Billboard
    } else if value == 0x12 {
        DeviceClass::TypeCBridge
    } else if value == 0xDC {
        DeviceClass::Diagnostic
    } else if value == 0xE0 {
        DeviceClass::Wireless
    } else if value == 0xEF {
        DeviceClass::Miscellaneous
    } else if value == 0xFE {
        DeviceClass::ApplicationSpecific
    } else {
        DeviceClass::VendorSpecific
    }
}

impl DeviceClass {
    /// The class code.
    pub fn code(&self) -> (r: u8)
        ensures
            r == class_code(*self),
    {
        match self {
            DeviceClass::PerInterface => 0x00,
            DeviceClass::Audio => 0x01,
            DeviceClass::CommAndCdcControl => 0x02,
            DeviceClass::Hid => 0x03,
            DeviceClass::Physical => 0x05,
            DeviceClass::Image => 0x06,
            DeviceClass::Printer => 0x07,
            DeviceClass::MassStorage => 0x08,
            DeviceClass::Hub => 0x09,
            DeviceClass::CdcData => 0x0A,
            DeviceClass::SmartCard => 0x0B,
            DeviceClass::ContentSecurity => 0x0D,
            DeviceClass::Video => 0x0E,
            DeviceClass::PersonalHealthcare => 0x0F,
            DeviceClass::AudioVideo => 0x10,
            DeviceClass::Billboard => 0x11,
            DeviceClass::TypeCBridge => 0x12,
            DeviceClass::Diagnostic => 0xDC,
            DeviceClass::Wireless => 0xE0,
            DeviceClass::Miscellaneous => 0xEF,
            DeviceClass::ApplicationSpecific => 0xFE,
            DeviceClass::VendorSpecific => 0xFF,
        }
    }
}

impl From<u8> for DeviceClass {
    fn from(value: u8) -> (r: Self) {
        match value {
            0x00 => DeviceClass::PerInterface,
            0x01 => DeviceClass::Audio,
            0x02 => DeviceClass::CommAndCdcControl,
            0x03 => DeviceClass::Hid,
            0x05 => DeviceClass::Physical,
            0x06 => DeviceClass::Image,
            0x07 => DeviceClass::Printer,
            0x08 => DeviceClass::MassStorage,
            0x09 => DeviceClass::Hub,
            0x0A => DeviceClass::CdcData,
            0x0B => DeviceClass::SmartCard,
            0x0D => DeviceClass::ContentSecurity,
            0x0E => DeviceClass::Video,
            0x0F => DeviceClass::PersonalHealthcare,
            0x10 => DeviceClass::AudioVideo,
            0x11 => DeviceClass::Billboard,
            0x12 => DeviceClass::TypeCBridge,
            0xDC => DeviceClass::Diagnostic,
            0xE0 => DeviceClass::Wireless,
            0xEF => DeviceClass::Miscellaneous,
            0xFE => DeviceClass::ApplicationSpecific,
            _ => DeviceClass::VendorSpecific,
        }
    }
}

impl vstd::std_specs::convert::FromSpecImpl<u8> for DeviceClass {
    open spec fn obeys_from_spec() -> bool {
        true
    }

    open spec fn from_spec(value: u8) -> DeviceClass {
        class_of(value)
    }
}

/// A class read back from its code is the same class.
pub proof fn lemma_class_code_roundtrip(c: DeviceClass)
    ensures
        class_of(class_code(c)) == c,
{
}

/// USB Device Speed
#[derive(Debug, Clone, Copy, PartialEq, Eq, Structural)]
pub enum DeviceSpeed {
    /// 1.5 Mbps
    Low,
    /// 12 Mbps
    Full,
    /// 480 Mbps
    High,
    /// 5 Gbps
    Super,
    /// 10+ Gbps
    SuperPlus,
}

/// USB Configuration
#[derive(Debug)]
pub struct UsbConfiguration {
    pub value: u8,
    pub string_index: u8,
    pub attributes: u8,
    pub max_power: u8,
    pub interfaces: Vec<UsbInterface>,
}

/// USB Interface
#[derive(Debug)]
pub struct UsbInterface {
    pub number: u8,
    pub alternate: u8,
    pub class: u8,
    pub subclass: u8,
    pub protocol: u8,
    pub string_index: u8,
    pub endpoints: Vec<Endpoint>,
}

/// The first configuration from `k` on whose value is `v`, or -1.
pub open spec fn config_index(cs: Seq<UsbConfiguration>, v: u8, k: int) -> int
    decreases cs.len() - k,
{
    if k < 0 || k >= cs.len() {
        -1
    } else if cs[k].value == v {
        k
    } else {
        config_index(cs, v, k + 1)
    }
}

/// The first interface from `k` on whose number is `n`, or -1.
pub open spec fn iface_index(ifs: Seq<UsbInterface>, n: u8, k: int) -> int
    decreases ifs.len() - k,
{
    if k < 0 || k >= ifs.len() {
        -1
    } else if ifs[k].number == n {
        k
    } else {
        iface_index(ifs, n, k + 1)
    }
}

/// The first endpoint from `k` on whose address is `a`, or -1.
pub open spec fn ep_index(eps: Seq<Endpoint>, a: u8, k: int) -> int
    decreases eps.len() - k,
{
    if k < 0 || k >= eps.len() {
        -1
    } else if eps[k]@.address == a {
        k
    } else {
        ep_index(eps, a, k + 1)
    }
}

/// The first interface from `k` on that has an endpoint at address `a`, with that endpoint's
/// index.
pub open spec fn find_endpoint(ifs: Seq<UsbInterface>, a: u8, k: int) -> Option<(int, int)>
    decreases ifs.len() - k,
{
    if k < 0 || k >= ifs.len() {
        None
    } else if ep_index(ifs[k].endpoints@, a, 0) >= 0 {
        Some((k, ep_index(ifs[k].endpoints@, a, 0)))
    } else {
        find_endpoint(ifs, a, k + 1)
    }
}

/// The configuration found from `k` on is at `k` or later.
pub proof fn lemma_config_index(cs: Seq<UsbConfiguration>, v: u8, k: int)
    requires
        0 <= k <= cs.len(),
    ensures
        config_index(cs, v, k) == -1 || k <= config_index(cs, v, k) < cs.len(),
        config_index(cs, v, k) >= 0 ==> cs[config_index(cs, v, k)].value == v,
    decreases cs.len() - k,
{
    if k < cs.len() && cs[k].value != v {
        lemma_config_index(cs, v, k + 1);
    }
}

/// A configuration with the value is found from `k` on exactly when one from `k` on has it.
pub proof fn lemma_config_index_found(cs: Seq<UsbConfiguration>, v: u8, k: int)
    requires
        0 <= k <= cs.len(),
    ensures
        config_index(cs, v, k) >= 0 <==> exists|i: int| k <= i < cs.len() && (#[trigger] cs[i]).value == v,
    decreases cs.len() - k,
{
    lemma_config_index(cs, v, k);
    if k < cs.len() {
        lemma_config_index_found(cs, v, k + 1);
        if cs[k].value != v {
            if exists|i: int| k <= i < cs.len() && (#[trigger] cs[i]).value == v {
                let i = choose|i: int| k <= i < cs.len() && (#[trigger] cs[i]).value == v;
                assert(i != k);
            }
        }
    }
}

/// The interface found from `k` on is at `k` or later, with that number.
pub proof fn lemma_iface_index(ifs: Seq<UsbInterface>, n: u8, k: int)
    requires
        0 <= k <= ifs.len(),
    ensures
        iface_index(ifs, n, k) == -1 || k <= iface_index(ifs, n, k) < ifs.len(),
    decreases ifs.len() - k,
{
    if k < ifs.len() && ifs[k].number != n {
        lemma_iface_index(ifs, n, k + 1);
    }
}

/// Some interface of some configuration has the class code `code`.
pub open spec fn any_interface_of_class(cs: Seq<UsbConfiguration>, code: u8) -> bool {
    exists|i: int, j: int|
        0 <= i < cs.len() && 0 <= j < cs[i].interfaces@.len() && #[trigger] cs[i].interfaces@[j].class == code
}

/// What a device records, apart from its descriptor, configurations and strings.
pub struct UsbDeviceView {
    pub address: u8,
    pub state: DeviceState,
    pub speed: DeviceSpeed,
    pub port: u8,
    pub hub_address: u8,
    pub current_configuration: u8,
    pub vendor_id: u16,
    pub product_id: u16,
    pub device_release: u16,
    pub device_class: DeviceClass,
    pub device_subclass: u8,
    pub device_protocol: u8,
    pub max_packet_size_0: u16,
}

/// USB Device
pub struct UsbDevice {
    /// Device address (assigned by host)
    address: u8,
    /// Device state
    state: DeviceState,
    /// Device speed
    speed: DeviceSpeed,
    /// Port number on hub
    port: u8,
    /// Hub address (0 for root hub)
    hub_address: u8,
    /// Device descriptor
    device_descriptor: AnyDescriptor,
    /// Configuration descriptors
    configurations: Vec<UsbConfiguration>,
    /// Current configuration
    current_configuration: u8,
    /// String descriptors
    string_descriptors: Vec<String>,
    /// Vendor ID
    vendor_id: u16,
    /// Product ID
    product_id: u16,
    /// Device release number
    device_release: u16,
    /// Device class
    device_class: DeviceClass,
    /// Device subclass
    device_subclass: u8,
    /// Device protocol
    device_protocol: u8,
    /// Maximum packet size for endpoint 0
    max_packet_size_0: u16,
}

impl View for UsbDevice {
    type V = UsbDeviceView;

    closed spec fn view(&self) -> UsbDeviceView {
        UsbDeviceView {
            address: self.address,
            state: self.state,
            speed: self.speed,
            port: self.port,
            hub_address: self.hub_address,
            current_configuration: self.current_configuration,
            vendor_id: self.vendor_id,
            product_id: self.product_id,
            device_release: self.device_release,
            device_class: self.device_class,
            device_subclass: self.device_subclass,
            device_protocol: self.device_protocol,
            max_packet_size_0: self.max_packet_size_0,
        }
    }
}

impl UsbDevice {
    /// The configurations known.
    pub closed spec fn configs(&self) -> Seq<UsbConfiguration> {
        self.configurations@
    }

    /// The string descriptors, index 1 first.
    pub closed spec fn strings(&self) -> Seq<String> {
        self.string_descriptors@
    }

    /// The device descriptor.
    pub closed spec fn descriptor(&self) -> AnyDescriptor {
        self.device_descriptor
    }

    /// Create a new USB device: attached, without address or configuration.
    pub fn new(speed: DeviceSpeed, port: u8, hub_address: u8, device_descriptor: AnyDescriptor) -> (r: Self)
        ensures
            r@ == (UsbDeviceView {
                address: 0,
                state: DeviceState::Attached,
                speed,
                port,
                hub_address,
                current_configuration: 0,
                vendor_id: 0,
                product_id: 0,
                device_release: 0,
                device_class: DeviceClass::PerInterface,
                device_subclass: 0,
                device_protocol: 0,
                max_packet_size_0: 8,
            }),
            r.configs().len() == 0,
            r.strings().len() == 0,
            r.descriptor() == device_descriptor,
    {
        Self {
            address: 0,
            state: DeviceState::Attached,
            speed,
            port,
            hub_address,
            device_descriptor,
            configurations: Vec::new(),
            current_configuration: 0,
            string_descriptors: Vec::new(),
            vendor_id: 0,
            product_id: 0,
            device_release: 0,
            device_class: DeviceClass::PerInterface,
            device_subclass: 0,
            device_protocol: 0,
            max_packet_size_0: 8,
        }
    }

    /// Get device address
    pub fn address(&self) -> (r: u8)
        ensures
            r == self@.address,
    {
        self.address
    }

    /// Set device address; a non-zero address moves the device to the Address state.
    pub fn set_address(&mut self, address: u8)
        ensures
            final(self)@ == (UsbDeviceView {
                address,
                state: if address > 0 { DeviceState::Address } else { old(self)@.state },
                ..old(self)@
            }),
            final(self).configs() == old(self).configs(),
            final(self).strings() == old(self).strings(),
            final(self).descriptor() == old(self).descriptor(),
    {
        self.address = address;
        if address > 0 {
            self.set_state(DeviceState::Address);
        }
    }

    /// Get device state
    pub fn state(&self) -> (r: DeviceState)
        ensures
            r == self@.state,
    {
        self.state
    }

    /// Set device state
    pub fn set_state(&mut self, state: DeviceState)
        ensures
            final(self)@ == (UsbDeviceView { state, ..old(self)@ }),
            final(self).configs() == old(self).configs(),
            final(self).strings() == old(self).strings(),
            final(self).descriptor() == old(self).descriptor(),
    {
        self.state = state;
    }

    /// Get device speed
    pub fn speed(&self) -> (r: DeviceSpeed)
        ensures
            r == self@.speed,
    {
        self.speed
    }

    /// Get port number
    pub fn port(&self) -> (r: u8)
        ensures
            r == self@.port,
    {
        self.port
    }

    /// Get hub address
    pub fn hub_address(&self) -> (r: u8)
        ensures
            r == self@.hub_address,
    {
        self.hub_address
    }

    /// Get device class
    pub fn device_class(&self) -> (r: DeviceClass)
        ensures
            r == self@.device_class,
    {
        self.device_class
    }

    /// Get vendor ID
    pub fn vendor_id(&self) -> (r: u16)
        ensures
            r == self@.vendor_id,
    {
        self.vendor_id
    }

    /// Get product ID
    pub fn product_id(&self) -> (r: u16)
        ensures
            r == self@.product_id,
    {
        self.product_id
    }

    /// Get device release
    pub fn device_release(&self) -> (r: u16)
        ensures
            r == self@.device_release,
    {
        self.device_release
    }

    /// Get maximum packet size for endpoint 0
    pub fn max_packet_size_0(&self) -> (r: u16)
        ensures
            r == self@.max_packet_size_0,
    {
        self.max_packet_size_0
    }

    /// Get current configuration
    pub fn current_configuration(&self) -> (r: u8)
        ensures
            r == self@.current_configuration,
    {
        self.current_configuration
    }

    /// Set current configuration: 0 (none, back to the Address state) or the value of a known
    /// configuration (the Configured state); any other value is refused.
    pub fn set_configuration(&mut self, config: u8) -> (r: Result<(), UsbDriverError>)
        ensures
            r is Ok <==> config == 0 || config_index(old(self).configs(), config, 0) >= 0,
            r is Ok <==> config == 0 || exists|i: int|
                0 <= i < old(self).configs().len() && (#[trigger] old(self).configs()[i]).value == config,
            r is Err ==> r == Err::<(), UsbDriverError>(UsbDriverError::InvalidConfiguration)
                && final(self)@ == old(self)@,
            r is Ok ==> final(self)@ == (UsbDeviceView {
                current_configuration: config,
                state: if config > 0 { DeviceState::Configured } else { DeviceState::Address },
                ..old(self)@
            }),
            final(self).configs() == old(self).configs(),
            final(self).strings() == old(self).strings(),
            final(self).descriptor() == old(self).descriptor(),
    {
        let mut found = config == 0;
        let mut i: usize = 0;
        while i < self.configurations.len() && !found
            invariant
                i <= self.configurations@.len(),
                found == (config == 0 || config_index(self.configurations@, config, 0) >= 0 && config_index(self.configurations@, config, 0) < i),
                config == 0 || found || config_index(self.configurations@, config, 0) == config_index(self.configurations@, config, i as int),
            decreases self.configurations.len() - i,
        {
            proof {
                lemma_config_index(self.configurations@, config, i as int + 1);
            }
            if self.configurations[i].value == config {
                found = true;
            }
            i = i + 1;
        }
        proof {
            if !found {
                assert(config_index(self.configurations@, config, i as int) == -1);
            }
            lemma_config_index_found(self.configurations@, config, 0);
        }
        if found {
            self.current_configuration = config;
            if config > 0 {
                self.set_state(DeviceState::Configured);
            } else {
                self.set_state(DeviceState::Address);
            }
            Ok(())
        } else {
            Err(UsbDriverError::InvalidConfiguration)
        }
    }

    /// Get configurations
    pub fn configurations(&self) -> (r: &[UsbConfiguration])
        ensures
            r@ == self.configs(),
    {
        self.configurations.as_slice()
    }

    /// Add configuration
    pub fn add_configuration(&mut self, config: UsbConfiguration)
        ensures
            final(self)@ == old(self)@,
            final(self).configs() == old(self).configs().push(config),
            final(self).strings() == old(self).strings(),
            final(self).descriptor() == old(self).descriptor(),
    {
        self.configurations.push(config);
    }

    /// Get string descriptor `index`, counting from 1.
    pub fn get_string(&self, index: u8) -> (r: Option<&str>)
        ensures
            index == 0 || index > self.strings().len() ==> r is None,
            0 < index <= self.strings().len() ==> (r matches Some(s) && s@ == self.strings()[index - 1]@),
    {
        if index == 0 || index as usize > self.string_descriptors.len() {
            None
        } else {
            Some(self.string_descriptors[index as usize - 1].as_str())
        }
    }

    /// Add string descriptor; its index (the new count, cut to 8 bits) is returned.
    pub fn add_string(&mut self, string: String) -> (r: u8)
        ensures
            final(self)@ == old(self)@,
            final(self).strings() == old(self).strings().push(string),
            r == (final(self).strings().len() % 256) as u8,
            final(self).configs() == old(self).configs(),
            final(self).descriptor() == old(self).descriptor(),
    {
        self.string_descriptors.push(string);
        (self.string_descriptors.len() % 256) as u8
    }

    /// Configure the device (called during enumeration): it enters the Default state.
    pub fn configure(&mut self) -> (r: Result<(), UsbDriverError>)
        ensures
            r is Ok,
            final(self)@ == (UsbDeviceView { state: DeviceState::Default, ..old(self)@ }),
            final(self).configs() == old(self).configs(),
            final(self).strings() == old(self).strings(),
            final(self).descriptor() == old(self).descriptor(),
    {
        self.set_state(DeviceState::Default);
        Ok(())
    }

    /// Reset the device: no address, no configuration, Default state.
    pub fn reset(&mut self) -> (r: Result<(), UsbDriverError>)
        ensures
            r is Ok,
            final(self)@ == (UsbDeviceView {
                address: 0,
                current_configuration: 0,
                state: DeviceState::Default,
                ..old(self)@
            }),
            final(self).configs() == old(self).configs(),
            final(self).strings() == old(self).strings(),
            final(self).descriptor() == old(self).descriptor(),
    {
        self.address = 0;
        self.current_configuration = 0;
        self.set_state(DeviceState::Default);
        Ok(())
    }

    /// Suspend the device
    pub fn suspend(&mut self) -> (r: Result<(), UsbDriverError>)
        ensures
            r is Ok,
            final(self)@ == (UsbDeviceView { state: DeviceState::Suspended, ..old(self)@ }),
            final(self).configs() == old(self).configs(),
            final(self).strings() == old(self).strings(),
            final(self).descriptor() == old(self).descriptor(),
    {
        self.set_state(DeviceState::Suspended);
        Ok(())
    }

    /// Resume the device: Configured where a configuration is set, else Address.
    pub fn resume(&mut self) -> (r: Result<(), UsbDriverError>)
        ensures
            r is Ok,
            final(self)@ == (UsbDeviceView {
                state: if old(self)@.current_configuration > 0 { DeviceState::Configured } else { DeviceState::Address },
                ..old(self)@
            }),
            final(self).configs() == old(self).configs(),
            final(self).strings() == old(self).strings(),
            final(self).descriptor() == old(self).descriptor(),
    {
        if self.current_configuration() > 0 {
            self.set_state(DeviceState::Configured);
        } else {
            self.set_state(DeviceState::Address);
        }
        Ok(())
    }

    /// Check if device supports a specific class: its own class, or that of an interface of
    /// any configuration.
    pub fn supports_class(&self, class: DeviceClass) -> (r: bool)
        ensures
            r == (self@.device_class == class || any_interface_of_class(self.configs(), class_code(class))),
    {
        if self.device_class == class {
            return true;
        }
        let code = class.code();
        let mut i: usize = 0;
        while i < self.configurations.len()
            invariant
                i <= self.configurations@.len(),
                code == class_code(class),
                forall|a: int, b: int| 0 <= a < i && 0 <= b < self.configurations@[a].interfaces@.len()
                    ==> #[trigger] self.configurations@[a].interfaces@[b].class != code,
            decreases self.configurations.len() - i,
        {
            let interfaces = &self.configurations[i].interfaces;
            let mut j: usize = 0;
            while j < interfaces.len()
                invariant
                    i < self.configurations@.len(),
                    interfaces@ == self.configurations@[i as int].interfaces@,
                    j <= interfaces@.len(),
                    code == class_code(class),
                    forall|b: int| 0 <= b < j ==> #[trigger] interfaces@[b].class != code,
                decreases interfaces.len() - j,
            {
                if interfaces[j].class == code {
                    proof {
                        assert(self.configs()[i as int].interfaces@[j as int].class == code);
                    }
                    return true;
                }
                j = j + 1;
            }
            i = i + 1;
        }
        false
    }

    /// Get interface by number, in the current configuration.
    pub fn get_interface(&self, interface_num: u8) -> (r: Option<&UsbInterface>)
        ensures
            ({
                let ci = config_index(self.configs(), self@.current_configuration, 0);
                &&& ci < 0 ==> r is None
                &&& ci >= 0 ==> {
                    let ii = iface_index(self.configs()[ci].interfaces@, interface_num, 0);
                    &&& ii < 0 ==> r is None
                    &&& ii >= 0 ==> (r matches Some(x) && *x == self.configs()[ci].interfaces@[ii])
                }
            }),
    {
        let current = self.current_configuration;
        let mut i: usize = 0;
        while i < self.configurations.len()
            invariant
                i <= self.configurations@.len(),
                current == self@.current_configuration,
                config_index(self.configurations@, current, 0) == config_index(self.configurations@, current, i as int),
            decreases self.configurations.len() - i,
        {
            if self.configurations[i].value == current {
                let interfaces = &self.configurations[i].interfaces;
                let mut j: usize = 0;
                while j < interfaces.len()
                    invariant
                        i < self.configurations@.len(),
                        self.configurations@[i as int].value == current,
                        current == self@.current_configuration,
                        config_index(self.configurations@, current, 0) == config_index(self.configurations@, current, i as int),
                        interfaces@ == self.configurations@[i as int].interfaces@,
                        j <= interfaces@.len(),
                        iface_index(interfaces@, interface_num, 0) == iface_index(interfaces@, interface_num, j as int),
                    decreases interfaces.len() - j,
                {
                    if interfaces[j].number == interface_num {
                        proof {
                            assert(config_index(self.configurations@, current, i as int) == i as int);
                            assert(iface_index(interfaces@, interface_num, j as int) == j as int);
                        }
                        return Some(&interfaces[j]);
                    }
                    j = j + 1;
                }
                proof {
                    assert(config_index(self.configurations@, current, i as int) == i as int);
                }
                return None;
            }
            i = i + 1;
        }
        None
    }

    /// Get endpoint by address, in the current configuration: the first interface, in order,
    /// that has one.
    pub fn get_endpoint(&self, endpoint_addr: u8) -> (r: Option<&Endpoint>)
        ensures
            ({
                let ci = config_index(self.configs(), self@.current_configuration, 0);
                &&& ci < 0 ==> r is None
                &&& ci >= 0 ==> match find_endpoint(self.configs()[ci].interfaces@, endpoint_addr, 0) {
                    None => r is None,
                    Some((a, b)) => r matches Some(e) && *e == self.configs()[ci].interfaces@[a].endpoints@[b],
                }
            }),
    {
        let current = self.current_configuration;
        let mut i: usize = 0;
        while i < self.configurations.len()
            invariant
                i <= self.configurations@.len(),
                current == self@.current_configuration,
                config_index(self.configurations@, current, 0) == config_index(self.configurations@, current, i as int),
            decreases self.configurations.len() - i,
        {
            if self.configurations[i].value == current {
                let interfaces = &self.configurations[i].interfaces;
                let mut j: usize = 0;
                while j < interfaces.len()
                    invariant
                        i < self.configurations@.len(),
                        self.configurations@[i as int].value == current,
                        current == self@.current_configuration,
                        config_index(self.configurations@, current, 0) == config_index(self.configurations@, current, i as int),
                        interfaces@ == self.configurations@[i as int].interfaces@,
                        j <= interfaces@.len(),
                        find_endpoint(interfaces@, endpoint_addr, 0) == find_endpoint(interfaces@, endpoint_addr, j as int),
                    decreases interfaces.len() - j,
                {
                    let endpoints = &interfaces[j].endpoints;
                    let mut k: usize = 0;
                    while k < endpoints.len()
                        invariant
                            i < self.configurations@.len(),
                            self.configurations@[i as int].value == current,
                            current == self@.current_configuration,
                            config_index(self.configurations@, current, 0) == config_index(self.configurations@, current, i as int),
                            interfaces@ == self.configurations@[i as int].interfaces@,
                            find_endpoint(interfaces@, endpoint_addr, 0) == find_endpoint(interfaces@, endpoint_addr, j as int),
                            j < interfaces@.len(),
                            endpoints@ == interfaces@[j as int].endpoints@,
                            k <= endpoints@.len(),
                            ep_index(endpoints@, endpoint_addr, 0) == ep_index(endpoints@, endpoint_addr, k as int),
                        decreases endpoints.len() - k,
                    {
                        if endpoints[k].address() == endpoint_addr {
                            proof {
                                assert(config_index(self.configurations@, current, i as int) == i as int);
                                assert(ep_index(endpoints@, endpoint_addr, k as int) == k as int);
                                assert(find_endpoint(interfaces@, endpoint_addr, j as int) == Some((j as int, k as int)));
                            }
                            return Some(&endpoints[k]);
                        }
                        k = k + 1;
                    }
                    proof {
                        assert(find_endpoint(interfaces@, endpoint_addr, j as int) == find_endpoint(interfaces@, endpoint_addr, j as int + 1));
                    }
                    j = j + 1;
                }
                proof {
                    assert(config_index(self.configurations@, current, i as int) == i as int);
                }
                return None;
            }
            i = i + 1;
        }
        None
    }
}

} // verus!
