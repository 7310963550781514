use vstd::prelude::*;
use crate::bits::lemma_and_bounds;

/// USB descriptor types
pub mod descriptor_types;
/// USB class codes
pub mod class_codes;

verus! {

/// USB device speed
#[derive(Debug, Clone, Copy, PartialEq, Eq, Structural)]
pub enum UsbSpeed {
    /// Low speed (1.5 Mbit/s)
    Low,
    /// Full speed (12 Mbit/s)
    Full,
    /// High speed (480 Mbit/s)
    High,
    /// Super speed (5 Gbit/s)
    Super,
    /// Super speed+ (10 Gbit/s)
    SuperPlus,
}

impl UsbSpeed {
    /// Get the maximum packet size for control endpoints
    pub fn max_packet_size_control(self) -> (r: u16)
        ensures
            r == control_packet_size(self),
    {
        match self {
            UsbSpeed::Low => 8,
            UsbSpeed::Full => 64,
            UsbSpeed::High => 64,
            UsbSpeed::Super => 512,
            UsbSpeed::SuperPlus => 512,
        }
    }

    /// Get the speed value for xHCI slot context
    pub fn to_xhci_speed(self) -> (r: u8)
        ensures
            r == xhci_speed_code(self),
    {
        match self {
            UsbSpeed::Low => 2,
            UsbSpeed::Full => 1,
            UsbSpeed::High => 3,
            UsbSpeed::Super => 4,
            UsbSpeed::SuperPlus => 5,
        }
    }
}

/// The largest control packet at each speed.
pub open spec fn control_packet_size(s: UsbSpeed) -> u16 {
    match s {
        UsbSpeed::Low => 8u16,
        UsbSpeed::Full | UsbSpeed::High => 64u16,
        UsbSpeed::Super | UsbSpeed::SuperPlus => 512u16,
    }
}

/// The code that xHCI uses for each speed.
pub open spec fn xhci_speed_code(s: UsbSpeed) -> u8 {
    match s {
        UsbSpeed::Low => 2,
        UsbSpeed::Full => 1,
        UsbSpeed::High => 3,
        UsbSpeed::Super => 4,
        UsbSpeed::SuperPlus => 5,
    }
}

/// USB endpoint direction
#[derive(Debug, Clone, Copy, PartialEq, Eq, Structural)]
pub enum UsbDirection {
    /// Data flows from host to device
    Out,
    /// Data flows from device to host
    In,
}

/// USB endpoint type
#[derive(Debug, Clone, Copy, PartialEq, Eq, Structural)]
pub enum UsbEndpointType {
    /// Control endpoint
    Control,
    /// Isochronous endpoint
    Isochronous,
    /// Bulk endpoint
    Bulk,
    /// Interrupt endpoint
    Interrupt,
}

/// USB transfer type
#[derive(Debug, Clone, Copy, PartialEq, Eq, Structural)]
pub enum UsbTransferType {
    /// Control transfer
    Control,
    /// Bulk transfer
    Bulk,
    /// Interrupt transfer
    Interrupt,
    /// Isochronous transfer
    Isochronous,
}

/// USB device state
#[derive(Debug, Clone, Copy, PartialEq, Eq, Structural)]
pub enum UsbDeviceState {
    /// Device is attached but not powered
    Attached,
    /// Device is powered but not reset
    Powered,
    /// Device is reset and has default address
    Default,
    /// Device has been assigned an address
    Addressed,
    /// Device is configured and ready for use
    Configured,
    /// Device is suspended
    Suspended,
}

/// USB endpoint information
#[derive(Debug, Clone, Copy, PartialEq, Eq, Structural)]
pub struct UsbEndpoint {
    /// Endpoint number (0-15)
    pub number: u8,
    /// Transfer direction
    pub direction: UsbDirection,
    /// Endpoint type
    pub endpoint_type: UsbEndpointType,
    /// Maximum packet size
    pub max_packet_size: u16,
    /// Polling interval for interrupt/isochronous endpoints
    pub interval: u8,
}

/// The address byte of an endpoint: its number with bit 7 set for IN.
pub open spec fn endpoint_address_spec(e: UsbEndpoint) -> u8 {
    e.number | if e.direction == UsbDirection::In { 0x80u8 } else { 0u8 }
}

/// The xHCI device context index of an endpoint.
pub open spec fn xhci_index_spec(e: UsbEndpoint) -> int {
    if e.number == 0 {
        1
    } else {
        e.number * 2 + if e.direction == UsbDirection::In { 1int } else { 0int }
    }
}

impl UsbEndpoint {
    /// Create a new control endpoint
    pub fn control(max_packet_size: u16) -> (r: Self)
        ensures
            r == (UsbEndpoint {
                number: 0,
                direction: UsbDirection::Out,
                endpoint_type: UsbEndpointType::Control,
                max_packet_size,
                interval: 0,
            }),
    {
        Self {
            number: 0,
            direction: UsbDirection::Out,  // Control endpoints are bidirectional
            endpoint_type: UsbEndpointType::Control,
            max_packet_size,
            interval: 0,
        }
    }

    /// Create a new bulk endpoint
    pub fn bulk(number: u8, direction: UsbDirection, max_packet_size: u16) -> (r: Self)
        ensures
            r == (UsbEndpoint {
                number,
                direction,
                endpoint_type: UsbEndpointType::Bulk,
                max_packet_size,
                interval: 0,
            }),
    {
        Self { number, direction, endpoint_type: UsbEndpointType::Bulk, max_packet_size, interval: 0 }
    }

    /// Create a new interrupt endpoint
    pub fn interrupt(number: u8, direction: UsbDirection, max_packet_size: u16, interval: u8) -> (r:
        Self)
        ensures
            r == (UsbEndpoint {
                number,
                direction,
                endpoint_type: UsbEndpointType::Interrupt,
                max_packet_size,
                interval,
            }),
    {
        Self { number, direction, endpoint_type: UsbEndpointType::Interrupt, max_packet_size, interval }
    }

    /// Get the endpoint address (combines number and direction)
    pub fn address(self) -> (r: u8)
        ensures
            r == endpoint_address_spec(self),
    {
        self.number | if matches!(self.direction, UsbDirection::In) {
            0x80
        } else {
            0
        }
    }

    /// Get the xHCI endpoint index (used for context addressing)
    pub fn xhci_index(self) -> (r: u8)
        requires
            self.number < 128,
        ensures
            r == xhci_index_spec(self),
    {
        if self.number == 0 {
            1  // Control endpoint is always index 1
        } else {
            (self.number * 2) + match self.direction {
                UsbDirection::Out => 0,
                UsbDirection::In => 1,
            }
        }
    }
}

/// Standard USB device descriptor
#[derive(Debug, Clone, Copy)]
pub struct DeviceDescriptor {
    /// Size of this descriptor in bytes
    pub length: u8,
    /// Descriptor type (DEVICE = 1)
    pub descriptor_type: u8,
    /// USB specification version (BCD)
    pub usb_version: u16,
    /// Device class code
    pub device_class: u8,
    /// Device subclass code
    pub device_subclass: u8,
    /// Device protocol code
    pub device_protocol: u8,
    /// Maximum packet size for endpoint 0
    pub max_packet_size0: u8,
    /// Vendor ID
    pub vendor_id: u16,
    /// Product ID
    pub product_id: u16,
    /// Device release number (BCD)
    pub device_version: u16,
    /// Index of manufacturer string descriptor
    pub manufacturer_index: u8,
    /// Index of product string descriptor
    pub product_index: u8,
    /// Index of serial number string descriptor
    pub serial_index: u8,
    /// Number of possible configurations
    pub num_configurations: u8,
}

/// Standard USB configuration descriptor
#[derive(Debug, Clone, Copy)]
pub struct ConfigDescriptor {
    /// Size of this descriptor in bytes
    pub length: u8,
    /// Descriptor type (CONFIGURATION = 2)
    pub descriptor_type: u8,
    /// Total length of configuration data
    pub total_length: u16,
    /// Number of interfaces in this configuration
    pub num_interfaces: u8,
    /// Configuration value
    pub configuration_value: u8,
    /// Index of configuration string descriptor
    pub configuration_index: u8,
    /// Configuration characteristics
    pub attributes: u8,
    /// Maximum power consumption (in 2mA units)
    pub max_power: u8,
}

/// Standard USB interface descriptor
#[derive(Debug, Clone, Copy)]
pub struct InterfaceDescriptor {
    /// Size of this descriptor in bytes
    pub length: u8,
    /// Descriptor type (INTERFACE = 4)
    pub descriptor_type: u8,
    /// Interface number
    pub interface_number: u8,
    /// Alternate setting number
    pub alternate_setting: u8,
    /// Number of endpoints in this interface
    pub num_endpoints: u8,
    /// Interface class code
    pub interface_class: u8,
    /// Interface subclass code
    pub interface_subclass: u8,
    /// Interface protocol code
    pub interface_protocol: u8,
    /// Index of interface string descriptor
    pub interface_index: u8,
}

/// Standard USB endpoint descriptor
#[derive(Debug, Clone, Copy)]
pub struct EndpointDescriptor {
    /// Size of this descriptor in bytes
    pub length: u8,
    /// Descriptor type (ENDPOINT = 5)
    pub descriptor_type: u8,
    /// Endpoint address (includes direction bit)
    pub endpoint_address: u8,
    /// Endpoint attributes (transfer type)
    pub attributes: u8,
    /// Maximum packet size
    pub max_packet_size: u16,
    /// Polling interval
    pub interval: u8,
}

/// The transfer type that the two low attribute bits encode.
pub open spec fn transfer_type_spec(attributes: u8) -> UsbEndpointType {
    let t = attributes & 3;
    if t == 0 {
        UsbEndpointType::Control
    } else if t == 1 {
        UsbEndpointType::Isochronous
    } else if t == 2 {
        UsbEndpointType::Bulk
    } else {
        UsbEndpointType::Interrupt
    }
}

/// The direction that bit 7 of an endpoint address encodes.
pub open spec fn address_direction(address: u8) -> UsbDirection {
    if address & 0x80 != 0 {
        UsbDirection::In
    } else {
        UsbDirection::Out
    }
}

impl EndpointDescriptor {
    /// Get the endpoint number
    pub fn endpoint_number(&self) -> (r: u8)
        ensures
            r == self.endpoint_address & 0x0f,
            r <= 15,
    {
        proof {
            lemma_and_bounds();
        }
        self.endpoint_address & 0x0f
    }

    /// Get the endpoint direction
    pub fn direction(&self) -> (r: UsbDirection)
        ensures
            r == address_direction(self.endpoint_address),
    {
        if (self.endpoint_address & 0x80) != 0 {
            UsbDirection::In
        } else {
            UsbDirection::Out
        }
    }

    /// Get the transfer type
    pub fn transfer_type(&self) -> (r: UsbEndpointType)
        ensures
            r == transfer_type_spec(self.attributes),
    {
        proof {
            lemma_and_bounds();
        }
        let t = self.attributes & 0x03;
        if t == 0 {
            UsbEndpointType::Control
        } else if t == 1 {
            UsbEndpointType::Isochronous
        } else if t == 2 {
            UsbEndpointType::Bulk
        } else {
            UsbEndpointType::Interrupt
        }
    }

    /// Convert to UsbEndpoint
    pub fn to_usb_endpoint(&self) -> (r: UsbEndpoint)
        ensures
            r == (UsbEndpoint {
                number: self.endpoint_address & 0x0f,
                direction: address_direction(self.endpoint_address),
                endpoint_type: transfer_type_spec(self.attributes),
                max_packet_size: self.max_packet_size,
                interval: self.interval,
            }),
    {
        UsbEndpoint {
            number: self.endpoint_number(),
            direction: self.direction(),
            endpoint_type: self.transfer_type(),
            max_packet_size: self.max_packet_size,
            interval: self.interval,
        }
    }
}

/// USB setup packet for control transfers
#[derive(Debug, Clone, Copy, PartialEq, Eq, Structural)]
pub struct SetupPacket {
    /// Request type and direction
    pub request_type: u8,
    /// Specific request
    pub request: u8,
    /// Request-specific value
    pub value: u16,
    /// Request-specific index
    pub index: u16,
    /// Length of data phase
    pub length: u16,
}

/// The wValue of a GET_DESCRIPTOR request: type in the high byte, index in the low byte.
pub open spec fn descriptor_value(descriptor_type: u8, descriptor_index: u8) -> int {
    descriptor_type * 256 + descriptor_index
}

/// `(t << 8) | i` for two bytes is `t * 256 + i`.
pub proof fn lemma_descriptor_value(t: u8, i: u8)
    by (bit_vector)
    ensures
        ((t as u16) << 8u16) | (i as u16) == (t as u16) * 256 + (i as u16),
{
}

impl SetupPacket {
    /// Create a GET_DESCRIPTOR request
    pub fn get_descriptor(descriptor_type: u8, descriptor_index: u8, length: u16) -> (r: Self)
        ensures
            r.request_type == 0x80,
            r.request == 0x06,
            r.value == descriptor_value(descriptor_type, descriptor_index),
            r.index == 0,
            r.length == length,
    {
        proof {
            lemma_descriptor_value(descriptor_type, descriptor_index);
        }
        Self {
            request_type: 0x80,  // Device to host, standard, device
            request: 0x06,  // GET_DESCRIPTOR
            value: ((descriptor_type as u16) << 8) | (descriptor_index as u16),
            index: 0,
            length,
        }
    }

    /// Create a SET_ADDRESS request
    pub fn set_address(address: u8) -> (r: Self)
        ensures
            r == (SetupPacket {
                request_type: 0x00,
                request: 0x05,
                value: address as u16,
                index: 0,
                length: 0,
            }),
    {
        Self {
            request_type: 0x00,  // Host to device, standard, device
            request: 0x05,  // SET_ADDRESS
            value: address as u16,
            index: 0,
            length: 0,
        }
    }

    /// Create a SET_CONFIGURATION request
    pub fn set_configuration(config_value: u8) -> (r: Self)
        ensures
            r == (SetupPacket {
                request_type: 0x00,
                request: 0x09,
                value: config_value as u16,
                index: 0,
                length: 0,
            }),
    {
        Self {
            request_type: 0x00,  // Host to device, standard, device
            request: 0x09,  // SET_CONFIGURATION
            value: config_value as u16,
            index: 0,
            length: 0,
        }
    }

    /// Create a GET_STATUS request
    pub fn get_status() -> (r: Self)
        ensures
            r == (SetupPacket { request_type: 0x80, request: 0x00, value: 0, index: 0, length: 2 }),
    {
        Self {
            request_type: 0x80,  // Device to host, standard, device
            request: 0x00,  // GET_STATUS
            value: 0,
            index: 0,
            length: 2,
        }
    }
}

} // verus!

verus! {

/// A fixed-capacity vector from `heapless`, carried through as an opaque value.
#[verifier::external_type_specification]
#[verifier::external_body]
#[verifier::reject_recursive_types(T)]
pub struct ExHeaplessVec<T, const N: usize>(heapless::Vec<T, N>);

/// The endpoints that an endpoint list holds, in order.
pub uninterp spec fn endpoint_list(v: heapless::Vec<UsbEndpoint, 32>) -> Seq<UsbEndpoint>;

/// The configuration descriptors that a configuration list holds, in order.
pub uninterp spec fn config_list(v: heapless::Vec<ConfigDescriptor, 8>) -> Seq<ConfigDescriptor>;

/// `heapless::Vec::new` for an endpoint list: the list starts empty.
#[verifier::external_body]
fn endpoint_list_new() -> (r: heapless::Vec<UsbEndpoint, 32>)
    ensures
        endpoint_list(r) == Seq::<UsbEndpoint>::empty(),
{
    heapless::Vec::new()
}

/// What a push onto a full list hands back.
pub type PushResult = core::result::Result<(), UsbEndpoint>;

/// `heapless::Vec::push` for an endpoint list: appends while fewer than 32 endpoints are held,
/// and hands the endpoint back, leaving the list as it was, when it is full.
#[verifier::external_body]
fn endpoint_list_push(v: &mut heapless::Vec<UsbEndpoint, 32>, e: UsbEndpoint) -> (r: PushResult)
    ensures
        r == (if endpoint_list(*old(v)).len() < 32 {
            PushResult::Ok(())
        } else {
            PushResult::Err(e)
        }),
        endpoint_list(*final(v)) == (if endpoint_list(*old(v)).len() < 32 {
            endpoint_list(*old(v)).push(e)
        } else {
            endpoint_list(*old(v))
        }),
{
    v.push(e)
}

/// The number of endpoints in an endpoint list (`as_slice().len()`).
#[verifier::external_body]
fn endpoint_list_len(v: &heapless::Vec<UsbEndpoint, 32>) -> (r: usize)
    ensures
        r == endpoint_list(*v).len(),
{
    v.as_slice().len()
}

/// The endpoint at index `i` of an endpoint list (`as_slice()[i]`).
#[verifier::external_body]
fn endpoint_list_get(v: &heapless::Vec<UsbEndpoint, 32>, i: usize) -> (r: &UsbEndpoint)
    requires
        i < endpoint_list(*v).len(),
    ensures
        *r == endpoint_list(*v)[i as int],
{
    &v.as_slice()[i]
}

/// `heapless::Vec::new` for a configuration list: the list starts empty.
#[verifier::external_body]
fn config_list_new() -> (r: heapless::Vec<ConfigDescriptor, 8>)
    ensures
        config_list(r) == Seq::<ConfigDescriptor>::empty(),
{
    heapless::Vec::new()
}

/// What a push onto a full configuration list hands back.
pub type ConfigPushResult = core::result::Result<(), ConfigDescriptor>;

/// `heapless::Vec::push` for a configuration list: appends while fewer than 8 descriptors
/// are held, and hands the descriptor back, leaving the list as it was, when it is full.
#[verifier::external_body]
pub(crate) fn config_list_push(v: &mut heapless::Vec<ConfigDescriptor, 8>, c: ConfigDescriptor) -> (r: ConfigPushResult)
    ensures
        r == (if config_list(*old(v)).len() < 8 {
            ConfigPushResult::Ok(())
        } else {
            ConfigPushResult::Err(c)
        }),
        config_list(*final(v)) == (if config_list(*old(v)).len() < 8 {
            config_list(*old(v)).push(c)
        } else {
            config_list(*old(v))
        }),
{
    v.push(c)
}

/// The first descriptor of a configuration list (`as_slice().first()`), if it holds any.
#[verifier::external_body]
pub(crate) fn config_list_first(v: &heapless::Vec<ConfigDescriptor, 8>) -> (r: Option<&ConfigDescriptor>)
    ensures
        r is None <==> config_list(*v).len() == 0,
        r matches Some(c) ==> *c == config_list(*v)[0],
{
    v.as_slice().first()
}

/// USB device information
#[derive(Debug)]
pub struct UsbDevice {
    /// Device address (1-127)
    pub address: u8,
    /// Port number the device is connected to
    pub port: u8,
    /// Device speed
    pub speed: UsbSpeed,
    /// Current device state
    pub state: UsbDeviceState,
    /// Hub device this device is connected to (None for root hub)
    pub hub_address: Option<u8>,
    /// Hub port this device is connected to
    pub hub_port: Option<u8>,
    /// Device descriptor
    pub device_descriptor: Option<DeviceDescriptor>,
    /// Configuration descriptors
    pub config_descriptors: heapless::Vec<ConfigDescriptor, 8>,
    /// Active configuration number
    pub active_config: Option<u8>,
    /// Available endpoints
    pub endpoints: heapless::Vec<UsbEndpoint, 32>,
}

/// The index of the first endpoint in `s` whose address is `address`, if any.
pub open spec fn first_with_address(s: Seq<UsbEndpoint>, address: u8) -> Option<int> {
    if exists|i: int| 0 <= i < s.len() && endpoint_address_spec(s[i]) == address {
        Some(
            choose|i: int|
                0 <= i < s.len() && endpoint_address_spec(s[i]) == address && forall|j: int|
                    0 <= j < i ==> endpoint_address_spec(s[j]) != address,
        )
    } else {
        None
    }
}

impl UsbDevice {
    /// Create a new USB device
    pub fn new(address: u8, port: u8, speed: UsbSpeed) -> (r: Self)
        ensures
            r.address == address && r.port == port && r.speed == speed,
            r.state == UsbDeviceState::Default,
            r.hub_address.is_none() && r.hub_port.is_none(),
            r.device_descriptor.is_none() && r.active_config.is_none(),
            config_list(r.config_descriptors) == Seq::<ConfigDescriptor>::empty(),
            endpoint_list(r.endpoints) == seq![
                UsbEndpoint {
                    number: 0,
                    direction: UsbDirection::Out,
                    endpoint_type: UsbEndpointType::Control,
                    max_packet_size: control_packet_size(speed),
                    interval: 0,
                },
            ],
    {
        let mut device = Self {
            address,
            port,
            speed,
            state: UsbDeviceState::Default,
            hub_address: None,
            hub_port: None,
            device_descriptor: None,
            config_descriptors: config_list_new(),
            active_config: None,
            endpoints: endpoint_list_new(),
        };

        // Add default control endpoint
        let _ = endpoint_list_push(&mut device.endpoints, UsbEndpoint::control(speed.max_packet_size_control()));
        device
    }

    /// Get the control endpoint
    pub fn control_endpoint(&self) -> (r: &UsbEndpoint)
        requires
            endpoint_list(self.endpoints).len() > 0,
        ensures
            *r == endpoint_list(self.endpoints)[0],
    {
        endpoint_list_get(&self.endpoints, 0)  // Control endpoint is always first
    }

    /// Find an endpoint by address
    pub fn find_endpoint(&self, address: u8) -> (r: Option<&UsbEndpoint>)
        ensures
            match first_with_address(endpoint_list(self.endpoints), address) {
                Some(i) => r.is_some() && *r.unwrap() == endpoint_list(self.endpoints)[i],
                None => r.is_none(),
            },
    {
        let n = endpoint_list_len(&self.endpoints);
        let ghost s = endpoint_list(self.endpoints);
        let mut i: usize = 0;
        while i < n
            invariant
                n == s.len(),
                s == endpoint_list(self.endpoints),
                i <= n,
                forall|j: int| 0 <= j < i ==> endpoint_address_spec(#[trigger] s[j]) != address,
            decreases n - i,
        {
            let ep = endpoint_list_get(&self.endpoints, i);
            if ep.address() == address {
                proof {
                    assert(exists|k: int| 0 <= k < s.len() && endpoint_address_spec(s[k]) == address) by {
                        assert(endpoint_address_spec(s[i as int]) == address);
                    }
                    let c = choose|k: int|
                        0 <= k < s.len() && endpoint_address_spec(s[k]) == address && forall|j: int|
                            0 <= j < k ==> endpoint_address_spec(s[j]) != address;
                    assert(0 <= i < s.len() && endpoint_address_spec(s[i as int]) == address && forall|j: int|
                            0 <= j < i ==> endpoint_address_spec(s[j]) != address);
                    if c < i {
                        assert(endpoint_address_spec(s[c]) != address);
                    } else if c > i {
                        assert(endpoint_address_spec(s[i as int]) != address);
                    }
                }
                return Some(ep);
            }
            i = i + 1;
        }
        None
    }

    /// Add an endpoint to the device
    pub fn add_endpoint(&mut self, endpoint: UsbEndpoint) -> (r: core::result::Result<(), ()>)
        ensures
            endpoint_list(old(self).endpoints).len() < 32 ==> r is Ok && endpoint_list(
                final(self).endpoints,
            ) == endpoint_list(old(self).endpoints).push(endpoint),
            endpoint_list(old(self).endpoints).len() >= 32 ==> r is Err && endpoint_list(
                final(self).endpoints,
            ) == endpoint_list(old(self).endpoints),
            final(self).address == old(self).address && final(self).port == old(self).port
                && final(self).speed == old(self).speed && final(self).state == old(self).state,
            config_list(final(self).config_descriptors) == config_list(old(self).config_descriptors),
            final(self).device_descriptor == old(self).device_descriptor,
            final(self).active_config == old(self).active_config,
    {
        match endpoint_list_push(&mut self.endpoints, endpoint) {
            Ok(()) => Ok(()),
            Err(_) => Err(()),
        }
    }
}


/// The control packet size and the xHCI speed code of a speed agree with the USB speed
/// classes: low-speed devices (protocol speed ID 2) have 8-byte control packets, full- and
/// high-speed devices (IDs 1 and 3) 64 bytes, and SuperSpeed devices (IDs 4 and 5) 512 bytes;
/// each speed has its own ID.
pub proof fn lemma_speed_classes(s: UsbSpeed, t: UsbSpeed)
    ensures
        xhci_speed_code(UsbSpeed::Full) == 1 && xhci_speed_code(UsbSpeed::Low) == 2
            && xhci_speed_code(UsbSpeed::High) == 3 && xhci_speed_code(UsbSpeed::Super) == 4
            && xhci_speed_code(UsbSpeed::SuperPlus) == 5,
        1 <= xhci_speed_code(s) <= 5,
        xhci_speed_code(s) == xhci_speed_code(t) ==> s == t,
        control_packet_size(s) == 8 <==> xhci_speed_code(s) == 2,
        control_packet_size(s) == 64 <==> (xhci_speed_code(s) == 1 || xhci_speed_code(s) == 3),
        control_packet_size(s) == 512 <==> xhci_speed_code(s) >= 4,
        control_packet_size(UsbSpeed::Low) == 8 && control_packet_size(UsbSpeed::Full) == 64
            && control_packet_size(UsbSpeed::High) == 64 && control_packet_size(UsbSpeed::Super) == 512
            && control_packet_size(UsbSpeed::SuperPlus) == 512,
{
}

/// The xHCI device context index of an endpoint other than endpoint 0 follows from its address
/// byte: twice the endpoint number, plus one for IN (bit 7 of the address). So an index is odd
/// exactly for IN endpoints, half of it is the endpoint number, and no two endpoints share one.
pub proof fn lemma_xhci_index(e: UsbEndpoint, f: UsbEndpoint)
    requires
        0 < e.number < 128,
        0 < f.number < 128,
    ensures
        xhci_index_spec(e) == 2 * (endpoint_address_spec(e) & 0x7f) + (endpoint_address_spec(e) >> 7u8),
        xhci_index_spec(e) % 2 == 1 <==> e.direction == UsbDirection::In,
        xhci_index_spec(e) / 2 == e.number,
        xhci_index_spec(e) == xhci_index_spec(f) ==> e.number == f.number && e.direction == f.direction,
{
    let n = e.number;
    assert(n < 128 ==> (n | 0x80u8) & 0x7f == n && (n | 0x80u8) >> 7u8 == 1 && (n | 0u8) & 0x7f == n
        && (n | 0u8) >> 7u8 == 0) by (bit_vector);
}

/// The default control endpoint, endpoint 0, has device context index 1 in either direction,
/// an index no other endpoint has.
pub proof fn lemma_xhci_index_control(e: UsbEndpoint, f: UsbEndpoint)
    requires
        e.number == 0,
        f.number < 128,
    ensures
        xhci_index_spec(e) == 1,
        f.number > 0 ==> xhci_index_spec(f) >= 2,
{
}

/// The transfer type that an attributes byte encodes agrees with the xHCI endpoint type codes,
/// which are the same two bits plus 4 for IN: isochronous is 1, bulk 2, interrupt 3.
pub proof fn lemma_transfer_type_codes(attributes: u8)
    ensures
        attributes & 3 == 1 ==> transfer_type_spec(attributes) == UsbEndpointType::Isochronous,
        attributes & 3 == 2 ==> transfer_type_spec(attributes) == UsbEndpointType::Bulk,
        attributes & 3 == 3 ==> transfer_type_spec(attributes) == UsbEndpointType::Interrupt,
        attributes & 3 == 0 ==> transfer_type_spec(attributes) == UsbEndpointType::Control,
        attributes & 3 != 0 ==> crate::usb::xhci::context::ep_type_code(
            transfer_type_spec(attributes),
            UsbDirection::Out,
        ) == attributes & 3 && crate::usb::xhci::context::ep_type_code(
            transfer_type_spec(attributes),
            UsbDirection::In,
        ) == (attributes & 3) + 4,
{
    assert(attributes & 3 <= 3) by (bit_vector);
}
} // verus!
