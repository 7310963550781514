use vstd::prelude::*;

verus! {

/// USB Endpoint Type
#[derive(Debug, Clone, Copy, PartialEq, Eq, Structural)]
pub enum EndpointType {
    Control,
    Isochronous,
    Bulk,
    Interrupt,
}

/// The transfer-type code of each endpoint type (bmAttributes bits 0..1).
pub open spec fn endpoint_type_code(t: EndpointType) -> u8 {
    match t {
        EndpointType::Control => 0,
        EndpointType::Isochronous => 1,
        EndpointType::Bulk => 2,
        EndpointType::Interrupt => 3,
    }
}

impl From<EndpointType> for u8 {
    fn from(t: EndpointType) -> (r: u8) {
        match t {
            EndpointType::Control => 0,
            EndpointType::Isochronous => 1,
            EndpointType::Bulk => 2,
            EndpointType::Interrupt => 3,
        }
    }
}

impl vstd::std_specs::convert::FromSpecImpl<EndpointType> for u8 {
    open spec fn obeys_from_spec() -> bool {
        true
    }

    open spec fn from_spec(t: EndpointType) -> u8 {
        endpoint_type_code(t)
    }
}

/// USB Endpoint Direction
#[derive(Debug, Clone, Copy, PartialEq, Eq, Structural)]
pub enum EndpointDirection {
    Out,
    In,
}

/// What an endpoint holds: its address, type, packet size, interval, and the data toggle
/// and stall flags.
pub struct EndpointView {
    pub address: u8,
    pub endpoint_type: EndpointType,
    pub max_packet_size: u16,
    pub interval: u8,
    pub toggle: bool,
    pub stalled: bool,
}

/// The address byte of an endpoint: its number with bit 7 set for IN.
pub open spec fn endpoint_address(number: u8, direction: EndpointDirection) -> u8 {
    number | if direction == EndpointDirection::In { 0x80u8 } else { 0x00u8 }
}

/// The direction that bit 7 of an address encodes.
pub open spec fn direction_of(address: u8) -> EndpointDirection {
    if address & 0x80 != 0 {
        EndpointDirection::In
    } else {
        EndpointDirection::Out
    }
}

/// Polling interval in microframes: 2^(bInterval-1) for periodic endpoints (1 for a
/// bInterval of 0), none for control and bulk endpoints.
pub open spec fn microframes(t: EndpointType, interval: u8) -> u16 {
    match t {
        EndpointType::Isochronous | EndpointType::Interrupt => if interval == 0 {
            1u16
        } else {
            1u16 << ((interval - 1) as u16)
        },
        _ => 0u16,
    }
}

/// USB Endpoint
#[derive(Debug)]
pub struct Endpoint {
    /// Endpoint address (including direction bit)
    address: u8,
    /// Endpoint type
    endpoint_type: EndpointType,
    /// Maximum packet size
    max_packet_size: u16,
    /// Interval for polling (for interrupt/isochronous endpoints)
    interval: u8,
    /// Current toggle state (0 or 1)
    toggle: u8,
    /// Endpoint is stalled (0 or 1)
    stalled: u8,
}

impl View for Endpoint {
    type V = EndpointView;

    closed spec fn view(&self) -> EndpointView {
        EndpointView {
            address: self.address,
            endpoint_type: self.endpoint_type,
            max_packet_size: self.max_packet_size,
            interval: self.interval,
            toggle: self.toggle != 0,
            stalled: self.stalled != 0,
        }
    }
}

/// Flipping a 0/1 flag with exclusive-or gives the other value.
proof fn lemma_xor_one(x: u8)
    by (bit_vector)
    requires
        x <= 1,
    ensures
        x ^ 1u8 <= 1,
        (x ^ 1u8 != 0) == (x == 0),
{
}

impl Endpoint {
    #[verifier::type_invariant]
    closed spec fn flags_are_bits(&self) -> bool {
        self.toggle <= 1 && self.stalled <= 1
    }

    /// Create a new endpoint
    pub fn new(
        number: u8,
        direction: EndpointDirection,
        endpoint_type: EndpointType,
        max_packet_size: u16,
        interval: u8,
    ) -> (r: Self)
        ensures
            r@ == (EndpointView {
                address: endpoint_address(number, direction),
                endpoint_type,
                max_packet_size,
                interval,
                toggle: false,
                stalled: false,
            }),
    {
        let address = number | match direction {
            EndpointDirection::Out => 0x00,
            EndpointDirection::In => 0x80,
        };

        Self { address, endpoint_type, max_packet_size, interval, toggle: 0, stalled: 0 }
    }

    /// Get endpoint address
    pub fn address(&self) -> (r: u8)
        ensures
            r == self@.address,
    {
        self.address
    }

    /// Get endpoint number
    pub fn number(&self) -> (r: u8)
        ensures
            r == self@.address & 0x7f,
    {
        self.address & 0x7F
    }

    /// Get endpoint direction
    pub fn direction(&self) -> (r: EndpointDirection)
        ensures
            r == direction_of(self@.address),
    {
        if self.address & 0x80 != 0 {
            EndpointDirection::In
        } else {
            EndpointDirection::Out
        }
    }

    /// Get endpoint type
    pub fn endpoint_type(&self) -> (r: EndpointType)
        ensures
            r == self@.endpoint_type,
    {
        self.endpoint_type
    }

    /// Get maximum packet size
    pub fn max_packet_size(&self) -> (r: u16)
        ensures
            r == self@.max_packet_size,
    {
        self.max_packet_size
    }

    /// Set maximum packet size
    pub fn set_max_packet_size(&mut self, size: u16)
        ensures
            final(self)@ == (EndpointView { max_packet_size: size, ..old(self)@ }),
    {
        proof {
            use_type_invariant(&*self);
        }
        self.max_packet_size = size;
    }

    /// Get polling interval
    pub fn interval(&self) -> (r: u8)
        ensures
            r == self@.interval,
    {
        self.interval
    }

    /// Get current toggle state
    pub fn toggle(&self) -> (r: bool)
        ensures
            r == self@.toggle,
    {
        self.toggle != 0
    }

    /// Set toggle state
    pub fn set_toggle(&mut self, toggle: bool)
        ensures
            final(self)@ == (EndpointView { toggle, ..old(self)@ }),
    {
        proof {
            use_type_invariant(&*self);
        }
        self.toggle = if toggle {
            1
        } else {
            0
        };
    }

    /// Toggle the data toggle; returns the new state
    pub fn flip_toggle(&mut self) -> (r: bool)
        ensures
            r == !old(self)@.toggle,
            final(self)@ == (EndpointView { toggle: !old(self)@.toggle, ..old(self)@ }),
    {
        proof {
            use_type_invariant(&*self);
            lemma_xor_one(self.toggle);
        }
        let old = self.toggle;
        self.toggle = old ^ 1;
        old == 0  // Return new state
    }

    /// Check if endpoint is stalled
    pub fn is_stalled(&self) -> (r: bool)
        ensures
            r == self@.stalled,
    {
        self.stalled != 0
    }

    /// Set stall state
    pub fn set_stalled(&mut self, stalled: bool)
        ensures
            final(self)@ == (EndpointView { stalled, ..old(self)@ }),
    {
        proof {
            use_type_invariant(&*self);
        }
        self.stalled = if stalled {
            1
        } else {
            0
        };
    }

    /// Clear stall and reset toggle
    pub fn clear_stall(&mut self)
        ensures
            final(self)@ == (EndpointView { stalled: false, toggle: false, ..old(self)@ }),
    {
        proof {
            use_type_invariant(&*self);
        }
        self.stalled = 0;
        self.toggle = 0;
    }

    /// Check if this is a control endpoint
    pub fn is_control(&self) -> (r: bool)
        ensures
            r == (self@.endpoint_type == EndpointType::Control),
    {
        self.endpoint_type == EndpointType::Control
    }

    /// Check if this is an input endpoint
    pub fn is_in(&self) -> (r: bool)
        ensures
            r == (direction_of(self@.address) == EndpointDirection::In),
    {
        self.direction() == EndpointDirection::In
    }

    /// Check if this is an output endpoint
    pub fn is_out(&self) -> (r: bool)
        ensures
            r == (direction_of(self@.address) == EndpointDirection::Out),
    {
        self.direction() == EndpointDirection::Out
    }

    /// Calculate the actual interval in microframes for high-speed devices. A shift of 16
    /// or more does not fit the 16-bit result, so periodic endpoints need bInterval <= 16.
    pub fn microframe_interval(&self) -> (r: u16)
        requires
            (self@.endpoint_type == EndpointType::Isochronous || self@.endpoint_type
                == EndpointType::Interrupt) ==> self@.interval <= 16,
        ensures
            r == microframes(self@.endpoint_type, self@.interval),
    {
        match self.endpoint_type {
            EndpointType::Isochronous => {
                // For isochronous endpoints, interval is 2^(bInterval-1)
                if self.interval == 0 {
                    1
                } else {
                    1u16 << ((self.interval - 1) as u16)
                }
            },
            EndpointType::Interrupt => {
                // For interrupt endpoints, interval is 2^(bInterval-1)
                if self.interval == 0 {
                    1
                } else {
                    1u16 << ((self.interval - 1) as u16)
                }
            },
            _ => 0,  // Control and bulk endpoints don't use intervals
        }
    }

    /// Get the wMaxPacketSize field value for descriptors (no extra transactions per
    /// microframe are encoded)
    pub fn descriptor_max_packet_size(&self) -> (r: u16)
        ensures
            r == self@.max_packet_size,
    {
        let base_size = self.max_packet_size();

        // For high-speed isochronous and interrupt endpoints, bits 12-11 could indicate
        // additional transactions per microframe; none are set here
        match self.endpoint_type {
            EndpointType::Isochronous | EndpointType::Interrupt => base_size,
            _ => base_size,
        }
    }

    /// Create a control endpoint (always bidirectional, endpoint 0)
    pub fn control(max_packet_size: u16) -> (r: Self)
        ensures
            r@ == (EndpointView {
                address: 0,
                endpoint_type: EndpointType::Control,
                max_packet_size,
                interval: 0,
                toggle: false,
                stalled: false,
            }),
    {
        proof {
            assert(0u8 | 0x00u8 == 0u8) by (bit_vector);
        }
        Self::new(0, EndpointDirection::Out, EndpointType::Control, max_packet_size, 0)
    }

    /// Create a bulk IN endpoint
    pub fn bulk_in(number: u8, max_packet_size: u16) -> (r: Self)
        ensures
            r@ == (EndpointView {
                address: endpoint_address(number, EndpointDirection::In),
                endpoint_type: EndpointType::Bulk,
                max_packet_size,
                interval: 0,
                toggle: false,
                stalled: false,
            }),
    {
        Self::new(number, EndpointDirection::In, EndpointType::Bulk, max_packet_size, 0)
    }

    /// Create a bulk OUT endpoint
    pub fn bulk_out(number: u8, max_packet_size: u16) -> (r: Self)
        ensures
            r@ == (EndpointView {
                address: endpoint_address(number, EndpointDirection::Out),
                endpoint_type: EndpointType::Bulk,
                max_packet_size,
                interval: 0,
                toggle: false,
                stalled: false,
            }),
    {
        Self::new(number, EndpointDirection::Out, EndpointType::Bulk, max_packet_size, 0)
    }

    /// Create an interrupt IN endpoint
    pub fn interrupt_in(number: u8, max_packet_size: u16, interval: u8) -> (r: Self)
        ensures
            r@ == (EndpointView {
                address: endpoint_address(number, EndpointDirection::In),
                endpoint_type: EndpointType::Interrupt,
                max_packet_size,
                interval,
                toggle: false,
                stalled: false,
            }),
    {
        Self::new(number, EndpointDirection::In, EndpointType::Interrupt, max_packet_size, interval)
    }

    /// Create an interrupt OUT endpoint
    pub fn interrupt_out(number: u8, max_packet_size: u16, interval: u8) -> (r: Self)
        ensures
            r@ == (EndpointView {
                address: endpoint_address(number, EndpointDirection::Out),
                endpoint_type: EndpointType::Interrupt,
                max_packet_size,
                interval,
                toggle: false,
                stalled: false,
            }),
    {
        Self::new(number, EndpointDirection::Out, EndpointType::Interrupt, max_packet_size, interval)
    }

    /// Create an isochronous IN endpoint
    pub fn isochronous_in(number: u8, max_packet_size: u16, interval: u8) -> (r: Self)
        ensures
            r@ == (EndpointView {
                address: endpoint_address(number, EndpointDirection::In),
                endpoint_type: EndpointType::Isochronous,
                max_packet_size,
                interval,
                toggle: false,
                stalled: false,
            }),
    {
        Self::new(number, EndpointDirection::In, EndpointType::Isochronous, max_packet_size, interval)
    }

    /// Create an isochronous OUT endpoint
    pub fn isochronous_out(number: u8, max_packet_size: u16, interval: u8) -> (r: Self)
        ensures
            r@ == (EndpointView {
                address: endpoint_address(number, EndpointDirection::Out),
                endpoint_type: EndpointType::Isochronous,
                max_packet_size,
                interval,
                toggle: false,
                stalled: false,
            }),
    {
        Self::new(number, EndpointDirection::Out, EndpointType::Isochronous, max_packet_size, interval)
    }
}

/// Endpoint Builder for easier construction
pub struct EndpointBuilder {
    pub number: u8,
    pub direction: EndpointDirection,
    pub endpoint_type: EndpointType,
    pub max_packet_size: u16,
    pub interval: u8,
}

/// The default packet size of each endpoint type.
pub open spec fn default_packet_size(t: EndpointType) -> u16 {
    match t {
        EndpointType::Control => 64,
        EndpointType::Bulk => 512,
        EndpointType::Interrupt => 64,
        EndpointType::Isochronous => 1024,
    }
}

/// The default polling interval of each endpoint type.
pub open spec fn default_interval(t: EndpointType) -> u8 {
    match t {
        EndpointType::Interrupt | EndpointType::Isochronous => 1,
        _ => 0,
    }
}

impl EndpointBuilder {
    /// Create a new endpoint builder
    pub fn new(number: u8, direction: EndpointDirection, endpoint_type: EndpointType) -> (r: Self)
        ensures
            r.number == number && r.direction == direction && r.endpoint_type == endpoint_type,
            r.max_packet_size == default_packet_size(endpoint_type),
            r.interval == default_interval(endpoint_type),
    {
        Self {
            number,
            direction,
            endpoint_type,
            max_packet_size: match endpoint_type {
                EndpointType::Control => 64,
                EndpointType::Bulk => 512,
                EndpointType::Interrupt => 64,
                EndpointType::Isochronous => 1024,
            },
            interval: match endpoint_type {
                EndpointType::Interrupt => 1,
                EndpointType::Isochronous => 1,
                _ => 0,
            },
        }
    }

    /// Set maximum packet size
    pub fn max_packet_size(self, size: u16) -> (r: Self)
        ensures
            r == (EndpointBuilder { max_packet_size: size, ..self }),
    {
        let mut b = self;
        b.max_packet_size = size;
        b
    }

    /// Set polling interval
    pub fn interval(self, interval: u8) -> (r: Self)
        ensures
            r == (EndpointBuilder { interval, ..self }),
    {
        let mut b = self;
        b.interval = interval;
        b
    }

    /// Build the endpoint
    pub fn build(self) -> (r: Endpoint)
        ensures
            r@ == (EndpointView {
                address: endpoint_address(self.number, self.direction),
                endpoint_type: self.endpoint_type,
                max_packet_size: self.max_packet_size,
                interval: self.interval,
                toggle: false,
                stalled: false,
            }),
    {
        Endpoint::new(self.number, self.direction, self.endpoint_type, self.max_packet_size, self.interval)
    }
}

/// Two flips of the data toggle leave it as it was, and a cleared stall also resets it.
pub proof fn lemma_toggle_flip_twice(v: EndpointView)
    ensures
        (EndpointView { toggle: !(EndpointView { toggle: !v.toggle, ..v }).toggle, ..v }) == v,
{
}

} // verus!
