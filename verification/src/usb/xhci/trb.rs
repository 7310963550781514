use vstd::prelude::*;
use crate::bits::{lemma_and_bounds, lemma_flag32, with_flag32};
use crate::usb::types::{SetupPacket, UsbDirection};

/// TRB Completion Codes
pub mod completion_codes;

verus! {

/// TRB Types
#[derive(Debug, Clone, Copy, PartialEq, Eq, Structural)]
pub enum TrbType {
    Normal,
    SetupStage,
    DataStage,
    StatusStage,
    Isoch,
    Link,
    EventData,
    NoOp,
    EnableSlotCommand,
    DisableSlotCommand,
    AddressDeviceCommand,
    ConfigureEndpointCommand,
    EvaluateContextCommand,
    ResetEndpointCommand,
    StopEndpointCommand,
    SetTrDequeuePointerCommand,
    ResetDeviceCommand,
    ForceEventCommand,
    NegotiateBandwidthCommand,
    SetLatencyToleranceCommand,
    GetPortBandwidthCommand,
    ForceHeaderCommand,
    NoOpCommand,
    TransferEvent,
    CommandCompletionEvent,
    PortStatusChangeEvent,
    BandwidthRequestEvent,
    DoorbellEvent,
    HostControllerEvent,
    DeviceNotificationEvent,
    MfindexWrapEvent,
    // Unknown TRB type
    Unknown,
}

/// The type code that xHCI assigns to each TRB type.
pub open spec fn trb_code(t: TrbType) -> u8 {
    match t {
        TrbType::Normal => 1,
        TrbType::SetupStage => 2,
        TrbType::DataStage => 3,
        TrbType::StatusStage => 4,
        TrbType::Isoch => 5,
        TrbType::Link => 6,
        TrbType::EventData => 7,
        TrbType::NoOp => 8,
        TrbType::EnableSlotCommand => 9,
        TrbType::DisableSlotCommand => 10,
        TrbType::AddressDeviceCommand => 11,
        TrbType::ConfigureEndpointCommand => 12,
        TrbType::EvaluateContextCommand => 13,
        TrbType::ResetEndpointCommand => 14,
        TrbType::StopEndpointCommand => 15,
        TrbType::SetTrDequeuePointerCommand => 16,
        TrbType::ResetDeviceCommand => 17,
        TrbType::ForceEventCommand => 18,
        TrbType::NegotiateBandwidthCommand => 19,
        TrbType::SetLatencyToleranceCommand => 20,
        TrbType::GetPortBandwidthCommand => 21,
        TrbType::ForceHeaderCommand => 22,
        TrbType::NoOpCommand => 23,
        TrbType::TransferEvent => 32,
        TrbType::CommandCompletionEvent => 33,
        TrbType::PortStatusChangeEvent => 34,
        TrbType::BandwidthRequestEvent => 35,
        TrbType::DoorbellEvent => 36,
        TrbType::HostControllerEvent => 37,
        TrbType::DeviceNotificationEvent => 38,
        TrbType::MfindexWrapEvent => 39,
        TrbType::Unknown => 255,
    }
}

/// The TRB type that a type code stands for.
pub open spec fn trb_type_of(v: u8) -> TrbType {
    if v == 1 {
        TrbType::Normal
    } else if v == 2 {
        TrbType::SetupStage
    } else if v == 3 {
        TrbType::DataStage
    } else if v == 4 {
        TrbType::StatusStage
    } else if v == 5 {
        TrbType::Isoch
    } else if v == 6 {
        TrbType::Link
    } else if v == 7 {
        TrbType::EventData
    } else if v == 8 {
        TrbType::NoOp
    } else if v == 9 {
        TrbType::EnableSlotCommand
    } else if v == 10 {
        TrbType::DisableSlotCommand
    } else if v == 11 {
        TrbType::AddressDeviceCommand
    } else if v == 12 {
        TrbType::ConfigureEndpointCommand
    } else if v == 13 {
        TrbType::EvaluateContextCommand
    } else if v == 14 {
        TrbType::ResetEndpointCommand
    } else if v == 15 {
        TrbType::StopEndpointCommand
    } else if v == 16 {
        TrbType::SetTrDequeuePointerCommand
    } else if v == 17 {
        TrbType::ResetDeviceCommand
    } else if v == 18 {
        TrbType::ForceEventCommand
    } else if v == 19 {
        TrbType::NegotiateBandwidthCommand
    } else if v == 20 {
        TrbType::SetLatencyToleranceCommand
    } else if v == 21 {
        TrbType::GetPortBandwidthCommand
    } else if v == 22 {
        TrbType::ForceHeaderCommand
    } else if v == 23 {
        TrbType::NoOpCommand
    } else if v == 32 {
        TrbType::TransferEvent
    } else if v == 33 {
        TrbType::CommandCompletionEvent
    } else if v == 34 {
        TrbType::PortStatusChangeEvent
    } else if v == 35 {
        TrbType::BandwidthRequestEvent
    } else if v == 36 {
        TrbType::DoorbellEvent
    } else if v == 37 {
        TrbType::HostControllerEvent
    } else if v == 38 {
        TrbType::DeviceNotificationEvent
    } else if v == 39 {
        TrbType::MfindexWrapEvent
    } else {
        TrbType::Unknown
    }
}

impl TrbType {
    /// The type code of this TRB type.
    pub fn code(self) -> (r: u8)
        ensures
            r == trb_code(self),
    {
        match self {
            TrbType::Normal => 1,
            TrbType::SetupStage => 2,
            TrbType::DataStage => 3,
            TrbType::StatusStage => 4,
            TrbType::Isoch => 5,
            TrbType::Link => 6,
            TrbType::EventData => 7,
            TrbType::NoOp => 8,
            TrbType::EnableSlotCommand => 9,
            TrbType::DisableSlotCommand => 10,
            TrbType::AddressDeviceCommand => 11,
            TrbType::ConfigureEndpointCommand => 12,
            TrbType::EvaluateContextCommand => 13,
            TrbType::ResetEndpointCommand => 14,
            TrbType::StopEndpointCommand => 15,
            TrbType::SetTrDequeuePointerCommand => 16,
            TrbType::ResetDeviceCommand => 17,
            TrbType::ForceEventCommand => 18,
            TrbType::NegotiateBandwidthCommand => 19,
            TrbType::SetLatencyToleranceCommand => 20,
            TrbType::GetPortBandwidthCommand => 21,
            TrbType::ForceHeaderCommand => 22,
            TrbType::NoOpCommand => 23,
            TrbType::TransferEvent => 32,
            TrbType::CommandCompletionEvent => 33,
            TrbType::PortStatusChangeEvent => 34,
            TrbType::BandwidthRequestEvent => 35,
            TrbType::DoorbellEvent => 36,
            TrbType::HostControllerEvent => 37,
            TrbType::DeviceNotificationEvent => 38,
            TrbType::MfindexWrapEvent => 39,
            TrbType::Unknown => 255,
        }
    }
}

impl From<u8> for TrbType {
    fn from(value: u8) -> (r: Self) {
        match value {
            1 => TrbType::Normal,
            2 => TrbType::SetupStage,
            3 => TrbType::DataStage,
            4 => TrbType::StatusStage,
            5 => TrbType::Isoch,
            6 => TrbType::Link,
            7 => TrbType::EventData,
            8 => TrbType::NoOp,
            9 => TrbType::EnableSlotCommand,
            10 => TrbType::DisableSlotCommand,
            11 => TrbType::AddressDeviceCommand,
            12 => TrbType::ConfigureEndpointCommand,
            13 => TrbType::EvaluateContextCommand,
            14 => TrbType::ResetEndpointCommand,
            15 => TrbType::StopEndpointCommand,
            16 => TrbType::SetTrDequeuePointerCommand,
            17 => TrbType::ResetDeviceCommand,
            18 => TrbType::ForceEventCommand,
            19 => TrbType::NegotiateBandwidthCommand,
            20 => TrbType::SetLatencyToleranceCommand,
            21 => TrbType::GetPortBandwidthCommand,
            22 => TrbType::ForceHeaderCommand,
            23 => TrbType::NoOpCommand,
            32 => TrbType::TransferEvent,
            33 => TrbType::CommandCompletionEvent,
            34 => TrbType::PortStatusChangeEvent,
            35 => TrbType::BandwidthRequestEvent,
            36 => TrbType::DoorbellEvent,
            37 => TrbType::HostControllerEvent,
            38 => TrbType::DeviceNotificationEvent,
            39 => TrbType::MfindexWrapEvent,
            _ => TrbType::Unknown,
        }
    }
}

impl vstd::std_specs::convert::FromSpecImpl<u8> for TrbType {
    open spec fn obeys_from_spec() -> bool {
        true
    }

    open spec fn from_spec(v: u8) -> Self {
        trb_type_of(v)
    }
}

/// Every known TRB type survives the round trip through its code.
pub proof fn lemma_trb_code_roundtrip(t: TrbType)
    requires
        t != TrbType::Unknown,
    ensures
        trb_type_of(trb_code(t)) == t,
        trb_code(t) < 64,
{
}

/// Generic TRB structure (16 bytes)
#[derive(Debug, Clone, Copy, PartialEq, Eq, Structural)]
pub struct Trb {
    /// Parameter or data (64-bit)
    pub parameter: u64,
    /// Status field (32-bit)
    pub status: u32,
    /// Control field (32-bit)
    pub control: u32,
}

/// The cycle bit value of a flag.
pub open spec fn cyc(b: bool) -> u32 {
    if b {
        1
    } else {
        0
    }
}

/// The control word with the type field (bits 10..15) replaced by `code`.
pub open spec fn with_type(control: u32, code: u8) -> u32 {
    (control & !0xfc00u32) | ((code as u32) << 10u32)
}

/// The type code that a control word holds.
pub open spec fn type_field(control: u32) -> u8 {
    ((control >> 10u32) & 0x3fu32) as u8
}

/// The closed forms of the control words that the TRB builders produce.
pub proof fn lemma_trb_forms(cycle: bool, flag: bool, tt: u32, id: u32)
    by (bit_vector)
    requires
        tt <= 3,
        id <= 255,
    ensures
        with_flag32(
            with_flag32(with_flag32(with_type(0, 2), 1, cycle), 0x20, false),
            0x40,
            true,
        ) | ((tt & 3) << 16u32) == 0x840u32 | cyc(cycle) | (tt << 16u32),
        with_flag32(with_flag32(with_type(0, 3), 1, cycle), 0x20, false) | (if flag {
            0x10000u32
        } else {
            0u32
        }) == 0xc00u32 | cyc(cycle) | (if flag {
            0x10000u32
        } else {
            0u32
        }),
        with_flag32(with_flag32(with_type(0, 4), 1, cycle), 0x20, true) | (if flag {
            0x10000u32
        } else {
            0u32
        }) == 0x1020u32 | cyc(cycle) | (if flag {
            0x10000u32
        } else {
            0u32
        }),
        with_flag32(with_flag32(with_type(0, 1), 1, cycle), 0x20, flag) == 0x400u32 | cyc(cycle) | (
        if flag {
            0x20u32
        } else {
            0u32
        }),
        with_flag32(with_flag32(with_type(0, 6), 1, cycle), 2, flag) == 0x1800u32 | cyc(cycle) | (
        if flag {
            2u32
        } else {
            0u32
        }),
        with_flag32(with_type(id << 16u32, 9), 1, cycle) == (id << 16u32) | 0x2400u32 | cyc(cycle),
        with_flag32(with_type(id << 24u32, 10), 1, cycle) == (id << 24u32) | 0x2800u32 | cyc(cycle),
        with_flag32(
            with_type(
                (id << 24u32) | (if flag {
                    0x200u32
                } else {
                    0u32
                }),
                11,
            ),
            1,
            cycle,
        ) == (id << 24u32) | (if flag {
            0x200u32
        } else {
            0u32
        }) | 0x2c00u32 | cyc(cycle),
        with_flag32(
            with_type(
                (id << 24u32) | (if flag {
                    0x200u32
                } else {
                    0u32
                }),
                12,
            ),
            1,
            cycle,
        ) == (id << 24u32) | (if flag {
            0x200u32
        } else {
            0u32
        }) | 0x3000u32 | cyc(cycle),
        with_flag32(with_type(0, 23), 1, cycle) == 0x5c00u32 | cyc(cycle),
        type_field(0x840u32 | cyc(cycle) | (tt << 16u32)) == 2,
{
}

/// Writing a type code below 64 and reading it back gives the code.
pub proof fn lemma_type_field_roundtrip(control: u32, code: u8)
    by (bit_vector)
    requires
        code < 64,
    ensures
        type_field(with_type(control, code)) == code,
        with_type(control, code) & !0xfc00u32 == control & !0xfc00u32,
{
}

impl Trb {
    /// Create a new TRB
    pub fn new() -> (r: Self)
        ensures
            r.parameter == 0,
            r.status == 0,
            r.control == 0,
    {
        Self { parameter: 0, status: 0, control: 0 }
    }

    /// Get the TRB type
    pub fn trb_type(&self) -> (r: TrbType)
        ensures
            r == trb_type_of(type_field(self.control)),
    {
        proof {
            lemma_and_bounds();
        }
        TrbType::from(((self.control >> 10) & 0x3f) as u8)
    }

    /// Set the TRB type
    pub fn set_trb_type(&mut self, trb_type: TrbType)
        ensures
            final(self).control == with_type(old(self).control, trb_code(trb_type)),
            final(self).parameter == old(self).parameter,
            final(self).status == old(self).status,
    {
        self.control = (self.control & !0xfc00) | ((trb_type.code() as u32) << 10);
    }

    /// Get the cycle bit
    pub fn cycle_bit(&self) -> (r: bool)
        ensures
            r == (self.control & 0x01 != 0),
    {
        (self.control & 0x01) != 0
    }

    /// Set the cycle bit
    pub fn set_cycle_bit(&mut self, cycle: bool)
        ensures
            final(self).control == with_flag32(old(self).control, 0x01, cycle),
            final(self).parameter == old(self).parameter,
            final(self).status == old(self).status,
    {
        if cycle {
            self.control = self.control | 0x01;
        } else {
            self.control = self.control & !0x01;
        }
    }

    /// Get the toggle cycle bit
    pub fn toggle_cycle(&self) -> (r: bool)
        ensures
            r == (self.control & 0x02 != 0),
    {
        (self.control & 0x02) != 0
    }

    /// Set the toggle cycle bit
    pub fn set_toggle_cycle(&mut self, toggle: bool)
        ensures
            final(self).control == with_flag32(old(self).control, 0x02, toggle),
            final(self).parameter == old(self).parameter,
            final(self).status == old(self).status,
    {
        if toggle {
            self.control = self.control | 0x02;
        } else {
            self.control = self.control & !0x02;
        }
    }

    /// Get the interrupt on completion bit
    pub fn interrupt_on_completion(&self) -> (r: bool)
        ensures
            r == (self.control & 0x20 != 0),
    {
        (self.control & 0x20) != 0
    }

    /// Set the interrupt on completion bit
    pub fn set_interrupt_on_completion(&mut self, ioc: bool)
        ensures
            final(self).control == with_flag32(old(self).control, 0x20, ioc),
            final(self).parameter == old(self).parameter,
            final(self).status == old(self).status,
    {
        if ioc {
            self.control = self.control | 0x20;
        } else {
            self.control = self.control & !0x20;
        }
    }

    /// Get the immediate data bit
    pub fn immediate_data(&self) -> (r: bool)
        ensures
            r == (self.control & 0x40 != 0),
    {
        (self.control & 0x40) != 0
    }

    /// Set the immediate data bit
    pub fn set_immediate_data(&mut self, idt: bool)
        ensures
            final(self).control == with_flag32(old(self).control, 0x40, idt),
            final(self).parameter == old(self).parameter,
            final(self).status == old(self).status,
    {
        if idt {
            self.control = self.control | 0x40;
        } else {
            self.control = self.control & !0x40;
        }
    }
}

impl Default for Trb {
    fn default() -> (r: Self)
        ensures
            r.parameter == 0 && r.status == 0 && r.control == 0,
    {
        Self::new()
    }
}

/// Writing a flag of a TRB and reading it back gives the flag; the other flags stay.
pub proof fn lemma_trb_flag_roundtrip(control: u32, bit: u32, other: u32, on: bool)
    requires
        bit == 0x01 || bit == 0x02 || bit == 0x20 || bit == 0x40,
        other == 0x01 || other == 0x02 || other == 0x20 || other == 0x40,
        other != bit,
    ensures
        (with_flag32(control, bit, on) & bit != 0) == on,
        (with_flag32(control, bit, on) & other != 0) == (control & other != 0),
        type_field(with_flag32(control, bit, on)) == type_field(control),
{
    assert(other & bit == 0 && bit & ((bit - 1) as u32) == 0) by (bit_vector)
        requires
            bit == 0x01 || bit == 0x02 || bit == 0x20 || bit == 0x40,
            other == 0x01 || other == 0x02 || other == 0x20 || other == 0x40,
            other != bit,
    ;
    lemma_flag32(control, bit, other, on);
    lemma_flag_keeps_type(control, bit, on);
}

/// Flags below bit 10 leave the type field alone.
pub proof fn lemma_flag_keeps_type(control: u32, bit: u32, on: bool)
    by (bit_vector)
    requires
        bit < 0x400,
    ensures
        type_field(with_flag32(control, bit, on)) == type_field(control),
{
}

/// The 8 bytes of a setup packet, little-endian, as one 64-bit parameter.
pub open spec fn setup_parameter(p: SetupPacket) -> u64 {
    (p.request_type as u64) | ((p.request as u64) << 8u64) | ((p.value as u64) << 16u64) | ((
    p.index as u64) << 32u64) | ((p.length as u64) << 48u64)
}

/// The data stage that a setup packet announces: 0 none, 3 IN, 2 OUT.
pub open spec fn setup_transfer_type(p: SetupPacket) -> u32 {
    if p.length == 0 {
        0
    } else if p.request_type & 0x80 != 0 {
        3
    } else {
        2
    }
}

/// Setup Stage TRB for control transfers
pub struct SetupStageTrb;

impl SetupStageTrb {
    /// Create a setup stage TRB
    pub fn new(setup_packet: &SetupPacket, transfer_length: u32, cycle: bool) -> (r: Trb)
        ensures
            r.parameter == setup_parameter(*setup_packet),
            r.status == transfer_length & 0x1ffff,
            r.control == 0x840u32 | cyc(cycle) | (setup_transfer_type(*setup_packet) << 16u32),
    {
        let mut trb = Trb::new();

        // Setup packet goes in the parameter field, little-endian
        trb.parameter = (setup_packet.request_type as u64) | ((setup_packet.request as u64) << 8)
            | ((setup_packet.value as u64) << 16) | ((setup_packet.index as u64) << 32) | ((
        setup_packet.length as u64) << 48);

        trb.status = transfer_length & 0x1ffff;  // Transfer length (17 bits); TD size and target 0

        trb.set_trb_type(TrbType::SetupStage);
        trb.set_cycle_bit(cycle);
        trb.set_interrupt_on_completion(false);  // Usually don't interrupt on setup
        trb.set_immediate_data(true);  // Setup data is immediate

        // Set transfer type
        let transfer_type: u32 = if setup_packet.length == 0 {
            0  // No data stage
        } else if (setup_packet.request_type & 0x80) != 0 {
            3  // IN data stage
        } else {
            2  // OUT data stage
        };
        proof {
            lemma_trb_forms(cycle, false, transfer_type, 0);
        }
        trb.control = trb.control | ((transfer_type & 0x03) << 16);

        trb
    }
}

/// Data Stage TRB for control transfers
pub struct DataStageTrb;

impl DataStageTrb {
    /// Create a data stage TRB
    pub fn new(data_buffer: u64, transfer_length: u32, direction: UsbDirection, cycle: bool) -> (r:
        Trb)
        ensures
            r.parameter == data_buffer,
            r.status == transfer_length & 0x1ffff,
            r.control == 0xc00u32 | cyc(cycle) | (if direction == UsbDirection::In {
                0x10000u32
            } else {
                0u32
            }),
    {
        let mut trb = Trb::new();

        trb.parameter = data_buffer;
        trb.status = transfer_length & 0x1ffff;

        trb.set_trb_type(TrbType::DataStage);
        trb.set_cycle_bit(cycle);
        trb.set_interrupt_on_completion(false);
        proof {
            lemma_trb_forms(cycle, direction == UsbDirection::In, 0, 0);
        }

        // Set direction bit
        if matches!(direction, UsbDirection::In) {
            trb.control = trb.control | 0x10000;  // DIR bit
        } else {
            trb.control = trb.control | 0;
        }

        trb
    }
}

/// Status Stage TRB for control transfers
pub struct StatusStageTrb;

impl StatusStageTrb {
    /// Create a status stage TRB
    pub fn new(direction: UsbDirection, cycle: bool) -> (r: Trb)
        ensures
            r.parameter == 0,
            r.status == 0,
            r.control == 0x1020u32 | cyc(cycle) | (if direction == UsbDirection::In {
                0x10000u32
            } else {
                0u32
            }),
    {
        let mut trb = Trb::new();

        trb.set_trb_type(TrbType::StatusStage);
        trb.set_cycle_bit(cycle);
        trb.set_interrupt_on_completion(true);  // Always interrupt on status completion
        proof {
            lemma_trb_forms(cycle, direction == UsbDirection::In, 0, 0);
        }

        if matches!(direction, UsbDirection::In) {
            trb.control = trb.control | 0x10000;  // DIR bit
        } else {
            trb.control = trb.control | 0;
        }

        trb
    }
}

/// Normal TRB for bulk/interrupt transfers
pub struct NormalTrb;

impl NormalTrb {
    /// Create a normal TRB
    pub fn new(data_buffer: u64, transfer_length: u32, cycle: bool, interrupt_on_completion: bool) -> (r:
        Trb)
        ensures
            r.parameter == data_buffer,
            r.status == transfer_length & 0x1ffff,
            r.control == 0x400u32 | cyc(cycle) | (if interrupt_on_completion {
                0x20u32
            } else {
                0u32
            }),
    {
        let mut trb = Trb::new();

        trb.parameter = data_buffer;
        trb.status = transfer_length & 0x1ffff;

        trb.set_trb_type(TrbType::Normal);
        trb.set_cycle_bit(cycle);
        trb.set_interrupt_on_completion(interrupt_on_completion);
        proof {
            lemma_trb_forms(cycle, interrupt_on_completion, 0, 0);
        }

        trb
    }
}

/// Link TRB for ring segments
pub struct LinkTrb;

impl LinkTrb {
    /// Create a link TRB
    pub fn new(ring_segment: u64, cycle: bool, toggle_cycle: bool) -> (r: Trb)
        ensures
            r.parameter == ring_segment & !0x0fu64,
            r.status == 0,
            r.control == 0x1800u32 | cyc(cycle) | (if toggle_cycle {
                2u32
            } else {
                0u32
            }),
    {
        let mut trb = Trb::new();

        trb.parameter = ring_segment & !0x0f;  // Must be 16-byte aligned

        trb.set_trb_type(TrbType::Link);
        trb.set_cycle_bit(cycle);
        trb.set_toggle_cycle(toggle_cycle);
        proof {
            lemma_trb_forms(cycle, toggle_cycle, 0, 0);
        }

        trb
    }
}

/// Enable Slot Command TRB
pub struct EnableSlotCommandTrb;

impl EnableSlotCommandTrb {
    /// Create an enable slot command TRB
    pub fn new(slot_type: u8, cycle: bool) -> (r: Trb)
        ensures
            r.parameter == 0,
            r.status == 0,
            r.control == ((slot_type as u32) << 16u32) | 0x2400u32 | cyc(cycle),
    {
        let mut trb = Trb::new();

        trb.control = (slot_type as u32) << 16;

        trb.set_trb_type(TrbType::EnableSlotCommand);
        trb.set_cycle_bit(cycle);
        proof {
            lemma_trb_forms(cycle, false, 0, slot_type as u32);
        }

        trb
    }
}

/// Disable Slot Command TRB
pub struct DisableSlotCommandTrb;

impl DisableSlotCommandTrb {
    /// Create a disable slot command TRB
    pub fn new(slot_id: u8, cycle: bool) -> (r: Trb)
        ensures
            r.parameter == 0,
            r.status == 0,
            r.control == ((slot_id as u32) << 24u32) | 0x2800u32 | cyc(cycle),
    {
        let mut trb = Trb::new();

        trb.control = (slot_id as u32) << 24;

        trb.set_trb_type(TrbType::DisableSlotCommand);
        trb.set_cycle_bit(cycle);
        proof {
            lemma_trb_forms(cycle, false, 0, slot_id as u32);
        }

        trb
    }
}

/// Address Device Command TRB
pub struct AddressDeviceCommandTrb;

impl AddressDeviceCommandTrb {
    /// Create an address device command TRB
    pub fn new(input_context: u64, slot_id: u8, block_set_address_request: bool, cycle: bool) -> (r:
        Trb)
        ensures
            r.parameter == input_context & !0x0fu64,
            r.status == 0,
            r.control == ((slot_id as u32) << 24u32) | (if block_set_address_request {
                0x200u32
            } else {
                0u32
            }) | 0x2c00u32 | cyc(cycle),
    {
        let mut trb = Trb::new();

        trb.parameter = input_context & !0x0f;  // Must be 16-byte aligned
        trb.control = (slot_id as u32) << 24;

        if block_set_address_request {
            trb.control = trb.control | 0x200;  // BSR bit
        } else {
            trb.control = trb.control | 0;
        }

        trb.set_trb_type(TrbType::AddressDeviceCommand);
        trb.set_cycle_bit(cycle);
        proof {
            lemma_trb_forms(cycle, block_set_address_request, 0, slot_id as u32);
        }

        trb
    }
}

/// Configure Endpoint Command TRB
pub struct ConfigureEndpointCommandTrb;

impl ConfigureEndpointCommandTrb {
    /// Create a configure endpoint command TRB
    pub fn new(input_context: u64, slot_id: u8, deconfigure: bool, cycle: bool) -> (r: Trb)
        ensures
            r.parameter == input_context & !0x0fu64,
            r.status == 0,
            r.control == ((slot_id as u32) << 24u32) | (if deconfigure {
                0x200u32
            } else {
                0u32
            }) | 0x3000u32 | cyc(cycle),
    {
        let mut trb = Trb::new();

        trb.parameter = input_context & !0x0f;  // Must be 16-byte aligned
        trb.control = (slot_id as u32) << 24;

        if deconfigure {
            trb.control = trb.control | 0x200;  // DC bit
        } else {
            trb.control = trb.control | 0;
        }

        trb.set_trb_type(TrbType::ConfigureEndpointCommand);
        trb.set_cycle_bit(cycle);
        proof {
            lemma_trb_forms(cycle, deconfigure, 0, slot_id as u32);
        }

        trb
    }
}

/// No-Op Command TRB
pub struct NoOpCommandTrb;

impl NoOpCommandTrb {
    /// Create a no-op command TRB
    pub fn new(cycle: bool) -> (r: Trb)
        ensures
            r.parameter == 0,
            r.status == 0,
            r.control == 0x5c00u32 | cyc(cycle),
    {
        let mut trb = Trb::new();

        trb.set_trb_type(TrbType::NoOpCommand);
        trb.set_cycle_bit(cycle);
        proof {
            lemma_trb_forms(cycle, false, 0, 0);
        }

        trb
    }
}

/// The completion code in bits 24..31 of an event's status word.
pub open spec fn completion_code_of(status: u32) -> u8 {
    ((status >> 24u32) & 0xffu32) as u8
}

/// Transfer Event TRB
#[derive(Debug, Clone, Copy)]
pub struct TransferEvent {
    pub trb: Trb,
}

impl TransferEvent {
    /// Create from raw TRB
    pub fn from_trb(trb: Trb) -> (r: Self)
        ensures
            r.trb == trb,
    {
        Self { trb }
    }

    /// Get the TRB pointer
    pub fn trb_pointer(&self) -> (r: u64)
        ensures
            r == self.trb.parameter,
    {
        self.trb.parameter
    }

    /// Get the transfer length
    pub fn transfer_length(&self) -> (r: u32)
        ensures
            r == self.trb.status & 0xffffff,
    {
        self.trb.status & 0xffffff
    }

    /// Get the completion code
    pub fn completion_code(&self) -> (r: u8)
        ensures
            r == completion_code_of(self.trb.status),
    {
        proof {
            lemma_and_bounds();
        }
        ((self.trb.status >> 24) & 0xff) as u8
    }

    /// Get the endpoint ID
    pub fn endpoint_id(&self) -> (r: u8)
        ensures
            r == ((self.trb.control >> 16u32) & 0x1fu32) as u8,
    {
        proof {
            lemma_and_bounds();
        }
        ((self.trb.control >> 16) & 0x1f) as u8
    }

    /// Get the slot ID
    pub fn slot_id(&self) -> (r: u8)
        ensures
            r == ((self.trb.control >> 24u32) & 0xffu32) as u8,
    {
        proof {
            lemma_and_bounds();
        }
        ((self.trb.control >> 24) & 0xff) as u8
    }

    /// Check if this is a successful completion
    pub fn is_success(&self) -> (r: bool)
        ensures
            r == (completion_code_of(self.trb.status) == 1),
    {
        self.completion_code() == 1  // Success completion code
    }

    /// Check if this is a short packet
    pub fn is_short_packet(&self) -> (r: bool)
        ensures
            r == (completion_code_of(self.trb.status) == 13),
    {
        self.completion_code() == 13  // Short packet completion code
    }
}

/// Command Completion Event TRB
#[derive(Debug, Clone, Copy)]
pub struct CommandCompletionEvent {
    pub trb: Trb,
}

impl CommandCompletionEvent {
    /// Create from raw TRB
    pub fn from_trb(trb: Trb) -> (r: Self)
        ensures
            r.trb == trb,
    {
        Self { trb }
    }

    /// Get the command TRB pointer
    pub fn command_trb_pointer(&self) -> (r: u64)
        ensures
            r == self.trb.parameter,
    {
        self.trb.parameter
    }

    /// Get the command completion parameter
    pub fn parameter(&self) -> (r: u32)
        ensures
            r == self.trb.status & 0xffffff,
    {
        self.trb.status & 0xffffff
    }

    /// Get the completion code
    pub fn completion_code(&self) -> (r: u8)
        ensures
            r == completion_code_of(self.trb.status),
    {
        proof {
            lemma_and_bounds();
        }
        ((self.trb.status >> 24) & 0xff) as u8
    }

    /// Get the VF ID
    pub fn vf_id(&self) -> (r: u8)
        ensures
            r == ((self.trb.control >> 16u32) & 0xffu32) as u8,
    {
        proof {
            lemma_and_bounds();
        }
        ((self.trb.control >> 16) & 0xff) as u8
    }

    /// Get the slot ID
    pub fn slot_id(&self) -> (r: u8)
        ensures
            r == ((self.trb.control >> 24u32) & 0xffu32) as u8,
    {
        proof {
            lemma_and_bounds();
        }
        ((self.trb.control >> 24) & 0xff) as u8
    }

    /// Check if this is a successful completion
    pub fn is_success(&self) -> (r: bool)
        ensures
            r == (completion_code_of(self.trb.status) == 1),
    {
        self.completion_code() == 1  // Success completion code
    }
}

/// Port Status Change Event TRB
#[derive(Debug, Clone, Copy)]
pub struct PortStatusChangeEvent {
    pub trb: Trb,
}

impl PortStatusChangeEvent {
    /// Create from raw TRB
    pub fn from_trb(trb: Trb) -> (r: Self)
        ensures
            r.trb == trb,
    {
        Self { trb }
    }

    /// Get the port ID
    pub fn port_id(&self) -> (r: u8)
        ensures
            r == ((self.trb.parameter >> 24u64) & 0xffu64) as u8,
    {
        proof {
            lemma_and_bounds();
        }
        ((self.trb.parameter >> 24) & 0xff) as u8
    }

    /// Get the completion code
    pub fn completion_code(&self) -> (r: u8)
        ensures
            r == completion_code_of(self.trb.status),
    {
        proof {
            lemma_and_bounds();
        }
        ((self.trb.status >> 24) & 0xff) as u8
    }
}

} // verus!
