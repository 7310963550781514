pub mod context;
pub mod controller;
pub mod registers;
pub mod ring;
pub mod transfer;
pub mod trb;

use vstd::prelude::*;
use crate::bits::lemma_and_bounds;
use crate::usb::types::{xhci_speed_code, UsbSpeed};

verus! {

/// xHCI controller capability parameters
#[derive(Debug, Clone, Copy)]
pub struct XhciCapabilities {
    /// Capability register length
    pub cap_length: u8,
    /// HCI version
    pub hci_version: u16,
    /// Structural parameters 1
    pub hcsparams1: u32,
    /// Structural parameters 2
    pub hcsparams2: u32,
    /// Structural parameters 3
    pub hcsparams3: u32,
    /// Capability parameters 1
    pub hccparams1: u32,
    /// Doorbell offset
    pub doorbell_offset: u32,
    /// Runtime register space offset
    pub runtime_offset: u32,
    /// Capability parameters 2
    pub hccparams2: u32,
}

impl XhciCapabilities {
    /// Get the number of device slots
    pub fn max_device_slots(&self) -> (r: u8)
        ensures
            r == self.hcsparams1 & 0xff,
    {
        proof {
            lemma_and_bounds();
        }
        (self.hcsparams1 & 0xff) as u8
    }

    /// Get the number of interrupters
    pub fn max_interrupters(&self) -> (r: u16)
        ensures
            r == (self.hcsparams1 >> 8u32) & 0x7ff,
    {
        proof {
            lemma_and_bounds();
        }
        ((self.hcsparams1 >> 8) & 0x7ff) as u16
    }

    /// Get the number of ports
    pub fn max_ports(&self) -> (r: u8)
        ensures
            r == (self.hcsparams1 >> 24u32) & 0xff,
    {
        proof {
            lemma_and_bounds();
        }
        ((self.hcsparams1 >> 24) & 0xff) as u8
    }

    /// Check if 64-bit addressing is supported
    pub fn supports_64bit(&self) -> (r: bool)
        ensures
            r == (self.hccparams1 & 0x01 != 0),
    {
        (self.hccparams1 & 0x01) != 0
    }

    /// Check if bandwidth negotiation is supported
    pub fn supports_bandwidth_negotiation(&self) -> (r: bool)
        ensures
            r == (self.hccparams1 & 0x02 != 0),
    {
        (self.hccparams1 & 0x02) != 0
    }

    /// Check if context size is 64 bytes (vs 32 bytes)
    pub fn context_size_64(&self) -> (r: bool)
        ensures
            r == (self.hccparams1 & 0x04 != 0),
    {
        (self.hccparams1 & 0x04) != 0
    }

    /// Get the page size: 4096 shifted left by the position of the lowest set bit of the
    /// PAGESIZE register. A register of 0 would shift by 32, which is refused.
    pub fn page_size(&self, pagesize_reg: u32) -> (r: u32)
        requires
            pagesize_reg != 0,
        ensures
            r == 4096u32 << pagesize_reg.trailing_zeros(),
    {
        proof {
            vstd::std_specs::bits::axiom_u32_trailing_zeros(pagesize_reg);
        }
        4096 << (pagesize_reg.trailing_zeros())
    }
}

/// xHCI port status and control
#[derive(Debug, Clone, Copy)]
pub struct XhciPortStatus {
    /// Raw PORTSC register value
    pub portsc: u32,
}

/// The device speed that a PORTSC speed field (bits 10..13) reports.
pub open spec fn port_speed(portsc: u32) -> Option<UsbSpeed> {
    let s = (portsc >> 10u32) & 0x0f;
    if s == 1 {
        Some(UsbSpeed::Full)
    } else if s == 2 {
        Some(UsbSpeed::Low)
    } else if s == 3 {
        Some(UsbSpeed::High)
    } else if s == 4 {
        Some(UsbSpeed::Super)
    } else if s == 5 {
        Some(UsbSpeed::SuperPlus)
    } else {
        None
    }
}

/// PORTSC reports speeds by their protocol speed IDs, the same codes a slot context takes:
/// the speed field decodes to a speed exactly when it holds that speed's code, so decoding a
/// port whose field holds a speed's code gives that speed back; in particular 1 is full speed
/// and 2 low speed.
pub proof fn lemma_port_speed(portsc: u32, s: UsbSpeed)
    ensures
        port_speed(portsc) == Some(s) <==> (portsc >> 10u32) & 0x0f == xhci_speed_code(s),
        port_speed((xhci_speed_code(s) as u32) << 10u32) == Some(s),
        (portsc >> 10u32) & 0x0f == 1 ==> port_speed(portsc) == Some(UsbSpeed::Full),
        (portsc >> 10u32) & 0x0f == 2 ==> port_speed(portsc) == Some(UsbSpeed::Low),
        port_speed(portsc) is None <==> !(1 <= (portsc >> 10u32) & 0x0f <= 5),
{
    let c = xhci_speed_code(s) as u32;
    assert(c <= 5 ==> ((c << 10u32) >> 10u32) & 0x0f == c) by (bit_vector);
}

/// The seven change bits of PORTSC (bits 17..23).
pub const PORTSC_CHANGE_BITS: u32 = 0xfe0000;

impl XhciPortStatus {
    pub fn new(portsc: u32) -> (r: Self)
        ensures
            r.portsc == portsc,
    {
        Self { portsc }
    }

    /// Check if device is connected
    pub fn is_connected(&self) -> (r: bool)
        ensures
            r == (self.portsc & 0x01 != 0),
    {
        (self.portsc & 0x01) != 0
    }

    /// Check if port is enabled
    pub fn is_enabled(&self) -> (r: bool)
        ensures
            r == (self.portsc & 0x02 != 0),
    {
        (self.portsc & 0x02) != 0
    }

    /// Check if over-current is active
    pub fn is_over_current(&self) -> (r: bool)
        ensures
            r == (self.portsc & 0x08 != 0),
    {
        (self.portsc & 0x08) != 0
    }

    /// Check if port is reset
    pub fn is_reset(&self) -> (r: bool)
        ensures
            r == (self.portsc & 0x10 != 0),
    {
        (self.portsc & 0x10) != 0
    }

    /// Get the port power state
    pub fn power_state(&self) -> (r: u8)
        ensures
            r == (self.portsc >> 5u32) & 0x0f,
    {
        proof {
            lemma_and_bounds();
        }
        ((self.portsc >> 5) & 0x0f) as u8
    }

    /// Get the device speed
    pub fn speed(&self) -> (r: Option<UsbSpeed>)
        ensures
            r == port_speed(self.portsc),
    {
        let s = (self.portsc >> 10) & 0x0f;
        if s == 1 {
            Some(UsbSpeed::Full)
        } else if s == 2 {
            Some(UsbSpeed::Low)
        } else if s == 3 {
            Some(UsbSpeed::High)
        } else if s == 4 {
            Some(UsbSpeed::Super)
        } else if s == 5 {
            Some(UsbSpeed::SuperPlus)
        } else {
            None  // No device, or a reserved speed
        }
    }

    /// Check if connect status changed
    pub fn connect_status_changed(&self) -> (r: bool)
        ensures
            r == (self.portsc & 0x20000 != 0),
    {
        (self.portsc & 0x20000) != 0
    }

    /// Check if port enabled/disabled changed
    pub fn port_enabled_changed(&self) -> (r: bool)
        ensures
            r == (self.portsc & 0x40000 != 0),
    {
        (self.portsc & 0x40000) != 0
    }

    /// Check if warm reset changed
    pub fn warm_reset_changed(&self) -> (r: bool)
        ensures
            r == (self.portsc & 0x80000 != 0),
    {
        (self.portsc & 0x80000) != 0
    }

    /// Check if over-current changed
    pub fn over_current_changed(&self) -> (r: bool)
        ensures
            r == (self.portsc & 0x100000 != 0),
    {
        (self.portsc & 0x100000) != 0
    }

    /// Check if port reset changed
    pub fn port_reset_changed(&self) -> (r: bool)
        ensures
            r == (self.portsc & 0x200000 != 0),
    {
        (self.portsc & 0x200000) != 0
    }

    /// Check if port link state changed
    pub fn link_state_changed(&self) -> (r: bool)
        ensures
            r == (self.portsc & 0x400000 != 0),
    {
        (self.portsc & 0x400000) != 0
    }

    /// Check if port config error changed
    pub fn config_error_changed(&self) -> (r: bool)
        ensures
            r == (self.portsc & 0x800000 != 0),
    {
        (self.portsc & 0x800000) != 0
    }

    /// Get all change bits
    pub fn change_bits(&self) -> (r: u32)
        ensures
            r == self.portsc & PORTSC_CHANGE_BITS,
    {
        self.portsc & 0xfe0000
    }

    /// Create PORTSC value to clear change bits (the change bits are write-1-to-clear, so
    /// they are written back as they were read)
    pub fn clear_change_bits(&self) -> (r: u32)
        ensures
            r == (self.portsc & !PORTSC_CHANGE_BITS) | (self.portsc & PORTSC_CHANGE_BITS),
    {
        (self.portsc & !0xfe0000) | self.change_bits()
    }

    /// Create PORTSC value to enable the port
    pub fn enable_port(&self) -> (r: u32)
        ensures
            r == self.portsc | 0x02,
    {
        self.portsc | 0x02
    }

    /// Create PORTSC value to reset the port
    pub fn reset_port(&self) -> (r: u32)
        ensures
            r == (self.portsc & !0x02u32) | 0x10,
    {
        (self.portsc & !0x02) | 0x10
    }

    /// Create PORTSC value to set port power
    pub fn set_port_power(&self, power: bool) -> (r: u32)
        ensures
            r == if power {
                self.portsc | 0x100
            } else {
                self.portsc & !0x100u32
            },
    {
        if power {
            self.portsc | 0x100
        } else {
            self.portsc & !0x100
        }
    }
}

/// The value written to clear the change bits is the register value itself: every change
/// bit that reads 1 is written back as 1, which clears it, and every other bit is kept.
pub proof fn lemma_clear_change_bits_keeps_value(portsc: u32)
    by (bit_vector)
    ensures
        (portsc & !0xfe0000u32) | (portsc & 0xfe0000u32) == portsc,
{
}

/// A reset request never leaves the enable bit set, and always asks for the reset.
pub proof fn lemma_reset_port_value(portsc: u32)
    by (bit_vector)
    ensures
        ((portsc & !0x02u32) | 0x10u32) & 0x02u32 == 0,
        ((portsc & !0x02u32) | 0x10u32) & 0x10u32 != 0,
{
}

} // verus!
