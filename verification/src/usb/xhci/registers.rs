//! xHCI register sets, held as plain register values.
//!
//! Each struct holds the contents of one register block. Reading a method's
//! result decodes those contents; a method that takes `&mut self` computes the
//! value that goes back into the register. Moving values between these structs
//! and the memory-mapped hardware is the caller's part.

pub mod iman;
pub mod portsc;
pub mod usbcmd;
pub mod usbsts;

use vstd::prelude::*;
use crate::bits::lemma_and_bounds;
use crate::usb::types::UsbSpeed;
use crate::usb::xhci::port_speed;

verus! {

/// Facts about the 32-bit register values that this module computes.
proof fn lemma_values32(x: u32, slots: u8, endpoint: u8, stream_id: u16)
    by (bit_vector)
    ensures
        (x & !0x03u32) & 0x03u32 == 0,
        (x & !0x1fu32) & 0x1fu32 == 0,
        ((x & !0xffu32) | (slots as u32)) & 0xffu32 == slots as u32,
        ((x & !0xffu32) | (slots as u32)) & !0xffu32 == x & !0xffu32,
        (x & !0xfe_0000u32) | (x & 0xfe_0000u32) == x,
        (x | 0x1u32) & 0x1u32 != 0,
        (x & !0x1u32) & 0x1u32 == 0,
        (x | 0x2u32) & 0x2u32 != 0,
        (x & !0x2u32) & 0x2u32 == 0,
        (x | 0x4u32) & 0x4u32 != 0,
        ((x & !(0xfe_0000u32 | 0x2u32)) | 0x200u32) & 0x200u32 != 0,
        ((x & !(0xfe_0000u32 | 0x2u32)) | 0x200u32) & (0xfe_0000u32 | 0x2u32) == 0,
        ((x & !(0xfe_0000u32 | 0x2u32)) & !0x200u32) & 0x200u32 == 0,
        ((x & !(0xfe_0000u32 | 0x2u32)) & !0x200u32) & (0xfe_0000u32 | 0x2u32) == 0,
        ((x & !(0xfe_0000u32 | 0x2u32)) | 0x10u32) & 0x10u32 != 0,
        ((x & !(0xfe_0000u32 | 0x2u32)) | 0x10u32) & (0xfe_0000u32 | 0x2u32) == 0,
        ((x & !0xfe_0000u32) | 0x2u32) & 0x2u32 != 0,
        ((x & !0xfe_0000u32) | 0x2u32) & 0xfe_0000u32 == 0,
        ((endpoint as u32) | ((stream_id as u32) << 16u32)) & 0xffu32 == endpoint as u32,
        ((endpoint as u32) | ((stream_id as u32) << 16u32)) >> 16u32 == stream_id as u32,
{
}

/// Facts about the 64-bit addresses that this module aligns.
proof fn lemma_values64(a: u64)
    by (bit_vector)
    ensures
        (a & !0x3fu64) & 0x3fu64 == 0,
        ((a & !0x3fu64) | 1u64) & !0x3fu64 == a & !0x3fu64,
        ((a & !0x3fu64) | 1u64) & 1u64 != 0,
        (a & !0x3fu64) & 1u64 == 0,
        (a & !0x3fu64) & !0x3fu64 == a & !0x3fu64,
        (a & !0x0fu64) & 0x0fu64 == 0,
        ((a & !0x0fu64) | 0x08u64) & !0x0fu64 == a & !0x0fu64,
        ((a & !0x0fu64) | 0x08u64) & 0x08u64 != 0,
        (a & !0x0fu64) & 0x08u64 == 0,
        (a & !0x0fu64) & !0x0fu64 == a & !0x0fu64,
{
}

/// xHCI Capability Registers
#[derive(Debug, Clone, Copy)]
pub struct CapabilityRegisters {
    /// Capability Register Length and Reserved
    pub caplength_reserved: u16,
    /// Interface Version Number
    pub hciversion: u16,
    /// Structural Parameters 1
    pub hcsparams1: u32,
    /// Structural Parameters 2
    pub hcsparams2: u32,
    /// Structural Parameters 3
    pub hcsparams3: u32,
    /// Capability Parameters 1
    pub hccparams1: u32,
    /// Doorbell Offset
    pub dboff: u32,
    /// Runtime Register Space Offset
    pub rtsoff: u32,
    /// Capability Parameters 2
    pub hccparams2: u32,
}

impl CapabilityRegisters {
    /// Get the capability register length
    pub fn cap_length(&self) -> (r: u8)
        ensures
            r == self.caplength_reserved & 0xff,
    {
        proof {
            lemma_and_bounds();
        }
        (self.caplength_reserved & 0xff) as u8
    }

    /// Get the HCI version
    pub fn hci_version(&self) -> (r: u16)
        ensures
            r == self.hciversion,
    {
        self.hciversion
    }

    /// Get the maximum number of device slots
    pub fn max_device_slots(&self) -> (r: u8)
        ensures
            r == self.hcsparams1 & 0xff,
    {
        proof {
            lemma_and_bounds();
        }
        (self.hcsparams1 & 0xff) as u8
    }

    /// Get the maximum number of interrupters
    pub fn max_interrupters(&self) -> (r: u16)
        ensures
            r == (self.hcsparams1 >> 8u32) & 0x7ff,
    {
        proof {
            lemma_and_bounds();
        }
        ((self.hcsparams1 >> 8) & 0x7ff) as u16
    }

    /// Get the maximum number of ports
    pub fn max_ports(&self) -> (r: u8)
        ensures
            r == (self.hcsparams1 >> 24u32) & 0xff,
    {
        proof {
            lemma_and_bounds();
        }
        ((self.hcsparams1 >> 24) & 0xff) as u8
    }

    /// Check if 64-bit addressing is supported
    pub fn supports_64bit(&self) -> (r: bool)
        ensures
            r == (self.hccparams1 & 0x01 != 0),
    {
        (self.hccparams1 & 0x01) != 0
    }

    /// Check if bandwidth negotiation capability is supported
    pub fn supports_bnc(&self) -> (r: bool)
        ensures
            r == (self.hccparams1 & 0x02 != 0),
    {
        (self.hccparams1 & 0x02) != 0
    }

    /// Check if context size is 64 bytes
    pub fn context_size_64(&self) -> (r: bool)
        ensures
            r == (self.hccparams1 & 0x04 != 0),
    {
        (self.hccparams1 & 0x04) != 0
    }

    /// Check if port power control is supported
    pub fn supports_ppc(&self) -> (r: bool)
        ensures
            r == (self.hccparams1 & 0x08 != 0),
    {
        (self.hccparams1 & 0x08) != 0
    }

    /// Check if port indicators are supported
    pub fn supports_pind(&self) -> (r: bool)
        ensures
            r == (self.hccparams1 & 0x10 != 0),
    {
        (self.hccparams1 & 0x10) != 0
    }

    /// Check if light HC reset capability is supported
    pub fn supports_lhrc(&self) -> (r: bool)
        ensures
            r == (self.hccparams1 & 0x20 != 0),
    {
        (self.hccparams1 & 0x20) != 0
    }

    /// Check if latency tolerance messaging is supported
    pub fn supports_ltm(&self) -> (r: bool)
        ensures
            r == (self.hccparams1 & 0x40 != 0),
    {
        (self.hccparams1 & 0x40) != 0
    }

    /// Check if no secondary SID support
    pub fn no_secondary_sid(&self) -> (r: bool)
        ensures
            r == (self.hccparams1 & 0x80 != 0),
    {
        (self.hccparams1 & 0x80) != 0
    }

    /// Get the parse all event data flag
    pub fn parse_all_event_data(&self) -> (r: bool)
        ensures
            r == (self.hccparams1 & 0x100 != 0),
    {
        (self.hccparams1 & 0x100) != 0
    }

    /// Get the stopped short packet capability
    pub fn supports_spc(&self) -> (r: bool)
        ensures
            r == (self.hccparams1 & 0x200 != 0),
    {
        (self.hccparams1 & 0x200) != 0
    }

    /// Get the stopped EDTLA capability
    pub fn supports_sec(&self) -> (r: bool)
        ensures
            r == (self.hccparams1 & 0x400 != 0),
    {
        (self.hccparams1 & 0x400) != 0
    }

    /// Get the contiguous frame ID capability
    pub fn supports_cfc(&self) -> (r: bool)
        ensures
            r == (self.hccparams1 & 0x800 != 0),
    {
        (self.hccparams1 & 0x800) != 0
    }

    /// Get the maximum primary stream array size
    pub fn max_primary_stream_array_size(&self) -> (r: u8)
        ensures
            r == (self.hccparams1 >> 12u32) & 0x0f,
    {
        proof {
            lemma_and_bounds();
        }
        ((self.hccparams1 >> 12) & 0x0f) as u8
    }

    /// Get the xHCI extended capabilities pointer
    pub fn xecp(&self) -> (r: u16)
        ensures
            r == (self.hccparams1 >> 16u32) & 0xffff,
    {
        proof {
            lemma_and_bounds();
        }
        ((self.hccparams1 >> 16) & 0xffff) as u16
    }

    /// Get the doorbell offset (the low two bits are reserved)
    pub fn doorbell_offset(&self) -> (r: u32)
        ensures
            r == self.dboff & !0x03u32,
            r & 0x03 == 0,
    {
        proof {
            lemma_values32(self.dboff, 0, 0, 0);
        }
        self.dboff & !0x03
    }

    /// Get the runtime register space offset (the low five bits are reserved)
    pub fn runtime_offset(&self) -> (r: u32)
        ensures
            r == self.rtsoff & !0x1fu32,
            r & 0x1f == 0,
    {
        proof {
            lemma_values32(self.rtsoff, 0, 0, 0);
        }
        self.rtsoff & !0x1f
    }
}

/// xHCI Operational Registers
#[derive(Debug, Clone, Copy)]
pub struct OperationalRegisters {
    /// USB Command Register
    pub usbcmd: u32,
    /// USB Status Register
    pub usbsts: u32,
    /// Page Size Register
    pub pagesize: u32,
    /// Device Notification Control Register
    pub dnctrl: u32,
    /// Command Ring Control Register (64-bit)
    pub crcr: u64,
    /// Device Context Base Address Array Pointer (64-bit)
    pub dcbaap: u64,
    /// Configure Register
    pub config: u32,
}

impl OperationalRegisters {
    /// Start the host controller: set Run/Stop, keep every other command bit
    pub fn start(&mut self)
        ensures
            *final(self) == (OperationalRegisters { usbcmd: old(self).usbcmd | usbcmd::RUN_STOP, ..*old(self) }),
            final(self).usbcmd & usbcmd::RUN_STOP != 0,
    {
        proof {
            lemma_values32(self.usbcmd, 0, 0, 0);
        }
        let mut cmd = self.usbcmd;
        cmd = cmd | usbcmd::RUN_STOP;
        self.usbcmd = cmd;
    }

    /// Stop the host controller: clear Run/Stop, keep every other command bit
    pub fn stop(&mut self)
        ensures
            *final(self) == (OperationalRegisters { usbcmd: old(self).usbcmd & !usbcmd::RUN_STOP, ..*old(self) }),
            final(self).usbcmd & usbcmd::RUN_STOP == 0,
    {
        proof {
            lemma_values32(self.usbcmd, 0, 0, 0);
        }
        let mut cmd = self.usbcmd;
        cmd = cmd & !usbcmd::RUN_STOP;
        self.usbcmd = cmd;
    }

    /// Reset the host controller: set HCRST, keep every other command bit
    pub fn reset(&mut self)
        ensures
            *final(self) == (OperationalRegisters { usbcmd: old(self).usbcmd | usbcmd::HCRST, ..*old(self) }),
            final(self).usbcmd & usbcmd::HCRST != 0,
    {
        proof {
            lemma_values32(self.usbcmd, 0, 0, 0);
        }
        let mut cmd = self.usbcmd;
        cmd = cmd | usbcmd::HCRST;
        self.usbcmd = cmd;
    }

    /// Enable interrupts: set INTE, keep every other command bit
    pub fn enable_interrupts(&mut self)
        ensures
            *final(self) == (OperationalRegisters { usbcmd: old(self).usbcmd | usbcmd::INTE, ..*old(self) }),
            final(self).usbcmd & usbcmd::INTE != 0,
    {
        proof {
            lemma_values32(self.usbcmd, 0, 0, 0);
        }
        let mut cmd = self.usbcmd;
        cmd = cmd | usbcmd::INTE;
        self.usbcmd = cmd;
    }

    /// Check if controller is halted
    pub fn is_halted(&self) -> (r: bool)
        ensures
            r == (self.usbsts & usbsts::HCH != 0),
    {
        (self.usbsts & usbsts::HCH) != 0
    }

    /// Check if controller is running
    pub fn is_running(&self) -> (r: bool)
        ensures
            r == (self.usbsts & usbsts::HCH == 0),
    {
        !self.is_halted()
    }

    /// Check if controller not ready
    pub fn is_controller_not_ready(&self) -> (r: bool)
        ensures
            r == (self.usbsts & usbsts::CNR != 0),
    {
        (self.usbsts & usbsts::CNR) != 0
    }

    /// Clear status bits: the status register is written with `bits`, whose set bits
    /// the controller clears (write-1-to-clear)
    pub fn clear_status(&mut self, bits: u32)
        ensures
            *final(self) == (OperationalRegisters { usbsts: bits, ..*old(self) }),
    {
        self.usbsts = bits;
    }

    /// Set the command ring control register: the ring's address with its low six bits
    /// cleared, and bit 0 set to the ring cycle state
    pub fn set_command_ring(&mut self, address: u64, ring_cycle_state: bool)
        ensures
            *final(self) == (OperationalRegisters {
                crcr: if ring_cycle_state {
                    (address & !0x3fu64) | 1
                } else {
                    address & !0x3fu64
                },
                ..*old(self)
            }),
            final(self).crcr & !0x3fu64 == address & !0x3fu64,
            (final(self).crcr & 1 != 0) == ring_cycle_state,
    {
        proof {
            lemma_values64(address);
        }
        let mut crcr = address & !0x3f;
        if ring_cycle_state {
            crcr = crcr | 1;
        }
        self.crcr = crcr;
    }

    /// Set the device context base address array pointer (64-byte aligned)
    pub fn set_dcbaap(&mut self, address: u64)
        ensures
            *final(self) == (OperationalRegisters { dcbaap: address & !0x3fu64, ..*old(self) }),
            final(self).dcbaap & 0x3f == 0,
    {
        proof {
            lemma_values64(address);
        }
        let v = address & !0x3f;
        self.dcbaap = v;
    }

    /// Set the maximum device slots enabled: the low byte of CONFIG becomes `slots`,
    /// the other bits stay
    pub fn set_max_device_slots(&mut self, slots: u8)
        ensures
            *final(self) == (OperationalRegisters {
                config: (old(self).config & !0xffu32) | (slots as u32),
                ..*old(self)
            }),
            final(self).config & 0xff == slots,
            final(self).config & !0xffu32 == old(self).config & !0xffu32,
    {
        proof {
            lemma_values32(self.config, slots, 0, 0);
        }
        let mut config = self.config;
        config = (config & !0xff) | (slots as u32);
        self.config = config;
    }

    /// Get the page size: 4096 shifted left by the position of the lowest set bit of
    /// PAGESIZE. A register of 0 would shift by 32, which is refused.
    pub fn get_page_size(&self) -> (r: u32)
        requires
            self.pagesize != 0,
        ensures
            r == 4096u32 << self.pagesize.trailing_zeros(),
    {
        let pagesize = self.pagesize;
        proof {
            vstd::std_specs::bits::axiom_u32_trailing_zeros(pagesize);
        }
        4096 << pagesize.trailing_zeros()
    }
}

/// xHCI Port Register Set
#[derive(Debug, Clone, Copy)]
pub struct PortRegisterSet {
    /// Port Status and Control Register
    pub portsc: u32,
    /// Port Power Management Status and Control Register
    pub portpmsc: u32,
    /// Port Link Info Register
    pub portli: u32,
    /// Port Hardware LPM Control Register
    pub porthlpmc: u32,
}

/// PORTSC as written to power a port on or off: the change bits and the
/// enable bit (both write-1-to-clear) are written as 0, Port Power as `power`.
pub open spec fn power_value(portsc_value: u32, power: bool) -> u32 {
    let kept = portsc_value & !(portsc::CHANGE_BITS | portsc::PED);
    if power {
        kept | portsc::PP
    } else {
        kept & !portsc::PP
    }
}

impl PortRegisterSet {
    /// Check if device is connected
    pub fn is_connected(&self) -> (r: bool)
        ensures
            r == (self.portsc & portsc::CCS != 0),
    {
        (self.portsc & portsc::CCS) != 0
    }

    /// Check if port is enabled
    pub fn is_enabled(&self) -> (r: bool)
        ensures
            r == (self.portsc & portsc::PED != 0),
    {
        (self.portsc & portsc::PED) != 0
    }

    /// Check if port is powered
    pub fn is_powered(&self) -> (r: bool)
        ensures
            r == (self.portsc & portsc::PP != 0),
    {
        (self.portsc & portsc::PP) != 0
    }

    /// Get the port speed
    pub fn get_speed(&self) -> (r: Option<UsbSpeed>)
        ensures
            r == port_speed(self.portsc),
    {
        let portsc = self.portsc;
        let s = (portsc >> 10) & 0x0f;
        if s == 1 {
            Some(UsbSpeed::Full)
        } else if s == 2 {
            Some(UsbSpeed::Low)
        } else if s == 3 {
            Some(UsbSpeed::High)
        } else if s == 4 {
            Some(UsbSpeed::Super)
        } else if s == 5 {
            Some(UsbSpeed::SuperPlus)
        } else {
            None
        }
    }

    /// Get port link state
    pub fn get_link_state(&self) -> (r: u8)
        ensures
            r == (self.portsc >> 5u32) & 0x0f,
    {
        proof {
            lemma_and_bounds();
        }
        ((self.portsc >> 5) & 0x0f) as u8
    }

    /// Check for any change events
    pub fn has_changes(&self) -> (r: bool)
        ensures
            r == (self.portsc & portsc::CHANGE_BITS != 0),
    {
        (self.portsc & portsc::CHANGE_BITS) != 0
    }

    /// Get all change bits
    pub fn get_changes(&self) -> (r: u32)
        ensures
            r == self.portsc & portsc::CHANGE_BITS,
    {
        self.portsc & portsc::CHANGE_BITS
    }

    /// Clear change bits: PORTSC is written back as read, so that each set change bit
    /// (write-1-to-clear) is acknowledged
    pub fn clear_changes(&mut self)
        ensures
            *final(self) == *old(self),
    {
        proof {
            lemma_values32(self.portsc, 0, 0, 0);
        }
        let portsc = self.portsc;
        let clear_value = (portsc & !portsc::CHANGE_BITS) | (portsc & portsc::CHANGE_BITS);
        self.portsc = clear_value;
    }

    /// Set port power, writing no change bit and no enable bit
    pub fn set_power(&mut self, power: bool)
        ensures
            *final(self) == (PortRegisterSet { portsc: power_value(old(self).portsc, power), ..*old(self) }),
            (final(self).portsc & portsc::PP != 0) == power,
            final(self).portsc & (portsc::CHANGE_BITS | portsc::PED) == 0,
    {
        proof {
            lemma_values32(self.portsc, 0, 0, 0);
        }
        let mut portsc = self.portsc;
        portsc = portsc & !(portsc::CHANGE_BITS | portsc::PED);
        if power {
            portsc = portsc | portsc::PP;
        } else {
            portsc = portsc & !portsc::PP;
        }
        self.portsc = portsc;
    }

    /// Reset the port: set Port Reset, writing no change bit and no enable bit
    pub fn reset(&mut self)
        ensures
            *final(self) == (PortRegisterSet {
                portsc: (old(self).portsc & !(portsc::CHANGE_BITS | portsc::PED)) | portsc::PR,
                ..*old(self)
            }),
            final(self).portsc & portsc::PR != 0,
            final(self).portsc & (portsc::CHANGE_BITS | portsc::PED) == 0,
    {
        proof {
            lemma_values32(self.portsc, 0, 0, 0);
        }
        let mut portsc = self.portsc;
        portsc = portsc & !(portsc::CHANGE_BITS | portsc::PED);
        portsc = portsc | portsc::PR;
        self.portsc = portsc;
    }

    /// Enable the port: set Port Enabled, writing no change bit
    pub fn enable(&mut self)
        ensures
            *final(self) == (PortRegisterSet {
                portsc: (old(self).portsc & !portsc::CHANGE_BITS) | portsc::PED,
                ..*old(self)
            }),
            final(self).portsc & portsc::PED != 0,
            final(self).portsc & portsc::CHANGE_BITS == 0,
    {
        proof {
            lemma_values32(self.portsc, 0, 0, 0);
        }
        let mut portsc = self.portsc;
        portsc = portsc & !portsc::CHANGE_BITS;
        portsc = portsc | portsc::PED;
        self.portsc = portsc;
    }
}

/// xHCI Interrupter Register Set
#[derive(Debug, Clone, Copy)]
pub struct InterrupterRegisterSet {
    /// Interrupter Management Register
    pub iman: u32,
    /// Interrupter Moderation Register
    pub imod: u32,
    /// Event Ring Segment Table Size Register
    pub erstsz: u32,
    /// Event Ring Segment Table Base Address Register (64-bit)
    pub erstba: u64,
    /// Event Ring Dequeue Pointer Register (64-bit)
    pub erdp: u64,
}

/// xHCI Runtime Registers
pub struct RuntimeRegisters {
    /// Microframe Index Register
    pub mfindex: u32,
    /// Interrupter Register Sets (up to 1024)
    pub interrupters: [InterrupterRegisterSet; 1024],
}

impl InterrupterRegisterSet {
    /// Enable interrupts for this interrupter
    pub fn enable_interrupts(&mut self)
        ensures
            *final(self) == (InterrupterRegisterSet { iman: old(self).iman | iman::IE, ..*old(self) }),
            final(self).iman & iman::IE != 0,
    {
        proof {
            lemma_values32(self.iman, 0, 0, 0);
        }
        let mut v = self.iman;
        v = v | iman::IE;
        self.iman = v;
    }

    /// Disable interrupts for this interrupter
    pub fn disable_interrupts(&mut self)
        ensures
            *final(self) == (InterrupterRegisterSet { iman: old(self).iman & !iman::IE, ..*old(self) }),
            final(self).iman & iman::IE == 0,
    {
        proof {
            lemma_values32(self.iman, 0, 0, 0);
        }
        let mut v = self.iman;
        v = v & !iman::IE;
        self.iman = v;
    }

    /// Check if interrupt is pending
    pub fn is_interrupt_pending(&self) -> (r: bool)
        ensures
            r == (self.iman & iman::IP != 0),
    {
        (self.iman & iman::IP) != 0
    }

    /// Clear interrupt pending: IMAN is written with IP set (write-1-to-clear)
    pub fn clear_interrupt_pending(&mut self)
        ensures
            *final(self) == (InterrupterRegisterSet { iman: old(self).iman | iman::IP, ..*old(self) }),
            final(self).iman & iman::IP != 0,
    {
        proof {
            lemma_values32(self.iman, 0, 0, 0);
        }
        let mut v = self.iman;
        v = v | iman::IP;
        self.iman = v;
    }

    /// Set the event ring segment table: its 64-byte aligned base and its size
    pub fn set_event_ring_segment_table(&mut self, base_address: u64, size: u16)
        ensures
            *final(self) == (InterrupterRegisterSet {
                erstba: base_address & !0x3fu64,
                erstsz: size as u32,
                ..*old(self)
            }),
            final(self).erstba & 0x3f == 0,
    {
        proof {
            lemma_values64(base_address);
        }
        let base = base_address & !0x3f;
        self.erstba = base;
        self.erstsz = size as u32;
    }

    /// Set the event ring dequeue pointer (16-byte aligned)
    pub fn set_event_ring_dequeue_pointer(&mut self, address: u64)
        ensures
            *final(self) == (InterrupterRegisterSet { erdp: address & !0x0fu64, ..*old(self) }),
            final(self).erdp & 0x0f == 0,
    {
        proof {
            lemma_values64(address);
        }
        let v = address & !0x0f;
        self.erdp = v;
    }

    /// Update the event ring dequeue pointer: the 16-byte aligned address, with the
    /// Event Handler Busy bit (bit 3) set when `clear_ehb` asks to clear it
    pub fn update_erdp(&mut self, address: u64, clear_ehb: bool)
        ensures
            *final(self) == (InterrupterRegisterSet {
                erdp: if clear_ehb {
                    (address & !0x0fu64) | 0x08
                } else {
                    address & !0x0fu64
                },
                ..*old(self)
            }),
            final(self).erdp & !0x0fu64 == address & !0x0fu64,
            (final(self).erdp & 0x08 != 0) == clear_ehb,
    {
        proof {
            lemma_values64(address);
        }
        let mut erdp = address & !0x0f;
        if clear_ehb {
            erdp = erdp | 0x08;
        }
        self.erdp = erdp;
    }
}

/// xHCI Doorbell Register
#[derive(Debug, Clone, Copy)]
pub struct DoorbellRegister {
    /// Doorbell value
    pub doorbell: u32,
}

impl DoorbellRegister {
    /// Ring a doorbell for a specific endpoint: the target in bits 0..8, the stream in
    /// bits 16..32
    pub fn ring(&mut self, endpoint: u8, stream_id: u16)
        ensures
            final(self).doorbell == (endpoint as u32) | ((stream_id as u32) << 16u32),
            final(self).doorbell & 0xff == endpoint,
            final(self).doorbell >> 16u32 == stream_id,
    {
        proof {
            lemma_values32(0, 0, endpoint, stream_id);
        }
        let value = (endpoint as u32) | ((stream_id as u32) << 16);
        self.doorbell = value;
    }

    /// Ring the command doorbell
    pub fn ring_command(&mut self)
        ensures
            final(self).doorbell == 0,
    {
        self.doorbell = 0;
    }
}

} // verus!
