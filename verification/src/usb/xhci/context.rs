use vstd::prelude::*;
use crate::bits::{
    field32, fits32, insert32, lemma_and_bounds, lemma_insert32, lemma_layouts, set_field32,
    with_flag32,
};
use crate::usb::error::{Result, UsbError};
use crate::usb::types::{
    UsbDevice, UsbDirection, UsbEndpoint, UsbEndpointType, UsbSpeed, endpoint_list, xhci_index_spec,
    xhci_speed_code,
};

verus! {

/// Slot Context (32 bytes)
#[derive(Debug, Clone, Copy)]
pub struct SlotContext {
    /// Context info (route string, speed, MTT, hub, context entries)
    pub context_info: u32,
    /// Port info (max exit latency, root hub port number, number of ports)
    pub port_info: u32,
    /// TT info (TT think time, TT port number, TT hub slot ID)
    pub tt_info: u32,
    /// Device info (device address, device state)
    pub device_info: u32,
    /// Reserved
    pub reserved: [u32; 4],
}

impl SlotContext {
    /// Create a new slot context
    pub fn new() -> (r: Self)
        ensures
            r.context_info == 0 && r.port_info == 0 && r.tt_info == 0 && r.device_info == 0,
            r.reserved@ == seq![0u32, 0u32, 0u32, 0u32],
    {
        Self { context_info: 0, port_info: 0, tt_info: 0, device_info: 0, reserved: [0;4] }
    }

    /// Set the route string
    pub fn set_route_string(&mut self, route: u32)
        ensures
            *final(self) == (SlotContext {
                context_info: insert32(old(self).context_info, 0, 0xfffff, route),
                ..*old(self)
            }),
    {
        proof {
            lemma_layouts();
        }
        self.context_info = set_field32(self.context_info, 0, 0xfffff, route);
    }

    /// Set the device speed
    pub fn set_speed(&mut self, speed: UsbSpeed)
        ensures
            *final(self) == (SlotContext {
                context_info: insert32(old(self).context_info, 20, 0xf, xhci_speed_code(speed) as u32),
                ..*old(self)
            }),
    {
        proof {
            lemma_layouts();
        }
        let speed_value = speed.to_xhci_speed() as u32;
        self.context_info = set_field32(self.context_info, 20, 0xf, speed_value);
    }

    /// Set the multi-TT flag
    pub fn set_multi_tt(&mut self, multi_tt: bool)
        ensures
            *final(self) == (SlotContext {
                context_info: with_flag32(old(self).context_info, 0x2000000, multi_tt),
                ..*old(self)
            }),
    {
        if multi_tt {
            self.context_info = self.context_info | 0x2000000;
        } else {
            self.context_info = self.context_info & !0x2000000;
        }
    }

    /// Set the hub flag
    pub fn set_hub(&mut self, is_hub: bool)
        ensures
            *final(self) == (SlotContext {
                context_info: with_flag32(old(self).context_info, 0x4000000, is_hub),
                ..*old(self)
            }),
    {
        if is_hub {
            self.context_info = self.context_info | 0x4000000;
        } else {
            self.context_info = self.context_info & !0x4000000;
        }
    }

    /// Set the number of context entries
    pub fn set_context_entries(&mut self, entries: u8)
        ensures
            *final(self) == (SlotContext {
                context_info: insert32(old(self).context_info, 27, 0x1f, (entries & 0x1f) as u32),
                ..*old(self)
            }),
    {
        proof {
            lemma_layouts();
        }
        self.context_info = set_field32(self.context_info, 27, 0x1f, (entries & 0x1f) as u32);
    }

    /// Set the maximum exit latency
    pub fn set_max_exit_latency(&mut self, latency: u16)
        ensures
            *final(self) == (SlotContext {
                port_info: insert32(old(self).port_info, 0, 0xffff, latency as u32),
                ..*old(self)
            }),
    {
        proof {
            lemma_layouts();
        }
        self.port_info = set_field32(self.port_info, 0, 0xffff, latency as u32);
    }

    /// Set the root hub port number
    pub fn set_root_hub_port(&mut self, port: u8)
        ensures
            *final(self) == (SlotContext {
                port_info: insert32(old(self).port_info, 16, 0xff, (port & 0xff) as u32),
                ..*old(self)
            }),
    {
        proof {
            lemma_layouts();
        }
        self.port_info = set_field32(self.port_info, 16, 0xff, (port & 0xff) as u32);
    }

    /// Set the number of ports (for hubs)
    pub fn set_num_ports(&mut self, ports: u8)
        ensures
            *final(self) == (SlotContext {
                port_info: insert32(old(self).port_info, 24, 0xff, (ports & 0xff) as u32),
                ..*old(self)
            }),
    {
        proof {
            lemma_layouts();
        }
        self.port_info = set_field32(self.port_info, 24, 0xff, (ports & 0xff) as u32);
    }

    /// Set the TT think time
    pub fn set_tt_think_time(&mut self, think_time: u8)
        ensures
            *final(self) == (SlotContext {
                tt_info: insert32(old(self).tt_info, 0, 0x3, (think_time & 0x3) as u32),
                ..*old(self)
            }),
    {
        proof {
            lemma_layouts();
        }
        self.tt_info = set_field32(self.tt_info, 0, 0x3, (think_time & 0x3) as u32);
    }

    /// Set the TT port number
    pub fn set_tt_port_number(&mut self, port: u8)
        ensures
            *final(self) == (SlotContext {
                tt_info: insert32(old(self).tt_info, 8, 0xff, (port & 0xff) as u32),
                ..*old(self)
            }),
    {
        proof {
            lemma_layouts();
        }
        self.tt_info = set_field32(self.tt_info, 8, 0xff, (port & 0xff) as u32);
    }

    /// Set the TT hub slot ID
    pub fn set_tt_hub_slot_id(&mut self, slot_id: u8)
        ensures
            *final(self) == (SlotContext {
                tt_info: insert32(old(self).tt_info, 16, 0xff, (slot_id & 0xff) as u32),
                ..*old(self)
            }),
    {
        proof {
            lemma_layouts();
        }
        self.tt_info = set_field32(self.tt_info, 16, 0xff, (slot_id & 0xff) as u32);
    }

    /// Set the USB device address
    pub fn set_device_address(&mut self, address: u8)
        ensures
            *final(self) == (SlotContext {
                device_info: insert32(old(self).device_info, 0, 0xff, (address & 0xff) as u32),
                ..*old(self)
            }),
    {
        proof {
            lemma_layouts();
        }
        self.device_info = set_field32(self.device_info, 0, 0xff, (address & 0xff) as u32);
    }

    /// Set the device state
    pub fn set_device_state(&mut self, state: u8)
        ensures
            *final(self) == (SlotContext {
                device_info: insert32(old(self).device_info, 27, 0x1f, (state & 0x1f) as u32),
                ..*old(self)
            }),
    {
        proof {
            lemma_layouts();
        }
        self.device_info = set_field32(self.device_info, 27, 0x1f, (state & 0x1f) as u32);
    }

    /// Get the device address
    pub fn device_address(&self) -> (r: u8)
        ensures
            r == self.device_info & 0xff,
    {
        proof {
            lemma_and_bounds();
        }
        (self.device_info & 0xff) as u8
    }

    /// Get the device state
    pub fn device_state(&self) -> (r: u8)
        ensures
            r == field32(self.device_info, 27, 0x1f),
    {
        proof {
            lemma_and_bounds();
        }
        ((self.device_info >> 27) & 0x1f) as u8
    }
}

impl Default for SlotContext {
    fn default() -> (r: Self)
        ensures
            r.context_info == 0 && r.port_info == 0 && r.tt_info == 0 && r.device_info == 0,
    {
        Self::new()
    }
}

} // verus!

verus! {

/// Endpoint Context (32 bytes)
#[derive(Debug, Clone, Copy)]
pub struct EndpointContext {
    /// Endpoint state info
    pub endpoint_info: u32,
    /// Endpoint characteristics
    pub endpoint_info2: u32,
    /// Transfer ring dequeue pointer (64-bit)
    pub tr_dequeue_pointer: u64,
    /// Transfer characteristics
    pub transfer_info: u32,
    /// Reserved
    pub reserved: [u32; 3],
}

/// The xHCI endpoint type code (control 4; OUT 1..3; IN 5..7).
pub open spec fn ep_type_code(t: UsbEndpointType, d: UsbDirection) -> u32 {
    match t {
        UsbEndpointType::Control => 4,
        UsbEndpointType::Isochronous => if d == UsbDirection::In { 5 } else { 1 },
        UsbEndpointType::Bulk => if d == UsbDirection::In { 6 } else { 2 },
        UsbEndpointType::Interrupt => if d == UsbDirection::In { 7 } else { 3 },
    }
}

/// A transfer ring dequeue pointer: the 16-byte aligned address with the cycle state in bit 0.
pub open spec fn dequeue_word(pointer: u64, cycle_state: bool) -> u64 {
    (pointer & !0xfu64) | if cycle_state { 1u64 } else { 0u64 }
}

/// The endpoint characteristics word after setting type, packet size and error count.
pub open spec fn characteristics(info2: u32, type_code: u32, max_packet_size: u16) -> u32 {
    insert32(insert32(insert32(info2, 3, 0x7, type_code), 16, 0xffff, max_packet_size as u32), 1, 0x3, 3)
}

/// An endpoint context after `configure_control`.
pub open spec fn control_configured(c: EndpointContext, max_packet_size: u16, ring: u64) -> EndpointContext {
    EndpointContext {
        endpoint_info: insert32(c.endpoint_info, 0, 0x7, 0),
        endpoint_info2: characteristics(c.endpoint_info2, 4, max_packet_size),
        tr_dequeue_pointer: dequeue_word(ring, true),
        transfer_info: insert32(c.transfer_info, 0, 0xffff, 8),
        ..c
    }
}

/// An endpoint context after `configure_bulk`.
pub open spec fn bulk_configured(
    c: EndpointContext,
    d: UsbDirection,
    max_packet_size: u16,
    ring: u64,
) -> EndpointContext {
    EndpointContext {
        endpoint_info: insert32(c.endpoint_info, 0, 0x7, 0),
        endpoint_info2: characteristics(
            c.endpoint_info2,
            ep_type_code(UsbEndpointType::Bulk, d),
            max_packet_size,
        ),
        tr_dequeue_pointer: dequeue_word(ring, true),
        transfer_info: insert32(c.transfer_info, 0, 0xffff, 1024),
        ..c
    }
}

/// An endpoint context after `configure_interrupt`.
pub open spec fn interrupt_configured(
    c: EndpointContext,
    d: UsbDirection,
    max_packet_size: u16,
    interval: u8,
    ring: u64,
) -> EndpointContext {
    EndpointContext {
        endpoint_info: insert32(
            insert32(c.endpoint_info, 0, 0x7, 0),
            16,
            0xff,
            (interval & 0xff) as u32,
        ),
        endpoint_info2: characteristics(
            c.endpoint_info2,
            ep_type_code(UsbEndpointType::Interrupt, d),
            max_packet_size,
        ),
        tr_dequeue_pointer: dequeue_word(ring, true),
        transfer_info: insert32(c.transfer_info, 0, 0xffff, max_packet_size as u32),
        ..c
    }
}

/// An endpoint context after the isochronous setup of `DeviceContext::add_endpoint`.
pub open spec fn isoch_configured(
    c: EndpointContext,
    d: UsbDirection,
    max_packet_size: u16,
    interval: u8,
    ring: u64,
) -> EndpointContext {
    EndpointContext {
        endpoint_info: insert32(c.endpoint_info, 16, 0xff, (interval & 0xff) as u32),
        endpoint_info2: insert32(
            insert32(c.endpoint_info2, 3, 0x7, ep_type_code(UsbEndpointType::Isochronous, d)),
            16,
            0xffff,
            max_packet_size as u32,
        ),
        tr_dequeue_pointer: dequeue_word(ring, true),
        ..c
    }
}

/// An endpoint context configured for `e` with its transfer ring at `ring`.
pub open spec fn endpoint_configured(c: EndpointContext, e: UsbEndpoint, ring: u64) -> EndpointContext {
    match e.endpoint_type {
        UsbEndpointType::Control => control_configured(c, e.max_packet_size, ring),
        UsbEndpointType::Bulk => bulk_configured(c, e.direction, e.max_packet_size, ring),
        UsbEndpointType::Interrupt => interrupt_configured(
            c,
            e.direction,
            e.max_packet_size,
            e.interval,
            ring,
        ),
        UsbEndpointType::Isochronous => isoch_configured(
            c,
            e.direction,
            e.max_packet_size,
            e.interval,
            ring,
        ),
    }
}

impl EndpointContext {
    /// Create a new endpoint context
    pub fn new() -> (r: Self)
        ensures
            r.endpoint_info == 0 && r.endpoint_info2 == 0 && r.tr_dequeue_pointer == 0
                && r.transfer_info == 0,
    {
        Self {
            endpoint_info: 0,
            endpoint_info2: 0,
            tr_dequeue_pointer: 0,
            transfer_info: 0,
            reserved: [0;3],
        }
    }

    /// Set the endpoint state
    pub fn set_endpoint_state(&mut self, state: u8)
        ensures
            *final(self) == (EndpointContext {
                endpoint_info: insert32(old(self).endpoint_info, 0, 0x7, (state & 0x7) as u32),
                ..*old(self)
            }),
    {
        proof { lemma_layouts(); }
        self.endpoint_info = set_field32(self.endpoint_info, 0, 0x7, (state & 0x7) as u32);
    }

    /// Set the multiplier
    pub fn set_multiplier(&mut self, mult: u8)
        ensures
            *final(self) == (EndpointContext {
                endpoint_info: insert32(old(self).endpoint_info, 3, 0x3, (mult & 0x3) as u32),
                ..*old(self)
            }),
    {
        proof { lemma_layouts(); }
        self.endpoint_info = set_field32(self.endpoint_info, 3, 0x3, (mult & 0x3) as u32);
    }

    /// Set the maximum primary streams
    pub fn set_max_primary_streams(&mut self, streams: u8)
        ensures
            *final(self) == (EndpointContext {
                endpoint_info: insert32(old(self).endpoint_info, 5, 0x1f, (streams & 0x1f) as u32),
                ..*old(self)
            }),
    {
        proof { lemma_layouts(); }
        self.endpoint_info = set_field32(self.endpoint_info, 5, 0x1f, (streams & 0x1f) as u32);
    }

    /// Set the linear stream array
    pub fn set_linear_stream_array(&mut self, lsa: bool)
        ensures
            *final(self) == (EndpointContext {
                endpoint_info: with_flag32(old(self).endpoint_info, 0x8000, lsa),
                ..*old(self)
            }),
    {
        if lsa {
            self.endpoint_info = self.endpoint_info | 0x8000;
        } else {
            self.endpoint_info = self.endpoint_info & !0x8000;
        }
    }

    /// Set the interval
    pub fn set_interval(&mut self, interval: u8)
        ensures
            *final(self) == (EndpointContext {
                endpoint_info: insert32(old(self).endpoint_info, 16, 0xff, (interval & 0xff) as u32),
                ..*old(self)
            }),
    {
        proof { lemma_layouts(); }
        self.endpoint_info = set_field32(self.endpoint_info, 16, 0xff, (interval & 0xff) as u32);
    }

    /// Set the max endpoint service time interval payload high
    pub fn set_max_esit_payload_hi(&mut self, payload: u8)
        ensures
            *final(self) == (EndpointContext {
                endpoint_info: insert32(old(self).endpoint_info, 24, 0xff, (payload & 0xff) as u32),
                ..*old(self)
            }),
    {
        proof { lemma_layouts(); }
        self.endpoint_info = set_field32(self.endpoint_info, 24, 0xff, (payload & 0xff) as u32);
    }

    /// Set the error count
    pub fn set_error_count(&mut self, count: u8)
        ensures
            *final(self) == (EndpointContext {
                endpoint_info2: insert32(old(self).endpoint_info2, 1, 0x3, (count & 0x3) as u32),
                ..*old(self)
            }),
    {
        proof { lemma_layouts(); }
        self.endpoint_info2 = set_field32(self.endpoint_info2, 1, 0x3, (count & 0x3) as u32);
    }

    /// Set the endpoint type
    pub fn set_endpoint_type(&mut self, ep_type: UsbEndpointType)
        ensures
            *final(self) == (EndpointContext {
                endpoint_info2: insert32(
                    old(self).endpoint_info2,
                    3,
                    0x7,
                    ep_type_code(ep_type, UsbDirection::Out),
                ),
                ..*old(self)
            }),
    {
        proof { lemma_layouts(); }
        let type_value: u32 = match ep_type {
            UsbEndpointType::Control => 4,
            UsbEndpointType::Isochronous => 1,  // OUT
            UsbEndpointType::Bulk => 2,  // OUT
            UsbEndpointType::Interrupt => 3,  // OUT
        };
        self.endpoint_info2 = set_field32(self.endpoint_info2, 3, 0x7, type_value);
    }

    /// Set the endpoint type with direction
    pub fn set_endpoint_type_with_direction(
        &mut self,
        ep_type: UsbEndpointType,
        direction: UsbDirection,
    )
        ensures
            *final(self) == (EndpointContext {
                endpoint_info2: insert32(old(self).endpoint_info2, 3, 0x7, ep_type_code(ep_type, direction)),
                ..*old(self)
            }),
    {
        proof { lemma_layouts(); }
        let type_value: u32 = match (ep_type, direction) {
            (UsbEndpointType::Control, _) => 4,
            (UsbEndpointType::Isochronous, UsbDirection::Out) => 1,
            (UsbEndpointType::Isochronous, UsbDirection::In) => 5,
            (UsbEndpointType::Bulk, UsbDirection::Out) => 2,
            (UsbEndpointType::Bulk, UsbDirection::In) => 6,
            (UsbEndpointType::Interrupt, UsbDirection::Out) => 3,
            (UsbEndpointType::Interrupt, UsbDirection::In) => 7,
        };
        self.endpoint_info2 = set_field32(self.endpoint_info2, 3, 0x7, type_value);
    }

    /// Set the host initiate disable
    pub fn set_host_initiate_disable(&mut self, disable: bool)
        ensures
            *final(self) == (EndpointContext {
                endpoint_info2: with_flag32(old(self).endpoint_info2, 0x80, disable),
                ..*old(self)
            }),
    {
        if disable {
            self.endpoint_info2 = self.endpoint_info2 | 0x80;
        } else {
            self.endpoint_info2 = self.endpoint_info2 & !0x80;
        }
    }

    /// Set the maximum burst size
    pub fn set_max_burst_size(&mut self, burst: u8)
        ensures
            *final(self) == (EndpointContext {
                endpoint_info2: insert32(old(self).endpoint_info2, 8, 0xff, (burst & 0xff) as u32),
                ..*old(self)
            }),
    {
        proof { lemma_layouts(); }
        self.endpoint_info2 = set_field32(self.endpoint_info2, 8, 0xff, (burst & 0xff) as u32);
    }

    /// Set the maximum packet size
    pub fn set_max_packet_size(&mut self, size: u16)
        ensures
            *final(self) == (EndpointContext {
                endpoint_info2: insert32(old(self).endpoint_info2, 16, 0xffff, size as u32),
                ..*old(self)
            }),
    {
        proof { lemma_layouts(); }
        self.endpoint_info2 = set_field32(self.endpoint_info2, 16, 0xffff, size as u32);
    }

    /// Set the transfer ring dequeue pointer
    pub fn set_tr_dequeue_pointer(&mut self, pointer: u64, cycle_state: bool)
        ensures
            *final(self) == (EndpointContext {
                tr_dequeue_pointer: dequeue_word(pointer, cycle_state),
                ..*old(self)
            }),
    {
        self.tr_dequeue_pointer = (pointer & !0xf) | if cycle_state {
            1
        } else {
            0
        };
    }

    /// Set the average transfer length
    pub fn set_average_trb_length(&mut self, length: u16)
        ensures
            *final(self) == (EndpointContext {
                transfer_info: insert32(old(self).transfer_info, 0, 0xffff, length as u32),
                ..*old(self)
            }),
    {
        proof { lemma_layouts(); }
        self.transfer_info = set_field32(self.transfer_info, 0, 0xffff, length as u32);
    }

    /// Set the max endpoint service time interval payload low
    pub fn set_max_esit_payload_lo(&mut self, payload: u16)
        ensures
            *final(self) == (EndpointContext {
                transfer_info: insert32(old(self).transfer_info, 16, 0xffff, payload as u32),
                ..*old(self)
            }),
    {
        proof { lemma_layouts(); }
        self.transfer_info = set_field32(self.transfer_info, 16, 0xffff, payload as u32);
    }

    /// Get the endpoint state
    pub fn endpoint_state(&self) -> (r: u8)
        ensures
            r == self.endpoint_info & 0x7,
    {
        proof { lemma_and_bounds(); }
        (self.endpoint_info & 0x7) as u8
    }

    /// Get the maximum packet size
    pub fn max_packet_size(&self) -> (r: u16)
        ensures
            r == field32(self.endpoint_info2, 16, 0xffff),
    {
        proof { lemma_and_bounds(); }
        ((self.endpoint_info2 >> 16) & 0xffff) as u16
    }

    /// Configure for control endpoint
    pub fn configure_control(&mut self, max_packet_size: u16, ring_address: u64)
        ensures
            *final(self) == control_configured(*old(self), max_packet_size, ring_address),
    {
        proof {
            lemma_layouts();
        }
        self.set_endpoint_state(0);  // Disabled initially
        self.set_endpoint_type(UsbEndpointType::Control);
        self.set_max_packet_size(max_packet_size);
        self.set_error_count(3);
        self.set_tr_dequeue_pointer(ring_address, true);
        self.set_average_trb_length(8);  // Typical for control transfers
    }

    /// Configure for bulk endpoint
    pub fn configure_bulk(&mut self, direction: UsbDirection, max_packet_size: u16, ring_address: u64)
        ensures
            *final(self) == bulk_configured(*old(self), direction, max_packet_size, ring_address),
    {
        proof {
            lemma_layouts();
        }
        self.set_endpoint_state(0);  // Disabled initially
        self.set_endpoint_type_with_direction(UsbEndpointType::Bulk, direction);
        self.set_max_packet_size(max_packet_size);
        self.set_error_count(3);
        self.set_tr_dequeue_pointer(ring_address, true);
        self.set_average_trb_length(1024);  // Typical for bulk transfers
    }

    /// Configure for interrupt endpoint
    pub fn configure_interrupt(
        &mut self,
        direction: UsbDirection,
        max_packet_size: u16,
        interval: u8,
        ring_address: u64,
    )
        ensures
            *final(self) == interrupt_configured(
                *old(self),
                direction,
                max_packet_size,
                interval,
                ring_address,
            ),
    {
        proof {
            lemma_layouts();
        }
        self.set_endpoint_state(0);  // Disabled initially
        self.set_endpoint_type_with_direction(UsbEndpointType::Interrupt, direction);
        self.set_max_packet_size(max_packet_size);
        self.set_interval(interval);
        self.set_error_count(3);
        self.set_tr_dequeue_pointer(ring_address, true);
        self.set_average_trb_length(max_packet_size);
    }
}

impl Default for EndpointContext {
    fn default() -> (r: Self)
        ensures
            r.endpoint_info == 0 && r.endpoint_info2 == 0 && r.tr_dequeue_pointer == 0
                && r.transfer_info == 0,
    {
        Self::new()
    }
}

/// A packet size written into an endpoint context reads back unchanged, and the other
/// characteristics stay as they were.
pub proof fn lemma_max_packet_size_roundtrip(info2: u32, size: u16)
    ensures
        field32(insert32(info2, 16, 0xffff, size as u32), 16, 0xffff) == size as u32,
        insert32(info2, 16, 0xffff, size as u32) & !(0xffffu32 << 16u32) == info2 & !(0xffffu32
            << 16u32),
{
    lemma_layouts();
    lemma_and_bounds();
    lemma_insert32(info2, 16, 0xffff, size as u32);
}

/// An endpoint state written into an endpoint context reads back as its low three bits.
pub proof fn lemma_endpoint_state_roundtrip(info: u32, state: u8)
    ensures
        insert32(info, 0, 0x7, (state & 0x7) as u32) & 0x7 == (state & 0x7) as u32,
{
    lemma_layouts();
    lemma_and_bounds();
    lemma_insert32(info, 0, 0x7, (state & 0x7) as u32);
    let r = insert32(info, 0, 0x7, (state & 0x7) as u32);
    assert(r >> 0u32 == r);
}

} // verus!

verus! {

/// Input Control Context
#[derive(Debug, Clone, Copy)]
pub struct InputControlContext {
    /// Drop context flags
    pub drop_context_flags: u32,
    /// Add context flags
    pub add_context_flags: u32,
    /// Reserved
    pub reserved: [u32; 5],
    /// Configuration value
    pub configuration_value: u8,
    /// Interface number
    pub interface_number: u8,
    /// Alternate setting
    pub alternate_setting: u8,
    /// Reserved
    pub reserved2: u8,
}

/// `flags` with bit `index` set when the index names a context (0..=31).
pub open spec fn with_context_bit(flags: u32, index: u8) -> u32 {
    if index <= 31 {
        flags | (1u32 << (index as u32))
    } else {
        flags
    }
}

impl InputControlContext {
    /// Create a new input control context
    pub fn new() -> (r: Self)
        ensures
            r.drop_context_flags == 0 && r.add_context_flags == 0 && r.configuration_value == 0
                && r.interface_number == 0 && r.alternate_setting == 0 && r.reserved2 == 0,
            r.reserved@ == seq![0u32, 0u32, 0u32, 0u32, 0u32],
    {
        Self {
            drop_context_flags: 0,
            add_context_flags: 0,
            reserved: [0;5],
            configuration_value: 0,
            interface_number: 0,
            alternate_setting: 0,
            reserved2: 0,
        }
    }

    /// Set the add context flag for a specific context
    pub fn set_add_context(&mut self, context_index: u8)
        ensures
            *final(self) == (InputControlContext {
                add_context_flags: with_context_bit(old(self).add_context_flags, context_index),
                ..*old(self)
            }),
    {
        if context_index <= 31 {
            self.add_context_flags = self.add_context_flags | (1u32 << context_index);
        }
    }

    /// Set the drop context flag for a specific context
    pub fn set_drop_context(&mut self, context_index: u8)
        ensures
            *final(self) == (InputControlContext {
                drop_context_flags: with_context_bit(old(self).drop_context_flags, context_index),
                ..*old(self)
            }),
    {
        if context_index <= 31 {
            self.drop_context_flags = self.drop_context_flags | (1u32 << context_index);
        }
    }

    /// Clear all flags
    pub fn clear_flags(&mut self)
        ensures
            *final(self) == (InputControlContext {
                drop_context_flags: 0,
                add_context_flags: 0,
                ..*old(self)
            }),
    {
        self.drop_context_flags = 0;
        self.add_context_flags = 0;
    }
}

impl Default for InputControlContext {
    fn default() -> (r: Self)
        ensures
            r.drop_context_flags == 0 && r.add_context_flags == 0,
    {
        Self::new()
    }
}

/// Device Context Base Address Array (DCBAA)
pub struct DeviceContextBaseAddressArray {
    /// Array of device context pointers (up to 256 slots)
    pub entries: [u64; 256],
}

impl DeviceContextBaseAddressArray {
    /// Create a new DCBAA
    pub fn new() -> (r: Self)
        ensures
            forall|i: int| 0 <= i < 256 ==> r.entries@[i] == 0,
    {
        Self { entries: [0;256] }
    }

    /// Set the device context base address for a slot
    pub fn set_device_context_base_address(&mut self, slot_id: u8, address: u64)
        ensures
            final(self).entries@ == if slot_id > 0 {
                old(self).entries@.update(slot_id as int, address & !0x3fu64)
            } else {
                old(self).entries@
            },
    {
        if slot_id > 0 {
            self.entries[slot_id as usize] = address & !0x3f;  // Must be 64-byte aligned
        }
    }

    /// Get the device context base address for a slot
    pub fn get_device_context_base_address(&self, slot_id: u8) -> (r: u64)
        ensures
            r == if slot_id > 0 {
                self.entries@[slot_id as int]
            } else {
                0
            },
    {
        if slot_id > 0 {
            self.entries[slot_id as usize]
        } else {
            0
        }
    }

    /// Clear a slot entry
    pub fn clear_slot(&mut self, slot_id: u8)
        ensures
            final(self).entries@ == if slot_id > 0 {
                old(self).entries@.update(slot_id as int, 0)
            } else {
                old(self).entries@
            },
    {
        if slot_id > 0 {
            self.entries[slot_id as usize] = 0;
        }
    }
}

impl Default for DeviceContextBaseAddressArray {
    fn default() -> (r: Self)
        ensures
            forall|i: int| 0 <= i < 256 ==> r.entries@[i] == 0,
    {
        Self::new()
    }
}

/// A device context address stored for a slot reads back 64-byte aligned; slot 0 is never
/// written and always reads 0.
pub proof fn lemma_dcbaa_roundtrip(entries: Seq<u64>, slot_id: u8, address: u64)
    requires
        entries.len() == 256,
    ensures
        slot_id > 0 ==> entries.update(slot_id as int, address & !0x3fu64)[slot_id as int] == address
            & !0x3fu64,
{
}

} // verus!

verus! {

/// Device Context (contains slot context and endpoint contexts)
#[derive(Debug, Clone, Copy)]
pub struct DeviceContext {
    /// Slot context
    pub slot_context: SlotContext,
    /// Endpoint contexts (up to 31)
    pub endpoint_contexts: [EndpointContext; 31],
}

/// The slot context's context-entries field after adding the endpoint with index `idx`.
pub open spec fn entries_after(context_info: u32, idx: u8) -> u32 {
    if idx > field32(context_info, 27, 0x1f) {
        insert32(context_info, 27, 0x1f, (idx & 0x1f) as u32)
    } else {
        context_info
    }
}

impl DeviceContext {
    /// Create a new device context
    pub fn new() -> (r: Self)
        ensures
            r.slot_context.context_info == 0 && r.slot_context.port_info == 0
                && r.slot_context.tt_info == 0 && r.slot_context.device_info == 0,
            forall|i: int|
                0 <= i < 31 ==> #[trigger] r.endpoint_contexts@[i].endpoint_info == 0
                    && r.endpoint_contexts@[i].endpoint_info2 == 0
                    && r.endpoint_contexts@[i].tr_dequeue_pointer == 0
                    && r.endpoint_contexts@[i].transfer_info == 0,
    {
        Self { slot_context: SlotContext::new(), endpoint_contexts: [EndpointContext::new();31] }
    }

    /// Get the size of the device context in bytes: one slot context and 31 endpoint
    /// contexts of 32 bytes each.
    pub fn size() -> (r: usize)
        ensures
            r == 32 + 31 * 32,
    {
        32 + 31 * 32
    }

    /// Get the endpoint context for a specific endpoint
    pub fn endpoint_context(&self, endpoint_index: u8) -> (r: Option<&EndpointContext>)
        ensures
            endpoint_index == 0 || endpoint_index > 31 ==> r.is_none(),
            1 <= endpoint_index <= 31 ==> r == Some(&self.endpoint_contexts@[endpoint_index - 1]),
    {
        if endpoint_index == 0 || endpoint_index > 31 {
            return None;
        }
        Some(&self.endpoint_contexts[(endpoint_index - 1) as usize])
    }

    /// Get the endpoint context for a specific endpoint, for changing it
    pub fn endpoint_context_mut(&mut self, endpoint_index: u8) -> (r: Option<&mut EndpointContext>)
        ensures
            endpoint_index == 0 || endpoint_index > 31 ==> r is None && *final(self) == *old(self),
            1 <= endpoint_index <= 31 ==> r is Some,
            r matches Some(e) ==> *e == old(self).endpoint_contexts@[endpoint_index - 1]
                && final(self).endpoint_contexts@ == old(self).endpoint_contexts@.update(endpoint_index - 1, *final(e))
                && final(self).slot_context == old(self).slot_context,
    {
        if endpoint_index == 0 || endpoint_index > 31 {
            return None;
        }
        Some(&mut self.endpoint_contexts[(endpoint_index - 1) as usize])
    }

    /// Configure the device context for a USB device
    pub fn configure_device(&mut self, device: &UsbDevice, control_ring_address: u64)
        requires
            endpoint_list(device.endpoints).len() > 0,
        ensures
            final(self).slot_context.context_info == insert32(
                insert32(
                    insert32(old(self).slot_context.context_info, 20, 0xf, xhci_speed_code(device.speed) as u32),
                    0,
                    0xfffff,
                    0,
                ),
                27,
                0x1f,
                1,
            ),
            final(self).slot_context.port_info == insert32(
                old(self).slot_context.port_info,
                16,
                0xff,
                (device.port & 0xff) as u32,
            ),
            final(self).slot_context.device_info == insert32(
                old(self).slot_context.device_info,
                0,
                0xff,
                (device.address & 0xff) as u32,
            ),
            final(self).slot_context.tt_info == old(self).slot_context.tt_info,
            final(self).endpoint_contexts@ == old(self).endpoint_contexts@.update(
                0,
                control_configured(
                    old(self).endpoint_contexts@[0],
                    endpoint_list(device.endpoints)[0].max_packet_size,
                    control_ring_address,
                ),
            ),
    {
        proof {
            lemma_layouts();
        }
        // Configure slot context
        self.slot_context.set_speed(device.speed);
        self.slot_context.set_route_string(0);  // Direct connection to root hub
        self.slot_context.set_root_hub_port(device.port);
        self.slot_context.set_context_entries(1);  // Only control endpoint initially
        self.slot_context.set_device_address(device.address);

        // Configure control endpoint (endpoint 1)
        let control_endpoint = device.control_endpoint();
        let mut control_ep = self.endpoint_contexts[0];
        control_ep.configure_control(control_endpoint.max_packet_size, control_ring_address);
        self.endpoint_contexts[0] = control_ep;
    }

    /// Add an endpoint to the device context
    pub fn add_endpoint(&mut self, endpoint: &UsbEndpoint, ring_address: u64) -> (r: Result<()>)
        requires
            endpoint.number < 128,
        ensures
            (xhci_index_spec(*endpoint) > 31) <==> r is Err,
            r is Err ==> r == Err::<(), UsbError>(UsbError::InvalidEndpoint),
            r is Ok ==> {
                let idx = xhci_index_spec(*endpoint);
                &&& final(self).endpoint_contexts@ == old(self).endpoint_contexts@.update(
                    idx - 1,
                    endpoint_configured(old(self).endpoint_contexts@[idx - 1], *endpoint, ring_address),
                )
                &&& final(self).slot_context == (SlotContext {
                    context_info: entries_after(old(self).slot_context.context_info, idx as u8),
                    ..old(self).slot_context
                })
            },
            r is Err ==> *final(self) == *old(self),
    {
        let endpoint_index = endpoint.xhci_index();
        if endpoint_index == 0 || endpoint_index > 31 {
            return Err(UsbError::InvalidEndpoint);
        }
        proof {
            lemma_layouts();
            lemma_and_bounds();
        }
        let mut ep_context = self.endpoint_contexts[(endpoint_index - 1) as usize];
        match endpoint.endpoint_type {
            UsbEndpointType::Control => {
                ep_context.configure_control(endpoint.max_packet_size, ring_address);
            },
            UsbEndpointType::Bulk => {
                ep_context.configure_bulk(endpoint.direction, endpoint.max_packet_size, ring_address);
            },
            UsbEndpointType::Interrupt => {
                ep_context.configure_interrupt(
                    endpoint.direction,
                    endpoint.max_packet_size,
                    endpoint.interval,
                    ring_address,
                );
            },
            UsbEndpointType::Isochronous => {
                // Isochronous endpoints require more complex configuration
                ep_context.set_endpoint_type_with_direction(
                    UsbEndpointType::Isochronous,
                    endpoint.direction,
                );
                ep_context.set_max_packet_size(endpoint.max_packet_size);
                ep_context.set_interval(endpoint.interval);
                ep_context.set_tr_dequeue_pointer(ring_address, true);
            },
        }
        self.endpoint_contexts[(endpoint_index - 1) as usize] = ep_context;

        // Update context entries in slot context
        let current_entries = ((self.slot_context.context_info >> 27) & 0x1f) as u8;
        if endpoint_index > current_entries {
            self.slot_context.set_context_entries(endpoint_index);
        }
        Ok(())
    }
}

impl Default for DeviceContext {
    fn default() -> (r: Self)
        ensures
            r.slot_context.context_info == 0,
    {
        Self::new()
    }
}

/// Input Context for xHCI commands
#[derive(Debug)]
pub struct InputContext {
    /// Input control context
    pub input_control_context: InputControlContext,
    /// Device context
    pub device_context: DeviceContext,
}

impl InputContext {
    /// Create a new input context
    pub fn new() -> (r: Self)
        ensures
            r.input_control_context.drop_context_flags == 0,
            r.input_control_context.add_context_flags == 0,
            r.device_context.slot_context.context_info == 0,
    {
        Self { input_control_context: InputControlContext::new(), device_context: DeviceContext::new() }
    }

    /// Get the size of the input context in bytes: the 32-byte control context and the
    /// device context.
    pub fn size() -> (r: usize)
        ensures
            r == 32 + 32 + 31 * 32,
    {
        32 + DeviceContext::size()
    }
}

impl Default for InputContext {
    fn default() -> (r: Self)
        ensures
            r.input_control_context.add_context_flags == 0,
    {
        Self::new()
    }
}

} // verus!
