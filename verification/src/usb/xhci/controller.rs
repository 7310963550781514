//! xHCI host controller driver state.
//!
//! The controller holds the contents of its register blocks as plain values (see
//! `registers`), its rings, its slot table and the devices it found. Each method
//! decides what the controller does next and computes the register values that go
//! to the hardware; moving register values to and from the memory-mapped hardware,
//! waiting for the hardware and placing structures in physical memory is the
//! caller's part.

use vstd::prelude::*;
use std::collections::BTreeMap;
use vstd::std_specs::btree::{increasing_seq, key_obeys_cmp_spec, spec_btree_map_iter};
use vstd::std_specs::iter::IteratorSpec;
use crate::usb::error::{Result, UsbError};
use crate::usb::types::{endpoint_list, UsbDevice};
use crate::usb::xhci::registers::{
    power_value, CapabilityRegisters, DoorbellRegister, InterrupterRegisterSet, OperationalRegisters,
    PortRegisterSet, RuntimeRegisters,
};
use crate::usb::xhci::ring::RingSegment;
use crate::usb::xhci::ring::{CommandRing, EventRing, TransferRing};
use crate::usb::xhci::context::DeviceContextBaseAddressArray;
use crate::usb::xhci::context::DeviceContext;
use crate::usb::xhci::transfer::UsbTransferManager;
use crate::usb::xhci::{port_speed, XhciCapabilities, XhciPortStatus};
use crate::usb::xhci::trb::{
    cyc, setup_parameter, setup_transfer_type, AddressDeviceCommandTrb, DataStageTrb, TrbType,
    PortStatusChangeEvent,
    DisableSlotCommandTrb, EnableSlotCommandTrb, SetupStageTrb, StatusStageTrb, Trb,
};
use crate::usb::xhci::ring::{enqueue_spec, link_trb, zero_trb, RingModel};
use crate::usb::xhci::context::{with_context_bit, InputContext};
use crate::usb::types::descriptor_types;
use crate::usb::types::{SetupPacket, UsbDirection, UsbSpeed};

verus! {

broadcast use vstd::std_specs::btree::group_btree_axioms;

/// Controller state
#[derive(Debug, Clone, Copy, PartialEq, Eq, Structural)]
pub enum ControllerState {
    Uninitialized,
    Initializing,
    Running,
    Halted,
    Error,
}

/// Where the controller's register blocks lie, as offsets from its base address.
pub struct RegisterAddresses {
    /// Operational registers: base + CAPLENGTH
    pub operational: u64,
    /// Runtime registers: base + RTSOFF
    pub runtime: u64,
    /// One port register set per port, 0x10 apart from operational + 0x400
    pub ports: Vec<u64>,
    /// One doorbell per port and the command doorbell, 4 apart from base + DBOFF
    pub doorbells: Vec<u64>,
}

/// The physical memory placed for the structures of one new device slot.
#[derive(Debug, Clone, Copy)]
pub struct SlotMemory {
    /// The segment of the default control endpoint's transfer ring (64 TRBs)
    pub control_ring: u64,
    /// The device context
    pub device_context: u64,
    /// The input context of the Address Device command
    pub input_context: u64,
}

/// The parts of the controller that its contracts speak of.
pub struct XhciControllerView {
    pub state: ControllerState,
    pub base_address: u64,
    pub irq_line: Option<u8>,
    pub cap_regs: Option<CapabilityRegisters>,
    pub op_regs: Option<OperationalRegisters>,
    pub runtime_regs: Option<RuntimeRegisters>,
    pub ports: Seq<PortRegisterSet>,
    pub doorbells: Seq<DoorbellRegister>,
    pub capabilities: Option<XhciCapabilities>,
    pub command_ring: Option<CommandRing>,
    pub event_ring: Option<EventRing>,
    pub dcbaa: Option<DeviceContextBaseAddressArray>,
    pub dcbaa_address: u64,
    /// Which of the 256 slot IDs are allocated (slot 0 is never handed out)
    pub slots: Seq<bool>,
    /// The devices by slot ID
    pub devices: Map<u8, UsbDevice>,
    /// The transfer rings by (slot ID, endpoint index)
    pub transfer_rings: Map<(u8, u8), TransferRing>,
    /// The device contexts by slot ID
    pub device_contexts: Map<u8, DeviceContext>,
}

/// xHCI Host Controller Driver
pub struct XhciController {
    /// Controller name
    name: &'static str,
    /// Base address of xHCI registers
    base_address: u64,
    /// Capability registers
    cap_regs: Option<CapabilityRegisters>,
    /// Operational registers
    op_regs: Option<OperationalRegisters>,
    /// Runtime registers
    runtime_regs: Option<RuntimeRegisters>,
    /// Port register sets
    port_regs: Vec<PortRegisterSet>,
    /// Doorbell registers
    doorbell_regs: Vec<DoorbellRegister>,
    /// Capabilities
    capabilities: Option<XhciCapabilities>,
    /// Command ring
    command_ring: Option<CommandRing>,
    /// Event ring
    event_ring: Option<EventRing>,
    /// Device context base address array
    dcbaa: Option<DeviceContextBaseAddressArray>,
    /// Physical address of the device context base address array
    dcbaa_address: u64,
    /// Connected devices, by slot ID
    devices: BTreeMap<u8, UsbDevice>,
    /// Slot allocations
    allocated_slots: [bool; 256],
    /// Transfer rings for endpoints, by (slot_id, endpoint_index)
    transfer_rings: BTreeMap<(u8, u8), TransferRing>,
    /// Device contexts, by slot ID
    device_contexts: BTreeMap<u8, DeviceContext>,
    /// Transfer manager
    transfer_manager: UsbTransferManager,
    /// Controller state
    state: ControllerState,
    /// IRQ line
    irq_line: Option<u8>,
}

impl View for XhciController {
    type V = XhciControllerView;

    closed spec fn view(&self) -> XhciControllerView {
        XhciControllerView {
            state: self.state,
            base_address: self.base_address,
            irq_line: self.irq_line,
            cap_regs: self.cap_regs,
            op_regs: self.op_regs,
            runtime_regs: self.runtime_regs,
            ports: self.port_regs@,
            doorbells: self.doorbell_regs@,
            capabilities: self.capabilities,
            command_ring: self.command_ring,
            event_ring: self.event_ring,
            dcbaa: self.dcbaa,
            dcbaa_address: self.dcbaa_address,
            slots: self.allocated_slots@,
            devices: self.devices@,
            transfer_rings: self.transfer_rings@,
            device_contexts: self.device_contexts@,
        }
    }
}

/// A ring of one 64-TRB segment whose memory ends inside the address space.
pub open spec fn one_segment_ring(r: TransferRing) -> bool {
    &&& r.wf()
    &&& r.usable() == 63
    &&& r.bases().len() == 1
    &&& r.bases()[0] + 1024 <= u64::MAX
}

/// Every device of the map has at least its default control endpoint.
pub open spec fn devices_ok(m: Map<u8, UsbDevice>) -> bool {
    forall|k: u8| #[trigger] m.contains_key(k) ==> endpoint_list(m[k].endpoints).len() > 0
}

/// The slot IDs `ks` list the keys of `m`, each once, in increasing order.
pub open spec fn in_slot_order<V>(m: Map<u8, V>, ks: Seq<u8>) -> bool {
    &&& forall|i: int, j: int| 0 <= i < j < ks.len() ==> #[trigger] ks[i] < #[trigger] ks[j]
    &&& forall|i: int| 0 <= i < ks.len() ==> m.contains_key(#[trigger] ks[i])
    &&& forall|k: u8| #[trigger] m.contains_key(k) ==> ks.contains(k)
}

/// Every ring of the map is a ring of one 64-TRB segment.
pub open spec fn rings_ok(m: Map<(u8, u8), TransferRing>) -> bool {
    forall|k: (u8, u8)| #[trigger] m.contains_key(k) ==> one_segment_ring(m[k])
}

/// An event ring whose segments end inside the address space.
pub open spec fn event_ring_fits(e: EventRing) -> bool {
    &&& e.wf()
    &&& forall|i: int|
        0 <= i < e.table().len() ==> #[trigger] e.table()[i].ring_segment_base_address
            + e.table()[i].ring_segment_size * 16 <= u64::MAX
}

impl XhciControllerView {
    /// The controller's invariant.
    pub open spec fn wf(self) -> bool {
        &&& self.slots.len() == 256
        &&& devices_ok(self.devices)
        &&& rings_ok(self.transfer_rings)
        &&& self.command_ring matches Some(c) ==> one_segment_ring(c.ring())
        &&& self.event_ring matches Some(e) ==> event_ring_fits(e)
    }
}

/// The register blocks of a controller at `base_address` lie inside the address space.
pub open spec fn layout_fits(base_address: u64, cap: CapabilityRegisters) -> bool {
    let ports = (cap.hcsparams1 >> 24u32) & 0xff;
    &&& base_address + (cap.caplength_reserved & 0xff) + 0x400 + 0x10 * ports <= u64::MAX
    &&& base_address + (cap.rtsoff & !0x1fu32) <= u64::MAX
    &&& base_address + (cap.dboff & !0x03u32) + 4 * ports <= u64::MAX
}

/// Compute where the register blocks of a controller at `base_address` lie, from its
/// capability registers.
pub fn register_addresses(base_address: u64, cap: &CapabilityRegisters) -> (r: RegisterAddresses)
    requires
        layout_fits(base_address, *cap),
    ensures
        r.operational == base_address + (cap.caplength_reserved & 0xff),
        r.runtime == base_address + (cap.rtsoff & !0x1fu32),
        r.ports@.len() == (cap.hcsparams1 >> 24u32) & 0xff,
        forall|i: int| 0 <= i < r.ports@.len() ==> #[trigger] r.ports@[i] == r.operational + 0x400 + 0x10 * i,
        r.doorbells@.len() == ((cap.hcsparams1 >> 24u32) & 0xff) + 1,
        forall|i: int|
            0 <= i < r.doorbells@.len() ==> #[trigger] r.doorbells@[i] == base_address + (cap.dboff
                & !0x03u32) + 4 * i,
{
    let cap_length = cap.cap_length() as u64;
    let op_base = base_address + cap_length;
    let runtime_base = base_address + cap.runtime_offset() as u64;
    let max_ports = cap.max_ports();
    let port_base = op_base + 0x400;
    let mut ports: Vec<u64> = Vec::new();
    let mut i: u8 = 0;
    while i < max_ports
        invariant
            i <= max_ports,
            max_ports == (cap.hcsparams1 >> 24u32) & 0xff,
            port_base == base_address + (cap.caplength_reserved & 0xff) + 0x400,
            layout_fits(base_address, *cap),
            ports@.len() == i,
            forall|k: int| 0 <= k < i ==> #[trigger] ports@[k] == port_base + 0x10 * k,
        decreases max_ports - i,
    {
        ports.push(port_base + (i as u64) * 0x10);
        i = i + 1;
    }
    let doorbell_base = base_address + cap.doorbell_offset() as u64;
    let mut doorbells: Vec<u64> = Vec::new();
    let mut j: u16 = 0;
    while j <= max_ports as u16
        invariant
            j <= max_ports as u16 + 1,
            max_ports == (cap.hcsparams1 >> 24u32) & 0xff,
            doorbell_base == base_address + (cap.dboff & !0x03u32),
            layout_fits(base_address, *cap),
            doorbells@.len() == j,
            forall|k: int| 0 <= k < j ==> #[trigger] doorbells@[k] == doorbell_base + 4 * k,
        decreases max_ports as u16 + 1 - j,
    {
        doorbells.push(doorbell_base + (j as u64) * 4);
        j = j + 1;
    }
    RegisterAddresses { operational: op_base, runtime: runtime_base, ports, doorbells }
}

/// CRCR as written for a command ring at `address` with cycle state `cycle`.
pub open spec fn crcr_value(address: u64, cycle: bool) -> u64 {
    if cycle {
        (address & !0x3fu64) | 1
    } else {
        address & !0x3fu64
    }
}

/// The primary interrupter programmed for event ring `e`: its segment table, the
/// dequeue pointer and interrupts enabled.
pub open spec fn programmed_interrupter(i: InterrupterRegisterSet, e: EventRing) -> InterrupterRegisterSet {
    InterrupterRegisterSet {
        iman: i.iman | 2u32,
        erstba: e.table_address() & !0x3fu64,
        erstsz: (e.table().len() as u16) as u32,
        erdp: (e.dequeue_address() as u64) & !0x0fu64,
        ..i
    }
}

/// The operational registers as `configure_controller` leaves them.
pub open spec fn configured_op(
    op: OperationalRegisters,
    caps: XhciCapabilities,
    dcbaa_address: Option<u64>,
    command_ring: Option<CommandRing>,
) -> OperationalRegisters {
    let op1 = OperationalRegisters { config: (op.config & !0xffu32) | (caps.hcsparams1 & 0xff), ..op };
    let op2 = match dcbaa_address {
        Some(a) => OperationalRegisters { dcbaap: a & !0x3fu64, ..op1 },
        None => op1,
    };
    let op3 = match command_ring {
        Some(c) => OperationalRegisters {
            crcr: crcr_value(c.ring().enqueue_address() as u64, c.ring().model().cycle),
            ..op2
        },
        None => op2,
    };
    OperationalRegisters { usbcmd: op3.usbcmd | 4u32, ..op3 }
}

/// The ports as `initialize_ports` leaves them: each of the first `n` is powered on where
/// `power` holds, and written back so that its change bits are acknowledged.
pub open spec fn initialized_ports(ports: Seq<PortRegisterSet>, n: int, power: bool) -> Seq<PortRegisterSet> {
    Seq::new(
        ports.len(),
        |i: int|
            if i < n && power {
                PortRegisterSet { portsc: power_value(ports[i].portsc, true), ..ports[i] }
            } else {
                ports[i]
            },
    )
}

/// The ring keys of slot `slot`.
pub open spec fn slot_keys(slot: u8) -> Set<(u8, u8)> {
    Set::new(|k: (u8, u8)| k.0 == slot)
}

/// The keys of a map of slots obey the ordering laws.
proof fn lemma_u8_keys()
    ensures
        key_obeys_cmp_spec::<u8>(),
{
    broadcast use vstd::laws_cmp::group_laws_cmp;

    assert(vstd::laws_cmp::obeys_cmp::<u8>());
}

/// A sequence of slot IDs that the ordering calls increasing increases.
proof fn lemma_keys_increase(s: Seq<u8>)
    requires
        increasing_seq(s),
    ensures
        forall|i: int, j: int| 0 <= i < j < s.len() ==> s[i] < s[j],
{
    broadcast use vstd::laws_cmp::group_laws_cmp;

    assert(vstd::laws_cmp::obeys_cmp::<u8>());
    assert forall|i: int, j: int| 0 <= i < j < s.len() implies s[i] < s[j] by {
        assert(vstd::std_specs::cmp::OrdSpec::cmp_spec(&s[i], &s[j]) is Less);
    }
}

/// What iterating over a map of slots yields: its entries in increasing slot order, each once.
proof fn lemma_slot_order<V>(m: Map<u8, V>, s: Seq<(&u8, &V)>)
    requires
        increasing_seq(s.map_values(|kv: (&u8, &V)| *kv.0)),
        s.len() == m.dom().len(),
        forall|i: int| 0 <= i < s.len() ==> m.contains_key(*(#[trigger] s[i]).0) && m[*s[i].0] == *s[i].1,
        forall|k: u8| #[trigger] m.contains_key(k) ==> s.contains((&k, &m[k])),
    ensures
        forall|i: int, j: int| 0 <= i < j < s.len() ==> *(#[trigger] s[i]).0 < *(#[trigger] s[j]).0,
        in_slot_order(m, s.map_values(|kv: (&u8, &V)| *kv.0)),
        forall|i: int| 0 <= i < s.len() ==> m.contains_key(*(#[trigger] s[i]).0) && m[*s[i].0] == *s[i].1,
        forall|k: u8| #[trigger] m.contains_key(k) ==> s.contains((&k, &m[k])),
{
    let ks = s.map_values(|kv: (&u8, &V)| *kv.0);
    lemma_keys_increase(ks);
    assert forall|i: int, j: int| 0 <= i < j < s.len() implies *(#[trigger] s[i]).0 < *(#[trigger] s[j]).0 by {
        assert(ks[i] < ks[j]);
    }
    assert forall|i: int| 0 <= i < ks.len() implies m.contains_key(#[trigger] ks[i]) by {
        assert(ks[i] == *s[i].0);
    }
    assert forall|k: u8| #[trigger] m.contains_key(k) implies ks.contains(k) by {
        assert(s.contains((&k, &m[k])));
        let i = choose|i: int| 0 <= i < s.len() && s[i] == (&k, &m[k]);
        assert(ks[i] == k);
    }
}

/// The lowest slot holding a device on root port `port`.
fn first_slot_on_port(devices: &BTreeMap<u8, UsbDevice>, port: u8) -> (r: Option<u8>)
    ensures
        r == first_on_port(devices@, port),
{
    proof {
        lemma_u8_keys();
    }
    let it = devices.iter();
    let ghost s = it.remaining();
    proof {
        assert(s == spec_btree_map_iter(devices).remaining());
        lemma_slot_order(devices@, s);
    }
    for kv in iter: it
        invariant
            iter.seq() == s,
            forall|i: int, j: int| 0 <= i < j < s.len() ==> *(#[trigger] s[i]).0 < *(#[trigger] s[j]).0,
            forall|i: int| 0 <= i < s.len() ==> devices@.contains_key(*(#[trigger] s[i]).0) && devices@[*s[i].0] == *s[i].1,
            forall|k: u8| #[trigger] devices@.contains_key(k) ==> s.contains((&k, &devices@[k])),
            forall|i: int| 0 <= i < iter.index() ==> (*(#[trigger] s[i]).1).port != port,
    {
        if kv.1.port == port {
            proof {
                let c = iter.index();
                let k0 = *kv.0;
                assert(*s[c].0 == k0);
                assert(on_port(devices@, port, k0));
                assert forall|j: u8| on_port(devices@, port, j) implies k0 <= j by {
                    assert(s.contains((&j, &devices@[j])));
                    let i = choose|i: int| 0 <= i < s.len() && s[i] == (&j, &devices@[j]);
                    if i < c {
                        assert((*s[i].1).port != port);
                    } else if i > c {
                        assert(*s[c].0 < *s[i].0);
                    }
                }
                let ch = choose|k: u8| #[trigger] on_port(devices@, port, k) && forall|j: u8| on_port(devices@, port, j) ==> k <= j;
                assert(on_port(devices@, port, k0) && forall|j: u8| on_port(devices@, port, j) ==> k0 <= j);
                assert(ch <= k0 && k0 <= ch);
            }
            return Some(*kv.0);
        }
    }
    proof {
        assert forall|k: u8| !on_port(devices@, port, k) by {
            if devices@.contains_key(k) {
                assert(s.contains((&k, &devices@[k])));
                let i = choose|i: int| 0 <= i < s.len() && s[i] == (&k, &devices@[k]);
                assert((*s[i].1).port != port);
            }
        }
    }
    None
}

/// Remove every ring of slot `slot`.
fn remove_slot_rings(m: &mut BTreeMap<(u8, u8), TransferRing>, slot: u8)
    ensures
        final(m)@ == old(m)@.remove_keys(slot_keys(slot)),
{
    let ghost orig = m@;
    let mut endpoint: u16 = 0;
    while endpoint < 256
        invariant
            endpoint <= 256,
            m@ == orig.remove_keys(Set::new(|k: (u8, u8)| k.0 == slot && (k.1 as int) < endpoint)),
        decreases 256 - endpoint,
    {
        let ghost before = m@;
        m.remove(&(slot, endpoint as u8));
        proof {
            assert(m@ =~= orig.remove_keys(Set::new(|k: (u8, u8)| k.0 == slot && (k.1 as int) < endpoint + 1)));
        }
        endpoint = endpoint + 1;
    }
    proof {
        assert(m@ =~= orig.remove_keys(slot_keys(slot)));
    }
}

/// The Enable Slot command.
pub open spec fn enable_slot_trb(slot_type: u8, cycle: bool) -> Trb {
    Trb { parameter: 0, status: 0, control: ((slot_type as u32) << 16u32) | 0x2400u32 | cyc(cycle) }
}

/// The Disable Slot command for `slot_id`.
pub open spec fn disable_slot_trb(slot_id: u8, cycle: bool) -> Trb {
    Trb { parameter: 0, status: 0, control: ((slot_id as u32) << 24u32) | 0x2800u32 | cyc(cycle) }
}

/// The Address Device command for `slot_id` with the input context at `input_context`.
pub open spec fn address_device_trb(input_context: u64, slot_id: u8, block: bool, cycle: bool) -> Trb {
    Trb {
        parameter: input_context & !0x0fu64,
        status: 0,
        control: ((slot_id as u32) << 24u32) | (if block {
            0x200u32
        } else {
            0u32
        }) | 0x2c00u32 | cyc(cycle),
    }
}

/// The Setup Stage TRB of a control transfer.
pub open spec fn setup_stage_trb(p: SetupPacket, cycle: bool) -> Trb {
    Trb {
        parameter: setup_parameter(p),
        status: (p.length as u32) & 0x1ffff,
        control: 0x840u32 | cyc(cycle) | (setup_transfer_type(p) << 16u32),
    }
}

/// The Data Stage TRB of a control transfer.
pub open spec fn data_stage_trb(buffer: u64, length: u32, direction: UsbDirection, cycle: bool) -> Trb {
    Trb {
        parameter: buffer,
        status: length & 0x1ffff,
        control: 0xc00u32 | cyc(cycle) | (if direction == UsbDirection::In {
            0x10000u32
        } else {
            0u32
        }),
    }
}

/// The Status Stage TRB of a control transfer.
pub open spec fn status_stage_trb(direction: UsbDirection, cycle: bool) -> Trb {
    Trb {
        parameter: 0,
        status: 0,
        control: 0x1020u32 | cyc(cycle) | (if direction == UsbDirection::In {
            0x10000u32
        } else {
            0u32
        }),
    }
}

/// The direction of a control transfer's data stage: bit 7 of the request type.
pub open spec fn data_direction(p: SetupPacket) -> UsbDirection {
    if p.request_type & 0x80 != 0 {
        UsbDirection::In
    } else {
        UsbDirection::Out
    }
}

/// The direction of a control transfer's status stage: IN unless data flowed IN.
pub open spec fn status_direction(p: SetupPacket) -> UsbDirection {
    if p.length == 0 || p.request_type & 0x80 == 0 {
        UsbDirection::In
    } else {
        UsbDirection::Out
    }
}

/// A ring after a control transfer was staged on it: setup, data (where the packet
/// announces data) and status, each with the ring's cycle state at its turn.
pub open spec fn control_model(m: RingModel, p: SetupPacket, buffer: u64, usable: int) -> RingModel {
    let m1 = enqueue_spec(m, setup_stage_trb(p, m.cycle), usable);
    let m2 = if p.length > 0 {
        enqueue_spec(m1, data_stage_trb(buffer, p.length as u32, data_direction(p), m1.cycle), usable)
    } else {
        m1
    };
    enqueue_spec(m2, status_stage_trb(status_direction(p), m2.cycle), usable)
}

/// `c2` is command ring `c` after `t` was submitted to it.
pub open spec fn submitted(c: CommandRing, c2: CommandRing, t: Trb) -> bool {
    &&& c2.ring().wf()
    &&& c2.ring().usable() == c.ring().usable()
    &&& c2.ring().bases() == c.ring().bases()
    &&& c2.ring().model() == enqueue_spec(c.ring().model(), t, c.ring().usable() as int)
    &&& c2.completions() == c.completions()
}

/// The doorbells after the command doorbell (doorbell 0) was rung.
pub open spec fn rung_command(d: Seq<DoorbellRegister>) -> Seq<DoorbellRegister> {
    if d.len() > 0 {
        d.update(0, DoorbellRegister { doorbell: 0 })
    } else {
        d
    }
}

/// The doorbells after the doorbell of `slot_id` was rung for the default control
/// endpoint (target 1, stream 0).
pub open spec fn rung_control(d: Seq<DoorbellRegister>, slot_id: u8) -> Seq<DoorbellRegister> {
    if slot_id < d.len() {
        d.update(slot_id as int, DoorbellRegister { doorbell: 1 })
    } else {
        d
    }
}

/// Slot `i` is the lowest free slot ID.
pub open spec fn is_first_free(slots: Seq<bool>, i: int) -> bool {
    &&& 1 <= i < 256
    &&& !slots[i]
    &&& forall|j: int| 1 <= j < i ==> #[trigger] slots[j]
}

/// The lowest free slot ID (slot 0 is never handed out), if any.
pub open spec fn first_free_slot(slots: Seq<bool>) -> Option<int> {
    if exists|i: int| #[trigger] is_first_free(slots, i) {
        Some(choose|i: int| #[trigger] is_first_free(slots, i))
    } else {
        None
    }
}

/// The controller `new` after a command `t` built with `old`'s cycle state ran: the command
/// went to the ring and the command doorbell was rung. Without a command ring nothing ran.
pub open spec fn command_ran(old: XhciControllerView, new: XhciControllerView, t: spec_fn(bool) -> Trb) -> bool {
    match old.command_ring {
        Some(c) => {
            &&& new.command_ring matches Some(c2) && submitted(c, c2, t(c.ring().model().cycle))
            &&& new.doorbells == rung_command(old.doorbells)
        },
        None => new.command_ring is None && new.doorbells == old.doorbells,
    }
}

/// The controller `new` is `old` with slot `slot_id` disabled: the Disable Slot command ran,
/// and the slot's allocation, device, device context and transfer rings are gone.
pub open spec fn slot_disabled(old: XhciControllerView, new: XhciControllerView, slot_id: u8) -> bool {
    &&& new == XhciControllerView {
        command_ring: new.command_ring,
        doorbells: new.doorbells,
        slots: old.slots.update(slot_id as int, false),
        devices: old.devices.remove(slot_id),
        device_contexts: old.device_contexts.remove(slot_id),
        transfer_rings: old.transfer_rings.remove_keys(slot_keys(slot_id)),
        ..old
    }
    &&& command_ran(old, new, |cycle: bool| disable_slot_trb(slot_id, cycle))
}

/// What `disable_device_slot(slot_id)` does: refuse a slot that is not allocated, else
/// disable it.
pub open spec fn disable_outcome(old: XhciControllerView, new: XhciControllerView, slot_id: u8, r: Result<()>) -> bool {
    if slot_id == 0 || !old.slots[slot_id as int] {
        r == Err::<(), UsbError>(UsbError::InvalidRequest) && new == old
    } else {
        r is Ok && slot_disabled(old, new, slot_id)
    }
}

/// What `enable_device_slot` does: take the lowest free slot, run the Enable Slot command
/// and mark the slot allocated; without a command ring the slot is reported but neither
/// commanded nor marked.
pub open spec fn enable_outcome(old: XhciControllerView, new: XhciControllerView, r: Result<u8>) -> bool {
    match first_free_slot(old.slots) {
        None => r == Err::<u8, UsbError>(UsbError::OutOfMemory) && new == old,
        Some(s) => {
            &&& r == Ok::<u8, UsbError>(s as u8)
            &&& if old.command_ring is Some {
                &&& new == XhciControllerView {
                    command_ring: new.command_ring,
                    doorbells: new.doorbells,
                    slots: old.slots.update(s, true),
                    ..old
                }
                &&& command_ran(old, new, |cycle: bool| enable_slot_trb(0, cycle))
            } else {
                new == old
            }
        },
    }
}

/// What `control_transfer` does: stage the transfer on the slot's default control ring and
/// ring the slot's doorbell; without that ring nothing happens.
pub open spec fn control_outcome(
    old: XhciControllerView,
    new: XhciControllerView,
    slot_id: u8,
    p: SetupPacket,
    buffer: u64,
) -> bool {
    if old.transfer_rings.contains_key((slot_id, 1u8)) {
        let ring = old.transfer_rings[(slot_id, 1u8)];
        let staged = new.transfer_rings[(slot_id, 1u8)];
        &&& new == XhciControllerView {
            transfer_rings: new.transfer_rings,
            doorbells: rung_control(old.doorbells, slot_id),
            ..old
        }
        &&& new.transfer_rings == old.transfer_rings.insert((slot_id, 1u8), staged)
        &&& staged.usable() == ring.usable()
        &&& staged.bases() == ring.bases()
        &&& staged.model() == control_model(ring.model(), p, buffer, ring.usable() as int)
    } else {
        new == old
    }
}

/// Facts about the constant register values this module writes.
proof fn lemma_constants(portsc: u32)
    by (bit_vector)
    ensures
        (1u8 as u32) | ((0u16 as u32) << 16u32) == 1u32,
        (portsc & 0xfe_0000u32) & 0x20000u32 == portsc & 0x20000u32,
        (portsc & 0xfe_0000u32) & 0x200000u32 == portsc & 0x200000u32,
{
}

/// The model of a fresh default control ring of one 64-TRB segment at `address`.
pub open spec fn fresh_control_ring(address: u64) -> RingModel {
    RingModel {
        segments: seq![
            Seq::new(
                64,
                |j: int|
                    if j == 63 {
                        link_trb(address, true)
                    } else {
                        zero_trb()
                    },
            ),
        ],
        segment: 0,
        trb: 0,
        cycle: true,
    }
}

/// The GET_DESCRIPTOR request for the 18-byte device descriptor.
pub open spec fn device_descriptor_request() -> SetupPacket {
    SetupPacket { request_type: 0x80, request: 0x06, value: 0x100, index: 0, length: 18 }
}

/// The controller `w` is `v` after the device in slot `slot_id` was enumerated with the
/// memory `memory`: a fresh default control ring was set up and a GET_DESCRIPTOR for the
/// device descriptor staged on it, the slot's device context stored and entered in the
/// DCBAA, and the Address Device command run.
pub open spec fn enumerated(v: XhciControllerView, w: XhciControllerView, slot_id: u8, memory: SlotMemory) -> bool {
    let ring = w.transfer_rings[(slot_id, 1u8)];
    &&& w == XhciControllerView {
        command_ring: w.command_ring,
        doorbells: w.doorbells,
        dcbaa: w.dcbaa,
        transfer_rings: w.transfer_rings,
        device_contexts: w.device_contexts,
        ..v
    }
    &&& w.device_contexts == v.device_contexts.insert(slot_id, w.device_contexts[slot_id])
    &&& w.transfer_rings == v.transfer_rings.insert((slot_id, 1u8), ring)
    &&& ring.bases() == seq![memory.control_ring]
    &&& ring.usable() == 63
    &&& ring.model() == control_model(fresh_control_ring(memory.control_ring), device_descriptor_request(), 0, 63)
    &&& match (v.dcbaa, w.dcbaa) {
        (Some(d), Some(d2)) => d2.entries@ == if slot_id > 0 {
            d.entries@.update(slot_id as int, memory.device_context & !0x3fu64)
        } else {
            d.entries@
        },
        (None, None) => true,
        _ => false,
    }
    &&& match v.command_ring {
        Some(c) => w.command_ring matches Some(c2) && submitted(
            c,
            c2,
            address_device_trb(memory.input_context, slot_id, false, c.ring().model().cycle),
        ),
        None => w.command_ring is None,
    }
    &&& w.doorbells == rung_control(
        if v.command_ring is Some {
            rung_command(v.doorbells)
        } else {
            v.doorbells
        },
        slot_id,
    )
}

/// A device on root port `port` sits in slot `k`.
pub open spec fn on_port(devices: Map<u8, UsbDevice>, port: u8, k: u8) -> bool {
    devices.contains_key(k) && devices[k].port == port
}

/// The lowest slot holding a device on root port `port`, if any.
pub open spec fn first_on_port(devices: Map<u8, UsbDevice>, port: u8) -> Option<u8> {
    if exists|k: u8| #[trigger] on_port(devices, port, k) {
        Some(choose|k: u8| #[trigger] on_port(devices, port, k) && forall|j: u8| on_port(devices, port, j) ==> k <= j)
    } else {
        None
    }
}

/// The register set of root port `port_id` (numbered from 1), if the controller has it.
pub open spec fn port_of(v: XhciControllerView, port_id: u8) -> Option<PortRegisterSet> {
    if 1 <= port_id && port_id - 1 < v.ports.len() {
        Some(v.ports[port_id - 1])
    } else {
        None
    }
}

/// What `handle_device_connected` does: reset the port.
pub open spec fn connect_outcome(v: XhciControllerView, w: XhciControllerView, port_id: u8, r: Result<()>) -> bool {
    match port_of(v, port_id) {
        Some(p) => r is Ok && w == XhciControllerView {
            ports: v.ports.update(
                port_id - 1,
                PortRegisterSet { portsc: (p.portsc & !(0xfe_0000u32 | 0x2u32)) | 0x10u32, ..p },
            ),
            ..v
        },
        None => r == Err::<(), UsbError>(UsbError::InvalidRequest) && w == v,
    }
}

/// What `handle_device_disconnected` does: disable the slot of the first device on the port.
pub open spec fn disconnect_outcome(v: XhciControllerView, w: XhciControllerView, port_id: u8, r: Result<()>) -> bool {
    match first_on_port(v.devices, port_id) {
        Some(k) => disable_outcome(v, w, k, r),
        None => r is Ok && w == v,
    }
}

/// The device that a reset port of speed `speed` gets: address 0 on `port_id`, with its
/// default control endpoint.
pub open spec fn new_device(d: UsbDevice, port_id: u8, speed: UsbSpeed) -> bool {
    &&& d.address == 0
    &&& d.port == port_id
    &&& d.speed == speed
    &&& endpoint_list(d.endpoints).len() == 1
}

/// The step of `handle_port_reset_complete` after the slot was enabled (`e`, `re`).
pub open spec fn attach_step(
    e: XhciControllerView,
    re: Result<u8>,
    w: XhciControllerView,
    port_id: u8,
    speed: UsbSpeed,
    memory: SlotMemory,
    r: Result<()>,
) -> bool {
    match re {
        Err(err) => r == Err::<(), UsbError>(err) && w == e,
        Ok(s) => {
            let d = w.devices[s];
            &&& r is Ok
            &&& new_device(d, port_id, speed)
            &&& enumerated(XhciControllerView { devices: e.devices.insert(s, d), ..e }, w, s, memory)
        },
    }
}

/// What `handle_port_reset_complete` does: for a port that reports a speed, enable a slot,
/// record a new device in it and enumerate the device.
pub open spec fn reset_complete_outcome(
    v: XhciControllerView,
    w: XhciControllerView,
    port_id: u8,
    memory: SlotMemory,
    r: Result<()>,
) -> bool {
    match port_of(v, port_id) {
        Some(p) => match port_speed(p.portsc) {
            Some(speed) => exists|e: XhciControllerView, re: Result<u8>|
                #[trigger] enable_outcome(v, e, re) && attach_step(e, re, w, port_id, speed, memory, r),
            None => r is Ok && w == v,
        },
        None => r is Ok && w == v,
    }
}

/// The first step of `handle_port_status_change`: on a connect status change, handle the
/// connection or the disconnection.
pub open spec fn connection_step(v: XhciControllerView, m: XhciControllerView, port_id: u8, portsc: u32, r: Result<()>) -> bool {
    if portsc & 0x20000 != 0 {
        if portsc & 0x1 != 0 {
            connect_outcome(v, m, port_id, r)
        } else {
            disconnect_outcome(v, m, port_id, r)
        }
    } else {
        r is Ok && m == v
    }
}

/// What `handle_port_status_change` does with the port's change bits as read at the start:
/// a connect status change first, then a port reset change.
pub open spec fn status_change_outcome(
    v: XhciControllerView,
    w: XhciControllerView,
    port_id: u8,
    memory: SlotMemory,
    r: Result<()>,
) -> bool {
    match port_of(v, port_id) {
        Some(p) => exists|m: XhciControllerView, r1: Result<()>|
            #[trigger] connection_step(v, m, port_id, p.portsc, r1) && match r1 {
                Err(err) => r == Err::<(), UsbError>(err) && w == m,
                Ok(_) => if p.portsc & 0x200000 != 0 {
                    reset_complete_outcome(m, w, port_id, memory, r)
                } else {
                    r is Ok && w == m
                },
            },
        None => r is Ok && w == v,
    }
}

/// Disabling the slot that `enable_device_slot` just handed out (with a command ring to
/// run the commands) succeeds and gives back the slot table as it was before.
pub proof fn lemma_enable_then_disable(
    v: XhciControllerView,
    w: XhciControllerView,
    x: XhciControllerView,
    slot_id: u8,
    r: Result<()>,
)
    requires
        v.wf(),
        v.command_ring is Some,
        enable_outcome(v, w, Ok(slot_id)),
        disable_outcome(w, x, slot_id, r),
    ensures
        r is Ok,
        x.slots == v.slots,
{
    let s = first_free_slot(v.slots)->0;
    assert(is_first_free(v.slots, s));
    assert(x.slots =~= v.slots);
}

impl XhciController {
    /// The controller's invariant.
    pub open spec fn wf(&self) -> bool {
        self@.wf()
    }

    /// The controller's name.
    pub closed spec fn spec_name(&self) -> &'static str {
        self.name
    }

    /// Create a new xHCI controller
    pub fn new(name: &'static str, base_address: u64, irq_line: Option<u8>) -> (r: Self)
        ensures
            r.wf(),
            r.spec_name() == name,
            r@.state == ControllerState::Uninitialized,
            r@.base_address == base_address,
            r@.irq_line == irq_line,
            r@.cap_regs is None && r@.op_regs is None && r@.runtime_regs is None,
            r@.ports.len() == 0 && r@.doorbells.len() == 0,
            r@.capabilities is None && r@.command_ring is None && r@.event_ring is None,
            r@.dcbaa is None,
            forall|i: int| 0 <= i < 256 ==> !#[trigger] r@.slots[i],
            r@.devices == Map::<u8, UsbDevice>::empty(),
            r@.transfer_rings == Map::<(u8, u8), TransferRing>::empty(),
            r@.device_contexts == Map::<u8, DeviceContext>::empty(),
    {
        Self {
            name,
            base_address,
            cap_regs: None,
            op_regs: None,
            runtime_regs: None,
            port_regs: Vec::new(),
            doorbell_regs: Vec::new(),
            capabilities: None,
            command_ring: None,
            event_ring: None,
            dcbaa: None,
            dcbaa_address: 0,
            devices: BTreeMap::new(),
            allocated_slots: [false; 256],
            transfer_rings: BTreeMap::new(),
            device_contexts: BTreeMap::new(),
            transfer_manager: UsbTransferManager::new(),
            state: ControllerState::Uninitialized,
            irq_line,
        }
    }

    /// The controller's name
    pub fn name(&self) -> (r: &'static str)
        ensures
            r == self.spec_name(),
    {
        self.name
    }

    /// Enter initialization
    pub fn begin_initialize(&mut self)
        requires
            old(self).wf(),
        ensures
            final(self).wf(),
            final(self)@ == (XhciControllerView { state: ControllerState::Initializing, ..old(self)@ }),
            final(self).spec_name() == old(self).spec_name(),
    {
        self.state = ControllerState::Initializing;
    }

    /// Finish initialization: the controller runs
    pub fn finish_initialize(&mut self)
        requires
            old(self).wf(),
        ensures
            final(self).wf(),
            final(self)@ == (XhciControllerView { state: ControllerState::Running, ..old(self)@ }),
            final(self).spec_name() == old(self).spec_name(),
    {
        self.state = ControllerState::Running;
    }

    /// Map xHCI registers: take the contents of the register blocks that lie where
    /// `register_addresses` says. The port register sets and doorbells are appended.
    pub fn map_registers(
        &mut self,
        cap_regs: CapabilityRegisters,
        op_regs: OperationalRegisters,
        runtime_regs: RuntimeRegisters,
        port_regs: Vec<PortRegisterSet>,
        doorbell_regs: Vec<DoorbellRegister>,
    ) -> (r: Result<()>)
        requires
            old(self).wf(),
        ensures
            r is Ok,
            final(self).wf(),
            final(self).spec_name() == old(self).spec_name(),
            final(self)@ == (XhciControllerView {
                cap_regs: Some(cap_regs),
                op_regs: Some(op_regs),
                runtime_regs: Some(runtime_regs),
                ports: old(self)@.ports + port_regs@,
                doorbells: old(self)@.doorbells + doorbell_regs@,
                ..old(self)@
            }),
    {
        let mut port_regs = port_regs;
        let mut doorbell_regs = doorbell_regs;
        self.cap_regs = Some(cap_regs);
        self.op_regs = Some(op_regs);
        self.runtime_regs = Some(runtime_regs);
        self.port_regs.append(&mut port_regs);
        self.doorbell_regs.append(&mut doorbell_regs);
        Ok(())
    }

    /// Read controller capabilities from the capability registers
    pub fn read_capabilities(&mut self) -> (r: Result<()>)
        requires
            old(self).wf(),
        ensures
            final(self).wf(),
            final(self).spec_name() == old(self).spec_name(),
            old(self)@.cap_regs is None ==> r == Err::<(), UsbError>(UsbError::InitializationFailed)
                && final(self)@ == old(self)@,
            old(self)@.cap_regs matches Some(c) ==> r is Ok && final(self)@ == (XhciControllerView {
                capabilities: Some(
                    XhciCapabilities {
                        cap_length: (c.caplength_reserved & 0xff) as u8,
                        hci_version: c.hciversion,
                        hcsparams1: c.hcsparams1,
                        hcsparams2: c.hcsparams2,
                        hcsparams3: c.hcsparams3,
                        hccparams1: c.hccparams1,
                        doorbell_offset: c.dboff & !0x03u32,
                        runtime_offset: c.rtsoff & !0x1fu32,
                        hccparams2: c.hccparams2,
                    },
                ),
                ..old(self)@
            }),
    {
        let cap_regs = match self.cap_regs {
            Some(c) => c,
            None => {
                return Err(UsbError::InitializationFailed);
            },
        };
        self.capabilities = Some(
            XhciCapabilities {
                cap_length: cap_regs.cap_length(),
                hci_version: cap_regs.hci_version(),
                hcsparams1: cap_regs.hcsparams1,
                hcsparams2: cap_regs.hcsparams2,
                hcsparams3: cap_regs.hcsparams3,
                hccparams1: cap_regs.hccparams1,
                doorbell_offset: cap_regs.doorbell_offset(),
                runtime_offset: cap_regs.runtime_offset(),
                hccparams2: cap_regs.hccparams2,
            },
        );
        Ok(())
    }

    /// Take the USB status register as the hardware reports it now
    pub fn update_status(&mut self, usbsts: u32)
        requires
            old(self).wf(),
        ensures
            final(self).wf(),
            final(self).spec_name() == old(self).spec_name(),
            final(self)@ == (XhciControllerView {
                op_regs: match old(self)@.op_regs {
                    Some(op) => Some(OperationalRegisters { usbsts, ..op }),
                    None => None,
                },
                ..old(self)@
            }),
    {
        if let Some(op) = &mut self.op_regs {
            op.usbsts = usbsts;
        }
    }

    /// Take the PORTSC register of root port `port_id` (numbered from 1) as the hardware
    /// reports it now
    pub fn update_port_status(&mut self, port_id: u8, portsc: u32)
        requires
            old(self).wf(),
        ensures
            final(self).wf(),
            final(self).spec_name() == old(self).spec_name(),
            final(self)@ == (XhciControllerView {
                ports: match port_of(old(self)@, port_id) {
                    Some(p) => old(self)@.ports.update(port_id - 1, PortRegisterSet { portsc, ..p }),
                    None => old(self)@.ports,
                },
                ..old(self)@
            }),
    {
        if port_id >= 1 && ((port_id - 1) as usize) < self.port_regs.len() {
            let idx = (port_id - 1) as usize;
            let mut port = self.port_regs[idx];
            port.portsc = portsc;
            self.port_regs.set(idx, port);
        }
    }

    /// First step of a controller reset: stop the controller, which then halts
    pub fn stop_for_reset(&mut self) -> (r: Result<()>)
        requires
            old(self).wf(),
        ensures
            final(self).wf(),
            final(self).spec_name() == old(self).spec_name(),
            old(self)@.op_regs is None ==> r == Err::<(), UsbError>(UsbError::InitializationFailed)
                && final(self)@ == old(self)@,
            old(self)@.op_regs matches Some(op) ==> r is Ok && final(self)@ == (XhciControllerView {
                op_regs: Some(OperationalRegisters { usbcmd: op.usbcmd & !1u32, ..op }),
                ..old(self)@
            }),
    {
        match &mut self.op_regs {
            Some(op) => {
                op.stop();
                Ok(())
            },
            None => Err(UsbError::InitializationFailed),
        }
    }

    /// Second step of a controller reset, once the controller had time to halt: fail
    /// unless it halted, else set HCRST
    pub fn issue_reset(&mut self) -> (r: Result<()>)
        requires
            old(self).wf(),
        ensures
            final(self).wf(),
            final(self).spec_name() == old(self).spec_name(),
            match old(self)@.op_regs {
                Some(op) => if op.usbsts & 1 != 0 {
                    r is Ok && final(self)@ == (XhciControllerView {
                        op_regs: Some(OperationalRegisters { usbcmd: op.usbcmd | 2u32, ..op }),
                        ..old(self)@
                    })
                } else {
                    r == Err::<(), UsbError>(UsbError::InitializationFailed) && final(self)@ == old(self)@
                },
                None => r == Err::<(), UsbError>(UsbError::InitializationFailed) && final(self)@ == old(self)@,
            },
    {
        match &mut self.op_regs {
            Some(op) => {
                if !op.is_halted() {
                    return Err(UsbError::InitializationFailed);
                }
                op.reset();
                Ok(())
            },
            None => Err(UsbError::InitializationFailed),
        }
    }

    /// Last step of a controller reset, once the reset had time to complete: fail while
    /// the controller is not ready
    pub fn check_reset_complete(&self) -> (r: Result<()>)
        ensures
            (self@.op_regs matches Some(op) && op.usbsts & 0x800 == 0) <==> r is Ok,
            r is Err ==> r == Err::<(), UsbError>(UsbError::InitializationFailed),
    {
        match &self.op_regs {
            Some(op) => {
                if op.is_controller_not_ready() {
                    Err(UsbError::InitializationFailed)
                } else {
                    Ok(())
                }
            },
            None => Err(UsbError::InitializationFailed),
        }
    }

    /// Initialize command and event rings: a command ring of one 64-TRB segment at
    /// `command_ring_address`, and an event ring of one 256-TRB segment at
    /// `event_segment_address`
    pub fn initialize_rings(&mut self, command_ring_address: u64, event_segment_address: u64) -> (r:
        Result<()>)
        requires
            old(self).wf(),
            command_ring_address + 1024 <= u64::MAX,
            event_segment_address + 4096 <= u64::MAX,
        ensures
            r is Ok,
            final(self).wf(),
            final(self).spec_name() == old(self).spec_name(),
            final(self)@ == (XhciControllerView {
                command_ring: final(self)@.command_ring,
                event_ring: final(self)@.event_ring,
                ..old(self)@
            }),
            final(self)@.command_ring matches Some(c) && c.ring().bases() == seq![command_ring_address]
                && c.ring().model().segment == 0 && c.ring().model().trb == 0 && c.ring().model().cycle
                && c.completions().len() == 0,
            final(self)@.event_ring matches Some(e) && e.position() == (0int, 0int, true) && e.table().len()
                == 1 && e.table()[0].ring_segment_base_address == event_segment_address
                && e.table()[0].ring_segment_size == 256,
    {
        // Create command ring
        let command_ring = match CommandRing::new(command_ring_address) {
            Ok(c) => c,
            Err(e) => {
                return Err(e);
            },
        };
        // Create event ring segments: a single segment with 256 TRBs
        let segment = match RingSegment::new(256, event_segment_address) {
            Ok(s) => s,
            Err(e) => {
                return Err(e);
            },
        };
        let mut event_segments: Vec<RingSegment> = Vec::new();
        event_segments.push(segment);
        let event_ring = match EventRing::new(event_segments) {
            Ok(e) => e,
            Err(e) => {
                return Err(e);
            },
        };
        self.command_ring = Some(command_ring);
        self.event_ring = Some(event_ring);
        Ok(())
    }

    /// Initialize the Device Context Base Address Array, which lives at `address`
    pub fn initialize_dcbaa(&mut self, address: u64) -> (r: Result<()>)
        requires
            old(self).wf(),
        ensures
            r is Ok,
            final(self).wf(),
            final(self).spec_name() == old(self).spec_name(),
            final(self)@ == (XhciControllerView {
                dcbaa: final(self)@.dcbaa,
                dcbaa_address: address,
                ..old(self)@
            }),
            final(self)@.dcbaa matches Some(d) && forall|i: int| 0 <= i < 256 ==> d.entries@[i] == 0,
    {
        self.dcbaa = Some(DeviceContextBaseAddressArray::new());
        self.dcbaa_address = address;
        Ok(())
    }

    /// Configure the controller: check the page size, enable every device slot,
    /// program the DCBAA pointer, the command ring and the primary interrupter, and
    /// enable interrupts
    pub fn configure_controller(&mut self) -> (r: Result<()>)
        requires
            old(self).wf(),
            old(self)@.op_regs matches Some(op) ==> (old(self)@.runtime_regs is Some
                && old(self)@.capabilities is Some ==> op.pagesize != 0),
        ensures
            final(self).wf(),
            final(self).spec_name() == old(self).spec_name(),
            match (old(self)@.op_regs, old(self)@.runtime_regs, old(self)@.capabilities) {
                (Some(op), Some(rt), Some(caps)) => if (4096u32 << op.pagesize.trailing_zeros()) != 4096 {
                    r == Err::<(), UsbError>(UsbError::InitializationFailed) && final(self)@ == old(self)@
                } else {
                    &&& r is Ok
                    &&& final(self)@ == (XhciControllerView {
                        op_regs: Some(
                            configured_op(
                                op,
                                caps,
                                if old(self)@.dcbaa is Some {
                                    Some(old(self)@.dcbaa_address)
                                } else {
                                    None
                                },
                                old(self)@.command_ring,
                            ),
                        ),
                        runtime_regs: final(self)@.runtime_regs,
                        ..old(self)@
                    })
                    &&& final(self)@.runtime_regs matches Some(rt2) && rt2.mfindex == rt.mfindex
                        && rt2.interrupters@ == match old(self)@.event_ring {
                        Some(e) => rt.interrupters@.update(0, programmed_interrupter(rt.interrupters@[0], e)),
                        None => rt.interrupters@,
                    }
                },
                _ => r == Err::<(), UsbError>(UsbError::InitializationFailed) && final(self)@ == old(self)@,
            },
    {
        let mut op = match self.op_regs {
            Some(op) => op,
            None => {
                return Err(UsbError::InitializationFailed);
            },
        };
        let mut runtime = match &self.runtime_regs {
            Some(rt) => RuntimeRegisters { mfindex: rt.mfindex, interrupters: rt.interrupters },
            None => {
                return Err(UsbError::InitializationFailed);
            },
        };
        let capabilities = match self.capabilities {
            Some(c) => c,
            None => {
                return Err(UsbError::InitializationFailed);
            },
        };

        // The page size must be 4KB
        let page_size = op.get_page_size();
        if page_size != 4096 {
            return Err(UsbError::InitializationFailed);
        }

        // Enable every device slot the controller has
        let max_slots = capabilities.max_device_slots();
        op.set_max_device_slots(max_slots);

        // Set DCBAA pointer
        if self.dcbaa.is_some() {
            op.set_dcbaap(self.dcbaa_address);
        }

        // Set command ring
        if let Some(cmd_ring) = &self.command_ring {
            proof {
                cmd_ring.ring().lemma_position();
            }
            op.set_command_ring(cmd_ring.physical_address(), cmd_ring.cycle_state());
        }

        // Configure primary interrupter
        if let Some(event_ring) = &self.event_ring {
            proof {
                event_ring.lemma_position();
            }
            let mut interrupter = runtime.interrupters[0];
            interrupter.set_event_ring_segment_table(
                event_ring.segment_table_address(),
                event_ring.segment_count(),
            );
            interrupter.set_event_ring_dequeue_pointer(event_ring.dequeue_pointer());
            interrupter.enable_interrupts();
            runtime.interrupters[0] = interrupter;
        }

        // Enable controller interrupts
        op.enable_interrupts();
        self.op_regs = Some(op);
        self.runtime_regs = Some(runtime);
        Ok(())
    }

    /// Start the controller: set Run/Stop
    pub fn start_controller(&mut self) -> (r: Result<()>)
        requires
            old(self).wf(),
        ensures
            final(self).wf(),
            final(self).spec_name() == old(self).spec_name(),
            old(self)@.op_regs is None ==> r == Err::<(), UsbError>(UsbError::InitializationFailed)
                && final(self)@ == old(self)@,
            old(self)@.op_regs matches Some(op) ==> r is Ok && final(self)@ == (XhciControllerView {
                op_regs: Some(OperationalRegisters { usbcmd: op.usbcmd | 1u32, ..op }),
                ..old(self)@
            }),
    {
        match &mut self.op_regs {
            Some(op) => {
                op.start();
                Ok(())
            },
            None => Err(UsbError::InitializationFailed),
        }
    }

    /// Once the controller had time to start: fail while it is still halted
    pub fn check_started(&self) -> (r: Result<()>)
        ensures
            (self@.op_regs matches Some(op) && op.usbsts & 1 == 0) <==> r is Ok,
            r is Err ==> r == Err::<(), UsbError>(UsbError::InitializationFailed),
    {
        match &self.op_regs {
            Some(op) => {
                if op.is_halted() {
                    Err(UsbError::InitializationFailed)
                } else {
                    Ok(())
                }
            },
            None => Err(UsbError::InitializationFailed),
        }
    }

    /// Initialize ports: power on each port (where 64-bit addressing is reported, which
    /// stands in for a port power check) and acknowledge its change bits
    pub fn initialize_ports(&mut self) -> (r: Result<()>)
        requires
            old(self).wf(),
        ensures
            final(self).wf(),
            final(self).spec_name() == old(self).spec_name(),
            old(self)@.capabilities is None ==> r == Err::<(), UsbError>(UsbError::InitializationFailed)
                && final(self)@ == old(self)@,
            old(self)@.capabilities matches Some(caps) ==> r is Ok && final(self)@ == (XhciControllerView {
                ports: initialized_ports(
                    old(self)@.ports,
                    ((caps.hcsparams1 >> 24u32) & 0xff) as int,
                    caps.hccparams1 & 0x01 != 0,
                ),
                ..old(self)@
            }),
    {
        let capabilities = match self.capabilities {
            Some(c) => c,
            None => {
                return Err(UsbError::InitializationFailed);
            },
        };
        let max_ports = capabilities.max_ports();
        let power = capabilities.supports_64bit();
        let ghost ports0 = self.port_regs@;
        let mut port_num: u8 = 0;
        while port_num < max_ports
            invariant
                port_num <= max_ports,
                max_ports == (capabilities.hcsparams1 >> 24u32) & 0xff,
                power == (capabilities.hccparams1 & 0x01 != 0),
                self.port_regs@.len() == ports0.len(),
                ports0 == old(self)@.ports,
                old(self).wf(),
                self.spec_name() == old(self).spec_name(),
                self@ == (XhciControllerView { ports: self@.ports, ..old(self)@ }),
                forall|i: int|
                    0 <= i < ports0.len() ==> #[trigger] self.port_regs@[i] == if i < port_num && power {
                        PortRegisterSet { portsc: power_value(ports0[i].portsc, true), ..ports0[i] }
                    } else {
                        ports0[i]
                    },
            decreases max_ports - port_num,
        {
            if (port_num as usize) < self.port_regs.len() {
                let mut port = self.port_regs[port_num as usize];
                // Power on the port if power control is supported
                if power {
                    port.set_power(true);
                }
                // Clear any change events
                port.clear_changes();
                self.port_regs.set(port_num as usize, port);
            }
            port_num = port_num + 1;
        }
        proof {
            assert(self.port_regs@ =~= initialized_ports(ports0, max_ports as int, power));
        }
        Ok(())
    }

    /// Enable a device slot: the lowest free slot ID, commanded and marked allocated
    pub fn enable_device_slot(&mut self) -> (r: Result<u8>)
        requires
            old(self).wf(),
        ensures
            final(self).wf(),
            final(self).spec_name() == old(self).spec_name(),
            enable_outcome(old(self)@, final(self)@, r),
    {
        // Find free slot
        let mut i: usize = 1;
        while i < 256 && self.allocated_slots[i]
            invariant
                1 <= i <= 256,
                self.allocated_slots@.len() == 256,
                forall|j: int| 1 <= j < i ==> #[trigger] self.allocated_slots@[j],
            decreases 256 - i,
        {
            i = i + 1;
        }
        let slot_id: u8 = if i < 256 {
            i as u8
        } else {
            0
        };
        let ghost slots = self.allocated_slots@;
        if slot_id == 0 {
            proof {
                assert forall|k: int| !#[trigger] is_first_free(slots, k) by {
                    if 1 <= k < 256 {
                        assert(slots[k]);
                    }
                }
            }
            return Err(UsbError::OutOfMemory);
        }
        proof {
            assert(is_first_free(slots, slot_id as int));
            let c = choose|k: int| #[trigger] is_first_free(slots, k);
            if c < slot_id {
                assert(slots[c]);
            } else if c > slot_id {
                assert(slots[slot_id as int]);
            }
        }

        // Send enable slot command
        if let Some(cmd_ring) = &mut self.command_ring {
            let enable_slot_trb = EnableSlotCommandTrb::new(0, cmd_ring.cycle_state());
            let _ = cmd_ring.submit_command(enable_slot_trb);

            // Ring command doorbell
            if self.doorbell_regs.len() > 0 {
                let mut doorbell = self.doorbell_regs[0];
                doorbell.ring_command();
                self.doorbell_regs.set(0, doorbell);
            }

            // Wait for completion (simplified)
            let _completion = cmd_ring.wait_for_completion(1000);
            self.allocated_slots[slot_id as usize] = true;
        }
        Ok(slot_id)
    }

    /// Disable a device slot: command it off and forget its device, context and rings
    pub fn disable_device_slot(&mut self, slot_id: u8) -> (r: Result<()>)
        requires
            old(self).wf(),
        ensures
            final(self).wf(),
            final(self).spec_name() == old(self).spec_name(),
            disable_outcome(old(self)@, final(self)@, slot_id, r),
    {
        if slot_id == 0 || !self.allocated_slots[slot_id as usize] {
            return Err(UsbError::InvalidRequest);
        }

        // Send disable slot command
        if let Some(cmd_ring) = &mut self.command_ring {
            let disable_slot_trb = DisableSlotCommandTrb::new(slot_id, cmd_ring.cycle_state());
            let _ = cmd_ring.submit_command(disable_slot_trb);

            // Ring command doorbell
            if self.doorbell_regs.len() > 0 {
                let mut doorbell = self.doorbell_regs[0];
                doorbell.ring_command();
                self.doorbell_regs.set(0, doorbell);
            }

            // Wait for completion
            let _completion = cmd_ring.wait_for_completion(1000);
        }

        // Clean up
        self.allocated_slots[slot_id as usize] = false;
        let ghost devices0 = self.devices@;
        assert(devices0 == old(self)@.devices);
        self.devices.remove(&slot_id);
        proof {
            assert(devices_ok(devices0));
            assert forall|k: u8| #[trigger] self.devices@.contains_key(k) implies endpoint_list(
                self.devices@[k].endpoints,
            ).len() > 0 by {
                assert(devices0.contains_key(k));
            }
        }
        self.device_contexts.remove(&slot_id);
        // Remove transfer rings for this slot
        let ghost rings0 = self.transfer_rings@;
        remove_slot_rings(&mut self.transfer_rings, slot_id);
        proof {
            assert(rings0 == old(self)@.transfer_rings);
            assert(rings_ok(rings0));
            assert forall|k: (u8, u8)| #[trigger] self.transfer_rings@.contains_key(k) implies one_segment_ring(
                self.transfer_rings@[k],
            ) by {
                assert(rings0.contains_key(k));
            }
        }
        Ok(())
    }

    /// Submit a control transfer on the slot's default control endpoint: setup stage,
    /// data stage (when the packet announces data, at `data_buffer` or address 0) and
    /// status stage, then ring the slot's doorbell
    pub fn control_transfer(&mut self, slot_id: u8, setup_packet: SetupPacket, data_buffer: Option<u64>) -> (r:
        Result<()>)
        requires
            old(self).wf(),
        ensures
            r is Ok,
            final(self).wf(),
            final(self).spec_name() == old(self).spec_name(),
            control_outcome(
                old(self)@,
                final(self)@,
                slot_id,
                setup_packet,
                match data_buffer {
                    Some(a) => a,
                    None => 0,
                },
            ),
    {
        let ghost rings0 = self.transfer_rings@;
        // Take the ring out, stage the transfer, put it back
        let mut transfer_ring = match self.transfer_rings.remove(&(slot_id, 1)) {
            Some(ring) => ring,
            None => {
                proof {
                    assert(self.transfer_rings@ =~= rings0);
                }
                return Ok(());
            },
        };
        proof {
            assert(rings0 == old(self)@.transfer_rings);
            assert(rings_ok(rings0));
            assert(rings0.contains_key((slot_id, 1u8)));
            assert(one_segment_ring(transfer_ring));
        }
        let buffer: u64 = match data_buffer {
            Some(a) => a,
            None => 0,
        };
        let cycle = transfer_ring.cycle_state();

        // Setup stage
        let setup_trb = SetupStageTrb::new(&setup_packet, setup_packet.length as u32, cycle);
        let _ = transfer_ring.enqueue_trb(setup_trb);
        let ghost m1 = transfer_ring.model();

        // Data stage (if any)
        if setup_packet.length > 0 {
            let direction = if (setup_packet.request_type & 0x80) != 0 {
                UsbDirection::In
            } else {
                UsbDirection::Out
            };
            let data_trb = DataStageTrb::new(
                buffer,
                setup_packet.length as u32,
                direction,
                transfer_ring.cycle_state(),
            );
            let _ = transfer_ring.enqueue_trb(data_trb);
        }
        let ghost m2 = transfer_ring.model();

        // Status stage
        let status_direction = if setup_packet.length == 0 || (setup_packet.request_type & 0x80) == 0 {
            UsbDirection::In
        } else {
            UsbDirection::Out
        };
        let status_trb = StatusStageTrb::new(status_direction, transfer_ring.cycle_state());
        let _ = transfer_ring.enqueue_trb(status_trb);
        self.transfer_rings.insert((slot_id, 1), transfer_ring);
        proof {
            assert(self.transfer_rings@ =~= rings0.insert((slot_id, 1u8), transfer_ring));
            assert(one_segment_ring(transfer_ring));
            assert(rings_ok(rings0));
            assert forall|k: (u8, u8)| #[trigger] self.transfer_rings@.contains_key(k) implies one_segment_ring(
                self.transfer_rings@[k],
            ) by {
                if k != (slot_id, 1u8) {
                    assert(rings0.contains_key(k));
                }
            }
        }

        // Ring doorbell: endpoint 1, stream 0
        if (slot_id as usize) < self.doorbell_regs.len() {
            let mut doorbell = self.doorbell_regs[slot_id as usize];
            doorbell.ring(1, 0);
            proof {
                lemma_constants(0);
            }
            self.doorbell_regs.set(slot_id as usize, doorbell);
        }
        Ok(())
    }

    /// The input context of the Address Device command for `slot_id`: it adds the slot
    /// context and the default control endpoint, and carries the slot's device context
    pub fn input_context_for(&self, slot_id: u8) -> (r: InputContext)
        requires
            self.wf(),
        ensures
            r.input_control_context.add_context_flags == with_context_bit(with_context_bit(0, 0), 1),
            r.input_control_context.drop_context_flags == 0,
            self@.device_contexts.contains_key(slot_id) ==> r.device_context == self@.device_contexts[slot_id],
    {
        let mut input_context = InputContext::new();
        input_context.input_control_context.set_add_context(0);  // Slot context
        input_context.input_control_context.set_add_context(1);  // Endpoint 1 (control)

        // Copy device context to input context
        if let Some(context) = self.device_contexts.get(&slot_id) {
            input_context.device_context = *context;
        }
        input_context
    }

    /// Address a device: run the Address Device command for `slot_id`, whose input context
    /// (see `input_context_for`) lies at `input_context_address`
    pub fn address_device(&mut self, slot_id: u8, input_context_address: u64) -> (r: Result<()>)
        requires
            old(self).wf(),
        ensures
            r is Ok,
            final(self).wf(),
            final(self).spec_name() == old(self).spec_name(),
            final(self)@ == (XhciControllerView {
                command_ring: final(self)@.command_ring,
                doorbells: final(self)@.doorbells,
                ..old(self)@
            }),
            command_ran(
                old(self)@,
                final(self)@,
                |cycle: bool| address_device_trb(input_context_address, slot_id, false, cycle),
            ),
    {
        // Send address device command
        if let Some(cmd_ring) = &mut self.command_ring {
            let address_device_trb = AddressDeviceCommandTrb::new(
                input_context_address,
                slot_id,
                false,  // Don't block SET_ADDRESS
                cmd_ring.cycle_state(),
            );
            let _ = cmd_ring.submit_command(address_device_trb);

            // Ring command doorbell
            if self.doorbell_regs.len() > 0 {
                let mut doorbell = self.doorbell_regs[0];
                doorbell.ring_command();
                self.doorbell_regs.set(0, doorbell);
            }

            // Wait for completion
            let _completion = cmd_ring.wait_for_completion(1000);
        }
        Ok(())
    }

    /// Get device descriptor: stage a GET_DESCRIPTOR for the 18-byte device descriptor
    pub fn get_device_descriptor(&mut self, slot_id: u8) -> (r: Result<()>)
        requires
            old(self).wf(),
        ensures
            r is Ok,
            final(self).wf(),
            final(self).spec_name() == old(self).spec_name(),
            control_outcome(old(self)@, final(self)@, slot_id, device_descriptor_request(), 0),
    {
        // Create GET_DESCRIPTOR setup packet
        let setup_packet = SetupPacket::get_descriptor(descriptor_types::DEVICE, 0, 18);
        assert(setup_packet == device_descriptor_request());
        // Submit control transfer
        self.control_transfer(slot_id, setup_packet, None)
    }

    /// Enumerate a device: set up its default control ring and device context in the
    /// memory `memory`, enter the context in the DCBAA, address the device and ask for its
    /// device descriptor
    pub fn enumerate_device(&mut self, slot_id: u8, memory: SlotMemory) -> (r: Result<()>)
        requires
            old(self).wf(),
            memory.control_ring + 1024 <= u64::MAX,
        ensures
            r is Ok,
            final(self).wf(),
            final(self).spec_name() == old(self).spec_name(),
            enumerated(old(self)@, final(self)@, slot_id, memory),
    {
        let ghost v0 = self@;
        // Create device context
        let mut device_context = DeviceContext::new();

        // Create control endpoint transfer ring
        let addresses = [memory.control_ring];
        let control_ring = match TransferRing::new(&addresses, 64) {
            Ok(ring) => ring,
            Err(e) => {
                return Err(e);
            },
        };
        proof {
            control_ring.lemma_position();
            assert(control_ring.model() == fresh_control_ring(memory.control_ring)) by {
                assert(control_ring.model().segments[0] =~= fresh_control_ring(memory.control_ring).segments[0]);
                assert(control_ring.model().segments =~= fresh_control_ring(memory.control_ring).segments);
            }
        }
        let control_ring_addr = control_ring.enqueue_pointer();

        if let Some(device) = self.devices.get(&slot_id) {
            proof {
                assert(devices_ok(v0.devices));
                assert(v0.devices.contains_key(slot_id));
            }
            device_context.configure_device(device, control_ring_addr);
        }

        // Store transfer ring
        let ghost rings0 = self.transfer_rings@;
        assert(rings0 == old(self)@.transfer_rings);
        self.transfer_rings.insert((slot_id, 1), control_ring);
        proof {
            assert(rings_ok(rings0));
            assert forall|k: (u8, u8)| #[trigger] self.transfer_rings@.contains_key(k) implies one_segment_ring(
                self.transfer_rings@[k],
            ) by {
                if k != (slot_id, 1u8) {
                    assert(rings0.contains_key(k));
                }
            }
        }

        // Set up device context in DCBAA
        if let Some(dcbaa) = &mut self.dcbaa {
            dcbaa.set_device_context_base_address(slot_id, memory.device_context);
        }

        // Store device context
        self.device_contexts.insert(slot_id, device_context);
        let ghost v1 = self@;

        // Address the device
        let _ = self.address_device(slot_id, memory.input_context);
        let ghost v2 = self@;

        // Get device descriptor
        let _ = self.get_device_descriptor(slot_id);
        proof {
            let w = self@;
            assert(w.transfer_rings =~= v0.transfer_rings.insert((slot_id, 1u8), w.transfer_rings[(slot_id, 1u8)]));
            assert(w.device_contexts =~= v0.device_contexts.insert(slot_id, w.device_contexts[slot_id]));
            let ring = w.transfer_rings[(slot_id, 1u8)];
            assert(w == XhciControllerView {
                command_ring: w.command_ring,
                doorbells: w.doorbells,
                dcbaa: w.dcbaa,
                transfer_rings: w.transfer_rings,
                device_contexts: w.device_contexts,
                ..v0
            });
            assert(w.device_contexts == v0.device_contexts.insert(slot_id, w.device_contexts[slot_id]));
            assert(w.transfer_rings == v0.transfer_rings.insert((slot_id, 1u8), ring));
            assert(ring.bases() == seq![memory.control_ring]);
            assert(ring.usable() == 63);
            assert(ring.model() == control_model(fresh_control_ring(memory.control_ring), device_descriptor_request(), 0, 63));
            assert(match (v0.dcbaa, w.dcbaa) {
                (Some(d), Some(d2)) => d2.entries@ == if slot_id > 0 {
                    d.entries@.update(slot_id as int, memory.device_context & !0x3fu64)
                } else {
                    d.entries@
                },
                (None, None) => true,
                _ => false,
            });
            assert(match v0.command_ring {
                Some(c) => w.command_ring matches Some(c2) && submitted(
                    c,
                    c2,
                    address_device_trb(memory.input_context, slot_id, false, c.ring().model().cycle),
                ),
                None => w.command_ring is None,
            });
            assert(w.doorbells == rung_control(
                if v0.command_ring is Some {
                    rung_command(v0.doorbells)
                } else {
                    v0.doorbells
                },
                slot_id,
            ));
        }
        Ok(())
    }

    /// Handle device connection: reset the port to determine the device's speed
    pub fn handle_device_connected(&mut self, port_id: u8) -> (r: Result<()>)
        requires
            old(self).wf(),
            port_id >= 1,
        ensures
            final(self).wf(),
            final(self).spec_name() == old(self).spec_name(),
            connect_outcome(old(self)@, final(self)@, port_id, r),
    {
        let idx = (port_id - 1) as usize;
        if idx < self.port_regs.len() {
            let mut port = self.port_regs[idx];
            port.reset();
            self.port_regs.set(idx, port);
            Ok(())
        } else {
            Err(UsbError::InvalidRequest)
        }
    }

    /// Handle device disconnection: disable the slot of the first device on the port
    pub fn handle_device_disconnected(&mut self, port_id: u8) -> (r: Result<()>)
        requires
            old(self).wf(),
        ensures
            final(self).wf(),
            final(self).spec_name() == old(self).spec_name(),
            disconnect_outcome(old(self)@, final(self)@, port_id, r),
    {
        // Find device by port: the lowest slot with a device on it
        match first_slot_on_port(&self.devices, port_id) {
            Some(slot_id) => self.disable_device_slot(slot_id),
            None => Ok(()),
        }
    }

    /// Handle port reset completion: for a port that reports a speed, enable a slot,
    /// record a new device at address 0 in it and enumerate the device in `memory`
    #[verifier::spinoff_prover]
    #[verifier::rlimit(50)]
    pub fn handle_port_reset_complete(&mut self, port_id: u8, memory: SlotMemory) -> (r: Result<()>)
        requires
            old(self).wf(),
            port_id >= 1,
            memory.control_ring + 1024 <= u64::MAX,
        ensures
            final(self).wf(),
            final(self).spec_name() == old(self).spec_name(),
            reset_complete_outcome(old(self)@, final(self)@, port_id, memory, r),
    {
        let idx = (port_id - 1) as usize;
        if idx >= self.port_regs.len() {
            return Ok(());
        }
        let speed = match self.port_regs[idx].get_speed() {
            Some(speed) => speed,
            None => {
                return Ok(());
            },
        };
        let ghost v = self@;
        // Enable a device slot
        let re = self.enable_device_slot();
        let ghost e = self@;
        let slot_id = match re {
            Ok(s) => s,
            Err(err) => {
                assert(enable_outcome(v, e, re));
                return Err(err);
            },
        };

        // Create the device at address 0 and store it
        let device = UsbDevice::new(0, port_id, speed);
        let ghost d = device;
        self.devices.insert(slot_id, device);
        proof {
            assert(devices_ok(e.devices));
            assert forall|k: u8| #[trigger] self.devices@.contains_key(k) implies endpoint_list(
                self.devices@[k].endpoints,
            ).len() > 0 by {
                if k != slot_id {
                    assert(e.devices.contains_key(k));
                }
            }
        }
        let ghost m = self@;
        // Start device enumeration
        let _ = self.enumerate_device(slot_id, memory);
        proof {
            let w = self@;
            assert(w.devices == m.devices);
            assert(w.devices[slot_id] == d);
            assert(m == XhciControllerView { devices: e.devices.insert(slot_id, d), ..e });
            assert(attach_step(e, re, w, port_id, speed, memory, Ok(())));
            assert(enable_outcome(v, e, re));
        }
        Ok(())
    }

    /// Handle a port status change of root port `port_id` (numbered from 1): on a connect
    /// status change handle the connection or disconnection, on a port reset change the
    /// reset's completion, then acknowledge the port's change bits
    pub fn handle_port_status_change(&mut self, port_id: u8, memory: SlotMemory) -> (r: Result<()>)
        requires
            old(self).wf(),
            port_id >= 1,
            memory.control_ring + 1024 <= u64::MAX,
        ensures
            final(self).wf(),
            final(self).spec_name() == old(self).spec_name(),
            status_change_outcome(old(self)@, final(self)@, port_id, memory, r),
    {
        let idx = (port_id - 1) as usize;
        if idx >= self.port_regs.len() {
            return Ok(());
        }
        let port = self.port_regs[idx];
        let changes = port.get_changes();
        let ghost v = self@;
        proof {
            lemma_constants(port.portsc);
        }

        let r1: Result<()> = if (changes & 0x20000) != 0 {
            // Connection status changed
            if port.is_connected() {
                self.handle_device_connected(port_id)
            } else {
                self.handle_device_disconnected(port_id)
            }
        } else {
            Ok(())
        };
        let ghost m = self@;
        assert(connection_step(v, m, port_id, port.portsc, r1));
        if let Err(err) = r1 {
            return Err(err);
        }

        let r2: Result<()> = if (changes & 0x200000) != 0 {
            // Port reset change
            self.handle_port_reset_complete(port_id, memory)
        } else {
            Ok(())
        };
        if let Err(err) = r2 {
            return Err(err);
        }

        // Clear the change events
        let ghost w = self@;
        if idx < self.port_regs.len() {
            let mut current = self.port_regs[idx];
            current.clear_changes();
            self.port_regs.set(idx, current);
            proof {
                assert(self.port_regs@ =~= w.ports);
            }
        }
        assert(self@ == w);
        Ok(())
    }

    /// Get controller capabilities
    pub fn get_capabilities(&self) -> (r: Option<&XhciCapabilities>)
        ensures
            r is Some <==> self@.capabilities is Some,
            r matches Some(c) ==> self@.capabilities == Some(*c),
    {
        match &self.capabilities {
            Some(c) => Some(c),
            None => None,
        }
    }

    /// Get the status of root port `port_id` (numbered from 1)
    pub fn get_port_status(&self, port_id: u8) -> (r: Option<XhciPortStatus>)
        requires
            port_id >= 1,
        ensures
            r == match port_of(self@, port_id) {
                Some(p) => Some(XhciPortStatus { portsc: p.portsc }),
                None => None,
            },
    {
        let idx = (port_id - 1) as usize;
        if idx < self.port_regs.len() {
            Some(XhciPortStatus::new(self.port_regs[idx].portsc))
        } else {
            None
        }
    }

    /// Get connected devices, in slot order
    pub fn get_devices(&self) -> (r: Vec<&UsbDevice>)
        ensures
            exists|ks: Seq<u8>|
                in_slot_order(self@.devices, ks) && ks.len() == r@.len() && forall|i: int|
                    0 <= i < r@.len() ==> *#[trigger] r@[i] == self@.devices[ks[i]],
    {
        let m = &self.devices;
        proof {
            lemma_u8_keys();
        }
        let it = m.iter();
        let ghost s = it.remaining();
        proof {
            assert(s == spec_btree_map_iter(m).remaining());
            lemma_slot_order(m@, s);
        }
        let mut out: Vec<&UsbDevice> = Vec::new();
        for kv in iter: it
            invariant
                iter.seq() == s,
                out@.len() == iter.index(),
                forall|k: int| 0 <= k < iter.index() ==> *#[trigger] out@[k] == *s[k].1,
                in_slot_order(m@, s.map_values(|kv: (&u8, &UsbDevice)| *kv.0)),
                forall|i: int| 0 <= i < s.len() ==> m@.contains_key(*(#[trigger] s[i]).0) && m@[*s[i].0] == *s[i].1,
        {
            out.push(kv.1);
        }
        proof {
            let ks = s.map_values(|kv: (&u8, &UsbDevice)| *kv.0);
            assert(out@.len() == ks.len());
            assert forall|i: int| 0 <= i < out@.len() implies *#[trigger] out@[i] == self@.devices[ks[i]] by {
                assert(ks[i] == *s[i].0);
            }
            assert(in_slot_order(self@.devices, ks));
        }
        out
    }

    /// Shutdown the controller: stop it (it then halts) and mark it halted
    pub fn shutdown_controller(&mut self) -> (r: Result<()>)
        requires
            old(self).wf(),
        ensures
            r is Ok,
            final(self).wf(),
            final(self).spec_name() == old(self).spec_name(),
            final(self)@ == (XhciControllerView {
                state: ControllerState::Halted,
                op_regs: match old(self)@.op_regs {
                    Some(op) => Some(OperationalRegisters { usbcmd: op.usbcmd & !1u32, ..op }),
                    None => None,
                },
                ..old(self)@
            }),
    {
        if let Some(op_regs) = &mut self.op_regs {
            op_regs.stop();
        }
        self.state = ControllerState::Halted;
        Ok(())
    }

    /// Handle interrupt `irq`: claim it when it is the controller's line and the status
    /// reports an event interrupt (or no operational registers are mapped), acknowledge the
    /// event interrupt, and process the events of the event ring, enumerating new devices
    /// in `memory`
    pub fn interrupt_handler(&mut self, irq: u8, memory: SlotMemory) -> (r: bool)
        requires
            old(self).wf(),
            memory.control_ring + 1024 <= u64::MAX,
        ensures
            final(self).wf(),
            final(self).spec_name() == old(self).spec_name(),
            r == (old(self)@.irq_line == Some(irq) && match old(self)@.op_regs {
                Some(op) => op.usbsts & 0x8 != 0,
                None => true,
            }),
            !r ==> final(self)@ == old(self)@,
            r ==> final(self)@ == (XhciControllerView {
                op_regs: match old(self)@.op_regs {
                    Some(op) => Some(OperationalRegisters { usbsts: 0x8, ..op }),
                    None => None,
                },
                ..old(self)@
            }),
    {
        match self.irq_line {
            Some(line) => {
                if line != irq {
                    return false;
                }
            },
            None => {
                return false;
            },
        }

        // Check if this is our interrupt
        if let Some(op_regs) = &mut self.op_regs {
            if (op_regs.usbsts & super::registers::usbsts::EINT) == 0 {
                return false;  // Not our interrupt
            }
            // Clear interrupt
            op_regs.clear_status(super::registers::usbsts::EINT);
        }

        // Process events
        let ghost claimed = self@;
        if let Some(mut event_ring) = self.event_ring.take() {
            let mut events_processed: usize = 0;
            let ghost before = self@;
            let ghost ring0 = event_ring;
            loop
                invariant
                    events_processed == 0,
                    event_ring == ring0,
                    claimed.event_ring == Some(ring0),
                    claimed.wf(),
                    self@ == before,
                    before == (XhciControllerView { event_ring: None, ..claimed }),
                    self.spec_name() == old(self).spec_name(),
                decreases 0nat,
            {
                let event = event_ring.dequeue_event();
                match event {
                    Some(event_trb) => {
                        match event_trb.trb_type() {
                            TrbType::PortStatusChangeEvent => {
                                let port_event = PortStatusChangeEvent::from_trb(event_trb);
                                let _ = self.handle_port_status_change(port_event.port_id(), memory);
                            },
                            TrbType::CommandCompletionEvent => {
                                if let Some(cmd_ring) = &mut self.command_ring {
                                    cmd_ring.process_completion(event_trb);
                                }
                            },
                            _ => {},
                        }
                        events_processed = events_processed + 1;
                    },
                    None => {
                        break;
                    },
                }
            }

            // Update event ring dequeue pointer
            if events_processed > 0 {
                event_ring.update_dequeue_pointer(events_processed);
            }
            self.event_ring = Some(event_ring);
        }
        true
    }

    /// The operational registers as the controller holds them, to be written to the hardware
    pub fn operational_registers(&self) -> (r: Option<OperationalRegisters>)
        ensures
            r == self@.op_regs,
    {
        self.op_regs
    }

    /// The primary interrupter as the controller holds it, to be written to the hardware
    pub fn primary_interrupter(&self) -> (r: Option<InterrupterRegisterSet>)
        ensures
            r == match self@.runtime_regs {
                Some(rt) => Some(rt.interrupters@[0]),
                None => None,
            },
    {
        match &self.runtime_regs {
            Some(rt) => Some(rt.interrupters[0]),
            None => None,
        }
    }

    /// The doorbells as last written
    pub fn doorbell_registers(&self) -> (r: &[DoorbellRegister])
        ensures
            r@ == self@.doorbells,
    {
        self.doorbell_regs.as_slice()
    }
}

} // verus!
