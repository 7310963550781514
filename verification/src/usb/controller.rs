//! USB host controller bookkeeping: controller state, device slots, transfer completion,
//! and the events an interrupt raises.
//!
//! The controller's registers are read and written by the caller; the functions here decide
//! what the controller records and reports, given what the registers showed.
use vstd::prelude::*;

use crate::usb::device::{DeviceSpeed, UsbDevice};
use crate::usb::error::UsbDriverError;
use crate::usb::transfer::{Transfer, TransferBuffer, TransferStatus, TransferType};
use std::collections::VecDeque;

verus! {

/// Memory mapper for the controller's registers: a physical range seen at a virtual base
#[derive(Clone, Copy)]
pub struct UsbMemoryMapper {
    base_phys: usize,
    base_virt: usize,
}

impl UsbMemoryMapper {
    /// The physical base.
    pub closed spec fn spec_base_phys(&self) -> usize {
        self.base_phys
    }

    /// The virtual base.
    pub closed spec fn spec_base_virt(&self) -> usize {
        self.base_virt
    }

    pub fn new(base_phys: usize, base_virt: usize) -> (r: Self)
        ensures
            r.spec_base_phys() == base_phys,
            r.spec_base_virt() == base_virt,
    {
        Self { base_phys, base_virt }
    }

    /// The virtual address of a physical one: its offset from the physical base taken from
    /// the virtual base; where that is zero, the physical address itself.
    pub fn map(&self, phys_base: usize) -> (r: usize)
        requires
            phys_base >= self.spec_base_phys(),
            self.spec_base_virt() + (phys_base - self.spec_base_phys()) <= usize::MAX,
            self.spec_base_virt() + (phys_base - self.spec_base_phys()) != 0 || phys_base != 0,
        ensures
            r == (if self.spec_base_virt() + (phys_base - self.spec_base_phys()) != 0 {
                self.spec_base_virt() + (phys_base - self.spec_base_phys())
            } else {
                phys_base as int
            }),
            r != 0,
    {
        let virt_addr = self.base_virt + (phys_base - self.base_phys);
        if virt_addr != 0 {
            virt_addr
        } else {
            phys_base
        }
    }
}

/// Controller State
#[derive(Debug, Clone, Copy, PartialEq, Eq, Structural)]
pub enum ControllerState {
    Uninitialized,
    Initializing,
    Running,
    Suspended,
    Error,
    Resetting,
}

/// The state a stored byte stands for; an unknown byte is an error.
pub open spec fn controller_state_of(value: u8) -> ControllerState {
    if value == 0 {
        ControllerState::Uninitialized
    } else if value == 1 {
        ControllerState::Initializing
    } else if value == 2 {
        ControllerState::Running
    } else if value == 3 {
        ControllerState::Suspended
    } else if value == 5 {
        ControllerState::Resetting
    } else {
        ControllerState::Error
    }
}

impl From<u8> for ControllerState {
    fn from(value: u8) -> (r: Self) {
        match value {
            0 => ControllerState::Uninitialized,
            1 => ControllerState::Initializing,
            2 => ControllerState::Running,
            3 => ControllerState::Suspended,
            4 => ControllerState::Error,
            5 => ControllerState::Resetting,
            _ => ControllerState::Error,
        }
    }
}

impl vstd::std_specs::convert::FromSpecImpl<u8> for ControllerState {
    open spec fn obeys_from_spec() -> bool {
        true
    }

    open spec fn from_spec(value: u8) -> ControllerState {
        controller_state_of(value)
    }
}

/// USB Event types from controller
#[derive(Debug, Clone, Copy, PartialEq, Eq, Structural)]
pub enum UsbEvent {
    /// Device connected to port
    DeviceConnected { port: u8 },
    /// Device disconnected
    DeviceDisconnected { address: u8 },
    /// Transfer completed
    TransferComplete { transfer_id: u32, status: TransferStatus },
    /// Error occurred
    Error { error: UsbDriverError },
}

/// The status bits an interrupt handler writes back (write-1-to-clear) to acknowledge what it
/// handled.
#[derive(Debug, Clone, Copy, PartialEq, Eq, Structural)]
pub struct StatusAck {
    /// Clear the event interrupt bit (EINT)
    pub clear_event_interrupt: bool,
    /// Clear the port change detect bit (PCD)
    pub clear_port_change_detect: bool,
}

/// Number of device slots
pub const SLOT_COUNT: usize = 256;

/// Number of endpoint contexts in a slot
pub const ENDPOINTS_PER_SLOT: usize = 32;

/// Endpoint Context Entry
struct EndpointContext {
    endpoint_address: u8,
    /// Ring buffer of the endpoint, where one was set up
    ring: Option<Vec<u8>>,
    transfer_type: TransferType,
}

/// Slot Context Entry
struct SlotContext {
    device_address: u8,
    device: Option<UsbDevice>,
    endpoints: Vec<Option<EndpointContext>>,
}

/// What a slot records: the device's address and each endpoint's address and kind.
pub struct SlotView {
    pub device_address: u8,
    pub endpoints: Seq<Option<(u8, TransferType)>>,
}

spec fn endpoint_view(e: Option<EndpointContext>) -> Option<(u8, TransferType)> {
    match e {
        Some(c) => Some((c.endpoint_address, c.transfer_type)),
        None => None,
    }
}

spec fn slot_view(s: Option<SlotContext>) -> Option<SlotView> {
    match s {
        Some(c) => Some(
            SlotView {
                device_address: c.device_address,
                endpoints: c.endpoints@.map_values(|e: Option<EndpointContext>| endpoint_view(e)),
            },
        ),
        None => None,
    }
}

/// A slot just enabled: address zero, no endpoint configured.
pub open spec fn empty_slot() -> SlotView {
    SlotView { device_address: 0, endpoints: Seq::new(32, |i: int| None) }
}

/// What the controller records.
pub struct ControllerView {
    pub state: ControllerState,
    pub port_count: u8,
    pub slots: Seq<Option<SlotView>>,
    /// Finished transfers not yet collected: ID, status, bytes
    pub completed: Seq<(u32, TransferStatus, usize)>,
    /// Events not yet polled
    pub events: Seq<UsbEvent>,
    pub next_device_address: u8,
    pub next_transfer_id: u32,
    /// Doorbells to ring: device slot and target
    pub doorbells: Seq<(u8, u8)>,
}

/// USB Controller
pub struct UsbController {
    /// Controller state
    state: ControllerState,
    /// Port count
    port_count: u8,
    /// Device slots
    slots: Vec<Option<SlotContext>>,
    /// Completed transfers
    completed_transfers: VecDeque<(u32, TransferStatus, usize)>,
    /// Event queue
    event_queue: VecDeque<UsbEvent>,
    /// Next device address
    next_device_address: u8,
    /// Transfer ID counter
    next_transfer_id: u32,
    /// Doorbells rung and not yet written to the hardware
    doorbell_requests: Vec<(u8, u8)>,
}

impl View for UsbController {
    type V = ControllerView;

    closed spec fn view(&self) -> ControllerView {
        ControllerView {
            state: self.state,
            port_count: self.port_count,
            slots: self.slots@.map_values(|s: Option<SlotContext>| slot_view(s)),
            completed: self.completed_transfers@,
            events: self.event_queue@,
            next_device_address: self.next_device_address,
            next_transfer_id: self.next_transfer_id,
            doorbells: self.doorbell_requests@,
        }
    }
}

/// The result a collected completion gives: the byte count when it completed, otherwise the
/// error its status stands for.
pub open spec fn completion_result(status: TransferStatus, bytes: usize) -> Result<usize, UsbDriverError> {
    match status {
        TransferStatus::Completed => Ok(bytes),
        TransferStatus::Error => Err(UsbDriverError::TransferFailed),
        TransferStatus::Timeout => Err(UsbDriverError::TransferTimeout),
        TransferStatus::Stalled => Err(UsbDriverError::EndpointError),
        _ => Err(UsbDriverError::TransferFailed),
    }
}

/// The completions once a transfer has been processed: bulk, interrupt and isochronous
/// transfers finish at once with their whole buffer; a control transfer is left to the
/// hardware.
pub open spec fn after_processing(
    completed: Seq<(u32, TransferStatus, usize)>,
    id: u32,
    transfer_type: TransferType,
    len: int,
) -> Seq<(u32, TransferStatus, usize)> {
    if transfer_type == TransferType::Control {
        completed
    } else {
        completed.push((id, TransferStatus::Completed, len as usize))
    }
}

/// Whether a completion for `id` is recorded.
pub open spec fn has_completion(completed: Seq<(u32, TransferStatus, usize)>, id: u32) -> bool {
    exists|i: int| 0 <= i < completed.len() && (#[trigger] completed[i]).0 == id
}

/// `p` is the first position of a completion for `id`.
pub open spec fn first_completion(completed: Seq<(u32, TransferStatus, usize)>, id: u32, p: int) -> bool {
    &&& 0 <= p < completed.len()
    &&& completed[p].0 == id
    &&& forall|j: int| 0 <= j < p ==> (#[trigger] completed[j]).0 != id
}

/// The connection events that changed ports raise, in port order, over the first `n` ports.
pub open spec fn port_events(ports: Seq<(bool, bool)>, n: nat) -> Seq<UsbEvent>
    decreases n,
{
    if n == 0 {
        Seq::empty()
    } else {
        let p = (n - 1) as nat;
        let before = port_events(ports, p);
        if ports[p as int].0 {
            before.push(
                if ports[p as int].1 {
                    UsbEvent::DeviceConnected { port: p as u8 }
                } else {
                    UsbEvent::DeviceDisconnected { address: 0 }
                },
            )
        } else {
            before
        }
    }
}

impl UsbController {
    /// Well-formed: the slot table is full size and each slot has its endpoint table.
    pub closed spec fn wf(&self) -> bool {
        &&& self.slots@.len() == SLOT_COUNT
        &&& forall|i: int|
            0 <= i < self.slots@.len() ==> match #[trigger] self.slots@[i] {
                Some(s) => s.endpoints@.len() == ENDPOINTS_PER_SLOT,
                None => true,
            }
    }

    /// Create a new USB controller with the port count its registers report: uninitialized,
    /// no slot in use, nothing queued; device addresses and transfer IDs start at 1.
    pub fn new(port_count: u8) -> (r: Self)
        ensures
            r.wf(),
            r@ == (ControllerView {
                state: ControllerState::Uninitialized,
                port_count,
                slots: Seq::new(256, |i: int| None),
                completed: Seq::empty(),
                events: Seq::empty(),
                next_device_address: 1,
                next_transfer_id: 1,
                doorbells: Seq::empty(),
            }),
    {
        let mut slots: Vec<Option<SlotContext>> = Vec::new();
        let mut i: usize = 0;
        while i < SLOT_COUNT
            invariant
                i <= SLOT_COUNT,
                slots@.len() == i,
                forall|k: int| 0 <= k < i ==> (#[trigger] slots@[k]) is None,
            decreases SLOT_COUNT - i,
        {
            slots.push(None);
            i = i + 1;
        }
        let r = Self {
            state: ControllerState::Uninitialized,
            port_count,
            slots,
            completed_transfers: VecDeque::new(),
            event_queue: VecDeque::new(),
            next_device_address: 1,
            next_transfer_id: 1,
            doorbell_requests: Vec::new(),
        };
        proof {
            assert(r@.slots =~= Seq::new(256, |i: int| None));
        }
        r
    }

    /// Get controller state
    pub fn state(&self) -> (r: ControllerState)
        ensures
            r == self@.state,
    {
        self.state
    }

    /// Set controller state
    fn set_state(&mut self, state: ControllerState)
        requires
            old(self).wf(),
        ensures
            final(self).wf(),
            final(self)@ == (ControllerView { state, ..old(self)@ }),
    {
        self.state = state;
    }

    /// Start of initialization
    pub fn begin_initialize(&mut self)
        requires
            old(self).wf(),
        ensures
            final(self).wf(),
            final(self)@ == (ControllerView { state: ControllerState::Initializing, ..old(self)@ }),
    {
        self.set_state(ControllerState::Initializing);
    }

    /// Initialization done: the controller runs
    pub fn finish_initialize(&mut self)
        requires
            old(self).wf(),
        ensures
            final(self).wf(),
            final(self)@ == (ControllerView { state: ControllerState::Running, ..old(self)@ }),
    {
        self.set_state(ControllerState::Running);
    }

    /// Reset the controller: it is resetting until initialization goes on
    pub fn reset(&mut self)
        requires
            old(self).wf(),
        ensures
            final(self).wf(),
            final(self)@ == (ControllerView { state: ControllerState::Resetting, ..old(self)@ }),
    {
        self.set_state(ControllerState::Resetting);
    }

    /// Suspend controller
    pub fn suspend(&mut self)
        requires
            old(self).wf(),
        ensures
            final(self).wf(),
            final(self)@ == (ControllerView { state: ControllerState::Suspended, ..old(self)@ }),
    {
        self.set_state(ControllerState::Suspended);
    }

    /// Resume controller
    pub fn resume(&mut self)
        requires
            old(self).wf(),
        ensures
            final(self).wf(),
            final(self)@ == (ControllerView { state: ControllerState::Running, ..old(self)@ }),
    {
        self.set_state(ControllerState::Running);
    }

    /// Shutdown controller
    pub fn shutdown(&mut self)
        requires
            old(self).wf(),
        ensures
            final(self).wf(),
            final(self)@ == (ControllerView { state: ControllerState::Uninitialized, ..old(self)@ }),
    {
        self.set_state(ControllerState::Uninitialized);
    }

    /// Get port count
    pub fn port_count(&self) -> (r: u8)
        ensures
            r == self@.port_count,
    {
        self.port_count
    }

    /// Allocate a new device address: the next one, the counter moving on (and wrapping)
    pub fn allocate_device_address(&mut self) -> (r: u8)
        requires
            old(self).wf(),
        ensures
            final(self).wf(),
            r == old(self)@.next_device_address,
            final(self)@ == (ControllerView {
                next_device_address: (if r == 255 { 0 } else { (r + 1) as u8 }),
                ..old(self)@
            }),
    {
        let address = self.next_device_address;
        self.next_device_address = self.next_device_address.wrapping_add(1);
        address
    }

    /// Submit a transfer for processing and collect its completion.
    ///
    /// Only a running controller takes transfers. The transfer is handed the next transfer
    /// ID of the controller, and that ID is what completion is looked up by. A control
    /// transfer needs a setup packet and a device address in 1..=127, and rings the
    /// device's doorbell for endpoint 0; the other kinds finish at once, recorded under the
    /// transfer's own ID with its whole buffer. Nothing else runs while the submitter waits,
    /// so where no completion is recorded under the looked-up ID the wait times out.
    pub fn submit_transfer(&mut self, transfer: Transfer) -> (r: Result<usize, UsbDriverError>)
        requires
            old(self).wf(),
            transfer.spec_buffer().spec_len() <= usize::MAX,
        ensures
            final(self).wf(),
            final(self)@.state == old(self)@.state,
            final(self)@.port_count == old(self)@.port_count,
            final(self)@.slots == old(self)@.slots,
            final(self)@.events == old(self)@.events,
            final(self)@.next_device_address == old(self)@.next_device_address,
            old(self)@.state != ControllerState::Running ==> r == Err::<usize, UsbDriverError>(
                UsbDriverError::ControllerError,
            ) && final(self)@ == old(self)@,
            old(self)@.state == ControllerState::Running ==> ({
                let id = old(self)@.next_transfer_id;
                let control = transfer@.transfer_type == TransferType::Control;
                let bad_control = control && (transfer@.setup_packet is None || transfer@.device_address
                    == 0 || transfer@.device_address > 127);
                let c1 = after_processing(
                    old(self)@.completed,
                    transfer@.id,
                    transfer@.transfer_type,
                    transfer.spec_buffer().spec_len(),
                );
                &&& final(self)@.next_transfer_id == (if id == u32::MAX { 0 } else { (id + 1) as u32 })
                &&& final(self)@.doorbells == (if control && !bad_control {
                    old(self)@.doorbells.push((transfer@.device_address, 1u8))
                } else {
                    old(self)@.doorbells
                })
                &&& bad_control ==> r == Err::<usize, UsbDriverError>(UsbDriverError::InvalidParameter)
                    && final(self)@.completed == old(self)@.completed
                &&& !bad_control && !has_completion(c1, id) ==> r == Err::<usize, UsbDriverError>(
                    UsbDriverError::TransferTimeout,
                ) && final(self)@.completed == c1
                &&& !bad_control && has_completion(c1, id) ==> exists|p: int|
                    first_completion(c1, id, p) && r == completion_result(#[trigger] c1[p].1, c1[p].2)
                        && final(self)@.completed == c1.remove(p)
            }),
    {
        if self.state != ControllerState::Running {
            return Err(UsbDriverError::ControllerError);
        }
        // Assign transfer ID
        let transfer_id = self.next_transfer_id;
        self.next_transfer_id = self.next_transfer_id.wrapping_add(1);

        match transfer.transfer_type() {
            TransferType::Control => {
                let device_address = transfer.device_address();
                if transfer.setup_packet().is_none() {
                    return Err(UsbDriverError::InvalidParameter);
                }
                if device_address == 0 || device_address > 127 {
                    return Err(UsbDriverError::InvalidParameter);
                }
                // Ring doorbell for this device, target 1 = endpoint 0
                self.doorbell_requests.push((device_address, 1));
            },
            _ => {
                let bytes_transferred = transfer.buffer().len();
                self.completed_transfers.push_back(
                    (transfer.id(), TransferStatus::Completed, bytes_transferred),
                );
            },
        }

        match self.take_completed_transfer(transfer_id) {
            Some((_id, status, bytes)) => match status {
                TransferStatus::Completed => Ok(bytes),
                TransferStatus::Error => Err(UsbDriverError::TransferFailed),
                TransferStatus::Timeout => Err(UsbDriverError::TransferTimeout),
                TransferStatus::Stalled => Err(UsbDriverError::EndpointError),
                _ => Err(UsbDriverError::TransferFailed),
            },
            None => Err(UsbDriverError::TransferTimeout),
        }
    }

    /// Take the first completion recorded under an ID out of the list.
    fn take_completed_transfer(&mut self, transfer_id: u32) -> (r: Option<(u32, TransferStatus, usize)>)
        requires
            old(self).wf(),
        ensures
            final(self).wf(),
            final(self)@ == (ControllerView { completed: final(self)@.completed, ..old(self)@ }),
            !has_completion(old(self)@.completed, transfer_id) ==> r is None && final(self)@.completed
                == old(self)@.completed,
            has_completion(old(self)@.completed, transfer_id) ==> exists|p: int|
                first_completion(old(self)@.completed, transfer_id, p) && r == Some(
                    #[trigger] old(self)@.completed[p],
                ) && final(self)@.completed == old(self)@.completed.remove(p),
    {
        let mut i: usize = 0;
        while i < self.completed_transfers.len()
            invariant
                self == old(self),
                old(self).wf(),
                i <= self.completed_transfers@.len(),
                forall|j: int| 0 <= j < i ==> (#[trigger] self.completed_transfers@[j]).0 != transfer_id,
            decreases self.completed_transfers@.len() - i,
        {
            if self.completed_transfers[i].0 == transfer_id {
                let r = self.completed_transfers.remove(i);
                proof {
                    assert(first_completion(old(self)@.completed, transfer_id, i as int));
                }
                return r;
            }
            i = i + 1;
        }
        None
    }

    /// Record a transfer as finished with the given status (no bytes counted)
    pub fn complete_transfer(&mut self, transfer_id: u32, status: TransferStatus) -> (r: Result<(), UsbDriverError>)
        requires
            old(self).wf(),
        ensures
            final(self).wf(),
            r is Ok,
            final(self)@ == (ControllerView {
                completed: old(self)@.completed.push((transfer_id, status, 0usize)),
                ..old(self)@
            }),
    {
        self.completed_transfers.push_back((transfer_id, status, 0));
        Ok(())
    }

    /// Poll for events: all queued events, oldest first, and the queue is emptied. Port
    /// changes reach the queue through the interrupt handler.
    pub fn poll_events(&mut self) -> (r: Result<Vec<UsbEvent>, UsbDriverError>)
        requires
            old(self).wf(),
        ensures
            final(self).wf(),
            r matches Ok(v) && v@ == old(self)@.events,
            final(self)@ == (ControllerView { events: Seq::empty(), ..old(self)@ }),
    {
        let mut events: Vec<UsbEvent> = Vec::new();
        let ghost start = self.event_queue@;
        while self.event_queue.len() > 0
            invariant
                self.wf(),
                events@ + self.event_queue@ == start,
                self@ == (ControllerView { events: self.event_queue@, ..old(self)@ }),
                start == old(self)@.events,
            decreases self.event_queue@.len(),
        {
            match self.event_queue.pop_front() {
                Some(event) => {
                    events.push(event);
                    proof {
                        assert(events@ + self.event_queue@ =~= start);
                    }
                },
                None => {},
            }
        }
        proof {
            assert(self.event_queue@ =~= Seq::<UsbEvent>::empty());
            assert(events@ =~= start);
        }
        Ok(events)
    }

    /// Get device speed for port: every port is taken to run at high speed
    pub fn get_port_speed(&self, port: u8) -> (r: Result<DeviceSpeed, UsbDriverError>)
        ensures
            r == Ok::<DeviceSpeed, UsbDriverError>(DeviceSpeed::High),
    {
        Ok(DeviceSpeed::High)
    }

    /// Reset port: nothing is recorded for it
    pub fn reset_port(&mut self, port: u8) -> (r: Result<(), UsbDriverError>)
        ensures
            r is Ok,
            final(self)@ == old(self)@,
    {
        Ok(())
    }

    /// Enable slot for device: slot 1 is set up afresh and handed out
    pub fn enable_slot(&mut self) -> (r: Result<u8, UsbDriverError>)
        requires
            old(self).wf(),
        ensures
            final(self).wf(),
            r == Ok::<u8, UsbDriverError>(1),
            final(self)@ == (ControllerView { slots: old(self)@.slots.update(1, Some(empty_slot())), ..old(self)@ }),
    {
        let slot_id: u8 = 1;
        let mut endpoints: Vec<Option<EndpointContext>> = Vec::new();
        let mut i: usize = 0;
        while i < ENDPOINTS_PER_SLOT
            invariant
                i <= ENDPOINTS_PER_SLOT,
                endpoints@.len() == i,
                forall|k: int| 0 <= k < i ==> (#[trigger] endpoints@[k]) is None,
            decreases ENDPOINTS_PER_SLOT - i,
        {
            endpoints.push(None);
            i = i + 1;
        }
        let slot = SlotContext { device_address: 0, device: None, endpoints };
        proof {
            assert(slot_view(Some(slot)).unwrap().endpoints =~= empty_slot().endpoints);
        }
        self.slots.set(slot_id as usize, Some(slot));
        proof {
            assert(self@.slots =~= old(self)@.slots.update(1, Some(empty_slot())));
        }
        Ok(slot_id)
    }

    /// Disable slot: the slot is freed where it exists
    pub fn disable_slot(&mut self, slot_id: u8) -> (r: Result<(), UsbDriverError>)
        requires
            old(self).wf(),
        ensures
            final(self).wf(),
            r is Ok,
            final(self)@ == (ControllerView { slots: old(self)@.slots.update(slot_id as int, None), ..old(self)@ }),
    {
        self.slots.set(slot_id as usize, None);
        proof {
            assert(self@.slots =~= old(self)@.slots.update(slot_id as int, None));
        }
        Ok(())
    }

    /// Address device: record the address of the device in an enabled slot
    pub fn address_device(&mut self, slot_id: u8, address: u8) -> (r: Result<(), UsbDriverError>)
        requires
            old(self).wf(),
        ensures
            final(self).wf(),
            old(self)@.slots[slot_id as int] is None ==> r == Err::<(), UsbDriverError>(
                UsbDriverError::DeviceNotFound,
            ) && final(self)@ == old(self)@,
            old(self)@.slots[slot_id as int] matches Some(s) ==> r is Ok && final(self)@ == (ControllerView {
                slots: old(self)@.slots.update(slot_id as int, Some(SlotView { device_address: address, ..s })),
                ..old(self)@
            }),
    {
        let idx = slot_id as usize;
        let mut slot = None;
        self.slots.set_and_swap(idx, &mut slot);
        match slot {
            Some(mut s) => {
                s.device_address = address;
                self.slots.set(idx, Some(s));
                proof {
                    let sv = old(self)@.slots[slot_id as int]->0;
                    assert(self@.slots =~= old(self)@.slots.update(
                        slot_id as int,
                        Some(SlotView { device_address: address, ..sv }),
                    ));
                }
                Ok(())
            },
            None => {
                self.slots.set(idx, None);
                proof {
                    assert(self@.slots =~= old(self)@.slots);
                }
                Err(UsbDriverError::DeviceNotFound)
            },
        }
    }

    /// Configure endpoint: record the endpoint (by its address, where below 32) in an
    /// enabled slot
    pub fn configure_endpoint(&mut self, slot_id: u8, endpoint_address: u8, transfer_type: TransferType) -> (r:
        Result<(), UsbDriverError>)
        requires
            old(self).wf(),
        ensures
            final(self).wf(),
            old(self)@.slots[slot_id as int] is None ==> r == Err::<(), UsbDriverError>(
                UsbDriverError::DeviceNotFound,
            ) && final(self)@ == old(self)@,
            old(self)@.slots[slot_id as int] matches Some(s) ==> r is Ok && final(self)@ == (ControllerView {
                slots: old(self)@.slots.update(
                    slot_id as int,
                    Some(
                        if endpoint_address < 32 {
                            SlotView {
                                endpoints: s.endpoints.update(
                                    endpoint_address as int,
                                    Some((endpoint_address, transfer_type)),
                                ),
                                ..s
                            }
                        } else {
                            s
                        },
                    ),
                ),
                ..old(self)@
            }),
    {
        let idx = slot_id as usize;
        let mut slot = None;
        self.slots.set_and_swap(idx, &mut slot);
        match slot {
            Some(mut s) => {
                let ghost s_before = s;
                let ep_index = endpoint_address as usize;
                if ep_index < s.endpoints.len() {
                    s.endpoints.set(
                        ep_index,
                        Some(EndpointContext { endpoint_address, ring: None, transfer_type }),
                    );
                }
                proof {
                    let sv = old(self)@.slots[slot_id as int]->0;
                    assert(sv == slot_view(Some(s_before))->0);
                    if endpoint_address < 32 {
                        assert(slot_view(Some(s))->0.endpoints =~= sv.endpoints.update(
                            endpoint_address as int,
                            Some((endpoint_address, transfer_type)),
                        ));
                    } else {
                        assert(slot_view(Some(s))->0.endpoints =~= sv.endpoints);
                    }
                }
                self.slots.set(idx, Some(s));
                proof {
                    let sv = old(self)@.slots[slot_id as int]->0;
                    let nv = if endpoint_address < 32 {
                        SlotView {
                            endpoints: sv.endpoints.update(
                                endpoint_address as int,
                                Some((endpoint_address, transfer_type)),
                            ),
                            ..sv
                        }
                    } else {
                        sv
                    };
                    assert(self@.slots =~= old(self)@.slots.update(slot_id as int, Some(nv)));
                }
                Ok(())
            },
            None => {
                self.slots.set(idx, None);
                proof {
                    assert(self@.slots =~= old(self)@.slots);
                }
                Err(UsbDriverError::DeviceNotFound)
            },
        }
    }

    /// Take the doorbells rung since the last call, oldest first, for writing to the
    /// hardware.
    pub fn take_doorbell_requests(&mut self) -> (r: Vec<(u8, u8)>)
        requires
            old(self).wf(),
        ensures
            final(self).wf(),
            r@ == old(self)@.doorbells,
            final(self)@ == (ControllerView { doorbells: Seq::empty(), ..old(self)@ }),
    {
        let mut taken: Vec<(u8, u8)> = Vec::new();
        core::mem::swap(&mut taken, &mut self.doorbell_requests);
        taken
    }

    /// Handle interrupt, given what the status register showed and, for each port, whether
    /// its connection changed and whether a device is connected. A controller error puts
    /// the controller in the error state and queues an error event; a port change queues a
    /// connection or disconnection event for each port whose connection changed. The result
    /// names the status bits to write back: exactly those of the event interrupt and the port
    /// change that were set.
    pub fn handle_interrupt(
        &mut self,
        host_controller_error: bool,
        port_change_detect: bool,
        event_interrupt: bool,
        ports: &[(bool, bool)],
    ) -> (r: Result<StatusAck, UsbDriverError>)
        requires
            old(self).wf(),
            port_change_detect ==> ports@.len() >= old(self)@.port_count,
        ensures
            final(self).wf(),
            r == Ok::<StatusAck, UsbDriverError>(
                StatusAck { clear_event_interrupt: event_interrupt, clear_port_change_detect: port_change_detect },
            ),
            final(self)@ == (ControllerView {
                state: if host_controller_error {
                    ControllerState::Error
                } else {
                    old(self)@.state
                },
                events: old(self)@.events + (if host_controller_error {
                    seq![UsbEvent::Error { error: UsbDriverError::ControllerError }]
                } else {
                    Seq::empty()
                }) + (if port_change_detect {
                    port_events(ports@, old(self)@.port_count as nat)
                } else {
                    Seq::empty()
                }),
                ..old(self)@
            }),
    {
        if host_controller_error {
            self.set_state(ControllerState::Error);
            self.event_queue.push_back(UsbEvent::Error { error: UsbDriverError::ControllerError });
        }
        let ghost mid = self.event_queue@;
        proof {
            assert(mid =~= old(self)@.events + (if host_controller_error {
                seq![UsbEvent::Error { error: UsbDriverError::ControllerError }]
            } else {
                Seq::empty()
            }));
        }
        if port_change_detect {
            let mut port: u8 = 0;
            while port < self.port_count
                invariant
                    self.wf(),
                    port <= self.port_count,
                    ports@.len() >= self.port_count,
                    self.event_queue@ == mid + port_events(ports@, port as nat),
                    self@ == (ControllerView { events: self.event_queue@, ..self@ }),
                    self.port_count == old(self)@.port_count,
                    self.state == (if host_controller_error {
                        ControllerState::Error
                    } else {
                        old(self)@.state
                    }),
                    self@ == (ControllerView {
                        state: self.state,
                        events: self.event_queue@,
                        ..old(self)@
                    }),
                decreases self.port_count - port,
            {
                let (change, connected) = ports[port as usize];
                if change {
                    if connected {
                        self.event_queue.push_back(UsbEvent::DeviceConnected { port });
                    } else {
                        self.event_queue.push_back(UsbEvent::DeviceDisconnected { address: 0 });
                    }
                }
                proof {
                    assert(self.event_queue@ =~= mid + port_events(ports@, (port + 1) as nat));
                }
                port = port + 1;
            }
        } else {
            proof {
                assert(self.event_queue@ =~= mid + Seq::<UsbEvent>::empty());
            }
        }
        Ok(StatusAck { clear_event_interrupt: event_interrupt, clear_port_change_detect: port_change_detect })
    }
}

/// A completion recorded for a transfer is collected exactly once: recording one for an
/// ID that had none and taking the first for that ID gives it back and leaves the list as
/// it was.
pub proof fn lemma_complete_then_collect(
    completed: Seq<(u32, TransferStatus, usize)>,
    id: u32,
    status: TransferStatus,
)
    requires
        !has_completion(completed, id),
    ensures
        has_completion(completed.push((id, status, 0usize)), id),
        first_completion(completed.push((id, status, 0usize)), id, completed.len() as int),
        completed.push((id, status, 0usize)).remove(completed.len() as int) =~= completed,
        completion_result(status, 0) == (if status == TransferStatus::Completed {
            Ok::<usize, UsbDriverError>(0)
        } else {
            completion_result(status, 0)
        }),
{
    let c1 = completed.push((id, status, 0usize));
    assert(c1[completed.len() as int].0 == id);
    assert forall|j: int| 0 <= j < completed.len() implies (#[trigger] c1[j]).0 != id by {
        assert(c1[j] == completed[j]);
    }
}

} // verus!
