use vstd::prelude::*;

use crate::usb::descriptor::{AnyDescriptor, DeviceDescriptor};
use crate::usb::device::{DeviceSpeed, UsbDevice, UsbDeviceView, DeviceState, DeviceClass};
use crate::usb::error::UsbDriverError;
use crate::usb::transfer::SetupPacket;

pub mod hub_features;
pub mod hub_requests;

verus! {

/// USB Hub Port Status
#[derive(Debug, Clone, Copy, PartialEq, Eq, Structural)]
pub struct PortStatus {
    /// Current connect status
    pub connection: bool,
    /// Port enabled
    pub enabled: bool,
    /// Suspend status
    pub suspended: bool,
    /// Over-current indicator
    pub over_current: bool,
    /// Reset status
    pub reset: bool,
    /// Port power status
    pub power: bool,
    /// Low-speed device attached
    pub low_speed: bool,
    /// High-speed device attached
    pub high_speed: bool,
    /// Test mode
    pub test: bool,
    /// Port indicator control
    pub indicator: bool,
}

/// The speed that the speed bits of a status name: high, else low, else full.
pub open spec fn speed_of(s: PortStatus) -> DeviceSpeed {
    if s.high_speed {
        DeviceSpeed::High
    } else if s.low_speed {
        DeviceSpeed::Low
    } else {
        DeviceSpeed::Full
    }
}

impl PortStatus {
    /// Create empty port status
    pub fn empty() -> (r: Self)
        ensures
            r == status_of(0),
    {
        proof {
            lemma_hub_bits();
        }
        Self {
            connection: false,
            enabled: false,
            suspended: false,
            over_current: false,
            reset: false,
            power: false,
            low_speed: false,
            high_speed: false,
            test: false,
            indicator: false,
        }
    }

    /// Check if device is connected
    pub fn is_connected(&self) -> (r: bool)
        ensures
            r == self.connection,
    {
        self.connection
    }

    /// Check if port is enabled
    pub fn is_enabled(&self) -> (r: bool)
        ensures
            r == self.enabled,
    {
        self.enabled
    }

    /// Get device speed
    pub fn device_speed(&self) -> (r: DeviceSpeed)
        ensures
            r == speed_of(*self),
    {
        if self.high_speed {
            DeviceSpeed::High
        } else if self.low_speed {
            DeviceSpeed::Low
        } else {
            DeviceSpeed::Full
        }
    }
}

/// Port Status Change bits
#[derive(Debug, Clone, Copy, PartialEq, Eq, Structural)]
pub struct PortStatusChange {
    pub connection_change: bool,
    pub enable_change: bool,
    pub suspend_change: bool,
    pub over_current_change: bool,
    pub reset_change: bool,
}

impl PortStatusChange {
    pub fn empty() -> (r: Self)
        ensures
            r == change_of(0),
    {
        proof {
            lemma_hub_bits();
        }
        Self {
            connection_change: false,
            enable_change: false,
            suspend_change: false,
            over_current_change: false,
            reset_change: false,
        }
    }

    pub fn has_changes(&self) -> (r: bool)
        ensures
            r == (self.connection_change || self.enable_change || self.suspend_change
                || self.over_current_change || self.reset_change),
    {
        self.connection_change || self.enable_change || self.suspend_change || self.over_current_change
            || self.reset_change
    }
}

/// The port status that a status word holds.
pub open spec fn status_of(v: u16) -> PortStatus {
    PortStatus {
        connection: v & 0x0001 != 0,
        enabled: v & 0x0002 != 0,
        suspended: v & 0x0004 != 0,
        over_current: v & 0x0008 != 0,
        reset: v & 0x0010 != 0,
        power: v & 0x0100 != 0,
        low_speed: v & 0x0200 != 0,
        high_speed: v & 0x0400 != 0,
        test: v & 0x0800 != 0,
        indicator: v & 0x1000 != 0,
    }
}

/// The change flags that a change word holds.
pub open spec fn change_of(v: u16) -> PortStatusChange {
    PortStatusChange {
        connection_change: v & 0x0001 != 0,
        enable_change: v & 0x0002 != 0,
        suspend_change: v & 0x0004 != 0,
        over_current_change: v & 0x0008 != 0,
        reset_change: v & 0x0010 != 0,
    }
}

/// Setting a status or change bit turns it on and clearing it turns it off, leaving the other
/// bits alone; and the words that connecting a device writes.
pub proof fn lemma_hub_bits()
    by (bit_vector)
    ensures
        forall|v: u16, m: u16, k: u16|
            #![trigger (v | m) & k]
            (m == 1 || m == 2 || m == 4 || m == 8 || m == 0x10 || m == 0x100) && (k == 1 || k == 2 || k == 4
                || k == 8 || k == 0x10 || k == 0x100 || k == 0x200 || k == 0x400 || k == 0x800 || k
                == 0x1000) ==> (((v | m) & k != 0) == (k == m || v & k != 0)),
        forall|v: u16, m: u16, k: u16|
            #![trigger (v & !m) & k]
            (m == 1 || m == 2 || m == 4 || m == 8 || m == 0x10 || m == 0x100) && (k == 1 || k == 2 || k == 4
                || k == 8 || k == 0x10 || k == 0x100 || k == 0x200 || k == 0x400 || k == 0x800 || k
                == 0x1000) ==> (((v & !m) & k != 0) == (k != m && v & k != 0)),
        0u16 & 1 == 0 && 0u16 & 2 == 0 && 0u16 & 4 == 0 && 0u16 & 8 == 0 && 0u16 & 0x10 == 0
            && 0u16 & 0x100 == 0 && 0u16 & 0x200 == 0 && 0u16 & 0x400 == 0 && 0u16 & 0x800 == 0
            && 0u16 & 0x1000 == 0,
        0x0301u16 & 0x200 != 0 && 0x0301u16 & 0x400 == 0 && 0x0501u16 & 0x400 != 0 && 0x0101u16
            & 0x200 == 0 && 0x0101u16 & 0x400 == 0,
        0x0101u16 & 1 != 0 && 0x0101u16 & 0x100 != 0 && 0x0301u16 & 1 != 0 && 0x0301u16 & 0x100 != 0
            && 0x0501u16 & 1 != 0 && 0x0501u16 & 0x100 != 0,
        0x0100u16 & 1 == 0 && 0x0100u16 & 0x100 != 0 && 1u16 & 1 != 0,
        0x0101u16 | 0x0200u16 == 0x0301u16 && 0x0101u16 | 0x0400u16 == 0x0501u16,
{
}

/// Hub Descriptor
#[derive(Debug, Clone, Copy, PartialEq, Eq, Structural)]
pub struct HubDescriptor {
    pub length: u8,
    pub descriptor_type: u8,
    pub num_ports: u8,
    pub characteristics: u16,
    pub power_on_to_power_good: u8,
    pub hub_control_current: u8,
}

impl HubDescriptor {
    /// Minimum length without variable fields
    pub const LENGTH: u8 = 7;

    /// The descriptor `new` builds.
    pub open spec fn new_spec(num_ports: u8, characteristics: u16) -> HubDescriptor {
        HubDescriptor {
            length: 7,
            descriptor_type: 0x29,
            num_ports,
            characteristics,
            power_on_to_power_good: 50,
            hub_control_current: 0,
        }
    }

    pub const DESCRIPTOR_TYPE: u8 = 0x29;

    /// Hub characteristics bits
    pub const LOGICAL_POWER_SWITCHING_MODE: u16 = 0x0003;

    pub const COMPOUND_DEVICE: u16 = 0x0004;

    pub const OVER_CURRENT_PROTECTION_MODE: u16 = 0x0018;

    pub const TT_THINK_TIME: u16 = 0x0060;

    pub const PORT_INDICATORS: u16 = 0x0080;

    /// A hub descriptor with a 100 ms power-on delay (in 2 ms units) and no control current.
    pub fn new(num_ports: u8, characteristics: u16) -> (r: Self)
        ensures
            r == (HubDescriptor {
                length: 7,
                descriptor_type: 0x29,
                num_ports,
                characteristics,
                power_on_to_power_good: 50,
                hub_control_current: 0,
            }),
    {
        Self {
            length: Self::LENGTH,
            descriptor_type: Self::DESCRIPTOR_TYPE,
            num_ports,
            characteristics,
            power_on_to_power_good: 50,
            hub_control_current: 0,
        }
    }
}

/// Hub State
#[derive(Debug, Clone, Copy, PartialEq, Eq, Structural)]
pub enum HubState {
    Uninitialized,
    Initializing,
    Running,
    Error,
}

/// The state a stored code stands for: codes past 2 mean error.
pub open spec fn hub_state_of(value: u8) -> HubState {
    if value == 0 {
        HubState::Uninitialized
    } else if value == 1 {
        HubState::Initializing
    } else if value == 2 {
        HubState::Running
    } else {
        HubState::Error
    }
}

impl From<u8> for HubState {
    fn from(value: u8) -> (r: Self) {
        match value {
            0 => HubState::Uninitialized,
            1 => HubState::Initializing,
            2 => HubState::Running,
            _ => HubState::Error,
        }
    }
}

impl vstd::std_specs::convert::FromSpecImpl<u8> for HubState {
    open spec fn obeys_from_spec() -> bool {
        true
    }

    open spec fn from_spec(value: u8) -> HubState {
        hub_state_of(value)
    }
}

/// The ports among the first `n` whose change word is not zero, in increasing order.
pub open spec fn changed_ports(changes: Seq<u16>, n: int) -> Seq<u8>
    decreases n,
{
    if n <= 0 {
        Seq::empty()
    } else if changes[n - 1] != 0 {
        changed_ports(changes, n - 1).push((n - 1) as u8)
    } else {
        changed_ports(changes, n - 1)
    }
}

/// USB Hub Implementation
pub struct UsbHub {
    /// Address of the hub device (None for root hub)
    device_address: Option<u8>,
    /// Number of downstream ports
    port_count: u8,
    /// Port status words
    port_status: Vec<u16>,
    /// Port status change words
    port_changes: Vec<u16>,
    /// Hub descriptor
    hub_descriptor: HubDescriptor,
    /// Hub is root hub
    is_root_hub: bool,
    /// Hub state
    state: HubState,
}

impl UsbHub {
    /// One status and one change word per port.
    pub closed spec fn wf(&self) -> bool {
        self.port_status@.len() == self.port_count && self.port_changes@.len() == self.port_count
    }

    /// The status words, by port.
    pub closed spec fn statuses(&self) -> Seq<u16> {
        self.port_status@
    }

    /// The change words, by port.
    pub closed spec fn changes(&self) -> Seq<u16> {
        self.port_changes@
    }

    /// Hub state.
    pub closed spec fn spec_state(&self) -> HubState {
        self.state
    }

    /// Number of ports.
    pub closed spec fn ports(&self) -> u8 {
        self.port_count
    }

    /// The hub descriptor.
    pub closed spec fn descriptor(&self) -> HubDescriptor {
        self.hub_descriptor
    }

    /// This is the root hub.
    pub closed spec fn root(&self) -> bool {
        self.is_root_hub
    }

    /// Address of the hub device, for an external hub.
    pub closed spec fn device(&self) -> Option<u8> {
        self.device_address
    }

    fn zeros(n: u8) -> (r: Vec<u16>)
        ensures
            r@ == Seq::new(n as nat, |i: int| 0u16),
    {
        let mut v: Vec<u16> = Vec::new();
        let mut i: u8 = 0;
        while i < n
            invariant
                i <= n,
                v@ == Seq::new(i as nat, |k: int| 0u16),
            decreases n - i,
        {
            v.push(0);
            i = i + 1;
            proof {
                assert(v@ =~= Seq::new(i as nat, |k: int| 0u16));
            }
        }
        v
    }

    /// Create a new root hub: 16 ports, all words zero, power switching per port and port
    /// indicators.
    pub fn new_root_hub() -> (r: Result<Self, UsbDriverError>)
        ensures
            r matches Ok(h) && h.wf() && h.ports() == 16 && h.root() && h.device() is None
                && h.spec_state() == HubState::Uninitialized && h.statuses() == Seq::new(16, |i: int| 0u16)
                && h.changes() == Seq::new(16, |i: int| 0u16) && h.descriptor() == HubDescriptor::new_spec(16, 0x0083),
    {
        let port_count: u8 = 16;
        let hub_descriptor = HubDescriptor::new(port_count, 0x0083);
        Ok(Self {
            device_address: None,
            port_count,
            port_status: Self::zeros(port_count),
            port_changes: Self::zeros(port_count),
            hub_descriptor,
            is_root_hub: true,
            state: HubState::Uninitialized,
        })
    }

    /// Create a new external hub on the device at `device_address`: 4 ports by default.
    pub fn new_external_hub(device_address: u8) -> (r: Result<Self, UsbDriverError>)
        ensures
            r matches Ok(h) && h.wf() && h.ports() == 4 && !h.root() && h.device() == Some(device_address)
                && h.spec_state() == HubState::Uninitialized && h.statuses() == Seq::new(4, |i: int| 0u16)
                && h.changes() == Seq::new(4, |i: int| 0u16) && h.descriptor() == HubDescriptor::new_spec(4, 0),
    {
        let port_count: u8 = 4;
        let hub_descriptor = HubDescriptor::new(port_count, 0);
        Ok(Self {
            device_address: Some(device_address),
            port_count,
            port_status: Self::zeros(port_count),
            port_changes: Self::zeros(port_count),
            hub_descriptor,
            is_root_hub: false,
            state: HubState::Uninitialized,
        })
    }

    /// The request that reads the hub descriptor of an external hub, with the address to send
    /// it to.
    pub fn hub_descriptor_request(&self) -> (r: Option<(u8, SetupPacket)>)
        ensures
            match self.device() {
                Some(a) => r == Some((a, SetupPacket { request_type: 0xA0, request: 0x06, value: 0x2900u16, index: 0u16, length: 7u16 })),
                None => r is None,
            },
    {
        match self.device_address {
            Some(a) => {
                let setup = SetupPacket::new(0xA0, hub_requests::GET_DESCRIPTOR, 0x2900, 0, HubDescriptor::LENGTH as u16);
                Some((a, setup))
            },
            None => None,
        }
    }

    /// Initialize the hub: every port is powered, and the hub runs.
    pub fn initialize(&mut self) -> (r: Result<(), UsbDriverError>)
        requires
            old(self).wf(),
        ensures
            r is Ok,
            final(self).wf(),
            final(self).spec_state() == HubState::Running,
            final(self).ports() == old(self).ports(),
            final(self).changes() == old(self).changes(),
            forall|p: int| 0 <= p < old(self).ports() ==> #[trigger] final(self).statuses()[p] == old(self).statuses()[p] | 0x0100,
            final(self).descriptor() == old(self).descriptor(),
            final(self).root() == old(self).root(),
            final(self).device() == old(self).device(),
    {
        self.state = HubState::Initializing;
        let mut port: u8 = 0;
        while port < self.port_count
            invariant
                port <= self.port_count,
                self.wf(),
                self.port_count == old(self).port_count,
                self.port_changes@ == old(self).port_changes@,
                forall|p: int| 0 <= p < port ==> #[trigger] self.port_status@[p] == old(self).port_status@[p] | 0x0100,
                forall|p: int| port <= p < self.port_count ==> #[trigger] self.port_status@[p] == old(self).port_status@[p],
                self.hub_descriptor == old(self).hub_descriptor,
                self.is_root_hub == old(self).is_root_hub,
                self.device_address == old(self).device_address,
            decreases self.port_count - port,
        {
            let _ = self.set_port_power(port, true);
            port = port + 1;
        }
        self.state = HubState::Running;
        Ok(())
    }

    /// Get hub state
    pub fn state(&self) -> (r: HubState)
        ensures
            r == self.spec_state(),
    {
        self.state
    }

    /// Get port count
    pub fn port_count(&self) -> (r: u8)
        ensures
            r == self.ports(),
    {
        self.port_count
    }

    /// Get port status
    pub fn get_port_status(&self, port: u8) -> (r: Result<PortStatus, UsbDriverError>)
        requires
            self.wf(),
        ensures
            port >= self.ports() ==> r == Err::<PortStatus, UsbDriverError>(UsbDriverError::InvalidParameter),
            port < self.ports() ==> r == Ok::<PortStatus, UsbDriverError>(status_of(self.statuses()[port as int])),
    {
        if port >= self.port_count {
            return Err(UsbDriverError::InvalidParameter);
        }
        let status_value = self.port_status[port as usize];
        Ok(PortStatus {
            connection: (status_value & 0x0001) != 0,
            enabled: (status_value & 0x0002) != 0,
            suspended: (status_value & 0x0004) != 0,
            over_current: (status_value & 0x0008) != 0,
            reset: (status_value & 0x0010) != 0,
            power: (status_value & 0x0100) != 0,
            low_speed: (status_value & 0x0200) != 0,
            high_speed: (status_value & 0x0400) != 0,
            test: (status_value & 0x0800) != 0,
            indicator: (status_value & 0x1000) != 0,
        })
    }

    /// Get port status change
    pub fn get_port_status_change(&self, port: u8) -> (r: Result<PortStatusChange, UsbDriverError>)
        requires
            self.wf(),
        ensures
            port >= self.ports() ==> r == Err::<PortStatusChange, UsbDriverError>(UsbDriverError::InvalidParameter),
            port < self.ports() ==> r == Ok::<PortStatusChange, UsbDriverError>(change_of(self.changes()[port as int])),
    {
        if port >= self.port_count {
            return Err(UsbDriverError::InvalidParameter);
        }
        let change_value = self.port_changes[port as usize];
        Ok(PortStatusChange {
            connection_change: (change_value & 0x0001) != 0,
            enable_change: (change_value & 0x0002) != 0,
            suspend_change: (change_value & 0x0004) != 0,
            over_current_change: (change_value & 0x0008) != 0,
            reset_change: (change_value & 0x0010) != 0,
        })
    }

    /// Set the status word of a port to `s` and its change word to `c`.
    fn set_words(&mut self, port: u8, s: u16, c: u16)
        requires
            old(self).wf(),
            port < old(self).ports(),
        ensures
            final(self).wf(),
            final(self).statuses() == old(self).statuses().update(port as int, s),
            final(self).changes() == old(self).changes().update(port as int, c),
            final(self).ports() == old(self).ports(),
            final(self).spec_state() == old(self).spec_state(),
            final(self).descriptor() == old(self).descriptor(),
            final(self).root() == old(self).root(),
            final(self).device() == old(self).device(),
    {
        self.port_status.set(port as usize, s);
        self.port_changes.set(port as usize, c);
    }

    /// Reset port: the reset bit is set and cleared again, and the reset change is flagged.
    pub fn reset_port(&mut self, port: u8) -> (r: Result<(), UsbDriverError>)
        requires
            old(self).wf(),
        ensures
            final(self).wf(),
            port >= old(self).ports() ==> r == Err::<(), UsbDriverError>(UsbDriverError::InvalidParameter)
                && final(self).statuses() == old(self).statuses() && final(self).changes() == old(self).changes(),
            port < old(self).ports() ==> r is Ok && final(self).statuses() == old(self).statuses().update(
                port as int,
                (old(self).statuses()[port as int] | 0x0010) & !0x0010u16,
            ) && final(self).changes() == old(self).changes().update(port as int, old(self).changes()[port as int] | 0x0010),
            final(self).ports() == old(self).ports(),
            final(self).spec_state() == old(self).spec_state(),
            final(self).descriptor() == old(self).descriptor(),
            final(self).root() == old(self).root(),
            final(self).device() == old(self).device(),
    {
        if port >= self.port_count {
            return Err(UsbDriverError::InvalidParameter);
        }
        let i = port as usize;
        let s = (self.port_status[i] | 0x0010) & !0x0010;
        let c = self.port_changes[i] | 0x0010;
        self.set_words(port, s, c);
        Ok(())
    }

    /// Set port power
    pub fn set_port_power(&mut self, port: u8, powered: bool) -> (r: Result<(), UsbDriverError>)
        requires
            old(self).wf(),
        ensures
            final(self).wf(),
            port >= old(self).ports() ==> r == Err::<(), UsbDriverError>(UsbDriverError::InvalidParameter)
                && final(self).statuses() == old(self).statuses(),
            port < old(self).ports() ==> r is Ok && final(self).statuses() == old(self).statuses().update(
                port as int,
                if powered { old(self).statuses()[port as int] | 0x0100 } else { old(self).statuses()[port as int] & !0x0100u16 },
            ),
            final(self).changes() == old(self).changes(),
            final(self).ports() == old(self).ports(),
            final(self).spec_state() == old(self).spec_state(),
            final(self).descriptor() == old(self).descriptor(),
            final(self).root() == old(self).root(),
            final(self).device() == old(self).device(),
    {
        if port >= self.port_count {
            return Err(UsbDriverError::InvalidParameter);
        }
        let i = port as usize;
        let s = if powered { self.port_status[i] | 0x0100 } else { self.port_status[i] & !0x0100 };
        let c = self.port_changes[i];
        self.set_words(port, s, c);
        proof {
            assert(self.port_changes@ =~= old(self).port_changes@);
        }
        Ok(())
    }

    /// Suspend port: the suspend bit is set and its change flagged.
    pub fn suspend_port(&mut self, port: u8) -> (r: Result<(), UsbDriverError>)
        requires
            old(self).wf(),
        ensures
            final(self).wf(),
            port >= old(self).ports() ==> r == Err::<(), UsbDriverError>(UsbDriverError::InvalidParameter)
                && final(self).statuses() == old(self).statuses() && final(self).changes() == old(self).changes(),
            port < old(self).ports() ==> r is Ok && final(self).statuses() == old(self).statuses().update(
                port as int,
                old(self).statuses()[port as int] | 0x0004,
            ) && final(self).changes() == old(self).changes().update(port as int, old(self).changes()[port as int] | 0x0004),
            final(self).ports() == old(self).ports(),
            final(self).spec_state() == old(self).spec_state(),
            final(self).descriptor() == old(self).descriptor(),
            final(self).root() == old(self).root(),
            final(self).device() == old(self).device(),
    {
        if port >= self.port_count {
            return Err(UsbDriverError::InvalidParameter);
        }
        let i = port as usize;
        let s = self.port_status[i] | 0x0004;
        let c = self.port_changes[i] | 0x0004;
        self.set_words(port, s, c);
        Ok(())
    }

    /// Resume port: the suspend bit is cleared and its change flagged.
    pub fn resume_port(&mut self, port: u8) -> (r: Result<(), UsbDriverError>)
        requires
            old(self).wf(),
        ensures
            final(self).wf(),
            port >= old(self).ports() ==> r == Err::<(), UsbDriverError>(UsbDriverError::InvalidParameter)
                && final(self).statuses() == old(self).statuses() && final(self).changes() == old(self).changes(),
            port < old(self).ports() ==> r is Ok && final(self).statuses() == old(self).statuses().update(
                port as int,
                old(self).statuses()[port as int] & !0x0004u16,
            ) && final(self).changes() == old(self).changes().update(port as int, old(self).changes()[port as int] | 0x0004),
            final(self).ports() == old(self).ports(),
            final(self).spec_state() == old(self).spec_state(),
            final(self).descriptor() == old(self).descriptor(),
            final(self).root() == old(self).root(),
            final(self).device() == old(self).device(),
    {
        if port >= self.port_count {
            return Err(UsbDriverError::InvalidParameter);
        }
        let i = port as usize;
        let s = self.port_status[i] & !0x0004;
        let c = self.port_changes[i] | 0x0004;
        self.set_words(port, s, c);
        Ok(())
    }

    /// Disable port: the enable bit is cleared and its change flagged.
    pub fn disable_port(&mut self, port: u8) -> (r: Result<(), UsbDriverError>)
        requires
            old(self).wf(),
        ensures
            final(self).wf(),
            port >= old(self).ports() ==> r == Err::<(), UsbDriverError>(UsbDriverError::InvalidParameter)
                && final(self).statuses() == old(self).statuses() && final(self).changes() == old(self).changes(),
            port < old(self).ports() ==> r is Ok && final(self).statuses() == old(self).statuses().update(
                port as int,
                old(self).statuses()[port as int] & !0x0002u16,
            ) && final(self).changes() == old(self).changes().update(port as int, old(self).changes()[port as int] | 0x0002),
            final(self).ports() == old(self).ports(),
            final(self).spec_state() == old(self).spec_state(),
            final(self).descriptor() == old(self).descriptor(),
            final(self).root() == old(self).root(),
            final(self).device() == old(self).device(),
    {
        if port >= self.port_count {
            return Err(UsbDriverError::InvalidParameter);
        }
        let i = port as usize;
        let s = self.port_status[i] & !0x0002;
        let c = self.port_changes[i] | 0x0002;
        self.set_words(port, s, c);
        Ok(())
    }

    /// Clear port status change bits; nothing happens for a port past the last.
    fn clear_port_change(&mut self, port: u8, change_bit: u16)
        requires
            old(self).wf(),
        ensures
            final(self).wf(),
            port < old(self).ports() ==> final(self).changes() == old(self).changes().update(
                port as int,
                old(self).changes()[port as int] & !change_bit,
            ),
            port >= old(self).ports() ==> final(self).changes() == old(self).changes(),
            final(self).statuses() == old(self).statuses(),
            final(self).ports() == old(self).ports(),
            final(self).spec_state() == old(self).spec_state(),
            final(self).descriptor() == old(self).descriptor(),
            final(self).root() == old(self).root(),
            final(self).device() == old(self).device(),
    {
        if port < self.port_count {
            let i = port as usize;
            let s = self.port_status[i];
            let c = self.port_changes[i] & !change_bit;
            self.set_words(port, s, c);
            proof {
                assert(self.port_status@ =~= old(self).port_status@);
            }
        }
    }

    /// Set port feature: reset, power and suspend are supported.
    pub fn set_port_feature(&mut self, port: u8, feature: u16) -> (r: Result<(), UsbDriverError>)
        requires
            old(self).wf(),
        ensures
            final(self).wf(),
            port >= old(self).ports() ==> r == Err::<(), UsbDriverError>(UsbDriverError::InvalidParameter),
            port < old(self).ports() && feature != hub_features::PORT_RESET && feature != hub_features::PORT_POWER
                && feature != hub_features::PORT_SUSPEND ==> r == Err::<(), UsbDriverError>(UsbDriverError::NotSupported),
            r is Err ==> final(self).statuses() == old(self).statuses() && final(self).changes() == old(self).changes(),
            port < old(self).ports() && feature == hub_features::PORT_POWER ==> r is Ok && final(self).statuses()
                == old(self).statuses().update(port as int, old(self).statuses()[port as int] | 0x0100)
                && final(self).changes() == old(self).changes(),
            port < old(self).ports() && feature == hub_features::PORT_RESET ==> r is Ok && final(self).statuses()
                == old(self).statuses().update(port as int, (old(self).statuses()[port as int] | 0x0010) & !0x0010u16)
                && final(self).changes() == old(self).changes().update(port as int, old(self).changes()[port as int] | 0x0010),
            port < old(self).ports() && feature == hub_features::PORT_SUSPEND ==> r is Ok && final(self).statuses()
                == old(self).statuses().update(port as int, old(self).statuses()[port as int] | 0x0004)
                && final(self).changes() == old(self).changes().update(port as int, old(self).changes()[port as int] | 0x0004),
            final(self).ports() == old(self).ports(),
            final(self).spec_state() == old(self).spec_state(),
    {
        if port >= self.port_count {
            return Err(UsbDriverError::InvalidParameter);
        }
        if feature == hub_features::PORT_RESET {
            self.reset_port(port)
        } else if feature == hub_features::PORT_POWER {
            self.set_port_power(port, true)
        } else if feature == hub_features::PORT_SUSPEND {
            self.suspend_port(port)
        } else {
            Err(UsbDriverError::NotSupported)
        }
    }

    /// Clear port feature: the change features clear their change bit; enable, suspend and
    /// power disable, resume and power off the port.
    pub fn clear_port_feature(&mut self, port: u8, feature: u16) -> (r: Result<(), UsbDriverError>)
        requires
            old(self).wf(),
        ensures
            final(self).wf(),
            port >= old(self).ports() ==> r == Err::<(), UsbDriverError>(UsbDriverError::InvalidParameter),
            r is Err ==> final(self).statuses() == old(self).statuses() && final(self).changes() == old(self).changes(),
            port < old(self).ports() ==> match change_bit_of(feature) {
                Some(bit) => r is Ok && final(self).changes() == old(self).changes().update(
                    port as int,
                    old(self).changes()[port as int] & !bit,
                ) && final(self).statuses() == old(self).statuses(),
                None => if feature == hub_features::PORT_ENABLE {
                    r is Ok && final(self).statuses() == old(self).statuses().update(port as int, old(self).statuses()[port as int] & !0x0002u16)
                        && final(self).changes() == old(self).changes().update(port as int, old(self).changes()[port as int] | 0x0002)
                } else if feature == hub_features::PORT_SUSPEND {
                    r is Ok && final(self).statuses() == old(self).statuses().update(port as int, old(self).statuses()[port as int] & !0x0004u16)
                        && final(self).changes() == old(self).changes().update(port as int, old(self).changes()[port as int] | 0x0004)
                } else if feature == hub_features::PORT_POWER {
                    r is Ok && final(self).statuses() == old(self).statuses().update(port as int, old(self).statuses()[port as int] & !0x0100u16)
                        && final(self).changes() == old(self).changes()
                } else {
                    r == Err::<(), UsbDriverError>(UsbDriverError::NotSupported)
                },
            },
            final(self).ports() == old(self).ports(),
            final(self).spec_state() == old(self).spec_state(),
    {
        if port >= self.port_count {
            return Err(UsbDriverError::InvalidParameter);
        }
        if feature == hub_features::C_PORT_CONNECTION {
            self.clear_port_change(port, 0x0001);
            Ok(())
        } else if feature == hub_features::C_PORT_ENABLE {
            self.clear_port_change(port, 0x0002);
            Ok(())
        } else if feature == hub_features::C_PORT_SUSPEND {
            self.clear_port_change(port, 0x0004);
            Ok(())
        } else if feature == hub_features::C_PORT_OVER_CURRENT {
            self.clear_port_change(port, 0x0008);
            Ok(())
        } else if feature == hub_features::C_PORT_RESET {
            self.clear_port_change(port, 0x0010);
            Ok(())
        } else if feature == hub_features::PORT_ENABLE {
            self.disable_port(port)
        } else if feature == hub_features::PORT_SUSPEND {
            self.resume_port(port)
        } else if feature == hub_features::PORT_POWER {
            self.set_port_power(port, false)
        } else {
            Err(UsbDriverError::NotSupported)
        }
    }

    /// Probe port for device: none where nothing is connected; otherwise the port is reset
    /// and a device of the speed it reports is made, with a default USB 2.0 descriptor.
    pub fn probe_port(&mut self, port: u8) -> (r: Result<Option<UsbDevice>, UsbDriverError>)
        requires
            old(self).wf(),
        ensures
            final(self).wf(),
            port >= old(self).ports() ==> r == Err::<Option<UsbDevice>, UsbDriverError>(UsbDriverError::InvalidParameter)
                && final(self).statuses() == old(self).statuses() && final(self).changes() == old(self).changes(),
            port < old(self).ports() && !status_of(old(self).statuses()[port as int]).connection ==> (r matches Ok(None)
                && final(self).statuses() == old(self).statuses() && final(self).changes() == old(self).changes()),
            port < old(self).ports() && status_of(old(self).statuses()[port as int]).connection ==> ({
                let s = (old(self).statuses()[port as int] | 0x0010) & !0x0010u16;
                &&& final(self).statuses() == old(self).statuses().update(port as int, s)
                &&& final(self).changes() == old(self).changes().update(port as int, old(self).changes()[port as int] | 0x0010)
                &&& (r matches Ok(Some(d)) && d@.speed == speed_of(status_of(s)) && d@.port == port
                    && d@.hub_address == 0 && d@.state == DeviceState::Attached && d@.address == 0
                    && d.descriptor() == AnyDescriptor::Device(DeviceDescriptor::new_spec(
                        0x0200, 0, 0, 0, 64, 0, 0, 0x0100, 0, 0, 0, 1,
                    )))
            }),
            final(self).ports() == old(self).ports(),
            final(self).spec_state() == old(self).spec_state(),
    {
        let status = match self.get_port_status(port) {
            Ok(s) => s,
            Err(e) => return Err(e),
        };
        if !status.is_connected() {
            return Ok(None);
        }
        match self.reset_port(port) {
            Ok(()) => {},
            Err(e) => return Err(e),
        }
        let status = match self.get_port_status(port) {
            Ok(s) => s,
            Err(e) => return Err(e),
        };
        let speed = status.device_speed();
        let device_descriptor = DeviceDescriptor::new(
            0x0200,  // USB 2.0
            0x00,  // Class in interface
            0x00,  // Subclass
            0x00,  // Protocol
            64,  // Max packet size
            0x0000,  // Vendor ID
            0x0000,  // Product ID
            0x0100,  // Device version
            0,  // Manufacturer string
            0,  // Product string
            0,  // Serial number string
            1,  // Number of configurations
        );
        let device = UsbDevice::new(speed, port, 0, AnyDescriptor::Device(device_descriptor));
        Ok(Some(device))
    }

    /// Check for port status changes: the ports with any change flagged, in increasing order.
    pub fn check_port_changes(&self) -> (r: Vec<u8>)
        requires
            self.wf(),
        ensures
            r@ == changed_ports(self.changes(), self.ports() as int),
    {
        let mut changed: Vec<u8> = Vec::new();
        let mut port: u8 = 0;
        while port < self.port_count
            invariant
                port <= self.port_count,
                self.wf(),
                changed@ == changed_ports(self.port_changes@, port as int),
            decreases self.port_count - port,
        {
            if self.port_changes[port as usize] != 0 {
                changed.push(port);
            }
            port = port + 1;
        }
        changed
    }

    /// Simulate device connection (for testing): the port reports a powered, connected device
    /// of that speed, and a connection change.
    pub fn simulate_device_connection(&mut self, port: u8, speed: DeviceSpeed)
        requires
            old(self).wf(),
        ensures
            final(self).wf(),
            port < old(self).ports() ==> final(self).statuses() == old(self).statuses().update(
                port as int,
                match speed {
                    DeviceSpeed::Low => 0x0301u16,
                    DeviceSpeed::High => 0x0501u16,
                    _ => 0x0101u16,
                },
            ) && final(self).changes() == old(self).changes().update(port as int, 0x0001),
            port >= old(self).ports() ==> final(self).statuses() == old(self).statuses() && final(self).changes() == old(self).changes(),
            final(self).ports() == old(self).ports(),
            final(self).spec_state() == old(self).spec_state(),
    {
        if port < self.port_count {
            let mut status: u16 = 0x0101;  // Connected and powered
            match speed {
                DeviceSpeed::Low => status = status | 0x0200,
                DeviceSpeed::High => status = status | 0x0400,
                _ => {},  // Full speed has no special bit
            }
            proof {
                lemma_hub_bits();
            }
            self.set_words(port, status, 0x0001);
        }
    }

    /// Simulate device disconnection (for testing): only power is left, and a connection change.
    pub fn simulate_device_disconnection(&mut self, port: u8)
        requires
            old(self).wf(),
        ensures
            final(self).wf(),
            port < old(self).ports() ==> final(self).statuses() == old(self).statuses().update(port as int, 0x0100)
                && final(self).changes() == old(self).changes().update(port as int, 0x0001),
            port >= old(self).ports() ==> final(self).statuses() == old(self).statuses() && final(self).changes() == old(self).changes(),
            final(self).ports() == old(self).ports(),
            final(self).spec_state() == old(self).spec_state(),
    {
        if port < self.port_count {
            self.set_words(port, 0x0100, 0x0001);
        }
    }
}

/// The change bit that clearing a change feature clears.
pub open spec fn change_bit_of(feature: u16) -> Option<u16> {
    if feature == hub_features::C_PORT_CONNECTION {
        Some(0x0001u16)
    } else if feature == hub_features::C_PORT_ENABLE {
        Some(0x0002u16)
    } else if feature == hub_features::C_PORT_SUSPEND {
        Some(0x0004u16)
    } else if feature == hub_features::C_PORT_OVER_CURRENT {
        Some(0x0008u16)
    } else if feature == hub_features::C_PORT_RESET {
        Some(0x0010u16)
    } else {
        None
    }
}

/// After a reset the port is out of reset, the reset change is flagged, and every other
/// status bit is as before.
pub proof fn lemma_reset_port_status(v: u16, c: u16)
    ensures
        !status_of((v | 0x0010) & !0x0010u16).reset,
        change_of(c | 0x0010).reset_change,
        status_of((v | 0x0010) & !0x0010u16) == (PortStatus { reset: false, ..status_of(v) }),
{
    lemma_hub_bits();
    assert((v | 0x0010) & !0x0010u16 == v & !0x0010u16) by (bit_vector);
}

/// Powering a port on makes its status report power, powering it off makes it report none;
/// the other status bits are kept.
pub proof fn lemma_port_power_status(v: u16)
    ensures
        status_of(v | 0x0100) == (PortStatus { power: true, ..status_of(v) }),
        status_of(v & !0x0100u16) == (PortStatus { power: false, ..status_of(v) }),
{
    lemma_hub_bits();
}

/// A simulated connection reads back as a connected, powered port of the speed given (for a
/// low-, full- or high-speed device), with a connection change.
pub proof fn lemma_connection_reads_back(speed: DeviceSpeed)
    requires
        speed == DeviceSpeed::Low || speed == DeviceSpeed::Full || speed == DeviceSpeed::High,
    ensures
        ({
            let s = match speed {
                DeviceSpeed::Low => 0x0301u16,
                DeviceSpeed::High => 0x0501u16,
                _ => 0x0101u16,
            };
            &&& status_of(s).connection
            &&& status_of(s).power
            &&& speed_of(status_of(s)) == speed
            &&& change_of(0x0001).connection_change
        }),
{
    lemma_hub_bits();
}

/// Clearing a change feature turns that change flag off and keeps the other flags.
pub proof fn lemma_clear_change(c: u16, feature: u16)
    requires
        change_bit_of(feature) is Some,
    ensures
        ({
            let bit = change_bit_of(feature)->0;
            let after = change_of(c & !bit);
            &&& bit == 1 ==> after == (PortStatusChange { connection_change: false, ..change_of(c) })
            &&& bit == 2 ==> after == (PortStatusChange { enable_change: false, ..change_of(c) })
            &&& bit == 4 ==> after == (PortStatusChange { suspend_change: false, ..change_of(c) })
            &&& bit == 8 ==> after == (PortStatusChange { over_current_change: false, ..change_of(c) })
            &&& bit == 0x10 ==> after == (PortStatusChange { reset_change: false, ..change_of(c) })
        }),
{
    lemma_hub_bits();
}

} // verus!
