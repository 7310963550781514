use vstd::prelude::*;

use crate::ahci::command::{lemma_slot_bits, slot_free, CommandResult};
use crate::ahci::consts::{
    HBA_CMD_SLOT_MAX, PORT_CMD_CLO, PORT_CMD_CR, PORT_CMD_FR, PORT_CMD_FRE, PORT_CMD_ST, PORT_IS_HBDS, PORT_IS_HBFS, PORT_IS_IFS, PORT_IS_TFES,
    SSTS_DET_MASK, SSTS_DET_PRESENT, SSTS_IPM_ACTIVE, SSTS_IPM_MASK,
};
use crate::ahci::error::{AhciError, AhciResult};

verus! {

/// Register reads allowed while waiting for an engine to stop.
pub const ENGINE_STOP_POLLS: u32 = 1000;

/// Register reads allowed while waiting for a command to complete.
pub const COMPLETION_POLLS: u32 = 10000;

/// Register reads allowed while waiting for the HBA reset to finish.
pub const HBA_RESET_POLLS: u32 = 10000;

/// Register reads allowed while waiting for the link to come back after a port reset.
pub const LINK_POLLS: u32 = 1000;

/// Where a bounded wait stands after one more read.
#[derive(Debug, Clone, Copy, PartialEq, Eq, Structural)]
pub enum WaitStep {
    /// The awaited condition holds
    Done,
    /// Not yet: read again, with this many reads left
    Again(u32),
    /// Not yet, and no read is left: the wait timed out
    TimedOut,
}

/// One read in a wait that had `remaining` reads left before it: over once the condition
/// holds; otherwise another read while one is left, else a time-out.
pub fn wait_step(done: bool, remaining: u32) -> (r: WaitStep)
    ensures
        r == (if done {
            WaitStep::Done
        } else if remaining <= 1 {
            WaitStep::TimedOut
        } else {
            WaitStep::Again((remaining - 1) as u32)
        }),
{
    if done {
        WaitStep::Done
    } else if remaining <= 1 {
        WaitStep::TimedOut
    } else {
        WaitStep::Again(remaining - 1)
    }
}

/// Port operational state
#[derive(Debug, Clone, Copy, PartialEq, Eq, Structural)]
pub enum PortState {
    /// Port is not initialized
    Uninitialized,
    /// Port is initializing
    Initializing,
    /// Port is ready for commands
    Ready,
    /// Port has detected a device
    DevicePresent,
    /// Port is in error state
    Error,
    /// Port is being reset
    Resetting,
}

/// Port capabilities
#[derive(Debug, Clone, Copy, PartialEq, Eq, Structural)]
pub struct PortCapabilities {
    /// Maximum number of command slots
    pub max_command_slots: u8,
    /// Supports command list override
    pub command_list_override: bool,
    /// Supports FIS-based switching
    pub fis_based_switching: bool,
    /// Supports external SATA
    pub external_sata: bool,
    /// Supports hot plug
    pub hot_plug_capable: bool,
}

/// The error bits of PxIS that end a command with an error.
pub open spec fn error_bits() -> u32 {
    PORT_IS_TFES | PORT_IS_HBFS | PORT_IS_HBDS | PORT_IS_IFS
}

/// A device is present with communication established and its link is active.
pub open spec fn link_up(ssts: u32) -> bool {
    ssts & SSTS_DET_MASK == SSTS_DET_PRESENT && ssts & SSTS_IPM_MASK == SSTS_IPM_ACTIVE
}

/// AHCI Port structure
///
/// The bookkeeping of one port: its number, free command slots, state, the signature of the
/// device found on it, and its capabilities. The registers themselves are read and written by
/// whoever drives the port, who hands the values read to these methods.
#[derive(Clone)]
pub struct AhciPort {
    /// Port number (0-31)
    port_num: u8,
    /// Available command slots
    available_slots: u32,
    /// Port state
    state: PortState,
    /// Connected device signature
    device_signature: Option<u32>,
    /// Port capabilities
    capabilities: PortCapabilities,
}

impl AhciPort {
    /// Free-slot mask.
    pub closed spec fn mask(&self) -> u32 {
        self.available_slots
    }

    /// Port state.
    pub closed spec fn spec_state(&self) -> PortState {
        self.state
    }

    /// Signature of the device found.
    pub closed spec fn spec_signature(&self) -> Option<u32> {
        self.device_signature
    }

    /// Port number.
    pub closed spec fn spec_number(&self) -> u8 {
        self.port_num
    }

    /// Port capabilities.
    pub closed spec fn spec_capabilities(&self) -> PortCapabilities {
        self.capabilities
    }

    /// Create a new AHCI port: uninitialized, every slot free, no device.
    pub fn new(port_num: u8) -> (r: Self)
        ensures
            r.spec_number() == port_num,
            r.mask() == u32::MAX,
            r.spec_state() == PortState::Uninitialized,
            r.spec_signature() is None,
            r.spec_capabilities() == (PortCapabilities {
                max_command_slots: 32,
                command_list_override: false,
                fis_based_switching: false,
                external_sata: false,
                hot_plug_capable: false,
            }),
    {
        Self {
            port_num,
            available_slots: u32::MAX,  // All slots available
            state: PortState::Uninitialized,
            device_signature: None,
            capabilities: PortCapabilities {
                max_command_slots: HBA_CMD_SLOT_MAX as u8,
                command_list_override: false,
                fis_based_switching: false,
                external_sata: false,
                hot_plug_capable: false,
            },
        }
    }

    /// Initialization has started.
    pub fn begin_initialize(&mut self)
        ensures
            final(self).spec_state() == PortState::Initializing,
            final(self).mask() == old(self).mask(),
            final(self).spec_signature() == old(self).spec_signature(),
            final(self).spec_number() == old(self).spec_number(),
            final(self).spec_capabilities() == old(self).spec_capabilities(),
    {
        self.state = PortState::Initializing;
    }

    /// Read port capabilities from the command register value `cmd`.
    pub fn read_capabilities(&mut self, cmd: u32)
        ensures
            final(self).spec_capabilities() == (PortCapabilities {
                command_list_override: cmd & PORT_CMD_CLO != 0,
                fis_based_switching: false,
                hot_plug_capable: true,
                ..old(self).spec_capabilities()
            }),
            final(self).spec_state() == old(self).spec_state(),
            final(self).mask() == old(self).mask(),
            final(self).spec_signature() == old(self).spec_signature(),
            final(self).spec_number() == old(self).spec_number(),
    {
        self.capabilities.command_list_override = (cmd & PORT_CMD_CLO) != 0;
        self.capabilities.fis_based_switching = false;  // Determined from port registers
        self.capabilities.hot_plug_capable = true;  // Assume supported
    }

    /// Initialization has finished: the port takes commands.
    pub fn finish_initialize(&mut self)
        ensures
            final(self).spec_state() == PortState::Ready,
            final(self).mask() == old(self).mask(),
            final(self).spec_signature() == old(self).spec_signature(),
            final(self).spec_number() == old(self).spec_number(),
            final(self).spec_capabilities() == old(self).spec_capabilities(),
    {
        self.state = PortState::Ready;
    }

    /// A device is present with communication established and its link is active.
    pub fn link_active(ssts: u32) -> (r: bool)
        ensures
            r == link_up(ssts),
    {
        let det = ssts & SSTS_DET_MASK;
        let ipm = ssts & SSTS_IPM_MASK;
        det == SSTS_DET_PRESENT && ipm == SSTS_IPM_ACTIVE
    }

    /// Detect connected device from the status `ssts` and signature `sig` read from the port:
    /// with an active link the signature is recorded and returned.
    pub fn detect_device(&mut self, ssts: u32, sig: u32) -> (r: Option<u32>)
        ensures
            link_up(ssts) ==> r == Some(sig) && final(self).spec_signature() == Some(sig)
                && final(self).spec_state() == PortState::DevicePresent,
            !link_up(ssts) ==> r is None && final(self).spec_signature() is None && final(self).spec_state()
                == old(self).spec_state(),
            final(self).mask() == old(self).mask(),
            final(self).spec_number() == old(self).spec_number(),
            final(self).spec_capabilities() == old(self).spec_capabilities(),
    {
        if Self::link_active(ssts) {
            self.device_signature = Some(sig);
            self.state = PortState::DevicePresent;
            Some(sig)
        } else {
            self.device_signature = None;
            None
        }
    }

    /// Whether the port takes commands: ready, or with a device present.
    pub fn check_ready(&self) -> (r: AhciResult<()>)
        ensures
            r is Ok <==> (self.spec_state() == PortState::Ready || self.spec_state() == PortState::DevicePresent),
            r is Err ==> r == Err::<(), AhciError>(AhciError::DeviceNotReady),
    {
        match self.state {
            PortState::Ready | PortState::DevicePresent => Ok(()),
            _ => Err(AhciError::DeviceNotReady),
        }
    }

    /// Allocate a command slot: the lowest free one, which then is no longer free.
    pub fn allocate_slot(&mut self) -> (r: Option<u8>)
        ensures
            final(self).spec_state() == old(self).spec_state(),
            final(self).spec_signature() == old(self).spec_signature(),
            final(self).spec_number() == old(self).spec_number(),
            final(self).spec_capabilities() == old(self).spec_capabilities(),
            match r {
                Some(s) => s < 32 && slot_free(old(self).mask(), s as int) && (forall|j: int|
                    0 <= j < s ==> !#[trigger] slot_free(old(self).mask(), j)) && final(self).mask()
                    == old(self).mask() & !(1u32 << s as u32),
                None => (forall|j: int| 0 <= j < 32 ==> !#[trigger] slot_free(old(self).mask(), j))
                    && final(self).mask() == old(self).mask(),
            },
    {
        let mut slot: u32 = 0;
        while slot < 32
            invariant
                slot <= 32,
                self.available_slots == old(self).available_slots,
                self.state == old(self).state,
                self.device_signature == old(self).device_signature,
                self.port_num == old(self).port_num,
                self.capabilities == old(self).capabilities,
                forall|j: int| 0 <= j < slot ==> !#[trigger] slot_free(self.available_slots, j),
            decreases 32 - slot,
        {
            proof {
                lemma_slot_bits(self.available_slots, slot, slot);
            }
            if (self.available_slots & (1u32 << slot)) != 0 {
                self.available_slots = self.available_slots & !(1u32 << slot);
                return Some(slot as u8);
            }
            slot = slot + 1;
        }
        None
    }

    /// Release a command slot
    pub fn release_slot(&mut self, slot: u8)
        requires
            slot < 32,
        ensures
            final(self).mask() == old(self).mask() | (1u32 << slot as u32),
            final(self).spec_state() == old(self).spec_state(),
            final(self).spec_signature() == old(self).spec_signature(),
            final(self).spec_number() == old(self).spec_number(),
            final(self).spec_capabilities() == old(self).spec_capabilities(),
    {
        self.available_slots = self.available_slots | (1u32 << slot as u32);
    }

    /// The result of a finished command from the interrupt status `is` and task file `tfd`:
    /// any error bit makes it an error carrying the low byte of the task file.
    pub fn command_result(is: u32, tfd: u32) -> (r: CommandResult)
        ensures
            is & error_bits() != 0 ==> r == CommandResult::Error((tfd % 256) as u8),
            is & error_bits() == 0 ==> r == CommandResult::Success,
    {
        if (is & (PORT_IS_TFES | PORT_IS_HBFS | PORT_IS_HBDS | PORT_IS_IFS)) != 0 {
            return CommandResult::Error((tfd % 256) as u8);
        }
        CommandResult::Success
    }

    /// The command register value that stops the command engine: ST cleared.
    pub fn stop_command_value(cmd: u32) -> (r: u32)
        ensures
            r == cmd & !PORT_CMD_ST,
    {
        cmd & !PORT_CMD_ST
    }

    /// The command list has stopped running: CR reads back clear.
    pub fn command_list_stopped(cmd: u32) -> (r: bool)
        ensures
            r == (cmd & PORT_CMD_CR == 0),
    {
        cmd & PORT_CMD_CR == 0
    }

    /// The command register value that stops FIS receive: FRE cleared.
    pub fn stop_fis_value(cmd: u32) -> (r: u32)
        ensures
            r == cmd & !PORT_CMD_FRE,
    {
        cmd & !PORT_CMD_FRE
    }

    /// FIS receive has stopped running: FR reads back clear.
    pub fn fis_receive_stopped(cmd: u32) -> (r: bool)
        ensures
            r == (cmd & PORT_CMD_FR == 0),
    {
        cmd & PORT_CMD_FR == 0
    }

    /// The command register value that enables FIS receive: FRE set.
    pub fn fis_receive_value(cmd: u32) -> (r: u32)
        ensures
            r == cmd | PORT_CMD_FRE,
    {
        cmd | PORT_CMD_FRE
    }

    /// The command register value that starts the command engine (ST set), refused while
    /// FIS receive is not running.
    pub fn start_engine_value(cmd: u32) -> (r: AhciResult<u32>)
        ensures
            cmd & PORT_CMD_FR == 0 ==> r == Err::<u32, AhciError>(AhciError::DeviceNotReady),
            cmd & PORT_CMD_FR != 0 ==> r == Ok::<u32, AhciError>(cmd | PORT_CMD_ST),
    {
        if cmd & PORT_CMD_FR == 0 {
            return Err(AhciError::DeviceNotReady);
        }
        Ok(cmd | PORT_CMD_ST)
    }

    /// A 64-bit DMA address split for a pair of base registers: the low and the high half.
    pub fn address_halves(address: u64) -> (r: (u32, u32))
        ensures
            r.0 == address % 0x1_0000_0000,
            r.1 == address / 0x1_0000_0000,
    {
        ((address % 0x1_0000_0000) as u32, (address / 0x1_0000_0000) as u32)
    }

    /// The control register value that starts a COMRESET: DET set to 1.
    pub fn comreset_value(sctl: u32) -> (r: u32)
        ensures
            r == (sctl & !0xFu32) | 1u32,
    {
        (sctl & !0xF) | 1
    }

    /// The control register value that ends a COMRESET: DET cleared.
    pub fn comreset_release_value(sctl: u32) -> (r: u32)
        ensures
            r == sctl & !0xFu32,
    {
        sctl & !0xF
    }

    /// A reset has started.
    pub fn begin_reset(&mut self)
        ensures
            final(self).spec_state() == PortState::Resetting,
            final(self).mask() == old(self).mask(),
            final(self).spec_signature() == old(self).spec_signature(),
            final(self).spec_number() == old(self).spec_number(),
            final(self).spec_capabilities() == old(self).spec_capabilities(),
    {
        self.state = PortState::Resetting;
    }

    /// The device did not come back after a reset: the port is in error.
    pub fn fail_reset(&mut self) -> (r: AhciResult<()>)
        ensures
            r == Err::<(), AhciError>(AhciError::ResetFailed),
            final(self).spec_state() == PortState::Error,
            final(self).mask() == old(self).mask(),
            final(self).spec_signature() == old(self).spec_signature(),
            final(self).spec_number() == old(self).spec_number(),
            final(self).spec_capabilities() == old(self).spec_capabilities(),
    {
        self.state = PortState::Error;
        Err(AhciError::ResetFailed)
    }

    /// Get port number
    pub fn port_number(&self) -> (r: u8)
        ensures
            r == self.spec_number(),
    {
        self.port_num
    }

    /// Get port state
    pub fn state(&self) -> (r: PortState)
        ensures
            r == self.spec_state(),
    {
        self.state
    }

    /// Get device signature if present
    pub fn device_signature(&self) -> (r: Option<u32>)
        ensures
            r == self.spec_signature(),
    {
        self.device_signature
    }
}

} // verus!
