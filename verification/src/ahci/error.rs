use vstd::prelude::*;

verus! {

/// AHCI driver errors
#[derive(Debug, Clone, Copy, PartialEq, Eq, Structural)]
pub enum AhciError {
    /// A slot is already in use
    Busy,
    /// No device answers there
    DeviceNotFound,
    /// The device or port cannot take commands now
    DeviceNotReady,
    /// DMA memory could not be set up
    DmaError,
    /// The device reported a failure
    HardwareError,
    /// The controller's BAR is unusable
    InvalidBar,
    /// An argument is out of range
    InvalidParameters,
    /// No such port
    InvalidPort,
    /// Every command slot is taken
    NoAvailableSlots,
    /// No AHCI controller was found
    NoControllersFound,
    /// The port did not come back after a reset
    ResetFailed,
    /// The operation did not finish in time
    Timeout,
    /// The controller lacks a needed capability
    UnsupportedCapability,
    /// The device does not take this kind of command
    UnsupportedDevice,
}

/// Result type of AHCI operations
pub type AhciResult<T> = core::result::Result<T, AhciError>;

} // verus!
