use vstd::prelude::*;

verus! {

/// HC Halted
pub const HCH: u32 = 0x1;
/// Host System Error
pub const HSE: u32 = 0x4;
/// Event Interrupt
pub const EINT: u32 = 0x8;
/// Port Change Detect
pub const PCD: u32 = 0x10;
/// Save State Status
pub const SSS: u32 = 0x100;
/// Restore State Status
pub const RSS: u32 = 0x200;
/// Save/Restore Error
pub const SRE: u32 = 0x400;
/// Controller Not Ready
pub const CNR: u32 = 0x800;
/// Host Controller Error
pub const HCE: u32 = 0x1000;

} // verus!
