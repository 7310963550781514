use vstd::prelude::*;

verus! {

/// Current Connect Status
pub const CCS: u32 = 0x1;
/// Port Enabled/Disabled
pub const PED: u32 = 0x2;
/// Over-current Active
pub const OCA: u32 = 0x8;
/// Port Reset
pub const PR: u32 = 0x10;
/// Port Power
pub const PP: u32 = 0x200;
/// Port Link State Write Strobe
pub const LWS: u32 = 0x10000;
/// Connect Status Change
pub const CSC: u32 = 0x20000;
/// Port Enabled/Disabled Change
pub const PEC: u32 = 0x40000;
/// Warm Port Reset Change
pub const WRC: u32 = 0x80000;
/// Over-current Change
pub const OCC: u32 = 0x100000;
/// Port Reset Change
pub const PRC: u32 = 0x200000;
/// Port Link State Change
pub const PLC: u32 = 0x400000;
/// Port Config Error Change
pub const CEC: u32 = 0x800000;

/// Every write-1-to-clear change bit of PORTSC: CSC, PEC, WRC, OCC, PRC, PLC and CEC.
pub const CHANGE_BITS: u32 = 0xfe_0000;

} // verus!
