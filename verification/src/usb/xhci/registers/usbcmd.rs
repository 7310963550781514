use vstd::prelude::*;

verus! {

/// Run/Stop
pub const RUN_STOP: u32 = 0x1;
/// Host Controller Reset
pub const HCRST: u32 = 0x2;
/// Interrupter Enable
pub const INTE: u32 = 0x4;
/// Host System Error Enable
pub const HSEE: u32 = 0x8;
/// Light Host Controller Reset
pub const LHCRST: u32 = 0x80;
/// Controller Save State
pub const CSS: u32 = 0x100;
/// Controller Restore State
pub const CRS: u32 = 0x200;
/// Enable Wrap Event
pub const EWE: u32 = 0x400;
/// Enable U3 MFINDEX Stop
pub const EU3S: u32 = 0x800;

} // verus!
