use vstd::prelude::*;

verus! {

/// Interrupt Pending
pub const IP: u32 = 0x1;
/// Interrupt Enable
pub const IE: u32 = 0x2;

} // verus!
