use vstd::prelude::*;

verus! {

pub const NONE: u32 = 0;

pub const SHORT_NOT_OK: u32 = 1;

pub const ZERO_PACKET: u32 = 2;

pub const NO_INTERRUPT: u32 = 4;

} // verus!
