use vstd::prelude::*;

verus! {

pub const C_HUB_LOCAL_POWER: u16 = 0;

pub const C_HUB_OVER_CURRENT: u16 = 1;

pub const PORT_CONNECTION: u16 = 0;

pub const PORT_ENABLE: u16 = 1;

pub const PORT_SUSPEND: u16 = 2;

pub const PORT_OVER_CURRENT: u16 = 3;

pub const PORT_RESET: u16 = 4;

pub const PORT_POWER: u16 = 8;

pub const PORT_LOW_SPEED: u16 = 9;

pub const C_PORT_CONNECTION: u16 = 16;

pub const C_PORT_ENABLE: u16 = 17;

pub const C_PORT_SUSPEND: u16 = 18;

pub const C_PORT_OVER_CURRENT: u16 = 19;

pub const C_PORT_RESET: u16 = 20;

pub const PORT_TEST: u16 = 21;

pub const PORT_INDICATOR: u16 = 22;

} // verus!
