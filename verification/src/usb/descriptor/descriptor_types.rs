use vstd::prelude::*;

verus! {

pub const DEVICE: u8 = 0x01;

pub const CONFIGURATION: u8 = 0x02;

pub const STRING: u8 = 0x03;

pub const INTERFACE: u8 = 0x04;

pub const ENDPOINT: u8 = 0x05;

pub const DEVICE_QUALIFIER: u8 = 0x06;

pub const OTHER_SPEED_CONFIGURATION: u8 = 0x07;

pub const INTERFACE_POWER: u8 = 0x08;

pub const OTG: u8 = 0x09;

pub const DEBUG: u8 = 0x0A;

pub const INTERFACE_ASSOCIATION: u8 = 0x0B;

pub const BOS: u8 = 0x0F;

pub const DEVICE_CAPABILITY: u8 = 0x10;

pub const HUB: u8 = 0x29;

pub const SUPERSPEED_HUB: u8 = 0x2A;

pub const ENDPOINT_COMPANION: u8 = 0x30;

} // verus!
