use vstd::prelude::*;

verus! {

pub const GET_STATUS: u8 = 0x00;

pub const CLEAR_FEATURE: u8 = 0x01;

pub const SET_FEATURE: u8 = 0x03;

pub const GET_DESCRIPTOR: u8 = 0x06;

pub const SET_DESCRIPTOR: u8 = 0x07;

pub const GET_BUS_STATE: u8 = 0x02;

pub const SET_HUB_DEPTH: u8 = 0x0C;

} // verus!
