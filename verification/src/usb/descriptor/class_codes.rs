use vstd::prelude::*;

verus! {

pub const PER_INTERFACE: u8 = 0x00;

pub const AUDIO: u8 = 0x01;

pub const COMM_AND_CDC_CONTROL: u8 = 0x02;

pub const HID: u8 = 0x03;

pub const PHYSICAL: u8 = 0x05;

pub const IMAGE: u8 = 0x06;

pub const PRINTER: u8 = 0x07;

pub const MASS_STORAGE: u8 = 0x08;

pub const HUB: u8 = 0x09;

pub const CDC_DATA: u8 = 0x0A;

pub const SMART_CARD: u8 = 0x0B;

pub const CONTENT_SECURITY: u8 = 0x0D;

pub const VIDEO: u8 = 0x0E;

pub const PERSONAL_HEALTHCARE: u8 = 0x0F;

pub const AUDIO_VIDEO: u8 = 0x10;

pub const BILLBOARD: u8 = 0x11;

pub const DIAGNOSTIC: u8 = 0xDC;

pub const WIRELESS: u8 = 0xE0;

pub const MISCELLANEOUS: u8 = 0xEF;

pub const APPLICATION_SPECIFIC: u8 = 0xFE;

pub const VENDOR_SPECIFIC: u8 = 0xFF;

} // verus!
