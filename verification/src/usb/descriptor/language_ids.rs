use vstd::prelude::*;

verus! {

pub const ENGLISH_US: u16 = 0x0409;

pub const ENGLISH_UK: u16 = 0x0809;

pub const GERMAN: u16 = 0x0407;

pub const FRENCH: u16 = 0x040C;

pub const SPANISH: u16 = 0x0C0A;

pub const JAPANESE: u16 = 0x0411;

pub const CHINESE_SIMPLIFIED: u16 = 0x0804;

pub const CHINESE_TRADITIONAL: u16 = 0x0404;

} // verus!
