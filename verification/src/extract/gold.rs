//! Where the Tickflow code of Rhythm Heaven for the DS lies.
use vstd::prelude::*;

verus! {

pub enum Region {
    JP,
    US,
    EU,
    KR,
}

pub const TICKOVY_OFFSET_JP: u32 = 0;

pub const TICKOVY_OFFSET_US: u32 = 0x0228FA60;

pub const TICKOVY_OFFSET_EU: u32 = 0;

pub const TICKOVY_OFFSET_KR: u32 = 0;

} // verus!
