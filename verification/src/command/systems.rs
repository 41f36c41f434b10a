//! Raw `u8` constellation bits for low-level use. Prefer `ConstellationMask`.
use vstd::prelude::*;

verus! {

pub const GPS: u8 = 0x01;
pub const BDS: u8 = 0x02;
pub const GLONASS: u8 = 0x04;
pub const GALILEO: u8 = 0x08;
pub const QZSS: u8 = 0x10;
pub const ALL: u8 = 0x7F;

} // verus!
