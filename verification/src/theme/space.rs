//! Spacing scale, in logical pixels.

use vstd::prelude::*;

verus! {

pub const XS: u32 = 4;

pub const SM: u32 = 8;

pub const MD: u32 = 12;

pub const LG: u32 = 16;

pub const XL: u32 = 24;

} // verus!
