//! The fixed parameters of the signal, as whole numbers. An encoder and a
//! decoder of one signal must agree on them, so both take them from here.

use vstd::prelude::*;

verus! {

/// The frequency of the colour subcarrier, in hertz.
pub const NTSC_COLOR_CARRIER_HZ: u32 = 3_579_545;

/// The number of scanlines in one frame.
pub const NTSC_SCANLINE_COUNT: u32 = 525;

/// The time that one scanline takes, in microseconds.
pub const NTSC_SCANLINE_MICROS: u32 = 64;

/// The time that one frame takes, in microseconds: the signal repeats with
/// this period.
pub const NTSC_IMAGE_MICROS: u32 = NTSC_SCANLINE_MICROS * NTSC_SCANLINE_COUNT;

} // verus!
