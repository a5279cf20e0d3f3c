//! An NTSC-style composite video signal, in its integer parts: the raster that
//! a signal is scanned from and the window of samples that a colour is
//! recovered from.

pub mod decoder;
pub mod encoder;
pub mod raster;
pub mod timing;

pub use decoder::NtscDecoder;
pub use encoder::NtscEncoder;
pub use raster::PixelSample;
pub use timing::{
    NTSC_COLOR_CARRIER_HZ, NTSC_IMAGE_MICROS, NTSC_SCANLINE_COUNT, NTSC_SCANLINE_MICROS,
};
