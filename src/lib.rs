//! Pixel and color types with an image buffer that addresses a flat, row-major
//! block of channel values as a two-dimensional grid of pixels.
//!
//! Channel values are unsigned integers. Conversions that need floating point
//! (sRGB gamma curves, CIE XYZ, luminance) are not part of this crate.
//!
//! Channel arithmetic wraps around on overflow; a pixel is read by copying
//! its channels out of the buffer and written back with `put_pixel`.

mod alpha;
mod buffer;
pub mod color;
mod math;
mod traits;

pub use alpha::lemma_alpha_round_trip;
pub use buffer::{EnumeratePixels, ImageBuffer, Pixels};
pub use math::clamp;
pub use traits::{ChannelMax, Color, ColorMathOps, ImageView, Primitive};

use color::{Gray, GrayA, Rgb, Rgba};
use vstd::prelude::*;

verus! {

/// Rgb image buffer with 8-bit channels.
pub type RgbImage = ImageBuffer<Rgb<u8>>;

/// Rgb image buffer with an alpha channel and 8-bit channels.
pub type RgbaImage = ImageBuffer<Rgba<u8>>;

/// Grayscale image buffer with 8-bit channels.
pub type GrayImage = ImageBuffer<Gray<u8>>;

/// Grayscale image buffer with an alpha channel and 8-bit channels.
pub type GrayAlphaImage = ImageBuffer<GrayA<u8>>;

} // verus!
