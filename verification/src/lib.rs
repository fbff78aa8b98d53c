//! 2x upscaling of RGBA pixel buffers with the xBR edge-directed
//! interpolation algorithm.
//!
//! The pixel model packs the four 8-bit channels of a pixel into one `u32`
//! (red in the top byte, then green, blue, alpha). Edge detection compares
//! pixels through a fixed-point luma/chroma distance; all fractional
//! coefficients are scaled by `1_000_000` so every computation is exact
//! integer arithmetic.

pub mod block;
pub mod error;
pub mod pixel;
pub mod xbr;

pub use crate::block::Block;
pub use crate::error::XBRError;
