//! A block of raw RGBA bytes together with its dimensions: the input and
//! output shape of the scaler, plus the conversions between a flat byte
//! buffer and packed `u32` pixels.

use vstd::prelude::*;

use crate::pixel::{color_u8_to_u32, red_u8, green_u8, blue_u8, alpha_u8};
use crate::pixel::{spec_pack, spec_red, spec_green, spec_blue, spec_alpha};

verus! {

/// Raw image data: `bytes` holds `width * height` pixels, four bytes each,
/// in RGBA order, row-major.
pub struct Block {
    pub bytes: Vec<u8>,
    pub width: u32,
    pub height: u32,
}

impl Block {
    /// Wraps an RGBA byte buffer and its dimensions.
    pub fn new(bytes: Vec<u8>, width: u32, height: u32) -> (block: Block)
        ensures
            block.bytes == bytes,
            block.width == width,
            block.height == height,
    {
        Block { bytes, width, height }
    }

    /// Builds a block from packed pixels, flattening each into four bytes.
    pub fn from_rgba(colors: Vec<u32>, width: u32, height: u32) -> (block: Block)
        ensures
            block.width == width,
            block.height == height,
            block.bytes@.len() == 4 * colors@.len(),
            forall|i: int|
                0 <= i < colors@.len() ==> {
                    &&& block.bytes@[4 * i] == spec_red(#[trigger] colors@[i])
                    &&& block.bytes@[4 * i + 1] == spec_green(colors@[i])
                    &&& block.bytes@[4 * i + 2] == spec_blue(colors@[i])
                    &&& block.bytes@[4 * i + 3] == spec_alpha(colors@[i])
                },
    {
        let bytes: Vec<u8> = Block::flatten_rgba(colors);
        Block { bytes, width, height }
    }

    /// Reads the bytes back as packed pixels, four bytes per pixel.
    pub fn into_rgba(&self) -> (colors: Vec<u32>)
        requires
            self.bytes@.len() % 4 == 0,
        ensures
            colors@.len() == self.bytes@.len() / 4,
            forall|i: int|
                0 <= i < colors@.len() ==> #[trigger] colors@[i] == spec_pack(
                    self.bytes@[4 * i],
                    self.bytes@[4 * i + 1],
                    self.bytes@[4 * i + 2],
                    self.bytes@[4 * i + 3],
                ),
    {
        let len: usize = self.bytes.len();
        let n: usize = len / 4;
        proof {
            vstd::arithmetic::div_mod::lemma_fundamental_div_mod(len as int, 4);
        }
        let mut colors: Vec<u32> = Vec::new();
        let mut k: usize = 0;
        while k < n
            invariant
                len == self.bytes@.len(),
                n == self.bytes@.len() / 4,
                4 * n == len,
                k <= n,
                colors@.len() == k,
                forall|i: int|
                    0 <= i < k ==> #[trigger] colors@[i] == spec_pack(
                        self.bytes@[4 * i],
                        self.bytes@[4 * i + 1],
                        self.bytes@[4 * i + 2],
                        self.bytes@[4 * i + 3],
                    ),
            decreases n - k,
        {
            let r: u8 = self.bytes[4 * k];
            let g: u8 = self.bytes[4 * k + 1];
            let b: u8 = self.bytes[4 * k + 2];
            let a: u8 = self.bytes[4 * k + 3];
            colors.push(color_u8_to_u32(r, g, b, a));
            k = k + 1;
        }
        colors
    }

    /// Flattens packed pixels into a continuous byte buffer, each pixel
    /// contributing its red, green, blue and alpha byte in that order.
    pub fn flatten_rgba(colors: Vec<u32>) -> (bytes: Vec<u8>)
        ensures
            bytes@.len() == 4 * colors@.len(),
            forall|i: int|
                0 <= i < colors@.len() ==> {
                    &&& bytes@[4 * i] == spec_red(#[trigger] colors@[i])
                    &&& bytes@[4 * i + 1] == spec_green(colors@[i])
                    &&& bytes@[4 * i + 2] == spec_blue(colors@[i])
                    &&& bytes@[4 * i + 3] == spec_alpha(colors@[i])
                },
    {
        let mut result: Vec<u8> = Vec::new();
        let mut k: usize = 0;
        while k < colors.len()
            invariant
                k <= colors@.len(),
                result@.len() == 4 * k,
                forall|i: int|
                    0 <= i < k ==> {
                        &&& result@[4 * i] == spec_red(#[trigger] colors@[i])
                        &&& result@[4 * i + 1] == spec_green(colors@[i])
                        &&& result@[4 * i + 2] == spec_blue(colors@[i])
                        &&& result@[4 * i + 3] == spec_alpha(colors@[i])
                    },
            decreases colors@.len() - k,
        {
            let color: u32 = colors[k];
            result.push(red_u8(color));
            result.push(green_u8(color));
            result.push(blue_u8(color));
            result.push(alpha_u8(color));
            k = k + 1;
        }
        result
    }
}

} // verus!
