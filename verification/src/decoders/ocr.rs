//! The image decoder, as far as it is independent of the reader of images
//! and of the recognition engine: the measures that the engine is given
//! with the pixels, and what becomes of the text that it returns.

use vstd::prelude::*;
use vstd::string::StringExecFns;
use crate::text::{trim, trimmed};

verus! {

/// How many bytes a pixel takes: red, green, blue and alpha.
pub const BYTES_PER_PIXEL: i32 = 4;

/// An image as rows of pixels of four bytes each.
#[derive(Debug)]
pub struct Raster {
    pub width: u32,
    pub height: u32,
    pub pixels: Vec<u8>,
}

/// The measures of a raster as the recognition engine takes them.
#[derive(Debug, Clone, Copy, PartialEq, Eq, Structural)]
pub struct Frame {
    pub width: i32,
    pub height: i32,
    pub bytes_per_pixel: i32,
    pub bytes_per_line: i32,
}

/// The measures fit the engine's signed words, and the raster holds
/// every pixel that they speak of.
pub open spec fn is_framed(width: u32, height: u32, pixels: nat) -> bool {
    4 * width <= i32::MAX && height <= i32::MAX && 4 * width * height <= pixels
}

/// The measures of a raster as the recognition engine takes them, where
/// they fit its signed words and the raster holds every pixel.
pub fn frame_of(raster: &Raster) -> (frame: Option<Frame>)
    ensures
        match frame {
            Some(frame) => is_framed(raster.width, raster.height, raster.pixels@.len())
                && frame.width == raster.width && frame.height == raster.height
                && frame.bytes_per_pixel == BYTES_PER_PIXEL && frame.bytes_per_line == 4
                * raster.width,
            None => !is_framed(raster.width, raster.height, raster.pixels@.len()),
        },
{
    if raster.width > 0x1fff_ffff || raster.height > 0x7fff_ffff {
        return None;
    }
    let line: u64 = 4 * (raster.width as u64);
    let height: u64 = raster.height as u64;
    assert(line * height <= 0x7fff_ffff * 0x7fff_ffff) by (nonlinear_arith)
        requires
            line <= 0x7fff_ffff,
            height <= 0x7fff_ffff,
    ;
    let needed: u64 = line * height;
    assert(needed == 4 * raster.width * raster.height) by (nonlinear_arith)
        requires
            needed == line * height,
            line == 4 * raster.width,
            height == raster.height,
    ;
    if (raster.pixels.len() as u64) < needed {
        return None;
    }
    Some(
        Frame {
            width: raster.width as i32,
            height: raster.height as i32,
            bytes_per_pixel: BYTES_PER_PIXEL,
            bytes_per_line: line as i32,
        },
    )
}

/// The text of an image, from what the engine recognised: trimmed.
pub fn finish_recognition(recognised: &str) -> (text: String)
    ensures
        text@ == trimmed(recognised@),
{
    String::from_str(trim(recognised))
}

} // verus!
