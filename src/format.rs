use vstd::prelude::*;

verus! {

/// Channel layout of the pixels of a decoded image.
#[derive(Clone, Copy, Debug, PartialEq, Eq, Structural)]
pub enum PixelFormat {
    /// Luminance, one byte per pixel.
    L8,
    /// Luminance, two bytes per pixel.
    L16,
    /// Red, green and blue, one byte each.
    RGB24,
    /// Cyan, magenta, yellow and black, one byte each.
    CMYK32,
}

/// Number of bytes that one pixel of format `f` occupies.
pub open spec fn bytes_per_pixel(f: PixelFormat) -> nat {
    match f {
        PixelFormat::L8 => 1,
        PixelFormat::L16 => 2,
        PixelFormat::RGB24 => 3,
        PixelFormat::CMYK32 => 4,
    }
}

impl PixelFormat {
    /// Size in bytes of each pixel in this format.
    pub fn pixel_bytes(&self) -> (r: usize)
        ensures
            r == bytes_per_pixel(*self),
            1 <= r <= 4,
    {
        match self {
            PixelFormat::L8 => 1,
            PixelFormat::L16 => 2,
            PixelFormat::RGB24 => 3,
            PixelFormat::CMYK32 => 4,
        }
    }
}

/// Dimensions and layout of a decoded image.
#[derive(Clone, Copy, Debug, PartialEq, Eq, Structural)]
pub struct ImageInfo {
    /// Width in pixels.
    pub width: u16,
    /// Height in pixels.
    pub height: u16,
    /// Layout of each pixel.
    pub pixel_format: PixelFormat,
}

} // verus!
