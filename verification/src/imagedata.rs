//! Pixel data handed to the viewport renderer: a size, the raw bytes and
//! the layout of one pixel.
use vstd::prelude::*;

verus! {

/// The byte layout of one pixel of an image for the renderer.
#[derive(Clone, Copy, Debug, PartialEq, Eq, Structural)]
pub enum PixelFormat {
    /// Blue, green, red, alpha; one byte each.
    Bgra8Unorm,
    /// Red, green, blue, alpha; one byte each.
    Rgba8Unorm,
}

/// An image as the renderer takes it.
#[derive(Debug)]
pub struct ImageData {
    pub width: u32,
    pub height: u32,
    pub bytes: Vec<u8>,
    pub format: PixelFormat,
}

impl ImageData {
    /// Holds the given size, bytes and pixel format as they are.
    pub fn new(width: u32, height: u32, bytes: Vec<u8>, format: PixelFormat) -> (r: Self)
        ensures
            r.width == width,
            r.height == height,
            r.bytes@ == bytes@,
            r.format == format,
    {
        ImageData { width, height, bytes, format }
    }
}

} // verus!
