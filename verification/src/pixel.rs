use vstd::prelude::*;

verus! {

/// One RGBA8 color value.
#[derive(Debug, Clone, Copy, PartialEq, Eq, Structural)]
pub struct Pixel {
    pub r: u8,
    pub g: u8,
    pub b: u8,
    pub a: u8,
}

impl Pixel {
    /// Fully transparent black.
    pub fn transparent() -> (pixel: Pixel)
        ensures
            pixel == (Pixel { r: 0, g: 0, b: 0, a: 0 }),
    {
        Pixel { r: 0, g: 0, b: 0, a: 0 }
    }

    /// Opaque black.
    pub fn black() -> (pixel: Pixel)
        ensures
            pixel == (Pixel { r: 0, g: 0, b: 0, a: 255 }),
    {
        Pixel { r: 0, g: 0, b: 0, a: 255 }
    }

    /// Opaque white.
    pub fn white() -> (pixel: Pixel)
        ensures
            pixel == (Pixel { r: 255, g: 255, b: 255, a: 255 }),
    {
        Pixel { r: 255, g: 255, b: 255, a: 255 }
    }

    /// Opaque red.
    pub fn red() -> (pixel: Pixel)
        ensures
            pixel == (Pixel { r: 255, g: 0, b: 0, a: 255 }),
    {
        Pixel { r: 255, g: 0, b: 0, a: 255 }
    }

    /// Opaque green.
    pub fn green() -> (pixel: Pixel)
        ensures
            pixel == (Pixel { r: 0, g: 255, b: 0, a: 255 }),
    {
        Pixel { r: 0, g: 255, b: 0, a: 255 }
    }

    /// Opaque blue.
    pub fn blue() -> (pixel: Pixel)
        ensures
            pixel == (Pixel { r: 0, g: 0, b: 255, a: 255 }),
    {
        Pixel { r: 0, g: 0, b: 255, a: 255 }
    }

    pub fn rgba(r: u8, g: u8, b: u8, a: u8) -> (pixel: Pixel)
        ensures
            pixel == (Pixel { r, g, b, a }),
    {
        Pixel { r, g, b, a }
    }

    pub fn rgb(r: u8, g: u8, b: u8) -> (pixel: Pixel)
        ensures
            pixel == (Pixel { r, g, b, a: 255 }),
    {
        Pixel { r, g, b, a: 255 }
    }

    pub fn to_rgba8(self) -> (bytes: [u8; 4])
        ensures
            bytes@ == seq![self.r, self.g, self.b, self.a],
    {
        [self.r, self.g, self.b, self.a]
    }
}

/// A rectangle in signed screen coordinates with an unsigned extent.
#[derive(Debug, Clone, Copy, PartialEq, Eq, Structural)]
pub struct Rect {
    pub x: i32,
    pub y: i32,
    pub width: u32,
    pub height: u32,
}

/// A two-dimensional unsigned extent.
#[derive(Debug, Clone, Copy, PartialEq, Eq, Structural)]
pub struct Size {
    pub width: u32,
    pub height: u32,
}

} // verus!
