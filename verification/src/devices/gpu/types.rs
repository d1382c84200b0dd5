use vstd::prelude::*;

verus! {

/// RGB color (24-bit).
#[derive(Debug, Clone, Copy, PartialEq, Eq, Structural)]
pub struct Color {
    pub r: u8,
    pub g: u8,
    pub b: u8,
}

/// Position of a vertex (signed).
#[derive(Debug, Clone, Copy, PartialEq, Eq, Structural)]
pub struct Position {
    pub x: i16,
    pub y: i16,
}

/// Texture coordinates.
#[derive(Debug, Clone, Copy, PartialEq, Eq, Structural)]
pub struct UV {
    pub u: u8,
    pub v: u8,
}

/// Position of a color lookup table in VRAM.
#[derive(Debug, Clone, Copy, PartialEq, Eq, Structural)]
pub struct Clut {
    /// X coordinate in VRAM, already multiplied by 16.
    pub x: u16,
    pub y: u16,
}

/// Size of a rectangle.
#[derive(Debug, Clone, Copy, PartialEq, Eq, Structural)]
pub struct Size {
    pub w: u16,
    pub h: u16,
}

} // verus!
