use vstd::prelude::*;

verus! {

/// A rectangle to draw.
#[derive(Debug, Clone, Copy)]
pub struct Rect {
    pub location: Location,
    pub size: Size,
    pub flat_color: Color,
    pub texcoords: Option<UV>,
    pub clut: Option<Clut>,
}

/// A vertex of a polygon or a polyline.
#[derive(Debug, Clone, Copy)]
pub struct Vertex {
    pub location: Location,
    pub color: Option<Color>,
    pub texcords: Option<UV>,
}

/// Relative position in draw space (i.e. space in VRAM with offset).
#[derive(Debug, Clone, Copy, PartialEq, Eq, Structural)]
pub struct Location {
    pub x: i16,
    pub y: i16,
}

/// Absolute position in VRAM space.
#[derive(Debug, Clone, Copy, PartialEq, Eq, Structural)]
pub struct Position {
    pub x: u16,
    pub y: u16,
}

/// Size of rectangle.
#[derive(Debug, Clone, Copy, PartialEq, Eq, Structural)]
pub struct Size {
    pub w: u16,
    pub h: u16,
}

/// RGB color (24-bit).
#[derive(Debug, Clone, Copy, PartialEq, Eq, Structural)]
pub struct Color {
    pub r: u8,
    pub g: u8,
    pub b: u8,
}

/// Texture coordinates.
#[derive(Debug, Clone, Copy, PartialEq, Eq, Structural)]
pub struct UV {
    pub u: u8,
    pub v: u8,
}

/// Position of a color lookup table in VRAM.
#[derive(Debug, Clone, Copy, PartialEq, Eq, Structural)]
pub struct Clut {
    /// X coordinate in VRAM, already multiplied by 16.
    pub x: u16,
    pub y: u16,
}

} // verus!
