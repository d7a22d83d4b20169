//! Plain render state carried by entities.
//!
//! The kernel only stores these descriptions; drawing them to a surface is
//! the host's concern. Shape lengths are fixed-point scalars, pixel-grid
//! dimensions are plain integers.

use vstd::prelude::*;

verus! {

/// An RGBA color.
#[derive(Clone, Copy, Debug, PartialEq, Eq, Structural)]
pub struct Color {
    pub r: u8,
    pub g: u8,
    pub b: u8,
    pub a: u8,
}

impl Color {
    /// An opaque color from red, green and blue channels.
    pub fn rgb(r: u8, g: u8, b: u8) -> (c: Color)
        ensures
            c == (Color { r, g, b, a: 255u8 }),
    {
        Color { r, g, b, a: 255 }
    }
}

/// The shape an entity is drawn as. `Empty` draws nothing.
#[derive(Clone, Debug)]
pub enum RenderType {
    Line { magnitude: i64 },
    Circle { radius: i32, segments: i32 },
    Polygon { vertices: Vec<(u32, u32)> },
    Point,
    Rectangle { width: i32, height: i32, filled: bool },
    Empty,
}

/// A renderable description: a color and a shape.
#[derive(Clone, Debug)]
pub struct RenderObject {
    pub color: Color,
    pub render_type: RenderType,
}

impl RenderObject {
    /// Builds a render description.
    pub fn new(color: Color, render_type: RenderType) -> (r: RenderObject)
        ensures
            r.color == color,
            r.render_type == render_type,
    {
        RenderObject { color, render_type }
    }
}

} // verus!
