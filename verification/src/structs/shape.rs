//! Flat shapes in whole screen units.

use ggez::graphics::Color;
use vstd::prelude::*;

verus! {

/// The outside colour type. A colour is carried through the library and
/// handed back to the host unchanged; nothing here looks inside one.
#[verifier::external_type_specification]
#[verifier::external_body]
pub struct ExColor(ggez::graphics::Color);

/// The colour that `Color::from_rgba_u32` makes of a number written
/// `0xRRGGBBAA`.
pub uninterp spec fn color_of_rgba(rgba: u32) -> Color;

/// `Color::from_rgba_u32` computes the colour from the number alone: the
/// same number always gives the same colour. Nothing more is claimed of it.
pub assume_specification[ Color::from_rgba_u32 ](c: u32) -> (color: Color)
    ensures
        color == color_of_rgba(c),
;

/// An axis-aligned rectangle: top-left corner, width and height.
#[derive(Debug, Copy, Clone, PartialEq, Eq, Structural)]
pub struct Rect {
    pub x: i32,
    pub y: i32,
    pub w: i32,
    pub h: i32,
}

impl Rect {
    /// The point lies inside the rectangle; the right and bottom edges are
    /// outside.
    pub open spec fn contains(self, point: (i32, i32)) -> bool {
        &&& self.x <= point.0 < self.x + self.w
        &&& self.y <= point.1 < self.y + self.h
    }

    /// The rectangle lies within a viewport of the given size whose top-left
    /// corner is the origin.
    pub open spec fn within(self, viewport: (i32, i32)) -> bool {
        &&& 0 <= self.x
        &&& 0 <= self.y
        &&& self.x + self.w <= viewport.0
        &&& self.y + self.h <= viewport.1
    }
}

/// One piece of a mesh.
#[derive(Debug, Copy, Clone, PartialEq)]
pub enum Shape {
    /// A straight stroke between two points.
    Line { from: (i32, i32), to: (i32, i32), width: u32, color: Color },
    /// A filled rectangle.
    Rectangle { bounds: Rect, color: Color },
}

} // verus!
