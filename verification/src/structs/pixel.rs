//! Coloured cells.

use crate::structs::grid_position::GridPosition;
use crate::structs::shape::Shape;
use ggez::graphics::Color;
use vstd::prelude::*;

verus! {

/// A cell of the grid with its colour. The position may be changed in place
/// to move the cell.
#[derive(Debug, Copy, Clone)]
pub struct Pixel {
    pub position: GridPosition,
    pub color: Color,
}

impl Pixel {
    /// A cell at the given position, in the given colour.
    pub fn new(position: GridPosition, color: Color) -> (pixel: Pixel)
        ensures
            pixel.position == position,
            pixel.color == color,
    {
        Pixel { position, color }
    }

    /// What the cell looks like: its square, filled with its colour.
    pub open spec fn shape(self) -> Shape {
        Shape::Rectangle { bounds: self.position.bounds(), color: self.color }
    }

    /// Adds the cell's filled square to the end of a mesh under construction.
    pub fn append_to_mesh(&mut self, mesh_builder: &mut Vec<Shape>)
        ensures
            *final(self) == *old(self),
            final(mesh_builder)@ == old(mesh_builder)@.push(old(self).shape()),
    {
        mesh_builder.push(Shape::Rectangle { bounds: self.position.as_rect(), color: self.color });
    }
}

} // verus!
