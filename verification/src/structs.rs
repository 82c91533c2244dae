//! The value types the registry is built from.

pub mod drawable_object;
pub mod grid_position;
pub mod pixel;
pub mod shape;
