//! A sparse registry of coloured cells on a uniform grid, with the queue of
//! drawables that one frame commits.
//!
//! All geometry is in whole screen units. The library decides what is drawn
//! and where; handing the result to a rendering surface is left to the host.

pub mod pixel_handler;
pub mod structs;
