//! Graphics: geometry, colors, pixel buffers and text drawing.

pub mod buffer_drawer;
pub mod color;
pub mod font;
pub mod geometry;
