//! A small software renderer: packed colours, a bounds-checked pixel buffer,
//! Wu's anti-aliased lines in fixed point, and a per-frame pipeline that
//! rotates, culls and projects a mesh onto the buffer.

pub mod color;
pub mod buffer;
pub mod line;
pub mod geometry;
pub mod scene;
