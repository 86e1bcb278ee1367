//! The render and animation engine.

pub mod animations;
pub mod apply;
pub mod buffers;
pub mod cache;
pub mod colour;
pub mod image;
pub mod paint;
pub mod render;
pub mod surface;
pub mod util;
pub mod wayland;
