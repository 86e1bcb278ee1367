//! Core of a deterministic wallpaper service for layer-shell compositors:
//! pixel kernels, the image compositor, the frame cache index and the
//! state machines that pace painting against the compositor.

pub mod cli;
pub mod spec;
pub mod text;
pub mod wallpaper;
pub mod protocol;
pub mod daemon;
pub mod logrotate;
pub mod path;
pub mod session;
