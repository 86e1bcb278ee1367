//! The decisions of the daemon around the engine.

pub mod client;
pub mod engine;
pub mod lock;
pub mod utils;
