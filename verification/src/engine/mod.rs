//! Rendering: framebuffer helpers, the raycaster and the sprite scaler.

pub mod renderer;
pub mod scaler;
pub mod video;
