//! Fixed-point arithmetic and trigonometry tables.

pub mod fixed;
pub mod tables;

pub use fixed::Fixed;
