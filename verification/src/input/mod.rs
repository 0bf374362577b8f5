//! Keyboard input translated into game actions.

pub mod handler;
