//! A Wolfenstein 3D engine: asset decoding (maps, graphics, sounds), the
//! fixed-point raycaster, and the game rules that drive actors, doors and the
//! player.

pub mod assets;
pub mod audio;
pub mod engine;
pub mod game;
pub mod input;
pub mod tools;
pub mod ui;
pub mod math;

use vstd::prelude::*;

verus! {

/// Width of the game screen in pixels.
pub const SCREEN_WIDTH: usize = 320;

/// Height of the game screen in pixels.
pub const SCREEN_HEIGHT: usize = 200;

} // verus!
