//! Menus, the status bar and the intermission screen.

pub mod hud;
pub mod intermission;
pub mod menu;
