//! Game rules: actors and their AI, doors, the player, level setup and the
//! per-frame state machine.

pub mod actor;
pub mod ai;
pub mod door;
pub mod map;
pub mod player;
pub mod state;
