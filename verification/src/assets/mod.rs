//! Asset decoding: the game's data archives (GAMEMAPS, VGAGRAPH, VSWAP,
//! AUDIOT) are read as byte slices and decoded here.

pub mod bytes;
pub mod colors;
pub mod graphics;
pub mod loader;
pub mod maps;
pub mod sounds;
pub mod text;
