//! Top-level asset loading: graphics, maps and sounds from the contents of
//! the data files.
use vstd::prelude::*;
use crate::assets::graphics::{archives_ok, cache_of, GraphicsCache};
use crate::assets::maps::{header_spec, levels_decodable, levels_match, MapCache};
use crate::assets::sounds::SoundCache;

verus! {

/// Which part of the data could not be decoded.
#[derive(Debug, Clone, Copy, PartialEq, Eq, Structural)]
pub enum AssetError {
    /// VGAHEAD, VGADICT, VGAGRAPH, VSWAP or GAMEPAL.
    Graphics,
    /// MAPHEAD or GAMEMAPS.
    Maps,
}

/// The contents of the game's data files.
pub struct ArchiveBytes {
    pub vgahead: Vec<u8>,
    pub vgadict: Vec<u8>,
    pub vgagraph: Vec<u8>,
    pub vswap: Vec<u8>,
    pub gamepal: Vec<u8>,
    pub maphead: Vec<u8>,
    pub gamemaps: Vec<u8>,
}

pub struct AssetLoader {
    pub base_path: String,
    pub graphics: GraphicsCache,
    pub maps: MapCache,
    pub sounds: SoundCache,
}

impl AssetLoader {
    /// Decodes graphics, then maps, then sounds from the data files found
    /// under `base_path`.  Fails with the first part that does not decode.
    pub fn load(base_path: String, files: &ArchiveBytes) -> (r: Result<AssetLoader, AssetError>)
        ensures
            !archives_ok(files.vgahead@, files.vgadict@, files.vgagraph@, files.vswap@, files.gamepal@) ==> r
                == Err::<AssetLoader, AssetError>(AssetError::Graphics),
            archives_ok(files.vgahead@, files.vgadict@, files.vgagraph@, files.vswap@, files.gamepal@) && !(
            files.maphead@.len() >= 402 && levels_decodable(files.gamemaps@, header_spec(files.maphead@)))
                ==> r == Err::<AssetLoader, AssetError>(AssetError::Maps),
            r matches Ok(a) ==> {
                &&& a.base_path@ == base_path@
                &&& cache_of(a.graphics, files.vgahead@, files.vgadict@, files.vgagraph@, files.vswap@, files.gamepal@)
                &&& levels_match(files.gamemaps@, header_spec(files.maphead@), a.maps.levels@)
                &&& a.sounds.sfx@.len() == 0
                &&& a.sounds.music@.len() == 0
            },
    {
        let graphics = match GraphicsCache::from_archives(
            files.vgahead.as_slice(),
            files.vgadict.as_slice(),
            files.vgagraph.as_slice(),
            files.vswap.as_slice(),
            files.gamepal.as_slice(),
        ) {
            Some(g) => g,
            None => return Err(AssetError::Graphics),
        };
        let maps = match MapCache::from_archives(files.maphead.as_slice(), files.gamemaps.as_slice()) {
            Some(m) => m,
            None => return Err(AssetError::Maps),
        };
        let sounds = SoundCache::load(base_path.as_str());
        Ok(AssetLoader { base_path, graphics, maps, sounds })
    }
}

} // verus!
