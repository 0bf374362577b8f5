//! Sound assets: decoded sound effects and music tracks, by id.
use vstd::prelude::*;

verus! {

/// A single decoded sound effect (PCM 8-bit unsigned).
pub struct SoundEffect {
    pub id: usize,
    pub samples: Vec<u8>,
    pub sample_rate: u32,
}

/// An AdLib music track (raw OPL2 register write sequence).
pub struct MusicTrack {
    pub id: usize,
    pub data: Vec<u8>,
}

pub struct SoundCache {
    pub sfx: Vec<Option<SoundEffect>>,
    pub music: Vec<Option<MusicTrack>>,
}

impl SoundCache {
    /// The sound cache for the data at `base`.  No sound chunk is decoded
    /// yet, so the cache starts empty.
    pub fn load(base: &str) -> (r: SoundCache)
        ensures
            r.sfx@.len() == 0,
            r.music@.len() == 0,
    {
        SoundCache { sfx: Vec::new(), music: Vec::new() }
    }

    /// The sound effect with the given id, if loaded.
    pub fn sfx(&self, id: usize) -> (r: Option<&SoundEffect>)
        ensures
            r is Some <==> id < self.sfx@.len() && self.sfx@[id as int] is Some,
            r matches Some(e) ==> self.sfx@[id as int] == Some(*e),
    {
        if id < self.sfx.len() {
            match &self.sfx[id] {
                Some(e) => Some(e),
                None => None,
            }
        } else {
            None
        }
    }

    /// The music track with the given id, if loaded.
    pub fn music(&self, id: usize) -> (r: Option<&MusicTrack>)
        ensures
            r is Some <==> id < self.music@.len() && self.music@[id as int] is Some,
            r matches Some(t) ==> self.music@[id as int] == Some(*t),
    {
        if id < self.music.len() {
            match &self.music[id] {
                Some(t) => Some(t),
                None => None,
            }
        } else {
            None
        }
    }
}

} // verus!
