//! Intermission / level complete screen: time, kill, secret and treasure
//! ratios for the level.
use vstd::prelude::*;
use crate::engine::video::{fill_pixels, filled};

verus! {

pub struct LevelStats {
    pub time_secs: u32,
    pub kills: u32,
    pub total_kills: u32,
    pub secrets: u32,
    pub total_secrets: u32,
    pub treasure: u32,
    pub total_treasure: u32,
    pub par_time_secs: u32,
}

pub struct Intermission {
    pub stats: LevelStats,
    /// Ticks since the screen started showing (drives the counting
    /// animation).
    pub ticks: u32,
}

impl Intermission {
    pub fn new(stats: LevelStats) -> (r: Intermission)
        ensures
            r.stats == stats,
            r.ticks == 0,
    {
        Intermission { stats, ticks: 0 }
    }

    /// Counts one tick.
    pub fn tick(&mut self)
        requires
            old(self).ticks < u32::MAX,
        ensures
            final(self).ticks == old(self).ticks + 1,
            final(self).stats == old(self).stats,
    {
        self.ticks = self.ticks + 1;
    }

    /// Clears the framebuffer to opaque black.
    pub fn draw(&self, fb: &mut [u8], width: usize, height: usize)
        ensures
            final(fb)@ == filled(old(fb)@, [0u8, 0u8, 0u8, 0xFFu8]),
    {
        fill_pixels(fb, [0x00, 0x00, 0x00, 0xFF]);
    }
}

} // verus!
