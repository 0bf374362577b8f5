//! Trigonometry tables indexed by fine angle.
//!
//! The tables use FINEANGLES = 3600 subdivisions of a full turn.  Their
//! entries are computed in floating point when the engine starts (outside
//! this library); here they are looked up.
use vstd::prelude::*;
use crate::math::fixed::Fixed;

verus! {

pub const FINEANGLES: usize = 3600;
pub const ANG90: usize = FINEANGLES / 4;
pub const ANG180: usize = FINEANGLES / 2;
pub const ANG270: usize = FINEANGLES * 3 / 4;
pub const ANG360: usize = FINEANGLES;

/// One tile in 16.16 units.
pub const TILEGLOBAL: i32 = 65536;
pub const TILESHIFT: i32 = 16;

/// All trig tables, indexed by fine angle (0..FINEANGLES).
pub struct TrigTables {
    pub sin: Vec<Fixed>,
    pub cos: Vec<Fixed>,
    pub tan: Vec<Fixed>,
    /// Tangent table used by wall calculations in the raycaster.
    pub finetangent: Vec<Fixed>,
}

impl TrigTables {
    /// The sine table entry for `angle`, taken modulo a full turn.
    pub fn sin(&self, angle: usize) -> (r: Fixed)
        requires
            angle % FINEANGLES < self.sin@.len(),
        ensures
            r == self.sin@[(angle % FINEANGLES) as int],
    {
        self.sin[angle % FINEANGLES]
    }

    /// The cosine table entry for `angle`, taken modulo a full turn.
    pub fn cos(&self, angle: usize) -> (r: Fixed)
        requires
            angle % FINEANGLES < self.cos@.len(),
        ensures
            r == self.cos@[(angle % FINEANGLES) as int],
    {
        self.cos[angle % FINEANGLES]
    }

    /// The tangent table entry for `angle`, taken modulo a full turn.
    pub fn tan(&self, angle: usize) -> (r: Fixed)
        requires
            angle % FINEANGLES < self.tan@.len(),
        ensures
            r == self.tan@[(angle % FINEANGLES) as int],
    {
        self.tan[angle % FINEANGLES]
    }
}

/// Each lookup repeats after a full turn: angle `a` and `a + FINEANGLES`
/// read the same entry of every table.
pub proof fn law_lookup_period(t: &TrigTables, a: usize)
    requires
        a + 3600 <= usize::MAX,
    ensures
        t.sin@[(a + 3600) % 3600] == t.sin@[(a % 3600) as int],
        t.cos@[(a + 3600) % 3600] == t.cos@[(a % 3600) as int],
        t.tan@[(a + 3600) % 3600] == t.tan@[(a % 3600) as int],
{
    assert((a + 3600) % 3600 == a % 3600);
}

} // verus!
