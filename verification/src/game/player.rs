//! The player: movement with tile collision, and status.
use vstd::prelude::*;
use crate::assets::maps::{Level, solid_at};
use crate::game::map::GameMap;
use crate::input::handler::InputHandler;
use crate::math::fixed::{Fixed, fits_i32, fixed_mul_spec};
use crate::math::tables::FINEANGLES;
use crate::game::ai::in_world;

verus! {

/// Tiles per second (approx).
pub const MOVE_SPEED: i32 = 6;

/// Fine angles turned per frame.
pub const TURN_SPEED: usize = 40;

/// Distance moved per frame: 0.1 tile in 16.16 units.
pub const STEP: i32 = 6553;

#[derive(Debug, Clone, Copy, PartialEq, Eq, Structural)]
pub enum Weapon {
    Knife,
    Pistol,
    MachineGun,
    ChainGun,
}

pub struct Player {
    /// Position in tile space (fixed-point, 1 unit = 1 tile).
    pub x: Fixed,
    pub y: Fixed,
    /// View angle in fine-angle units (0..FINEANGLES).
    pub angle: usize,
    pub health: i32,
    pub ammo: i32,
    pub score: u32,
    pub lives: i32,
    pub weapon: Weapon,
    /// For the status bar face sprite.
    pub face_dir: usize,
}

/// Cosine and sine of each fine angle, as used for player movement.  The
/// entries are computed in floating point when the engine starts.
pub struct Heading {
    pub cos: Vec<Fixed>,
    pub sin: Vec<Fixed>,
}

impl Heading {
    /// One entry per fine angle in each table.
    pub open spec fn wf(&self) -> bool {
        self.cos@.len() == FINEANGLES && self.sin@.len() == FINEANGLES
    }
}

/// A new player at tile (1, 1), facing angle 0, with full health.
pub open spec fn player_new_spec() -> Player {
    Player {
        x: Fixed(65536),
        y: Fixed(65536),
        angle: 0,
        health: 100,
        ammo: 8,
        score: 0,
        lives: 3,
        weapon: Weapon::Pistol,
        face_dir: 0,
    }
}

/// The center of tile coordinate `t` (`from_int(t) + 0.5`).
pub open spec fn tile_center(t: usize) -> Fixed {
    Fixed((((t as i32) as int * 65536) as i32 + 32768) as i32)
}

/// A player spawned at the center of tile (x, y), facing `angle`.
pub open spec fn player_spawn_spec(x: usize, y: usize, angle: usize) -> Player {
    Player { x: tile_center(x), y: tile_center(y), angle, ..player_new_spec() }
}

/// The tile holding a fixed-point position can be entered: it lies on the
/// map and is not solid architecture.
pub open spec fn enterable(level: Level, nx: i32, ny: i32) -> bool {
    let tx = nx as int / 65536;
    let ty = ny as int / 65536;
    0 <= tx < 64 && 0 <= ty < 64 && !solid_at(level, tx, ty)
}

/// The player after trying to move to (nx, ny) with axis-separated
/// collision: first along x, if the tile at the new x and the old y can be
/// entered; then along y, if the tile at the resulting x and the new y can
/// be entered.  A move into a blocked tile still slides along a free axis.
pub open spec fn moved(q: Player, nx: i32, ny: i32, level: Level) -> Player {
    let x1 = if enterable(level, nx, q.y.0) { nx } else { q.x.0 };
    let y1 = if enterable(level, x1, ny) { ny } else { q.y.0 };
    Player { x: Fixed(x1), y: Fixed(y1), ..q }
}

/// One movement attempt by (dx, dy), taken when `go` holds: it fails
/// (`None`) when the target leaves the `i32` range, and otherwise moves the
/// player as far as the tiles allow (see `moved`).
pub open spec fn step_spec(p: Option<Player>, go: bool, dx: int, dy: int, level: Level) -> Option<
    Player,
> {
    match p {
        None => None,
        Some(q) => if !go {
            Some(q)
        } else if fits_i32(q.x.0 + dx) && fits_i32(q.y.0 + dy) {
            Some(moved(q, (q.x.0 + dx) as i32, (q.y.0 + dy) as i32, level))
        } else {
            None
        },
    }
}

/// The view angle after the turn keys are applied.
pub open spec fn turned_angle(angle: usize, input: InputHandler) -> int {
    let a1 = if input.turn_left { (angle + FINEANGLES - TURN_SPEED) % (FINEANGLES as int) } else { angle as int };
    if input.turn_right { (a1 + TURN_SPEED) % (FINEANGLES as int) } else { a1 }
}

/// The player after one frame of input: turn, then try the forward, back,
/// strafe-left and strafe-right moves in that order, each by `STEP` along
/// the new heading.
pub open spec fn update_spec(p: Player, input: InputHandler, level: Level, h: Heading) -> Option<
    Player,
> {
    let a = turned_angle(p.angle, input);
    let p1 = Player { angle: a as usize, ..p };
    let c = fixed_mul_spec(h.cos@[a].0, STEP) as int;
    let s = fixed_mul_spec(h.sin@[a].0, STEP) as int;
    let q1 = step_spec(Some(p1), input.forward, c, s, level);
    let q2 = step_spec(q1, input.back, -c, -s, level);
    let q3 = step_spec(q2, input.strafe_left, s, -c, level);
    step_spec(q3, input.strafe_right, -s, c, level)
}

impl Player {
    pub fn new() -> (r: Player)
        ensures
            r == player_new_spec(),
    {
        Player {
            x: Fixed(65536),
            y: Fixed(65536),
            angle: 0,
            health: 100,
            ammo: 8,
            score: 0,
            lives: 3,
            weapon: Weapon::Pistol,
            face_dir: 0,
        }
    }

    /// Spawns the player at the center of the given tile, facing `angle`.
    pub fn spawn(x: usize, y: usize, angle: usize) -> (r: Player)
        ensures
            r == player_spawn_spec(x, y, angle),
    {
        let fx = Fixed::from_int(x as i32);
        let fy = Fixed::from_int(y as i32);
        assert(fx.0 <= 0x7fff_0000) by {
            let xi = x as i32;
            assert((xi << 16u32) <= 0x7fff_0000i32) by (bit_vector);
            crate::math::fixed::lemma_shl16_i32(xi);
        }
        assert(fy.0 <= 0x7fff_0000) by {
            let yi = y as i32;
            assert((yi << 16u32) <= 0x7fff_0000i32) by (bit_vector);
            crate::math::fixed::lemma_shl16_i32(yi);
        }
        let mut p = Player::new();
        p.x = fx + Fixed(32768);
        p.y = fy + Fixed(32768);
        p.angle = angle;
        p
    }

    /// Applies one frame of input (see `update_spec`).
    #[verifier::rlimit(40)]
    pub fn update(&mut self, input: &InputHandler, map: &GameMap, heading: &Heading)
        requires
            old(self).angle < FINEANGLES,
            heading.wf(),
            map.level.wf(),
            update_spec(*old(self), *input, map.level, *heading) is Some,
        ensures
            Some(*final(self)) == update_spec(*old(self), *input, map.level, *heading),
    {
        if input.turn_left() {
            self.angle = (self.angle + FINEANGLES - TURN_SPEED) % FINEANGLES;
        }
        if input.turn_right() {
            self.angle = (self.angle + TURN_SPEED) % FINEANGLES;
        }
        let cos = heading.cos[self.angle];
        let sin = heading.sin[self.angle];
        let speed = Fixed(STEP);
        let ghost p1 = *self;
        let c = cos * speed;
        let s = sin * speed;
        let ghost q1 = step_spec(Some(p1), input.forward, c.0 as int, s.0 as int, map.level);
        let ghost q2 = step_spec(q1, input.back, -c.0, -s.0, map.level);
        let ghost q3 = step_spec(q2, input.strafe_left, s.0 as int, -c.0, map.level);
        if input.move_forward() {
            let new_x = self.x + c;
            let new_y = self.y + s;
            self.try_move(new_x, new_y, map);
        }
        assert(q1 == Some(*self));
        if input.move_back() {
            let new_x = self.x - c;
            let new_y = self.y - s;
            self.try_move(new_x, new_y, map);
        }
        assert(q2 == Some(*self));
        if input.strafe_left() {
            let new_x = self.x + s;
            let new_y = self.y - c;
            self.try_move(new_x, new_y, map);
        }
        assert(q3 == Some(*self));
        if input.strafe_right() {
            let new_x = self.x - s;
            let new_y = self.y + c;
            self.try_move(new_x, new_y, map);
        }
    }

    /// Moves toward (new_x, new_y) with axis-separated collision (see
    /// `moved`).
    fn try_move(&mut self, new_x: Fixed, new_y: Fixed, map: &GameMap)
        requires
            map.level.wf(),
        ensures
            *final(self) == moved(*old(self), new_x.0, new_y.0, map.level),
    {
        let tx = new_x.to_int();
        let ty0 = self.y.to_int();
        if tx >= 0 && tx < 64 && ty0 >= 0 && ty0 < 64 {
            if !map.level.is_solid_wall(tx as usize, ty0 as usize) {
                self.x = new_x;
            }
        }
        let tx1 = self.x.to_int();
        let ty = new_y.to_int();
        if tx1 >= 0 && tx1 < 64 && ty >= 0 && ty < 64 {
            if !map.level.is_solid_wall(tx1 as usize, ty as usize) {
                self.y = new_y;
            }
        }
    }

    pub fn is_alive(&self) -> (r: bool)
        ensures
            r == (self.health > 0),
    {
        self.health > 0
    }
}

impl Default for Player {
    fn default() -> (r: Player)
        ensures
            r == player_new_spec(),
    {
        Player::new()
    }
}


proof fn lemma_step_in_world(q: Player, go: bool, dx: int, dy: int, level: Level)
    requires
        in_world(q.x),
        in_world(q.y),
        -0x1000_0000 <= dx <= 0x1000_0000,
        -0x1000_0000 <= dy <= 0x1000_0000,
    ensures
        step_spec(Some(q), go, dx, dy, level) is Some,
        in_world(step_spec(Some(q), go, dx, dy, level)->0.x),
        in_world(step_spec(Some(q), go, dx, dy, level)->0.y),
        step_spec(Some(q), go, dx, dy, level)->0.angle == q.angle,
{
    if go {
        let nx = (q.x.0 + dx) as i32;
        let ny = (q.y.0 + dy) as i32;
        if enterable(level, nx, q.y.0) {
            assert(0 <= nx as int / 65536 < 64);
            assert(0 <= nx < 64 * 65536);
        }
        let x1 = if enterable(level, nx, q.y.0) { nx } else { q.x.0 };
        if enterable(level, x1, ny) {
            assert(0 <= ny as int / 65536 < 64);
            assert(0 <= ny < 64 * 65536);
        }
    }
}

proof fn lemma_move_bound(e: i32)
    ensures
        -0x1000_0000 <= fixed_mul_spec(e, STEP) <= 0x1000_0000,
{
    let p = e as int * STEP as int;
    assert(-0x8000_0000 * 6553 <= p <= 0x7fff_ffff * 6553) by (nonlinear_arith)
        requires
            p == e as int * 6553,
            -0x8000_0000 <= e <= 0x7fff_ffff,
    ;
}

/// A frame's turn: left turns back and right turns forward by `TURN_SPEED`
/// fine angles, wrapping at a full turn, so holding both cancels; the
/// angle stays below a full turn.  The moves keep the turned angle, and
/// without a move key the player stays where it was.
pub proof fn law_turn_and_stand(p: Player, input: InputHandler, level: Level, h: Heading)
    requires
        p.angle < FINEANGLES,
    ensures
        turned_angle(p.angle, input) == (p.angle + FINEANGLES - (if input.turn_left { TURN_SPEED } else { 0 }) + (
        if input.turn_right { TURN_SPEED } else { 0 })) % (FINEANGLES as int),
        0 <= turned_angle(p.angle, input) < FINEANGLES,
        update_spec(p, input, level, h) matches Some(q) ==> q.angle == turned_angle(p.angle, input),
        !input.forward && !input.back && !input.strafe_left && !input.strafe_right ==> update_spec(p, input, level, h)
            == Some(Player { angle: turned_angle(p.angle, input) as usize, ..p }),
{
    let a = p.angle as int;
    if input.turn_left && input.turn_right {
        let a1 = (a + 3600 - 40) % 3600;
        assert((a1 + 40) % 3600 == (a + 3600) % 3600) by {
            if a >= 40 {
                assert(a1 == a - 40);
            } else {
                assert(a1 == a + 3560);
            }
        }
    }
}

/// A step of at most unit heading is at most `STEP` long on each axis.
proof fn lemma_unit_step(v: i32)
    requires
        -65536 <= v <= 65536,
    ensures
        -STEP <= fixed_mul_spec(v, STEP) <= STEP,
{
    assert(-65536 * 6553 <= v as int * 6553 <= 65536 * 6553) by (nonlinear_arith)
        requires
            -65536 <= v <= 65536,
    ;
}

/// Backing up undoes a step forward.  On a level without solid tiles, with
/// the player at least a tile from the edges and a heading of at most unit
/// length, a frame holding only the forward key moves the player by
/// `(c, s) = STEP * (cos a, sin a)`, a frame holding only the back key moves
/// it by `(-c, -s)`, and the two in turn bring it back where it started.
pub proof fn law_back_undoes_forward(p: Player, fwd: InputHandler, back: InputHandler, level: Level, h: Heading)
    requires
        p.angle < FINEANGLES,
        h.wf(),
        forall|x: int, y: int| 0 <= x < 64 && 0 <= y < 64 ==> !#[trigger] solid_at(level, x, y),
        65536 <= p.x.0 <= 63 * 65536,
        65536 <= p.y.0 <= 63 * 65536,
        -65536 <= h.cos@[p.angle as int].0 <= 65536,
        -65536 <= h.sin@[p.angle as int].0 <= 65536,
        fwd.forward && !fwd.back && !fwd.turn_left && !fwd.turn_right && !fwd.strafe_left && !fwd.strafe_right,
        back.back && !back.forward && !back.turn_left && !back.turn_right && !back.strafe_left && !back.strafe_right,
    ensures
        ({
            let c = fixed_mul_spec(h.cos@[p.angle as int].0, STEP);
            let s = fixed_mul_spec(h.sin@[p.angle as int].0, STEP);
            &&& update_spec(p, fwd, level, h) == Some(
                Player { x: Fixed((p.x.0 + c) as i32), y: Fixed((p.y.0 + s) as i32), ..p },
            )
            &&& update_spec(p, back, level, h) == Some(
                Player { x: Fixed((p.x.0 - c) as i32), y: Fixed((p.y.0 - s) as i32), ..p },
            )
            &&& update_spec(update_spec(p, fwd, level, h)->0, back, level, h) == Some(p)
        }),
{
    let a = p.angle as int;
    let c = fixed_mul_spec(h.cos@[a].0, STEP);
    let s = fixed_mul_spec(h.sin@[a].0, STEP);
    lemma_unit_step(h.cos@[a].0);
    lemma_unit_step(h.sin@[a].0);
    assert(turned_angle(p.angle, fwd) == a);
    assert(turned_angle(p.angle, back) == a);
    let p1 = Player { angle: a as usize, ..p };
    assert(p1 == p);
    let nx = (p.x.0 + c) as i32;
    let ny = (p.y.0 + s) as i32;
    assert(0 <= nx as int / 65536 < 64 && 0 <= ny as int / 65536 < 64);
    assert(0 <= p.x.0 as int / 65536 < 64 && 0 <= p.y.0 as int / 65536 < 64);
    assert(!solid_at(level, nx as int / 65536, p.y.0 as int / 65536));
    assert(!solid_at(level, nx as int / 65536, ny as int / 65536));
    let q = Player { x: Fixed(nx), y: Fixed(ny), ..p };
    assert(moved(p, nx, ny, level) == q);
    let bx = (p.x.0 - c) as i32;
    let by = (p.y.0 - s) as i32;
    assert(0 <= bx as int / 65536 < 64 && 0 <= by as int / 65536 < 64);
    assert(!solid_at(level, bx as int / 65536, p.y.0 as int / 65536));
    assert(!solid_at(level, bx as int / 65536, by as int / 65536));
    assert(moved(p, bx, by, level) == Player { x: Fixed(bx), y: Fixed(by), ..p });
    assert(update_spec(p, fwd, level, h) == Some(q));
    // Backing up from q.
    assert(q.angle == p.angle);
    assert((q.x.0 - c) as i32 == p.x.0 && (q.y.0 - s) as i32 == p.y.0);
    assert(!solid_at(level, p.x.0 as int / 65536, ny as int / 65536));
    assert(!solid_at(level, p.x.0 as int / 65536, p.y.0 as int / 65536));
    assert(moved(q, p.x.0, p.y.0, level) == p);
}

/// A frame of input keeps the player on the map: starting within the map,
/// the update succeeds, and every position it moves to is an enterable tile,
/// so the player ends within the map, facing a fine angle below a full turn.
pub proof fn law_update_stays_in_world(p: Player, input: InputHandler, level: Level, h: Heading)
    requires
        in_world(p.x),
        in_world(p.y),
        p.angle < FINEANGLES,
        h.wf(),
    ensures
        update_spec(p, input, level, h) is Some,
        in_world(update_spec(p, input, level, h)->0.x),
        in_world(update_spec(p, input, level, h)->0.y),
        update_spec(p, input, level, h)->0.angle < FINEANGLES,
{
    let a = turned_angle(p.angle, input);
    let p1 = Player { angle: a as usize, ..p };
    lemma_move_bound(h.cos@[a].0);
    lemma_move_bound(h.sin@[a].0);
    let c = fixed_mul_spec(h.cos@[a].0, STEP) as int;
    let s = fixed_mul_spec(h.sin@[a].0, STEP) as int;
    lemma_step_in_world(p1, input.forward, c, s, level);
    let q1 = step_spec(Some(p1), input.forward, c, s, level)->0;
    lemma_step_in_world(q1, input.back, -c, -s, level);
    let q2 = step_spec(Some(q1), input.back, -c, -s, level)->0;
    lemma_step_in_world(q2, input.strafe_left, s, -c, level);
    let q3 = step_spec(Some(q2), input.strafe_left, s, -c, level)->0;
    lemma_step_in_world(q3, input.strafe_right, -s, c, level);
}

} // verus!
