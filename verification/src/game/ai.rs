//! Enemy AI state machine.
//!
//! Each actor has a `mode` (Stand / Path / Chase / Shoot / Pain / Die).  On
//! each tick, `think` counts the actor's timer down and runs the handler of
//! its mode.
use vstd::prelude::*;
use crate::game::actor::{Actor, ActorMode};
use crate::game::player::Player;
use crate::math::fixed::{Fixed, fits_i32, fixed_mul_spec, fixed_div_spec, trunc_div};

verus! {

/// Sight range squared: 10 tiles, squared, in 16.16 units.
pub const SIGHT_RANGE_SQ: i32 = 6553600;

/// Attack range squared: 1.5 tiles, squared, in 16.16 units.
pub const ATTACK_RANGE_SQ: i32 = 147456;

/// One half in 16.16 units.
pub const HALF: i32 = 32768;

/// Offset from actor to player and its squared length (each square is a
/// fixed-point product); `None` when a step leaves the `i32` range.
pub open spec fn offset_spec(a: Actor, p: Player) -> Option<(i32, i32, i32)> {
    let dx = p.x.0 - a.x.0;
    let dy = p.y.0 - a.y.0;
    if !fits_i32(dx) || !fits_i32(dy) {
        None
    } else {
        let sq = fixed_mul_spec(dx as i32, dx as i32) + fixed_mul_spec(dy as i32, dy as i32);
        if !fits_i32(sq) {
            None
        } else {
            Some((dx as i32, dy as i32, sq as i32))
        }
    }
}

/// The actor sees the player when the squared distance is below
/// `SIGHT_RANGE_SQ` (no occlusion test).
pub open spec fn sees_spec(a: Actor, p: Player) -> Option<bool> {
    match offset_spec(a, p) {
        Some((_dx, _dy, sq)) => Some(sq < SIGHT_RANGE_SQ),
        None => None,
    }
}

/// The absolute value of a non-minimal `i32`.
pub open spec fn abs_spec(v: i32) -> int {
    if v < 0 { -v } else { v as int }
}

/// Octagonal distance approximation: the larger component plus half of the
/// smaller one.  `None` when a component is `i32::MIN` or the sum overflows.
pub open spec fn approx_dist_spec(dx: i32, dy: i32) -> Option<i32> {
    if dx == i32::MIN || dy == i32::MIN {
        None
    } else {
        let ax = abs_spec(dx);
        let ay = abs_spec(dy);
        let s = if ax > ay {
            ax + fixed_mul_spec(ay as i32, HALF)
        } else {
            ay + fixed_mul_spec(ax as i32, HALF)
        };
        if fits_i32(s) { Some(s as i32) } else { None }
    }
}

/// The chase handler: lose sight and fall back to patrolling, or close in
/// and start shooting, or step toward the player by `speed` along the
/// approximate direction.
pub open spec fn chase_spec(a: Actor, p: Player) -> Option<Actor> {
    match offset_spec(a, p) {
        None => None,
        Some((dx, dy, sq)) => if !(sq < SIGHT_RANGE_SQ) {
            Some(Actor { mode: ActorMode::Path, ..a })
        } else if sq < ATTACK_RANGE_SQ {
            Some(Actor { mode: ActorMode::Shoot, tic_count: 15, ..a })
        } else if sq == 0 {
            Some(a)
        } else {
            match approx_dist_spec(dx, dy) {
                None => None,
                Some(len) => if len == 0 {
                    Some(a)
                } else {
                    let nx = a.x.0 + fixed_div_spec(fixed_mul_spec(dx, a.speed.0), len);
                    let ny = a.y.0 + fixed_div_spec(fixed_mul_spec(dy, a.speed.0), len);
                    if fits_i32(nx) && fits_i32(ny) {
                        Some(Actor { x: Fixed(nx as i32), y: Fixed(ny as i32), ..a })
                    } else {
                        None
                    }
                },
            }
        },
    }
}

/// An actor after one `think`: its timer counts down, then its mode's
/// handler runs.  `None` when its 32-bit arithmetic would overflow.
pub open spec fn think_spec(a: Actor, p: Player) -> Option<Actor> {
    if a.tic_count == i32::MIN {
        None
    } else {
        let t = (a.tic_count - 1) as i32;
        let a1 = Actor { tic_count: t, ..a };
        match a.mode {
            ActorMode::Stand => if t > 0 {
                Some(a1)
            } else {
                let a2 = Actor { tic_count: 10, ..a1 };
                match sees_spec(a2, p) {
                    None => None,
                    Some(seen) => if seen {
                        Some(Actor { mode: ActorMode::Chase, ..a2 })
                    } else {
                        Some(a2)
                    },
                }
            },
            ActorMode::Path => match sees_spec(a1, p) {
                None => None,
                Some(seen) => if seen {
                    Some(Actor { mode: ActorMode::Chase, ..a1 })
                } else {
                    Some(a1)
                },
            },
            ActorMode::Chase => chase_spec(a1, p),
            ActorMode::Shoot | ActorMode::Pain => if t > 0 {
                Some(a1)
            } else {
                Some(Actor { mode: ActorMode::Chase, ..a1 })
            },
            ActorMode::Die => if t > 0 {
                Some(a1)
            } else {
                Some(Actor { mode: ActorMode::Dead, ..a1 })
            },
            ActorMode::Dead | ActorMode::Static => Some(a1),
        }
    }
}

/// Master think function, called once per actor per frame.
pub fn think(actor: &mut Actor, player: &Player)
    requires
        think_spec(*old(actor), *player) is Some,
    ensures
        Some(*final(actor)) == think_spec(*old(actor), *player),
{
    actor.tic_count = actor.tic_count - 1;
    match actor.mode {
        ActorMode::Stand => t_stand(actor, player),
        ActorMode::Path => t_path(actor, player),
        ActorMode::Chase => t_chase(actor, player),
        ActorMode::Shoot => t_shoot(actor, player),
        ActorMode::Pain => t_pain(actor),
        ActorMode::Die => t_die(actor),
        ActorMode::Dead | ActorMode::Static => {},
    }
}

/// Standing: every 10 tics, look for the player and give chase on sight.
fn t_stand(actor: &mut Actor, player: &Player)
    requires
        old(actor).tic_count > 0 || sees_spec(Actor { tic_count: 10, ..*old(actor) }, *player) is Some,
    ensures
        *final(actor) == (if old(actor).tic_count > 0 {
            *old(actor)
        } else {
            let a2 = Actor { tic_count: 10, ..*old(actor) };
            if sees_spec(a2, *player)->0 { Actor { mode: ActorMode::Chase, ..a2 } } else { a2 }
        }),
{
    if actor.tic_count > 0 {
        return;
    }
    actor.tic_count = 10;
    if sight_player(actor, player) {
        actor.mode = ActorMode::Chase;
    }
}

/// Patrolling: give chase on sight.
fn t_path(actor: &mut Actor, player: &Player)
    requires
        sees_spec(*old(actor), *player) is Some,
    ensures
        *final(actor) == (if sees_spec(*old(actor), *player)->0 {
            Actor { mode: ActorMode::Chase, ..*old(actor) }
        } else {
            *old(actor)
        }),
{
    if sight_player(actor, player) {
        actor.mode = ActorMode::Chase;
    }
}

/// Chasing (see `chase_spec`).
fn t_chase(actor: &mut Actor, player: &Player)
    requires
        chase_spec(*old(actor), *player) is Some,
    ensures
        Some(*final(actor)) == chase_spec(*old(actor), *player),
{
    if !sight_player(actor, player) {
        actor.mode = ActorMode::Path;
        return;
    }
    let dx = player.x - actor.x;
    let dy = player.y - actor.y;
    let dist_sq = dx * dx + dy * dy;
    if dist_sq.0 < ATTACK_RANGE_SQ {
        actor.mode = ActorMode::Shoot;
        actor.tic_count = 15;
        return;
    }
    if dist_sq.0 != 0 {
        let len = approximate_dist(dx, dy);
        if len.0 != 0 {
            actor.x = actor.x + dx * actor.speed / len;
            actor.y = actor.y + dy * actor.speed / len;
        }
    }
}

/// Attacking: when the timer runs out, go back to chasing.
fn t_shoot(actor: &mut Actor, player: &Player)
    ensures
        *final(actor) == (if old(actor).tic_count > 0 {
            *old(actor)
        } else {
            Actor { mode: ActorMode::Chase, ..*old(actor) }
        }),
{
    if actor.tic_count > 0 {
        return;
    }
    actor.mode = ActorMode::Chase;
}

/// Reacting to a hit: when the timer runs out, chase.
fn t_pain(actor: &mut Actor)
    ensures
        *final(actor) == (if old(actor).tic_count > 0 {
            *old(actor)
        } else {
            Actor { mode: ActorMode::Chase, ..*old(actor) }
        }),
{
    if actor.tic_count > 0 {
        return;
    }
    actor.mode = ActorMode::Chase;
}

/// Dying: when the timer runs out, the actor is dead.
fn t_die(actor: &mut Actor)
    ensures
        *final(actor) == (if old(actor).tic_count > 0 {
            *old(actor)
        } else {
            Actor { mode: ActorMode::Dead, ..*old(actor) }
        }),
{
    if actor.tic_count > 0 {
        return;
    }
    actor.mode = ActorMode::Dead;
}

/// Line-of-sight check by distance alone (see `sees_spec`).
fn sight_player(actor: &Actor, player: &Player) -> (r: bool)
    requires
        sees_spec(*actor, *player) is Some,
    ensures
        r == sees_spec(*actor, *player)->0,
{
    let dx = player.x - actor.x;
    let dy = player.y - actor.y;
    let dist_sq = dx * dx + dy * dy;
    dist_sq.0 < SIGHT_RANGE_SQ
}

/// Octagonal distance approximation (see `approx_dist_spec`).
fn approximate_dist(dx: Fixed, dy: Fixed) -> (r: Fixed)
    requires
        approx_dist_spec(dx.0, dy.0) is Some,
    ensures
        r.0 == approx_dist_spec(dx.0, dy.0)->0,
{
    let ax = dx.abs();
    let ay = dy.abs();
    if ax.0 > ay.0 {
        ax + ay * Fixed(HALF)
    } else {
        ay + ax * Fixed(HALF)
    }
}


/// Extent of the map along each axis: 64 tiles in 16.16 units.
pub const WORLD_EXTENT: i32 = 4194304;

/// A coordinate on the map: from 0 to 64 tiles.
pub open spec fn in_world(v: Fixed) -> bool {
    0 <= v.0 <= WORLD_EXTENT
}

proof fn lemma_square_bound(d: int)
    requires
        -WORLD_EXTENT <= d <= WORLD_EXTENT,
    ensures
        0 <= (d * d) / 65536 <= 0x1000_0000,
        fixed_mul_spec(d as i32, d as i32) == (d * d) / 65536,
{
    assert(0 <= d * d <= 0x1000_0000_0000) by (nonlinear_arith)
        requires
            -0x40_0000 <= d <= 0x40_0000,
    ;
}

proof fn lemma_far_apart(dx: int, dy: int)
    requires
        -WORLD_EXTENT <= dx <= WORLD_EXTENT,
        -WORLD_EXTENT <= dy <= WORLD_EXTENT,
        (dx * dx) / 65536 + (dy * dy) / 65536 >= ATTACK_RANGE_SQ,
    ensures
        dx >= 65536 || dx <= -65536 || dy >= 65536 || dy <= -65536,
{
    if -65536 < dx < 65536 && -65536 < dy < 65536 {
        assert(dx * dx < 0x1_0000_0000) by (nonlinear_arith)
            requires
                -65536 < dx < 65536,
        ;
        assert(dy * dy < 0x1_0000_0000) by (nonlinear_arith)
            requires
                -65536 < dy < 65536,
        ;
    }
}

proof fn lemma_step_between(dx: int, s: int, len: int)
    requires
        -WORLD_EXTENT <= dx <= WORLD_EXTENT,
        0 <= s <= 65536,
        len >= 65536,
        len <= i32::MAX,
    ensures
        ({
            let m = fixed_mul_spec(dx as i32, s as i32);
            let step = fixed_div_spec(m, len as i32);
            &&& dx >= 0 ==> 0 <= step <= dx
            &&& dx < 0 ==> dx <= step <= 0
        }),
{
    let p = dx * s;
    assert(dx >= 0 ==> 0 <= p <= dx * 65536) by (nonlinear_arith)
        requires
            p == dx * s,
            0 <= s <= 65536,
    ;
    assert(dx < 0 ==> dx * 65536 <= p <= 0) by (nonlinear_arith)
        requires
            p == dx * s,
            0 <= s <= 65536,
    ;
    let m = p / 65536;
    assert(dx >= 0 ==> 0 <= m <= dx);
    assert(dx < 0 ==> dx <= m <= 0);
    assert(fixed_mul_spec(dx as i32, s as i32) == m);
    let q = m * 65536;
    if m > 0 {
        assert(q / len <= m) by (nonlinear_arith)
            requires
                q == m * 65536,
                m > 0,
                len >= 65536,
        ;
        assert(trunc_div(q, len) == q / len);
    } else if m < 0 {
        assert((-q) / len <= -m) by (nonlinear_arith)
            requires
                q == m * 65536,
                m < 0,
                len >= 65536,
        ;
        assert(trunc_div(q, len) == -((-q) / len));
    } else {
        assert(trunc_div(q, len) == 0);
    }
}

/// The actor after thinking once about each player position in `ps`, in
/// order; `None` when some step would overflow.
pub open spec fn think_all(a: Actor, ps: Seq<Player>) -> Option<Actor>
    decreases ps.len(),
{
    if ps.len() == 0 {
        Some(a)
    } else {
        match think_all(a, ps.drop_last()) {
            Some(b) => think_spec(b, ps.last()),
            None => None,
        }
    }
}

/// Dying ends in death: a dying actor whose timer runs out this tick is
/// dead afterwards, one whose timer still runs keeps dying, and neither
/// moves; a dead actor stays dead and in place, whatever the player does.
pub proof fn law_death_is_final(a: Actor, p: Player)
    requires
        a.tic_count > i32::MIN,
    ensures
        a.mode == ActorMode::Die && a.tic_count <= 1 ==> (think_spec(a, p) matches Some(b) && b.mode
            == ActorMode::Dead && b.x == a.x && b.y == a.y),
        a.mode == ActorMode::Die && a.tic_count > 1 ==> (think_spec(a, p) matches Some(b) && b.mode
            == ActorMode::Die && b.x == a.x && b.y == a.y),
        a.mode == ActorMode::Dead ==> (think_spec(a, p) matches Some(b) && b.mode == ActorMode::Dead && b.x == a.x
            && b.y == a.y),
{
}

/// Once dead, always dead: over any run of ticks (short enough for the
/// timer not to underflow) a dead actor stays dead where it fell.
pub proof fn law_dead_stays_dead(a: Actor, ps: Seq<Player>)
    requires
        a.mode == ActorMode::Dead,
        a.tic_count > i32::MIN + ps.len(),
    ensures
        think_all(a, ps) matches Some(b) && b.mode == ActorMode::Dead && b.x == a.x && b.y == a.y
            && b.tic_count == a.tic_count - ps.len(),
    decreases ps.len(),
{
    if ps.len() > 0 {
        law_dead_stays_dead(a, ps.drop_last());
    }
}

/// One `think` keeps an actor on the map: if the actor and the player lie
/// within the map, the actor's speed is at most one tile per tick, and its
/// timer can count down, the step succeeds and the actor stays within the
/// map, never moving past the player on either axis.  Its speed and kind are
/// unchanged and its timer drops by at most one (or is reset upward).
pub proof fn law_think_stays_in_world(a: Actor, p: Player)
    requires
        in_world(a.x),
        in_world(a.y),
        in_world(p.x),
        in_world(p.y),
        0 <= a.speed.0 <= 65536,
        a.tic_count > i32::MIN,
    ensures
        think_spec(a, p) is Some,
        in_world(think_spec(a, p)->0.x),
        in_world(think_spec(a, p)->0.y),
        think_spec(a, p)->0.speed == a.speed,
        think_spec(a, p)->0.kind == a.kind,
        think_spec(a, p)->0.tic_count >= a.tic_count - 1 || think_spec(a, p)->0.tic_count >= 10,
{
    let dx = p.x.0 - a.x.0;
    let dy = p.y.0 - a.y.0;
    lemma_square_bound(dx);
    lemma_square_bound(dy);
    let t = (a.tic_count - 1) as i32;
    let a1 = Actor { tic_count: t, ..a };
    assert(offset_spec(a1, p) is Some);
    assert(offset_spec(Actor { tic_count: 10, ..a1 }, p) is Some);
    if a.mode == ActorMode::Chase {
        let sq = (dx * dx) / 65536 + (dy * dy) / 65536;
        if sq < SIGHT_RANGE_SQ && sq >= ATTACK_RANGE_SQ {
            lemma_far_apart(dx, dy);
            let ax = abs_spec(dx as i32);
            let ay = abs_spec(dy as i32);
            assert(fixed_mul_spec(ay as i32, HALF) == (ay * HALF) / 65536);
            assert(fixed_mul_spec(ax as i32, HALF) == (ax * HALF) / 65536);
            assert(0 <= (ay * HALF) / 65536 <= ay);
            assert(0 <= (ax * HALF) / 65536 <= ax);
            let len = approx_dist_spec(dx as i32, dy as i32)->0;
            assert(len >= ax && len >= ay);
            assert(len >= 65536);
            lemma_step_between(dx, a.speed.0 as int, len as int);
            lemma_step_between(dy, a.speed.0 as int, len as int);
        }
    }
}

} // verus!
