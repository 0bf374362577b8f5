//! In-game map: the level data plus the spawn logic that populates it.
use vstd::prelude::*;
use crate::assets::maps::{DoorSpawn, Level};
use crate::game::actor::{Actor, ActorKind, ActorList, actor_new_spec};
use crate::game::door::{Door, DoorKind, DoorList, DoorState};
use crate::game::player::{Player, player_new_spec, player_spawn_spec, tile_center};
use crate::math::fixed::Fixed;
use crate::math::tables::FINEANGLES;

verus! {

/// Plane-1 codes for the player start, facing N, E, S, W.
pub const PLAYER_N: u16 = 19;
pub const PLAYER_E: u16 = 20;
pub const PLAYER_S: u16 = 21;
pub const PLAYER_W: u16 = 22;

/// Plane-1 codes for guards, facing N, E, S, W.
pub const GUARD_N: u16 = 108;
pub const GUARD_E: u16 = 109;
pub const GUARD_S: u16 = 110;
pub const GUARD_W: u16 = 111;

/// Plane-1 codes for dogs, facing N, E, S, W.
pub const DOG_N: u16 = 138;
pub const DOG_E: u16 = 139;
pub const DOG_S: u16 = 140;
pub const DOG_W: u16 = 141;

pub struct GameMap {
    pub level: Level,
}

/// Actors spawned from the first `n` cells of plane 1, in row-major order:
/// guard codes make guards and dog codes make dogs, at the cell centers.
pub open spec fn spawned_actors(level: Level, n: int) -> Seq<Actor>
    decreases n,
{
    if n <= 0 {
        Seq::empty()
    } else {
        let prev = spawned_actors(level, n - 1);
        let code = level.planes[1]@[n - 1];
        let fx = tile_center(((n - 1) % 64) as usize);
        let fy = tile_center(((n - 1) / 64) as usize);
        if GUARD_N <= code <= GUARD_W {
            prev.push(actor_new_spec(ActorKind::Guard, fx, fy))
        } else if DOG_N <= code <= DOG_W {
            prev.push(actor_new_spec(ActorKind::Dog, fx, fy))
        } else {
            prev
        }
    }
}

/// The player after the first `n` cells of plane 1: the last player-start
/// code seen places it, facing N (0), E, S or W (quarter turns); with no
/// start code it is a new player.
pub open spec fn spawned_player(level: Level, n: int) -> Player
    decreases n,
{
    if n <= 0 {
        player_new_spec()
    } else {
        let code = level.planes[1]@[n - 1];
        let x = ((n - 1) % 64) as usize;
        let y = ((n - 1) / 64) as usize;
        if code == PLAYER_N {
            player_spawn_spec(x, y, 0)
        } else if code == PLAYER_E {
            player_spawn_spec(x, y, 900)
        } else if code == PLAYER_S {
            player_spawn_spec(x, y, 1800)
        } else if code == PLAYER_W {
            player_spawn_spec(x, y, 2700)
        } else {
            spawned_player(level, n - 1)
        }
    }
}

/// The door kind of a spawn's lock code: 1 gold, 2 silver, 5 elevator,
/// anything else normal.
pub open spec fn door_kind_of(lock: u8) -> DoorKind {
    if lock == 1 {
        DoorKind::Gold
    } else if lock == 2 {
        DoorKind::Silver
    } else if lock == 5 {
        DoorKind::Elevator
    } else {
        DoorKind::Normal
    }
}

/// The closed door built from a spawn record.
pub open spec fn door_from_spawn(ds: DoorSpawn) -> Door {
    Door {
        tile_x: ds.tile_x,
        tile_y: ds.tile_y,
        kind: door_kind_of(ds.lock),
        state: DoorState::Closed,
        position: 0,
        tic_count: 0,
        horizontal: !ds.is_vertical,
    }
}

impl GameMap {
    pub fn from_level(level: Level) -> (r: GameMap)
        ensures
            r.level == level,
    {
        GameMap { level }
    }

    /// Populates the level: actors and the player from plane 1 (see
    /// `spawned_actors` and `spawned_player`), then one closed door per door
    /// spawn record.  The new actors and doors are appended to the lists.
    pub fn spawn_things(&self, actors: &mut ActorList, doors: &mut DoorList) -> (player: Player)
        requires
            self.level.wf(),
        ensures
            player == spawned_player(self.level, 4096),
            final(actors).actors@ == old(actors).actors@ + spawned_actors(self.level, 4096),
            final(doors).doors@ == old(doors).doors@ + self.level.door_spawns@.map_values(
                |ds: DoorSpawn| door_from_spawn(ds),
            ),
    {
        let mut player = Player::new();
        let ghost start_actors = actors.actors@;
        let mut n: usize = 0;
        while n < 4096
            invariant
                n <= 4096,
                self.level.wf(),
                player == spawned_player(self.level, n as int),
                actors.actors@ == start_actors + spawned_actors(self.level, n as int),
            decreases 4096 - n,
        {
            let x = n % 64;
            let y = n / 64;
            let code = self.level.sprite_at(x, y);
            let ghost before = actors.actors@;
            if code != 0 {
                let fx = Fixed::from_int(x as i32) + Fixed(32768);
                let fy = Fixed::from_int(y as i32) + Fixed(32768);
                if code == PLAYER_N {
                    player = Player::spawn(x, y, 0);
                } else if code == PLAYER_E {
                    player = Player::spawn(x, y, FINEANGLES / 4);
                } else if code == PLAYER_S {
                    player = Player::spawn(x, y, FINEANGLES / 2);
                } else if code == PLAYER_W {
                    player = Player::spawn(x, y, FINEANGLES * 3 / 4);
                } else if code >= GUARD_N && code <= GUARD_W {
                    actors.spawn(ActorKind::Guard, fx, fy);
                } else if code >= DOG_N && code <= DOG_W {
                    actors.spawn(ActorKind::Dog, fx, fy);
                }
            }
            assert(actors.actors@ =~= start_actors + spawned_actors(self.level, n + 1));
            n = n + 1;
        }
        let ghost start_doors = doors.doors@;
        let mut i: usize = 0;
        while i < self.level.door_spawns.len()
            invariant
                i <= self.level.door_spawns@.len(),
                doors.doors@ == start_doors + self.level.door_spawns@.subrange(0, i as int).map_values(
                    |ds: DoorSpawn| door_from_spawn(ds),
                ),
            decreases self.level.door_spawns@.len() - i,
        {
            let ds = self.level.door_spawns[i];
            let kind = if ds.lock == 1 {
                DoorKind::Gold
            } else if ds.lock == 2 {
                DoorKind::Silver
            } else if ds.lock == 5 {
                DoorKind::Elevator
            } else {
                DoorKind::Normal
            };
            doors.doors.push(Door::new(ds.tile_x, ds.tile_y, kind, !ds.is_vertical));
            assert(self.level.door_spawns@.subrange(0, i + 1) =~= self.level.door_spawns@.subrange(0, i as int).push(ds));
            assert(doors.doors@ =~= start_doors + self.level.door_spawns@.subrange(0, i + 1).map_values(
                |ds: DoorSpawn| door_from_spawn(ds),
            ));
            i = i + 1;
        }
        assert(self.level.door_spawns@.subrange(0, self.level.door_spawns@.len() as int) =~= self.level.door_spawns@);
        player
    }
}

} // verus!
