//! Actors: enemies, items and decorations placed in a level.
use vstd::prelude::*;
use crate::math::fixed::Fixed;
use crate::game::player::Player;
use crate::game::ai::{think, think_spec};

verus! {

/// All actor (enemy / object) kinds.
#[derive(Debug, Clone, Copy, PartialEq, Eq, Structural)]
pub enum ActorKind {
    Guard,
    Officer,
    SS,
    Dog,
    Mutant,
    Hans,
    Schabbs,
    Gretel,
    KettleBody,
    Hitler,
    Angel,
    GoldKey,
    SilverKey,
    FoodItem,
    MedKit,
    Ammo,
    MachineGun,
    ChainGun,
    Cross,
    Chalice,
    Bible,
    Crown,
    Barrel,
    TableChairs,
    CeilingLight,
}

/// An actor's high-level state in the AI state machine.
#[derive(Debug, Clone, Copy, PartialEq, Eq, Structural)]
pub enum ActorMode {
    Stand,
    Path,
    Chase,
    Shoot,
    Pain,
    Die,
    Dead,
    /// Non-AI objects (items, decorations).
    Static,
}

/// Direction an actor is facing (8-way).
#[derive(Debug, Clone, Copy, PartialEq, Eq, Structural)]
pub enum Dir {
    North,
    NorthEast,
    East,
    SouthEast,
    South,
    SouthWest,
    West,
    NorthWest,
    NoDir,
}

pub struct Actor {
    pub kind: ActorKind,
    pub mode: ActorMode,
    pub x: Fixed,
    pub y: Fixed,
    pub dir: Dir,
    pub angle: i32,
    pub health: i32,
    pub speed: Fixed,
    /// Index into the sprite table.
    pub sprite: usize,
    /// Tics until the current animation frame advances.
    pub tic_count: i32,
    /// Distance remaining to move this step (used for path actors).
    pub dist: Fixed,
    pub flags: u32,
}

pub const FLAG_FIRSTATTACK: u32 = 0x01;
pub const FLAG_AMBUSH: u32 = 0x02;

/// Starting health of every actor.
pub const ACTOR_HEALTH: i32 = 25;

/// Movement per tick: 0.05 tile in 16.16 units.
pub const ACTOR_SPEED: i32 = 3276;

/// A freshly spawned actor.
pub open spec fn actor_new_spec(kind: ActorKind, x: Fixed, y: Fixed) -> Actor {
    Actor {
        kind,
        mode: ActorMode::Stand,
        x,
        y,
        dir: Dir::NoDir,
        angle: 0,
        health: ACTOR_HEALTH,
        speed: Fixed(ACTOR_SPEED),
        sprite: 0,
        tic_count: 0,
        dist: Fixed(0),
        flags: 0,
    }
}

impl Actor {
    /// A standing actor of the given kind at (x, y).
    pub fn new(kind: ActorKind, x: Fixed, y: Fixed) -> (r: Actor)
        ensures
            r == actor_new_spec(kind, x, y),
    {
        Actor {
            kind,
            mode: ActorMode::Stand,
            x,
            y,
            dir: Dir::NoDir,
            angle: 0,
            health: ACTOR_HEALTH,
            speed: Fixed(ACTOR_SPEED),
            sprite: 0,
            tic_count: 0,
            dist: Fixed(0),
            flags: 0,
        }
    }

    /// Every mode but `Dead` counts as alive.
    pub fn is_alive(&self) -> (r: bool)
        ensures
            r == (self.mode != ActorMode::Dead),
    {
        match self.mode {
            ActorMode::Dead => false,
            _ => true,
        }
    }
}

pub struct ActorList {
    pub actors: Vec<Actor>,
}

/// An actor after one tick: living actors think, dead ones stay as they are.
pub open spec fn tick_actor(a: Actor, p: Player) -> Option<Actor> {
    if a.mode == ActorMode::Dead {
        Some(a)
    } else {
        think_spec(a, p)
    }
}

impl ActorList {
    /// An empty list.
    pub fn new() -> (r: ActorList)
        ensures
            r.actors@.len() == 0,
    {
        ActorList { actors: Vec::new() }
    }

    /// Appends a new actor and returns its index.
    pub fn spawn(&mut self, kind: ActorKind, x: Fixed, y: Fixed) -> (id: usize)
        ensures
            id == old(self).actors@.len(),
            final(self).actors@ == old(self).actors@.push(actor_new_spec(kind, x, y)),
    {
        let id = self.actors.len();
        self.actors.push(Actor::new(kind, x, y));
        id
    }

    /// Ticks every living actor, in order (see `tick_actor`).
    pub fn update_all(&mut self, player: &Player)
        requires
            forall|i: int|
                0 <= i < old(self).actors@.len() ==> (#[trigger] tick_actor(
                    old(self).actors@[i],
                    *player,
                )) is Some,
        ensures
            final(self).actors@.len() == old(self).actors@.len(),
            forall|i: int|
                0 <= i < old(self).actors@.len() ==> Some(#[trigger] final(self).actors@[i])
                    == tick_actor(old(self).actors@[i], *player),
    {
        let ghost start = self.actors@;
        let mut i: usize = 0;
        while i < self.actors.len()
            invariant
                i <= self.actors@.len(),
                self.actors@.len() == start.len(),
                forall|k: int| 0 <= k < i ==> Some(#[trigger] self.actors@[k]) == tick_actor(start[k], *player),
                forall|k: int| i <= k < start.len() ==> #[trigger] self.actors@[k] == start[k],
                forall|k: int| 0 <= k < start.len() ==> (#[trigger] tick_actor(start[k], *player)) is Some,
            decreases start.len() - i,
        {
            let mut a = self.actors.remove(i);
            if a.is_alive() {
                assert(tick_actor(start[i as int], *player) is Some);
                think(&mut a, player);
            }
            self.actors.insert(i, a);
            i = i + 1;
        }
    }
}

impl Default for ActorList {
    fn default() -> (r: ActorList)
        ensures
            r.actors@.len() == 0,
    {
        ActorList::new()
    }
}

} // verus!
