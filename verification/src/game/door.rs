//! Door system: sliding doors, locked doors and elevator tiles.
//!
//! A door's position runs from 0 (closed) toward 63 (open) while opening,
//! stays open for a while, then slides shut again.
use vstd::prelude::*;

verus! {

pub const MAX_DOORS: usize = 64;

/// Ticks a door stays open before it starts closing.
pub const DOOR_OPEN_TICKS: i32 = 300;

#[derive(Debug, Clone, Copy, PartialEq, Eq, Structural)]
pub enum DoorKind {
    Normal,
    /// Requires the gold key.
    Gold,
    /// Requires the silver key.
    Silver,
    Elevator,
}

#[derive(Debug, Clone, Copy, PartialEq, Eq, Structural)]
pub enum DoorState {
    Closed,
    Opening,
    Open,
    Closing,
}

pub struct Door {
    pub tile_x: usize,
    pub tile_y: usize,
    pub kind: DoorKind,
    pub state: DoorState,
    /// 0 = fully closed, 63 = fully open.
    pub position: u8,
    /// Ticks until the next state change.
    pub tic_count: i32,
    /// True if a horizontal door (E-W), false if vertical (N-S).
    pub horizontal: bool,
}

/// The door after one update.
pub open spec fn door_step(d: Door) -> Door {
    match d.state {
        DoorState::Opening => if d.position < 63 {
            Door { position: if d.position + 4 > 63 { 63u8 } else { (d.position + 4) as u8 }, ..d }
        } else {
            Door { position: 63, state: DoorState::Open, tic_count: DOOR_OPEN_TICKS, ..d }
        },
        DoorState::Open => if d.tic_count - 1 <= 0 {
            Door { tic_count: (d.tic_count - 1) as i32, state: DoorState::Closing, ..d }
        } else {
            Door { tic_count: (d.tic_count - 1) as i32, ..d }
        },
        DoorState::Closing => if d.position > 0 {
            Door { position: if d.position < 4 { 0u8 } else { (d.position - 4) as u8 }, ..d }
        } else {
            Door { position: 0, state: DoorState::Closed, ..d }
        },
        DoorState::Closed => d,
    }
}

/// An update of `d` stays within the integer range: an open door's counter
/// does not underflow.
pub open spec fn door_step_ok(d: Door) -> bool {
    !(d.state == DoorState::Open && d.tic_count == i32::MIN)
}

impl Door {
    /// A closed door at the given tile.
    pub fn new(tile_x: usize, tile_y: usize, kind: DoorKind, horizontal: bool) -> (r: Door)
        ensures
            r == (Door {
                tile_x,
                tile_y,
                kind,
                state: DoorState::Closed,
                position: 0,
                tic_count: 0,
                horizontal,
            }),
    {
        Door {
            tile_x,
            tile_y,
            kind,
            state: DoorState::Closed,
            position: 0,
            tic_count: 0,
            horizontal,
        }
    }

    /// Starts opening a closed door; a door in any other state is unchanged.
    pub fn open(&mut self)
        ensures
            *final(self) == (if old(self).state == DoorState::Closed {
                Door { state: DoorState::Opening, ..*old(self) }
            } else {
                *old(self)
            }),
    {
        if self.state == DoorState::Closed {
            self.state = DoorState::Opening;
        }
    }

    /// Advances the door by one tick (see `door_step`).
    pub fn update(&mut self)
        requires
            door_step_ok(*old(self)),
        ensures
            *final(self) == door_step(*old(self)),
            old(self).position <= 63 ==> final(self).position <= 63,
    {
        match self.state {
            DoorState::Opening => {
                if self.position < 63 {
                    self.position = if self.position > 59 { 63 } else { self.position + 4 };
                } else {
                    self.position = 63;
                    self.state = DoorState::Open;
                    self.tic_count = DOOR_OPEN_TICKS;
                }
            },
            DoorState::Open => {
                self.tic_count = self.tic_count - 1;
                if self.tic_count <= 0 {
                    self.state = DoorState::Closing;
                }
            },
            DoorState::Closing => {
                if self.position > 0 {
                    self.position = if self.position < 4 { 0 } else { self.position - 4 };
                } else {
                    self.position = 0;
                    self.state = DoorState::Closed;
                }
            },
            DoorState::Closed => {},
        }
    }
}

/// The door after `n` updates.
pub open spec fn door_steps(d: Door, n: nat) -> Door
    decreases n,
{
    if n == 0 {
        d
    } else {
        door_steps(door_step(d), (n - 1) as nat)
    }
}

/// An update keeps the door position within 0 (closed) ..= 63 (open).
pub proof fn law_door_position_in_range(d: Door)
    requires
        d.position <= 63,
    ensures
        door_step(d).position <= 63,
{
}

/// A closed door stays closed under any number of updates.
proof fn lemma_closed_stays(d: Door, n: nat)
    requires
        d.state == DoorState::Closed,
    ensures
        door_steps(d, n) == d,
    decreases n,
{
    if n > 0 {
        lemma_closed_stays(d, (n - 1) as nat);
    }
}

/// A closing door at position `p` is shut after any `n` updates with
/// `4 * (n - 1) >= p`.
proof fn lemma_closing_shuts(d: Door, n: nat)
    requires
        d.state == DoorState::Closing,
        n >= 1,
        4 * (n - 1) >= d.position,
    ensures
        door_steps(d, n) == (Door { position: 0, state: DoorState::Closed, ..d }),
    decreases n,
{
    let e = door_step(d);
    if d.position == 0 {
        lemma_closed_stays(e, (n - 1) as nat);
    } else {
        lemma_closing_shuts(e, (n - 1) as nat);
    }
}

/// A closing door anywhere in its range slides shut: after 17 updates it is
/// closed at position 0 (and stays so, see `lemma_closed_stays`).
pub proof fn law_closing_door_shuts(d: Door)
    requires
        d.state == DoorState::Closing,
        d.position <= 63,
    ensures
        door_steps(d, 17) == (Door { position: 0, state: DoorState::Closed, ..d }),
{
    lemma_closing_shuts(d, 17);
}

/// All doors of the current level.
pub struct DoorList {
    pub doors: Vec<Door>,
}

/// Index of the first door at the given tile among the first `n` doors.
pub open spec fn first_door_at(doors: Seq<Door>, x: usize, y: usize, n: int) -> Option<int>
    decreases n,
{
    if n <= 0 {
        None
    } else {
        match first_door_at(doors, x, y, n - 1) {
            Some(i) => Some(i),
            None => if doors[n - 1].tile_x == x && doors[n - 1].tile_y == y {
                Some(n - 1)
            } else {
                None
            },
        }
    }
}

proof fn lemma_first_door_at(doors: Seq<Door>, x: usize, y: usize, n: int)
    requires
        0 <= n <= doors.len(),
    ensures
        first_door_at(doors, x, y, n) matches Some(i) ==> 0 <= i < n && doors[i].tile_x == x
            && doors[i].tile_y == y,
        first_door_at(doors, x, y, n) is None ==> forall|j: int|
            0 <= j < n ==> !(#[trigger] doors[j].tile_x == x && doors[j].tile_y == y),
    decreases n,
{
    if n > 0 {
        lemma_first_door_at(doors, x, y, n - 1);
    }
}

proof fn lemma_first_door_stable(doors: Seq<Door>, x: usize, y: usize, n: int, m: int)
    requires
        0 <= n <= m,
        first_door_at(doors, x, y, n) is Some,
    ensures
        first_door_at(doors, x, y, m) == first_door_at(doors, x, y, n),
    decreases m - n,
{
    if m > n {
        lemma_first_door_stable(doors, x, y, n, m - 1);
    }
}

impl DoorList {
    /// An empty list.
    pub fn new() -> (r: DoorList)
        ensures
            r.doors@.len() == 0,
    {
        DoorList { doors: Vec::new() }
    }

    /// Updates every door once, in order.
    pub fn update(&mut self)
        requires
            forall|i: int| 0 <= i < old(self).doors@.len() ==> door_step_ok(#[trigger] old(self).doors@[i]),
        ensures
            final(self).doors@.len() == old(self).doors@.len(),
            forall|i: int|
                0 <= i < old(self).doors@.len() ==> #[trigger] final(self).doors@[i] == door_step(
                    old(self).doors@[i],
                ),
    {
        let ghost start = self.doors@;
        let mut i: usize = 0;
        while i < self.doors.len()
            invariant
                i <= self.doors@.len(),
                self.doors@.len() == start.len(),
                forall|k: int| 0 <= k < i ==> #[trigger] self.doors@[k] == door_step(start[k]),
                forall|k: int| i <= k < start.len() ==> #[trigger] self.doors@[k] == start[k],
                forall|k: int| 0 <= k < start.len() ==> door_step_ok(#[trigger] start[k]),
            decreases start.len() - i,
        {
            let mut d = self.doors.remove(i);
            d.update();
            self.doors.insert(i, d);
            i = i + 1;
        }
    }

    /// The first door at the given tile, if any.
    pub fn at(&self, tile_x: usize, tile_y: usize) -> (r: Option<&Door>)
        ensures
            r is Some <==> first_door_at(self.doors@, tile_x, tile_y, self.doors@.len() as int) is Some,
            r matches Some(d) ==> *d == self.doors@[first_door_at(
                self.doors@,
                tile_x,
                tile_y,
                self.doors@.len() as int,
            )->0],
    {
        let mut i: usize = 0;
        while i < self.doors.len()
            invariant
                i <= self.doors@.len(),
                first_door_at(self.doors@, tile_x, tile_y, i as int) is None,
        decreases self.doors@.len() - i,
        {
            if self.doors[i].tile_x == tile_x && self.doors[i].tile_y == tile_y {
                proof {
                    lemma_first_door_stable(self.doors@, tile_x, tile_y, i + 1, self.doors@.len() as int);
                }
                return Some(&self.doors[i]);
            }
            i = i + 1;
        }
        None
    }

    /// Index of the first door at the given tile, for callers that change it
    /// through `doors`.
    pub fn at_mut(&mut self, tile_x: usize, tile_y: usize) -> (r: Option<&mut Door>)
        ensures
            r is Some <==> first_door_at(old(self).doors@, tile_x, tile_y, old(self).doors@.len() as int) is Some,
            r is None ==> final(self).doors@ == old(self).doors@,
            r matches Some(d) ==> {
                let i = first_door_at(old(self).doors@, tile_x, tile_y, old(self).doors@.len() as int)->0;
                &&& *d == old(self).doors@[i]
                &&& final(self).doors@ == old(self).doors@.update(i, *final(d))
            },
    {
        let mut i: usize = 0;
        while i < self.doors.len()
            invariant
                i <= self.doors@.len(),
                self.doors@ == old(self).doors@,
                first_door_at(self.doors@, tile_x, tile_y, i as int) is None,
        decreases self.doors@.len() - i,
        {
            if self.doors[i].tile_x == tile_x && self.doors[i].tile_y == tile_y {
                proof {
                    lemma_first_door_stable(self.doors@, tile_x, tile_y, i + 1, self.doors@.len() as int);
                }
                return Some(&mut self.doors[i]);
            }
            i = i + 1;
        }
        None
    }
}

impl Default for DoorList {
    fn default() -> (r: DoorList)
        ensures
            r.doors@.len() == 0,
    {
        DoorList::new()
    }
}

} // verus!
