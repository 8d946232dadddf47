use crate::geometry::Location;
use vstd::prelude::*;

verus! {

/// Where the session stands. Only `Alive` lets play go on; `Animation` and
/// `Paused` are reserved and never entered.
#[derive(Clone, Copy, Debug, PartialEq, Eq, Structural)]
pub enum PlayerStatus {
    Dead,
    Alive,
    Animation,
    Paused,
}

#[derive(Clone, Copy, Debug, PartialEq, Eq, Structural)]
pub struct Enemy {
    pub location: Location,
}

/// A projectile and the number of upward moves it has left.
#[derive(Clone, Copy, Debug, PartialEq, Eq, Structural)]
pub struct Bullet {
    pub location: Location,
    pub energy: u16,
}

/// The whole simulation state.
pub struct World {
    pub player_location: Location,
    pub maxc: u16,
    pub maxl: u16,
    pub status: PlayerStatus,
    /// One (left wall, right wall) pair per visible row, top row first.
    pub map: Vec<(u16, u16)>,
    pub next_right: u16,
    pub next_left: u16,
    pub ship: char,
    pub enemy: Vec<Enemy>,
    pub bullet: Vec<Bullet>,
}

/// The mathematical value of a `World`.
pub ghost struct WorldModel {
    pub player: Location,
    pub maxc: u16,
    pub maxl: u16,
    pub status: PlayerStatus,
    pub map: Seq<(u16, u16)>,
    pub next_left: u16,
    pub next_right: u16,
    pub ship: char,
    pub enemies: Seq<Enemy>,
    pub bullets: Seq<Bullet>,
}

impl WorldModel {
    /// The map has one row per terminal line, every row is at least three
    /// columns wide, the right target lies at least three columns right of the
    /// left one, the player stands on the screen and looks unlike an enemy.
    pub open spec fn wf(self) -> bool {
        &&& self.maxl >= 1
        &&& self.map.len() == self.maxl
        &&& forall|i: int| 0 <= i < self.map.len() ==> #[trigger] self.map[i].1 >= self.map[i].0 + 3
        &&& self.next_right >= self.next_left + 3
        &&& self.player.l < self.maxl
        &&& self.player.c < self.maxc
        &&& self.ship != 'E'
    }
}

impl View for World {
    type V = WorldModel;

    open spec fn view(&self) -> WorldModel {
        WorldModel {
            player: self.player_location,
            maxc: self.maxc,
            maxl: self.maxl,
            status: self.status,
            map: self.map@,
            next_left: self.next_left,
            next_right: self.next_right,
            ship: self.ship,
            enemies: self.enemy@,
            bullets: self.bullet@,
        }
    }
}

impl Bullet {
    /// A projectile at the player's cell with half the screen height of energy.
    pub fn new(world: &World) -> (b: Bullet)
        ensures
            b.location == world.player_location,
            b.energy == world.maxl / 2,
    {
        Bullet {
            location: Location::new(world.player_location.l, world.player_location.c),
            energy: world.maxl / 2,
        }
    }
}

impl World {
    /// A fresh world for a terminal of `maxc` columns and `maxl` rows.
    pub fn new(maxc: u16, maxl: u16) -> (w: World)
        requires
            maxc >= 14,
            maxl >= 1,
        ensures
            w@.wf(),
            w@.player == (Location { l: (maxl - 1) as u16, c: maxc / 2 }),
            w@.maxc == maxc,
            w@.maxl == maxl,
            w@.status == PlayerStatus::Alive,
            forall|i: int| 0 <= i < maxl ==> #[trigger] w@.map[i] == ((maxc / 2 - 5) as u16, (maxc / 2 + 5) as u16),
            w@.next_left == maxc / 2 - 7,
            w@.next_right == maxc / 2 + 7,
            w@.ship == 'P',
            w@.enemies.len() == 0,
            w@.bullets.len() == 0,
    {
        let row: (u16, u16) = (maxc / 2 - 5, maxc / 2 + 5);
        let mut map: Vec<(u16, u16)> = Vec::new();
        let mut i: u16 = 0;
        while i < maxl
            invariant
                i <= maxl,
                map@.len() == i,
                forall|k: int| 0 <= k < i ==> #[trigger] map@[k] == row,
            decreases maxl - i,
        {
            map.push(row);
            i = i + 1;
        }
        World {
            player_location: Location::new(maxl - 1, maxc / 2),
            map,
            maxc,
            maxl,
            status: PlayerStatus::Alive,
            next_left: maxc / 2 - 7,
            next_right: maxc / 2 + 7,
            ship: 'P',
            enemy: Vec::new(),
            bullet: Vec::new(),
        }
    }
}

} // verus!
