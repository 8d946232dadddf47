use crate::geometry::Location;
use crate::laws::lemma_width_floor;
use crate::world::{Bullet, Enemy, PlayerStatus, World, WorldModel};
use rand::Rng;
use vstd::prelude::*;

verus! {

/// The random values that one tick consumes, in the order they are drawn.
/// A roll is a value in `0..10`; a value that the tick does not need is 0.
#[derive(Clone, Copy, Debug, PartialEq, Eq, Structural)]
pub struct Draws {
    pub left_roll: u16,
    pub left_target: u16,
    pub right_roll: u16,
    pub right_target: u16,
    pub spawn_roll: u16,
    pub spawn_col: u16,
}

pub open spec fn sat_sub(a: u16, b: u16) -> u16 {
    if a >= b { (a - b) as u16 } else { 0 }
}

pub open spec fn sat_add(a: u16, b: u16) -> u16 {
    if a + b <= u16::MAX { (a + b) as u16 } else { u16::MAX }
}

/// One unit from `cur` toward `target`, or `cur` when they are equal.
pub open spec fn step_toward(cur: u16, target: u16) -> u16 {
    if cur < target {
        (cur + 1) as u16
    } else if cur > target {
        (cur - 1) as u16
    } else {
        cur
    }
}

pub open spec fn wall_hit(row: (u16, u16), p: Location) -> bool {
    p.c <= row.0 || p.c >= row.1
}

pub open spec fn touches(es: Seq<Enemy>, p: Location) -> bool {
    exists|i: int| 0 <= i < es.len() && #[trigger] es[i].location == p
}

/// The forgiving hit box: the enemy's cell or the cell just above it.
pub open spec fn bullet_hits(b: Location, e: Location) -> bool {
    b == e || b == (Location { l: sat_sub(e.l, 1), c: e.c })
}

pub open spec fn hit_by_any(bs: Seq<Bullet>, e: Enemy) -> bool {
    exists|j: int| 0 <= j < bs.len() && #[trigger] bullet_hits(bs[j].location, e.location)
}

/// The enemies that no projectile hits, in their order.
pub open spec fn survivors(es: Seq<Enemy>, bs: Seq<Bullet>) -> Seq<Enemy> {
    es.filter(|e: Enemy| !hit_by_any(bs, e))
}

/// Every row takes the one above it; the top row drifts toward the targets.
pub open spec fn scrolled(map: Seq<(u16, u16)>, nl: u16, nr: u16) -> Seq<(u16, u16)> {
    Seq::new(
        map.len(),
        |i: int|
            if i == 0 {
                (step_toward(map[0].0, nl), step_toward(map[0].1, nr))
            } else {
                map[i - 1]
            },
    )
}

/// A target is replaced by the drawn one only when the wall has reached it
/// and the roll is 7, 8 or 9.
pub open spec fn retarget(cur: u16, target: u16, roll: u16, drawn: u16) -> u16 {
    if cur == target && roll >= 7 { drawn } else { target }
}

/// The highest left target: three columns must fit to its right.
pub const LEFT_TARGET_MAX: u16 = 65532;

/// A left target kept low enough for the width floor to fit in a `u16`.
pub open spec fn bounded(nl: u16) -> u16 {
    if nl > LEFT_TARGET_MAX { LEFT_TARGET_MAX } else { nl }
}

/// The width floor: the right target raised to three columns right of the
/// left one when it lies below that.
pub open spec fn widened(nl: u16, nr: u16) -> u16 {
    if nr < nl + 3 { (nl + 3) as u16 } else { nr }
}

/// An enemy one row lower, or `None` once it has left the screen.
pub open spec fn advance(e: Enemy, maxl: u16) -> Option<Enemy> {
    if e.location.l + 1 < maxl {
        Some(Enemy { location: Location { l: (e.location.l + 1) as u16, c: e.location.c } })
    } else {
        None
    }
}

pub open spec fn advanced(es: Seq<Enemy>, maxl: u16) -> Seq<Enemy> {
    es.filter_map(|e: Enemy| advance(e, maxl))
}

/// A projectile two rows higher with one unit less energy, or `None` when it
/// is spent or near the top.
pub open spec fn fly(b: Bullet) -> Option<Bullet> {
    if b.energy == 0 || b.location.l < 3 {
        None
    } else {
        let l = (b.location.l - 2) as u16;
        Some(Bullet {
            location: Location { l, c: b.location.c },
            energy: if l < 2 { 0 } else { (b.energy - 1) as u16 },
        })
    }
}

pub open spec fn flown(bs: Seq<Bullet>) -> Seq<Bullet> {
    bs.filter_map(|b: Bullet| fly(b))
}

/// Whether an enemy appears at the top, given the map after the scroll: the
/// opening between the top row's left wall and the next row's right wall must
/// hold a column strictly inside it.
pub open spec fn spawns(map: Seq<(u16, u16)>, d: Draws) -> bool {
    d.spawn_roll >= 9 && map[0].0 + 1 < map[1].1
}

pub open spec fn spawned(d: Draws) -> Enemy {
    Enemy { location: Location { l: 0, c: d.spawn_col } }
}

/// The world after one tick that consumed the draws `d`.
pub open spec fn tick(w: WorldModel, d: Draws) -> WorldModel {
    let map = scrolled(w.map, w.next_left, w.next_right);
    let next_left = bounded(retarget(map[0].0, w.next_left, d.left_roll, d.left_target));
    let right = retarget(map[0].1, w.next_right, d.right_roll, d.right_target);
    let moved = advanced(survivors(w.enemies, w.bullets), w.maxl);
    WorldModel {
        player: w.player,
        maxc: w.maxc,
        maxl: w.maxl,
        status: if wall_hit(w.map[w.player.l as int], w.player) || touches(w.enemies, w.player) {
            PlayerStatus::Dead
        } else {
            w.status
        },
        map,
        next_left,
        next_right: widened(next_left, right),
        ship: w.ship,
        enemies: if spawns(map, d) { moved.push(spawned(d)) } else { moved },
        bullets: flown(w.bullets),
    }
}

/// The world after one tick per entry of `ds`, in order.
pub open spec fn run(w: WorldModel, ds: Seq<Draws>) -> WorldModel
    decreases ds.len(),
{
    if ds.len() == 0 {
        w
    } else {
        tick(run(w, ds.drop_last()), ds.last())
    }
}

/// The draws that a tick from `w` can receive from the random source.
pub open spec fn valid_draws(w: WorldModel, d: Draws) -> bool {
    let map = scrolled(w.map, w.next_left, w.next_right);
    &&& d.left_roll < 10
    &&& d.right_roll < 10
    &&& d.spawn_roll < 10
    &&& d.left_roll >= 7 ==> sat_sub(w.next_left, 5) <= d.left_target < sat_add(w.next_left, 5)
    &&& d.right_roll >= 7 ==> sat_sub(w.next_right, 5) <= d.right_target < sat_add(
        w.next_right,
        5,
    )
    &&& spawns(map, d) ==> map[0].0 < d.spawn_col < map[1].1
}

/// Relies on rand's `Rng::gen_range` on the thread-local generator: a value of
/// `lo..hi`, which must not be empty.
#[verifier::external_body]
fn random_in(lo: u16, hi: u16) -> (r: u16)
    requires
        lo < hi,
    ensures
        lo <= r < hi,
{
    rand::thread_rng().gen_range(lo..hi)
}

fn approach(cur: u16, target: u16) -> (r: u16)
    ensures
        r == step_toward(cur, target),
{
    if cur < target {
        cur + 1
    } else if cur > target {
        cur - 1
    } else {
        cur
    }
}

fn touches_player(es: &Vec<Enemy>, p: Location) -> (r: bool)
    ensures
        r == touches(es@, p),
{
    let mut i: usize = 0;
    while i < es.len()
        invariant
            i <= es@.len(),
            forall|k: int| 0 <= k < i ==> es@[k].location != p,
        decreases es@.len() - i,
    {
        if es[i].location.hit(&p) {
            return true;
        }
        i = i + 1;
    }
    false
}

fn hit_by_bullet(bs: &Vec<Bullet>, e: Enemy) -> (r: bool)
    ensures
        r == hit_by_any(bs@, e),
{
    let above = Location::new(e.location.l.saturating_sub(1), e.location.c);
    let mut j: usize = 0;
    while j < bs.len()
        invariant
            j <= bs@.len(),
            above == (Location { l: sat_sub(e.location.l, 1), c: e.location.c }),
            forall|k: int| 0 <= k < j ==> !bullet_hits(#[trigger] bs@[k].location, e.location),
        decreases bs@.len() - j,
    {
        if bs[j].location.hit(&e.location) || bs[j].location.hit(&above) {
            assert(bullet_hits(bs@[j as int].location, e.location));
            return true;
        }
        j = j + 1;
    }
    false
}

fn survivors_of(es: &Vec<Enemy>, bs: &Vec<Bullet>) -> (r: Vec<Enemy>)
    ensures
        r@ == survivors(es@, bs@),
{
    let mut r: Vec<Enemy> = Vec::new();
    let mut i: usize = 0;
    while i < es.len()
        invariant
            i <= es@.len(),
            r@ == survivors(es@.take(i as int), bs@),
        decreases es@.len() - i,
    {
        let e = es[i];
        assert(es@.take(i + 1) == es@.take(i as int).push(e));
        proof {
            es@.take(i as int).lemma_filter_push(e, |x: Enemy| !hit_by_any(bs@, x));
        }
        if !hit_by_bullet(bs, e) {
            r.push(e);
        }
        i = i + 1;
    }
    assert(es@.take(es@.len() as int) == es@);
    r
}

fn advance_all(es: &Vec<Enemy>, maxl: u16) -> (r: Vec<Enemy>)
    ensures
        r@ == advanced(es@, maxl),
{
    let mut r: Vec<Enemy> = Vec::new();
    let mut i: usize = 0;
    while i < es.len()
        invariant
            i <= es@.len(),
            r@ == advanced(es@.take(i as int), maxl),
        decreases es@.len() - i,
    {
        let e = es[i];
        proof {
            es@.lemma_filter_map_take_succ(|x: Enemy| advance(x, maxl), i as int);
        }
        if e.location.l < maxl && e.location.l + 1 < maxl {
            r.push(Enemy { location: Location::new(e.location.l + 1, e.location.c) });
        }
        i = i + 1;
    }
    assert(es@.take(es@.len() as int) == es@);
    r
}

fn fly_all(bs: &Vec<Bullet>) -> (r: Vec<Bullet>)
    ensures
        r@ == flown(bs@),
{
    let mut r: Vec<Bullet> = Vec::new();
    let mut i: usize = 0;
    while i < bs.len()
        invariant
            i <= bs@.len(),
            r@ == flown(bs@.take(i as int)),
        decreases bs@.len() - i,
    {
        let b = bs[i];
        proof {
            bs@.lemma_filter_map_take_succ(|x: Bullet| fly(x), i as int);
        }
        if b.energy != 0 && b.location.l >= 3 {
            let l = b.location.l - 2;
            let energy = if l < 2 { 0 } else { b.energy - 1 };
            r.push(Bullet { location: Location::new(l, b.location.c), energy });
        }
        i = i + 1;
    }
    assert(bs@.take(bs@.len() as int) == bs@);
    r
}

impl World {
    /// Shifts every row of the map down by one; the top row drifts one unit
    /// toward the targets.
    fn scroll_map(&mut self)
        requires
            old(self).map@.len() >= 1,
        ensures
            final(self)@ == (WorldModel {
                map: scrolled(old(self)@.map, old(self).next_left, old(self).next_right),
                ..old(self)@
            }),
    {
        let n = self.map.len();
        let mut l: usize = n - 1;
        while l > 0
            invariant
                n == old(self).map@.len(),
                self.map@.len() == n,
                l < n,
                forall|k: int| 0 <= k <= l ==> self.map@[k] == old(self).map@[k],
                forall|k: int| l < k < n ==> self.map@[k] == old(self).map@[k - 1],
                self@ == (WorldModel { map: self.map@, ..old(self)@ }),
            decreases l,
        {
            let above = self.map[l - 1];
            self.map.set(l, above);
            l = l - 1;
        }
        let (left, right) = self.map[0];
        let top = (approach(left, self.next_left), approach(right, self.next_right));
        self.map.set(0, top);
        assert(self.map@ == scrolled(old(self).map@, old(self).next_left, old(self).next_right));
    }

    /// Advances the world by one tick that consumes the draws `d`: collisions,
    /// scroll, retargeting, enemies, projectiles.
    pub fn physics_with(&mut self, d: Draws)
        requires
            old(self)@.wf(),
            old(self).maxl >= 2,
        ensures
            final(self)@ == tick(old(self)@, d),
            final(self)@.wf(),
    {
        let p = self.player_location;
        let row = self.map[p.l as usize];
        if p.c <= row.0 || p.c >= row.1 || touches_player(&self.enemy, p) {
            self.status = PlayerStatus::Dead;
        }
        let kept = survivors_of(&self.enemy, &self.bullet);
        self.scroll_map();
        let top = self.map[0];
        if top.0 == self.next_left && d.left_roll >= 7 {
            self.next_left = d.left_target;
        }
        if top.1 == self.next_right && d.right_roll >= 7 {
            self.next_right = d.right_target;
        }
        if self.next_left > LEFT_TARGET_MAX {
            self.next_left = LEFT_TARGET_MAX;
        }
        if self.next_right < self.next_left + 3 {
            self.next_right = self.next_left + 3;
        }
        let mut moved = advance_all(&kept, self.maxl);
        if d.spawn_roll >= 9 && self.map[0].0 < self.map[1].1 && self.map[0].0 + 1 < self.map[1].1 {
            moved.push(Enemy { location: Location::new(0, d.spawn_col) });
        }
        self.enemy = moved;
        self.bullet = fly_all(&self.bullet);
        assert(self@ == tick(old(self)@, d));
        proof {
            lemma_width_floor(old(self)@, d);
        }
    }

    /// Draws from the random source what the next tick needs, in the order
    /// the tick consumes it.
    pub fn draw_tick(&self) -> (d: Draws)
        requires
            self@.wf(),
            self.maxl >= 2,
        ensures
            valid_draws(self@, d),
    {
        let top_left = approach(self.map[0].0, self.next_left);
        let top_right = approach(self.map[0].1, self.next_right);
        let mut d = Draws {
            left_roll: 0,
            left_target: 0,
            right_roll: 0,
            right_target: 0,
            spawn_roll: 0,
            spawn_col: 0,
        };
        if top_left == self.next_left {
            d.left_roll = random_in(0, 10);
            if d.left_roll >= 7 {
                d.left_target = random_in(
                    self.next_left.saturating_sub(5),
                    self.next_left.saturating_add(5),
                );
            }
        }
        if top_right == self.next_right {
            d.right_roll = random_in(0, 10);
            if d.right_roll >= 7 {
                d.right_target = random_in(
                    self.next_right.saturating_sub(5),
                    self.next_right.saturating_add(5),
                );
            }
        }
        d.spawn_roll = random_in(0, 10);
        let hi = self.map[0].1;
        if d.spawn_roll >= 9 && top_left < hi && top_left + 1 < hi {
            d.spawn_col = random_in(top_left + 1, hi);
        }
        d
    }

    /// Advances the world by one tick with fresh random draws.
    pub fn physics(&mut self)
        requires
            old(self)@.wf(),
            old(self).maxl >= 2,
        ensures
            final(self)@.wf(),
            exists|d: Draws| valid_draws(old(self)@, d) && final(self)@ == #[trigger] tick(old(self)@, d),
    {
        let d = self.draw_tick();
        self.physics_with(d);
    }

    /// Advances the world by one tick per entry of `draws`.
    pub fn run_ticks(&mut self, draws: &Vec<Draws>)
        requires
            old(self)@.wf(),
            old(self).maxl >= 2,
        ensures
            final(self)@ == run(old(self)@, draws@),
            final(self)@.wf(),
    {
        let mut i: usize = 0;
        while i < draws.len()
            invariant
                i <= draws@.len(),
                self@.wf(),
                self.maxl >= 2,
                self@ == run(old(self)@, draws@.take(i as int)),
            decreases draws@.len() - i,
        {
            assert(draws@.take(i + 1).drop_last() == draws@.take(i as int));
            self.physics_with(draws[i]);
            i = i + 1;
        }
        assert(draws@.take(draws@.len() as int) == draws@);
    }
}

} // verus!
