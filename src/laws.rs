use crate::input::{applied, Intent};
use crate::physics::{
    advance, advanced, fly, hit_by_any, run, sat_add, sat_sub, spawned, spawns, step_toward,
    survivors, tick, valid_draws, widened, Draws,
};
use crate::render::{bullet_ops, enemy_op, enemy_ops, frame_ops, player_op, wall_ops};
use crate::world::{Bullet, Enemy, WorldModel};
use vstd::prelude::*;

verus! {

/// Every row of the map leaves at least three columns between its walls.
pub open spec fn wide_enough(map: Seq<(u16, u16)>) -> bool {
    forall|i: int| 0 <= i < map.len() ==> #[trigger] map[i].1 >= map[i].0 + 3
}

/// The player stands strictly inside the screen on both axes.
pub open spec fn inside(w: WorldModel) -> bool {
    &&& 1 <= w.player.l && w.player.l + 1 <= w.maxl
    &&& 1 <= w.player.c && w.player.c + 1 <= w.maxc
}

/// Width floor: a tick keeps every row at least three columns wide and the
/// right target at least three columns right of the left one, so from
/// `World::new` on this holds after every tick.
pub proof fn lemma_width_floor(w: WorldModel, d: Draws)
    requires
        w.wf(),
    ensures
        wide_enough(tick(w, d).map),
        tick(w, d).next_right >= tick(w, d).next_left + 3,
        tick(w, d).wf(),
{
    let m = tick(w, d).map;
    assert forall|i: int| 0 <= i < m.len() implies #[trigger] m[i].1 >= m[i].0 + 3 by {
        if i > 0 {
            assert(m[i] == w.map[i - 1]);
        } else {
            assert(w.map[0].1 >= w.map[0].0 + 3);
        }
    }
}

/// The top row moves each wall by at most one unit, toward its target, and
/// a wall that sits on its target stays there.
pub proof fn lemma_top_row_drift(w: WorldModel, d: Draws)
    requires
        w.wf(),
    ensures
        ({
            let (l0, r0) = w.map[0];
            let (l1, r1) = tick(w, d).map[0];
            &&& l1 == step_toward(l0, w.next_left)
            &&& r1 == step_toward(r0, w.next_right)
            &&& l0 <= w.next_left ==> l0 <= l1 <= w.next_left && l1 <= l0 + 1
            &&& l0 >= w.next_left ==> w.next_left <= l1 <= l0 && l0 <= l1 + 1
            &&& r0 <= w.next_right ==> r0 <= r1 <= w.next_right && r1 <= r0 + 1
            &&& r0 >= w.next_right ==> w.next_right <= r1 <= r0 && r0 <= r1 + 1
            &&& l0 == w.next_left ==> l1 == l0
            &&& r0 == w.next_right ==> r1 == r0
        }),
{
}

/// A target is replaced only when the top row's wall has reached it, and a
/// new left target lies within five columns of the old one; the right
/// target otherwise changes only by the width floor's push.
pub proof fn lemma_retarget_at_rest(w: WorldModel, d: Draws)
    requires
        w.wf(),
    ensures
        tick(w, d).next_left != w.next_left ==> tick(w, d).map[0].0 == w.next_left,
        valid_draws(w, d) && tick(w, d).next_left != w.next_left ==> sat_sub(w.next_left, 5)
            <= tick(w, d).next_left < sat_add(w.next_left, 5),
        tick(w, d).map[0].1 != w.next_right ==> tick(w, d).next_right == widened(
            tick(w, d).next_left,
            w.next_right,
        ),
{
}

/// At most one projectile is ever in flight: a shot while one flies changes
/// nothing, and neither a shot nor a tick takes the count above one.
pub proof fn lemma_single_projectile(w: WorldModel, i: Intent, d: Draws)
    requires
        w.bullets.len() <= 1,
    ensures
        applied(w, i).bullets.len() <= 1,
        tick(w, d).bullets.len() <= 1,
        w.bullets.len() == 1 ==> applied(w, Intent::Fire) == w,
{
    let f = |b: Bullet| fly(b);
    if w.bullets.len() == 1 {
        assert(w.bullets.drop_last().filter_map(f).len() == 0);
    }
}

/// An enemy of the world after a tick that comes from an enemy of `w` that no
/// projectile hit, moved one row down.
pub open spec fn from_survivor(w: WorldModel, x: Enemy) -> bool {
    exists|e: Enemy|
        #[trigger] w.enemies.contains(e) && !hit_by_any(w.bullets, e) && advance(e, w.maxl) == Some(x)
}

/// A projectile's victim is never drawn again: the enemies of the frame after
/// a tick are those of the world, and each is either the one that appeared at
/// the top or an enemy of the world before the tick that no projectile hit,
/// one row lower; no other drawing in the frame shows an enemy.
pub proof fn lemma_hit_enemy_not_drawn(w: WorldModel, d: Draws)
    requires
        w.wf(),
        w.maxl >= 2,
    ensures
        forall|k: int|
            0 <= k < tick(w, d).enemies.len() ==> (spawns(tick(w, d).map, d) && k == tick(w, d).enemies.len()
                - 1 && tick(w, d).enemies[k] == spawned(d)) || from_survivor(
                w,
                #[trigger] tick(w, d).enemies[k],
            ),
        enemy_ops(tick(w, d)) == tick(w, d).enemies.map_values(|e: Enemy| enemy_op(e)),
        enemy_ops(tick(w, d)) == frame_ops(tick(w, d)).subrange(
            2 * w.map.len() as int,
            2 * w.map.len() + tick(w, d).enemies.len() as int,
        ),
        forall|k: int|
            0 <= k < frame_ops(tick(w, d)).len() && (#[trigger] frame_ops(tick(w, d))[k]).glyph == 'E'
                ==> 2 * w.map.len() <= k < 2 * w.map.len() + tick(w, d).enemies.len(),
{
    let t = tick(w, d);
    let s = survivors(w.enemies, w.bullets);
    let pred = |e: Enemy| !hit_by_any(w.bullets, e);
    let f = |e: Enemy| advance(e, w.maxl);
    let moved = advanced(s, w.maxl);
    assert forall|k: int| 0 <= k < t.enemies.len() implies (spawns(t.map, d) && k == t.enemies.len() - 1
        && t.enemies[k] == spawned(d)) || from_survivor(w, #[trigger] t.enemies[k]) by {
        if k < moved.len() {
            let x = moved[k];
            assert(t.enemies[k] == x);
            assert(moved.contains(x));
            s.lemma_filter_map_contains(f, x);
            let e = choose|e: Enemy| #[trigger] s.contains(e) && f(e) == Some(x);
            w.enemies.lemma_filter_contains_rev(pred, e);
            let j = choose|j: int| 0 <= j < s.len() && s[j] == e;
            w.enemies.lemma_filter_pred(pred, j);
            assert(w.enemies.contains(e) && !hit_by_any(w.bullets, e) && advance(e, w.maxl) == Some(x));
        }
    }
    let n = 2 * w.map.len();
    assert forall|k: int| 0 <= k < frame_ops(t).len() && (#[trigger] frame_ops(t)[k]).glyph == 'E'
        implies n <= k < n + t.enemies.len() by {
        if k < n {
            assert(frame_ops(t)[k] == wall_ops(t)[k]);
        } else if k >= n + t.enemies.len() {
            if k < n + t.enemies.len() + t.bullets.len() {
                assert(frame_ops(t)[k] == bullet_ops(t)[k - n - t.enemies.len()]);
            } else {
                assert(frame_ops(t)[k] == player_op(t));
            }
        }
    }
    assert(enemy_ops(t) =~= frame_ops(t).subrange(
        2 * w.map.len() as int,
        2 * w.map.len() + t.enemies.len() as int,
    ));
}

/// A move never takes the player out of the screen: from inside, every
/// intent leaves the player inside.
pub proof fn lemma_moves_stay_inside(w: WorldModel, i: Intent)
    requires
        inside(w),
    ensures
        inside(applied(w, i)),
{
}

/// Replaying the same draws reproduces the same world, and a run of ticks
/// splits at any point into two runs.
pub proof fn lemma_replay(w: WorldModel, ds1: Seq<Draws>, ds2: Seq<Draws>)
    ensures
        run(w, ds1 + ds2) == run(run(w, ds1), ds2),
    decreases ds2.len(),
{
    if ds2.len() == 0 {
        assert(ds1 + ds2 == ds1);
    } else {
        lemma_replay(w, ds1, ds2.drop_last());
        assert((ds1 + ds2).drop_last() == ds1 + ds2.drop_last());
    }
}

} // verus!
