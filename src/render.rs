use crate::world::{Bullet, Enemy, World, WorldModel};
use vstd::prelude::*;

verus! {

/// Write `len` copies of `glyph` from column `col` of row `row`.
#[derive(Clone, Copy, Debug, PartialEq, Eq, Structural)]
pub struct DrawOp {
    pub col: u16,
    pub row: u16,
    pub glyph: char,
    pub len: u16,
}

/// For row `r`: the left wall from column 0, then the right wall up to the
/// last column.
pub open spec fn wall_op(w: WorldModel, r: int, left: bool) -> DrawOp {
    let (lw, rw) = w.map[r];
    if left {
        DrawOp { col: 0, row: r as u16, glyph: '*', len: lw }
    } else {
        DrawOp { col: rw, row: r as u16, glyph: '*', len: if w.maxc >= rw { (w.maxc - rw) as u16 } else { 0 } }
    }
}

pub open spec fn wall_ops(w: WorldModel) -> Seq<DrawOp> {
    Seq::new(2 * w.map.len(), |i: int| wall_op(w, i / 2, i % 2 == 0))
}

pub open spec fn enemy_op(e: Enemy) -> DrawOp {
    DrawOp { col: e.location.c, row: e.location.l, glyph: 'E', len: 1 }
}

pub open spec fn bullet_op(b: Bullet) -> DrawOp {
    DrawOp { col: b.location.c, row: b.location.l, glyph: '^', len: 1 }
}

pub open spec fn enemy_ops(w: WorldModel) -> Seq<DrawOp> {
    w.enemies.map_values(|e: Enemy| enemy_op(e))
}

pub open spec fn bullet_ops(w: WorldModel) -> Seq<DrawOp> {
    w.bullets.map_values(|b: Bullet| bullet_op(b))
}

pub open spec fn player_op(w: WorldModel) -> DrawOp {
    DrawOp { col: w.player.c, row: w.player.l, glyph: w.ship, len: 1 }
}

/// A full frame after clearing the screen: walls, enemies, projectiles, and
/// the player last, on top of everything else.
pub open spec fn frame_ops(w: WorldModel) -> Seq<DrawOp> {
    wall_ops(w) + enemy_ops(w) + bullet_ops(w) + seq![player_op(w)]
}

impl World {
    /// The frame that shows this world.
    pub fn frame(&self) -> (ops: Vec<DrawOp>)
        requires
            self@.wf(),
        ensures
            ops@ == frame_ops(self@),
    {
        let ghost w = self@;
        let mut ops: Vec<DrawOp> = Vec::new();
        let mut l: usize = 0;
        while l < self.map.len()
            invariant
                w == self@,
                w.wf(),
                l <= w.map.len(),
                ops@.len() == 2 * l,
                forall|k: int| 0 <= k < ops@.len() ==> ops@[k] == frame_ops(w)[k],
            decreases w.map.len() - l,
        {
            let (lw, rw) = self.map[l];
            ops.push(DrawOp { col: 0, row: l as u16, glyph: '*', len: lw });
            ops.push(DrawOp { col: rw, row: l as u16, glyph: '*', len: self.maxc.saturating_sub(rw) });
            assert(2 * l / 2 == l && (2 * l) % 2 == 0) by (nonlinear_arith);
            assert((2 * l + 1) / 2 == l && (2 * l + 1) % 2 == 1) by (nonlinear_arith);
            l = l + 1;
        }
        let base = ops.len();
        let mut i: usize = 0;
        while i < self.enemy.len()
            invariant
                w == self@,
                base == wall_ops(w).len(),
                i <= w.enemies.len(),
                ops@.len() == base + i,
                forall|k: int| 0 <= k < ops@.len() ==> ops@[k] == frame_ops(w)[k],
            decreases w.enemies.len() - i,
        {
            let e = self.enemy[i];
            ops.push(DrawOp { col: e.location.c, row: e.location.l, glyph: 'E', len: 1 });
            i = i + 1;
        }
        let base = ops.len();
        let mut j: usize = 0;
        while j < self.bullet.len()
            invariant
                w == self@,
                base == wall_ops(w).len() + enemy_ops(w).len(),
                j <= w.bullets.len(),
                ops@.len() == base + j,
                forall|k: int| 0 <= k < ops@.len() ==> ops@[k] == frame_ops(w)[k],
            decreases w.bullets.len() - j,
        {
            let b = self.bullet[j];
            ops.push(DrawOp { col: b.location.c, row: b.location.l, glyph: '^', len: 1 });
            j = j + 1;
        }
        ops.push(DrawOp { col: self.player_location.c, row: self.player_location.l, glyph: self.ship, len: 1 });
        assert(ops@ == frame_ops(w));
        ops
    }
}

} // verus!
