//! A scrolling-tunnel arcade game: the world, its per-tick physics, the
//! input mapping and the frame layout, each with a verified contract.
mod geometry;
mod input;
mod laws;
mod physics;
mod render;
mod world;

pub use geometry::Location;
pub use input::{intent_of, latest_intent, Intent, Key, KeyStroke};
pub use laws::{
    from_survivor, inside, lemma_hit_enemy_not_drawn, lemma_moves_stay_inside, lemma_replay, lemma_retarget_at_rest,
    lemma_single_projectile, lemma_top_row_drift, lemma_width_floor, wide_enough,
};
pub use physics::{run, tick, valid_draws, Draws};
pub use render::{frame_ops, DrawOp};
pub use world::{Bullet, Enemy, PlayerStatus, World, WorldModel};
