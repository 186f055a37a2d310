//! Random draws for the enemy spawner.
use crate::motion::UNIT;
use crate::rules::{EnemyDraw, SPAWN_EXTENT};
use vstd::prelude::*;

verus! {

/// Relies on `rand::Rng::gen_range` over `rand::thread_rng()`: for an integer
/// range `lo..hi` with `lo < hi` it returns a value in `[lo, hi)`; it panics
/// only on an empty range, which `requires` rules out.
#[verifier::external_body]
fn random_in(lo: i64, hi: i64) -> (r: i64)
    requires
        lo < hi,
    ensures
        lo <= r < hi,
{
    rand::Rng::gen_range(&mut rand::thread_rng(), lo..hi)
}

/// Draws the values a new enemy is made from, each uniformly from its range.
pub fn draw_enemy() -> (r: EnemyDraw)
    ensures
        r.wf(),
{
    EnemyDraw {
        x: random_in(-SPAWN_EXTENT, SPAWN_EXTENT),
        y: random_in(-SPAWN_EXTENT, SPAWN_EXTENT),
        vx: random_in(-UNIT, UNIT),
        vy: random_in(-UNIT, UNIT),
        ax: random_in(-UNIT, UNIT),
        ay: random_in(-UNIT, UNIT),
    }
}

} // verus!
