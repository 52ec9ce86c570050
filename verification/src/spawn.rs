//! The spawner: on a trigger, creates a batch of particles around the
//! cursor, each offset a little along its own direction and launched
//! along that direction with a randomized speed. The randomness (unit
//! directions and speed factors) is injected by the caller, so tests can
//! pin outputs deterministically.

use vstd::prelude::*;

use crate::color::QuantizedColor;
use crate::counter::DebugInfo;
use crate::geom::div_trunc;
use crate::geom::MAX_VEL;
use crate::grid::SCALE;
use crate::particle::Particle;
use crate::particle::MAX_POS;

verus! {

/// How many particles one trigger spawns.
pub const BATCH_SIZE: usize = 100;

/// Base speed of a spawned particle, in cells per time unit.
pub const BASE_SPEED: i64 = 500;

/// How far from the trigger point a particle starts, in cells, along
/// its own direction.
pub const SPAWN_OFFSET: i64 = 2;

/// A spawned particle's velocity component: the unit-direction component
/// (in `SCALE` subcell units) times the base speed, scaled by the random
/// speed factor `f` (itself in `SCALE` units, drawn from `[SCALE/2,
/// 3*SCALE/2)`).
pub open spec fn spawn_vel(d: int, f: int) -> int {
    div_trunc(d * (BASE_SPEED as int) * f, SCALE as int)
}

/// Spawns one batch of particles around `(mouse_x, mouse_y)`: particle
/// `k` starts `SPAWN_OFFSET` cells along its unit direction `dirs[k]`
/// and moves along that direction at `BASE_SPEED` scaled by
/// `speed_factors[k]`; the whole batch shares one color. Every creation
/// is recorded in the live-particle counter.
pub fn spawn_batch(
    mouse_x: i64,
    mouse_y: i64,
    color: QuantizedColor,
    dirs: &Vec<(i64, i64)>,
    speed_factors: &Vec<i64>,
    info: &mut DebugInfo,
) -> (batch: Vec<Particle>)
    requires
        dirs@.len() == speed_factors@.len(),
        forall|k: int|
            0 <= k < dirs@.len() ==> -SCALE <= (#[trigger] dirs@[k]).0 <= SCALE && -SCALE
                <= dirs@[k].1 <= SCALE,
        forall|k: int| 0 <= k < speed_factors@.len() ==> 0 <= #[trigger] speed_factors@[k] <= 2
            * SCALE,
        -(MAX_POS - 2 * SCALE) <= mouse_x <= MAX_POS - 2 * SCALE,
        -(MAX_POS - 2 * SCALE) <= mouse_y <= MAX_POS - 2 * SCALE,
        old(info).entity_count + dirs@.len() <= usize::MAX,
    ensures
        batch@.len() == dirs@.len(),
        forall|k: int|
            0 <= k < batch@.len() ==> {
                &&& (#[trigger] batch@[k]).x == mouse_x + SPAWN_OFFSET * dirs@[k].0
                &&& batch@[k].y == mouse_y + SPAWN_OFFSET * dirs@[k].1
                &&& batch@[k].vx == spawn_vel(dirs@[k].0 as int, speed_factors@[k] as int)
                &&& batch@[k].vy == spawn_vel(dirs@[k].1 as int, speed_factors@[k] as int)
                &&& batch@[k].color == color
                &&& batch@[k].bounded()
            },
        final(info).entity_count == old(info).entity_count + dirs@.len(),
        final(info).underflow_flagged == old(info).underflow_flagged,
        final(info).mouse_x == old(info).mouse_x,
        final(info).mouse_y == old(info).mouse_y,
{
    let n = dirs.len();
    let mut batch: Vec<Particle> = Vec::new();
    let mut i: usize = 0;
    while i < n
        invariant
            i <= n,
            n == dirs@.len(),
            n == speed_factors@.len(),
            forall|k: int|
                0 <= k < n ==> -SCALE <= (#[trigger] dirs@[k]).0 <= SCALE && -SCALE
                    <= dirs@[k].1 <= SCALE,
            forall|k: int| 0 <= k < n ==> 0 <= #[trigger] speed_factors@[k] <= 2 * SCALE,
            -(MAX_POS - 2 * SCALE) <= mouse_x <= MAX_POS - 2 * SCALE,
            -(MAX_POS - 2 * SCALE) <= mouse_y <= MAX_POS - 2 * SCALE,
            batch@.len() == i,
            forall|k: int|
                0 <= k < i ==> {
                    &&& (#[trigger] batch@[k]).x == mouse_x + SPAWN_OFFSET * dirs@[k].0
                    &&& batch@[k].y == mouse_y + SPAWN_OFFSET * dirs@[k].1
                    &&& batch@[k].vx == spawn_vel(dirs@[k].0 as int, speed_factors@[k] as int)
                    &&& batch@[k].vy == spawn_vel(dirs@[k].1 as int, speed_factors@[k] as int)
                    &&& batch@[k].color == color
                    &&& batch@[k].bounded()
                },
        decreases n - i,
    {
        let (dx, dy) = dirs[i];
        let f = speed_factors[i];
        let x = mouse_x + SPAWN_OFFSET * dx;
        let y = mouse_y + SPAWN_OFFSET * dy;
        proof {
            lemma_spawn_vel_bounded(dx as int, f as int);
            lemma_spawn_vel_bounded(dy as int, f as int);
        }
        let vx = dx * BASE_SPEED * f / SCALE;
        let vy = dy * BASE_SPEED * f / SCALE;
        batch.push(Particle { x, y, vx, vy, color });
        i = i + 1;
    }
    info.record_spawned(n);
    batch
}

/// The scaled velocity product stays far inside the particle velocity
/// bound: at most `BASE_SPEED * 2 * SCALE` in magnitude.
proof fn lemma_spawn_vel_bounded(d: int, f: int)
    requires
        -SCALE <= d <= SCALE,
        0 <= f <= 2 * SCALE,
    ensures
        -0x3_0000_0000_0000 <= d * (BASE_SPEED as int) <= 0x3_0000_0000_0000,
        -0x4000_0000_0000_0000 <= d * (BASE_SPEED as int) * f <= 0x4000_0000_0000_0000,
        -MAX_VEL <= spawn_vel(d, f) <= MAX_VEL,
{
    let s = SCALE as int;
    let b = BASE_SPEED as int;
    assert(-(s * b) <= d * b <= s * b && s * b <= 0x3_0000_0000_0000) by (nonlinear_arith)
        requires
            -s <= d <= s,
            s == 65536,
            b == 500,
    ;
    assert(-(s * b * 2 * s) <= d * b * f <= s * b * 2 * s && s * b * 2 * s
        <= 0x4000_0000_0000_0000) by (nonlinear_arith)
        requires
            -(s * b) <= d * b <= s * b,
            0 <= f <= 2 * s,
            s == 65536,
            b == 500,
    ;
    assert(-(2 * s * b) <= div_trunc(d * b * f, s) <= 2 * s * b && 2 * s * b <= MAX_VEL)
        by (nonlinear_arith)
        requires
            -(s * b * 2 * s) <= d * b * f <= s * b * 2 * s,
            s == 65536,
            b == 500,
            MAX_VEL == 0x4000_0000,
    ;
}

} // verus!
