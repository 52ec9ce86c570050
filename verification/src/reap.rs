//! The lifecycle reaper: once per frame, particles whose position lies
//! outside the viewport rectangle are removed, independently of ground
//! contact, so that particles that never hit ground cannot accumulate.

use vstd::prelude::*;

use crate::counter::DebugInfo;
use crate::grid::MAX_DIM;
use crate::grid::SCALE;
use crate::particle::Particle;

verus! {

/// Whether a particle's world position lies outside the viewport
/// rectangle, tested independently against each of the four edges,
/// symmetric around the origin at half the viewport width and height.
pub open spec fn outside_viewport(width: int, height: int, p: Particle) -> bool {
    let half_w = width * ((SCALE as int) / 2);
    let half_h = height * ((SCALE as int) / 2);
    ||| p.y < -half_h
    ||| p.y > half_h
    ||| p.x < -half_w
    ||| p.x > half_w
}

/// Tests one particle against the viewport rectangle.
pub fn out_of_viewport(p: &Particle, width: usize, height: usize) -> (r: bool)
    requires
        width <= MAX_DIM,
        height <= MAX_DIM,
    ensures
        r == outside_viewport(width as int, height as int, *p),
{
    let half_w = (width as i64) * (SCALE / 2);
    let half_h = (height as i64) * (SCALE / 2);
    p.y < -half_h || p.y > half_h || p.x < -half_w || p.x > half_w
}

/// Removes every particle that has left the viewport, keeping the rest
/// in their original order; every removal is recorded in the
/// live-particle counter, clamped at zero.
pub fn reap(particles: &Vec<Particle>, width: usize, height: usize, info: &mut DebugInfo) -> (kept:
    Vec<Particle>)
    requires
        width <= MAX_DIM,
        height <= MAX_DIM,
    ensures
        kept@ == particles@.filter(
            |p: Particle| !outside_viewport(width as int, height as int, p),
        ),
        ({
            let k = particles@.len() - kept@.len();
            &&& (old(info).entity_count >= k ==> final(info).entity_count == old(
                info,
            ).entity_count - k && final(info).underflow_flagged == old(info).underflow_flagged)
            &&& (old(info).entity_count < k ==> final(info).entity_count == 0
                && final(info).underflow_flagged)
        }),
        final(info).mouse_x == old(info).mouse_x,
        final(info).mouse_y == old(info).mouse_y,
{
    let ghost pred = |p: Particle| !outside_viewport(width as int, height as int, p);
    let ghost count0 = old(info).entity_count as int;
    let ghost flag0 = old(info).underflow_flagged;
    let mut kept: Vec<Particle> = Vec::new();
    let n = particles.len();
    let mut i: usize = 0;
    proof {
        reveal(Seq::filter);
        assert(particles@.take(0) =~= Seq::<Particle>::empty());
    }
    while i < n
        invariant
            i <= n,
            n == particles@.len(),
            kept@ == particles@.take(i as int).filter(pred),
            kept@.len() <= i,
            pred == (|p: Particle| !outside_viewport(width as int, height as int, p)),
            width <= MAX_DIM,
            height <= MAX_DIM,
            count0 >= i - kept@.len() ==> info.entity_count == count0 - (i - kept@.len())
                && info.underflow_flagged == flag0,
            count0 < i - kept@.len() ==> info.entity_count == 0 && info.underflow_flagged,
            info.mouse_x == old(info).mouse_x,
            info.mouse_y == old(info).mouse_y,
        decreases n - i,
    {
        let p = particles[i];
        proof {
            reveal(Seq::filter);
            assert(particles@.take(i as int + 1).drop_last() =~= particles@.take(i as int));
            assert(particles@.take(i as int + 1).last() == particles@[i as int]);
        }
        if out_of_viewport(&p, width, height) {
            info.record_removal();
        } else {
            kept.push(p);
        }
        i = i + 1;
    }
    proof {
        assert(particles@.take(n as int) =~= particles@);
    }
    kept
}

} // verus!
