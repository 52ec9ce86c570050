//! A transient falling particle, as the collision resolver and the
//! lifecycle reaper see it each tick: world-space position and velocity
//! in fixed-point subcell units, plus the color it will paint with.

use vstd::prelude::*;

use crate::color::QuantizedColor;
use crate::geom::MAX_VEL;

verus! {

/// Position components stay within this bound so that the shift into
/// grid-local coordinates cannot overflow.
pub const MAX_POS: i64 = 0x2000_0000_0000_0000;

/// One live particle's physics sample for a tick. Positions are
/// world-space (origin at the viewport center) in `SCALE` subcell units;
/// the color is the already-quantized paint sample.
#[derive(Clone, Copy, Debug, PartialEq, Eq, Structural)]
pub struct Particle {
    pub x: i64,
    pub y: i64,
    pub vx: i64,
    pub vy: i64,
    pub color: QuantizedColor,
}

impl Particle {
    /// Machine bounds under which the resolver's fixed-point arithmetic
    /// cannot overflow.
    pub open spec fn bounded(&self) -> bool {
        &&& -MAX_POS <= self.x <= MAX_POS
        &&& -MAX_POS <= self.y <= MAX_POS
        &&& -MAX_VEL <= self.vx <= MAX_VEL
        &&& -MAX_VEL <= self.vy <= MAX_VEL
    }

    pub fn new(x: i64, y: i64, vx: i64, vy: i64, color: QuantizedColor) -> (p: Particle)
        ensures
            p == (Particle { x, y, vx, vy, color }),
    {
        Particle { x, y, vx, vy, color }
    }
}

} // verus!
