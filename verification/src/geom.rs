//! Direction quantization: deriving a fixed-point unit step from a
//! particle's velocity, via a verified integer square root.

use vstd::prelude::*;

use crate::grid::SCALE;

verus! {

/// Velocity components are kept within this bound so that the squared
/// length fits in 64 bits.
pub const MAX_VEL: i64 = 0x4000_0000;

/// The floor of the square root of `n`.
pub open spec fn sqrt_floor(n: nat) -> nat
    decreases n,
{
    if n == 0 {
        0
    } else {
        let r = sqrt_floor((n - 1) as nat);
        if (r + 1) * (r + 1) <= n {
            r + 1
        } else {
            r
        }
    }
}

/// `sqrt_floor(n)` really brackets `n` between two consecutive squares.
pub proof fn lemma_sqrt_floor_bounds(n: nat)
    ensures
        sqrt_floor(n) * sqrt_floor(n) <= n,
        n < (sqrt_floor(n) + 1) * (sqrt_floor(n) + 1),
    decreases n,
{
    if n == 0 {
        assert(sqrt_floor(n) == 0);
        assert(sqrt_floor(n) * sqrt_floor(n) <= n && n < (sqrt_floor(n) + 1) * (sqrt_floor(n)
            + 1)) by (nonlinear_arith)
            requires
                n == 0,
                sqrt_floor(n) == 0,
        ;
    } else {
        lemma_sqrt_floor_bounds((n - 1) as nat);
        let r = sqrt_floor((n - 1) as nat);
        if (r + 1) * (r + 1) <= n {
            assert(sqrt_floor(n) == r + 1);
            assert(n <= (r + 1) * (r + 1));
            assert((r + 1) * (r + 1) < (r + 2) * (r + 2)) by (nonlinear_arith)
                requires
                    0 <= r,
            ;
            assert(sqrt_floor(n) * sqrt_floor(n) <= n);
            assert(n < (sqrt_floor(n) + 1) * (sqrt_floor(n) + 1));
        } else {
            assert(sqrt_floor(n) == r);
            assert(sqrt_floor(n) * sqrt_floor(n) <= n);
            assert(n < (sqrt_floor(n) + 1) * (sqrt_floor(n) + 1));
        }
    }
}

/// Any value bracketed between the same consecutive squares as
/// `sqrt_floor(n)` is `sqrt_floor(n)`.
pub proof fn lemma_sqrt_floor_unique(n: nat, r: nat)
    requires
        r * r <= n,
        n < (r + 1) * (r + 1),
    ensures
        r == sqrt_floor(n),
{
    lemma_sqrt_floor_bounds(n);
    let s = sqrt_floor(n);
    assert(r == s) by (nonlinear_arith)
        requires
            r * r <= n < (r + 1) * (r + 1),
            s * s <= n < (s + 1) * (s + 1),
    ;
}

/// Computes the floor of the square root by binary search.
pub fn isqrt(n: u64) -> (r: u64)
    ensures
        r == sqrt_floor(n as nat),
        r * r <= n,
        r <= 0xffff_ffff,
{
    let mut lo: u64 = 0;
    let mut hi: u64 = 0xffff_ffff;
    if n < 0xffff_fffe_0000_0001 {
        // Otherwise the root is exactly 0xffff_ffff, the initial `hi`.
        while lo < hi
            invariant
                lo <= hi <= 0xffff_ffff,
                lo * lo <= n,
                n < (hi + 1) * (hi + 1),
            decreases hi - lo,
        {
            let mid = lo + (hi - lo + 1) / 2;
            assert(mid as int * mid as int <= 0xffff_ffff_ffff_ffff) by (nonlinear_arith)
                requires
                    0 <= mid as int <= 0xffff_ffff,
            ;
            let sq = (mid as u128) * (mid as u128);
            if sq <= n as u128 {
                lo = mid;
            } else {
                hi = mid - 1;
            }
        }
    } else {
        proof {
            assert(0xffff_ffffu64 * 0xffff_ffffu64 == 0xffff_fffe_0000_0001) by (nonlinear_arith);
        }
        lo = 0xffff_ffff;
        hi = 0xffff_ffff;
    }
    proof {
        lemma_sqrt_floor_unique(n as nat, lo as nat);
    }
    lo
}

/// Division rounding toward zero, as machine division of signed
/// integers does.
pub open spec fn div_trunc(a: int, b: int) -> int {
    if a >= 0 {
        a / b
    } else {
        -((-a) / b)
    }
}

/// The fixed-point unit step derived from a velocity: the velocity scaled
/// by `SCALE` and divided by the integer length of the vector, or the
/// zero step for the zero velocity (which has no stable direction).
pub open spec fn step_of(vx: int, vy: int) -> (int, int) {
    if vx == 0 && vy == 0 {
        (0, 0)
    } else {
        let len = sqrt_floor((vx * vx + vy * vy) as nat) as int;
        (div_trunc(vx * (SCALE as int), len), div_trunc(vy * (SCALE as int), len))
    }
}

/// Normalizes a velocity into a fixed-point unit step. For a nonzero
/// velocity the step is nonzero, and each component is at most one cell
/// (`SCALE` subcell units) in magnitude.
pub fn step_direction(vx: i64, vy: i64) -> (d: (i64, i64))
    requires
        -MAX_VEL <= vx <= MAX_VEL,
        -MAX_VEL <= vy <= MAX_VEL,
    ensures
        (d.0 as int, d.1 as int) == step_of(vx as int, vy as int),
        -SCALE <= d.0 <= SCALE,
        -SCALE <= d.1 <= SCALE,
        (vx != 0 || vy != 0) ==> (d.0 != 0 || d.1 != 0),
{
    if vx == 0 && vy == 0 {
        (0i64, 0i64)
    } else {
        proof {
            assert(vx * vx <= MAX_VEL * MAX_VEL && vy * vy <= MAX_VEL * MAX_VEL && vx * vx >= 0
                && vy * vy >= 0) by (nonlinear_arith)
                requires
                    -MAX_VEL <= vx <= MAX_VEL,
                    -MAX_VEL <= vy <= MAX_VEL,
            ;
        }
        let sq: u64 = ((vx * vx) as u64) + ((vy * vy) as u64);
        let len = isqrt(sq);
        proof {
            lemma_sqrt_floor_bounds(sq as nat);
            lemma_step_component_bounds(vx as int, vy as int, len as int);
            lemma_scaled_quotient(vx as int, len as int);
            lemma_scaled_quotient(vy as int, len as int);
        }
        let dx = vx * SCALE / (len as i64);
        let dy = vy * SCALE / (len as i64);
        (dx, dy)
    }
}

/// For `1 <= |a| <= len`, the truncated quotient `a * SCALE / len` stays
/// within one cell, and when `2 * |a| >= len` it is nonzero.
proof fn lemma_scaled_quotient(a: int, len: int)
    requires
        -len <= a <= len,
        1 <= len,
    ensures
        -(SCALE as int) <= div_trunc(a * (SCALE as int), len) <= (SCALE as int),
        2 * a >= len ==> div_trunc(a * (SCALE as int), len) >= 1,
        2 * (-a) >= len ==> div_trunc(a * (SCALE as int), len) <= -1,
{
    let s = SCALE as int;
    let m = if a >= 0 { a } else { -a };
    assert(0 <= m * s <= len * s) by (nonlinear_arith)
        requires
            0 <= m <= len,
            0 < s,
    ;
    assert(0 <= (m * s) / len <= s) by (nonlinear_arith)
        requires
            0 <= m * s <= len * s,
            1 <= len,
            0 < s,
    ;
    assert(2 * m >= len ==> (m * s) / len >= s / 2) by (nonlinear_arith)
        requires
            0 <= m,
            1 <= len,
            s == 65536,
    ;
    if a >= 0 {
        assert(div_trunc(a * s, len) == (m * s) / len) by (nonlinear_arith)
            requires
                a == m,
                0 <= m,
                0 < s,
                1 <= len,
        ;
    } else {
        assert(a * s == -(m * s) && a * s < 0 ==> div_trunc(a * s, len) == -((m * s) / len))
            by (nonlinear_arith)
            requires
                1 <= len,
        ;
        assert(a * s == -(m * s) && a * s <= 0) by (nonlinear_arith)
            requires
                m == -a,
                a < 0,
                0 < s,
        ;
        if a * s == 0 {
            assert(m == 0);
        }
    }
}

/// For a nonzero velocity whose integer length is `len`, both components
/// are within `len`, the dominant one is at least half of it, and the
/// scaled products fit comfortably in 64 bits.
proof fn lemma_step_component_bounds(vx: int, vy: int, len: int)
    requires
        !(vx == 0 && vy == 0),
        len * len <= vx * vx + vy * vy,
        vx * vx + vy * vy < (len + 1) * (len + 1),
        vx * vx + vy * vy < 0x1_0000_0000_0000_0000,
    ensures
        1 <= len,
        -len <= vx <= len,
        -len <= vy <= len,
        2 * vx >= len || 2 * (-vx) >= len || 2 * vy >= len || 2 * (-vy) >= len,
        -0x4000_0000_0000_0000 <= vx * (SCALE as int) <= 0x4000_0000_0000_0000,
        -0x4000_0000_0000_0000 <= vy * (SCALE as int) <= 0x4000_0000_0000_0000,
{
    let s = SCALE as int;
    assert(1 <= len) by (nonlinear_arith)
        requires
            !(vx == 0 && vy == 0),
            vx * vx + vy * vy < (len + 1) * (len + 1),
            len * len <= vx * vx + vy * vy,
    ;
    assert(-len <= vx <= len && -len <= vy <= len) by (nonlinear_arith)
        requires
            vx * vx + vy * vy < (len + 1) * (len + 1),
            0 <= len,
    ;
    let mx = if vx >= 0 { vx } else { -vx };
    let my = if vy >= 0 { vy } else { -vy };
    assert(2 * mx >= len || 2 * my >= len) by (nonlinear_arith)
        requires
            mx == (if vx >= 0 { vx } else { -vx }),
            my == (if vy >= 0 { vy } else { -vy }),
            len * len <= vx * vx + vy * vy,
            0 <= len,
    ;
    assert(len <= 0x1_0000_0000) by (nonlinear_arith)
        requires
            len * len <= vx * vx + vy * vy,
            vx * vx + vy * vy < 0x1_0000_0000_0000_0000,
            0 <= len,
    ;
    assert(-0x4000_0000_0000_0000 <= vx * s <= 0x4000_0000_0000_0000 && -0x4000_0000_0000_0000
        <= vy * s <= 0x4000_0000_0000_0000) by (nonlinear_arith)
        requires
            -len <= vx <= len,
            -len <= vy <= len,
            len <= 0x1_0000_0000,
            s == 65536,
    ;
}

} // verus!
