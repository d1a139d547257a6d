//! Fixed-point scalar model shared by the physics engine.
//!
//! Lengths, times, speeds and accelerations are integers counting steps of
//! `1 / ONE` of a world unit. Masses are whole positive integers.
use vstd::prelude::*;

verus! {

/// Number of fixed-point steps in one world unit.
pub const ONE: i64 = 65536;

/// Largest magnitude of a position coordinate, in fixed-point steps.
pub const MAX_COORDINATE: i64 = 70368744177664;

/// Largest magnitude of a velocity component, in fixed-point steps.
pub const MAX_SPEED: i64 = 70368744177664;

/// Largest mass a body may have.
pub const MAX_MASS: u64 = 16777216;

/// Longest time step that one tick may advance, in fixed-point steps.
pub const MAX_STEP: u32 = 1048576;

/// Gravitational constant in world units.
pub const GRAVITATIONAL_CONSTANT: u64 = 6740;

/// Distance below which the force law uses this distance instead, so that
/// the force between close bodies stays finite.
pub const MIN_DISTANCE: i64 = 65536;

/// `v` limited to `[-limit, limit]`.
pub open spec fn clamp(v: int, limit: int) -> int {
    if v > limit {
        limit
    } else if v < -limit {
        -limit
    } else {
        v
    }
}

/// Division rounding toward zero, as Rust's `/` does on signed integers.
pub open spec fn div_trunc(a: int, d: int) -> int {
    if a >= 0 {
        a / d
    } else {
        -((-a) / d)
    }
}

pub open spec fn abs(a: int) -> int {
    if a >= 0 {
        a
    } else {
        -a
    }
}

/// The largest `r <= top` with `r * r <= n`.
pub open spec fn sqrt_below(n: nat, top: nat) -> nat
    decreases top,
{
    if top * top <= n || top == 0 {
        top
    } else {
        sqrt_below(n, (top - 1) as nat)
    }
}

/// The integer square root of `n`, rounded down.
pub open spec fn floor_sqrt(n: nat) -> nat {
    sqrt_below(n, n)
}

proof fn lemma_sqrt_below(n: nat, top: nat, r: nat)
    requires
        r * r <= n < (r + 1) * (r + 1),
        r <= top,
    ensures
        sqrt_below(n, top) == r,
    decreases top,
{
    if top * top <= n {
        if top > r {
            assert((r + 1) * (r + 1) <= top * top) by (nonlinear_arith)
                requires
                    r + 1 <= top,
            ;
        }
    } else {
        assert(top != r);
        if top > 0 {
            lemma_sqrt_below(n, (top - 1) as nat, r);
        }
    }
}

/// A root `r` with `r * r <= n < (r + 1) * (r + 1)` is the integer square root.
pub proof fn lemma_floor_sqrt_unique(n: nat, r: nat)
    requires
        r * r <= n < (r + 1) * (r + 1),
    ensures
        floor_sqrt(n) == r,
{
    assert(r <= n) by (nonlinear_arith)
        requires
            r * r <= n,
    ;
    lemma_sqrt_below(n, n, r);
}

/// Integer square root, rounded down.
pub fn isqrt(n: u128) -> (r: u128)
    requires
        n < 0x1_0000_0000_0000_0000_0000_0000,
    ensures
        r == floor_sqrt(n as nat),
        r * r <= n < (r + 1) * (r + 1),
{
    let mut lo: u128 = 0;
    let mut hi: u128 = 0x1_0000_0000_0000;
    assert(hi * hi == 0x1_0000_0000_0000_0000_0000_0000) by (nonlinear_arith)
        requires
            hi == 0x1_0000_0000_0000,
    ;
    while hi - lo > 1
        invariant
            lo < hi <= 0x1_0000_0000_0000,
            lo * lo <= n < hi * hi,
        decreases hi - lo,
    {
        let mid: u128 = lo + (hi - lo) / 2;
        assert(mid * mid <= 0x1_0000_0000_0000_0000_0000_0000) by (nonlinear_arith)
            requires
                mid <= 0x1_0000_0000_0000,
        ;
        if mid * mid <= n {
            lo = mid;
        } else {
            hi = mid;
        }
    }
    assert(hi == lo + 1);
    proof {
        lemma_floor_sqrt_unique(n as nat, lo as nat);
    }
    lo
}

} // verus!
