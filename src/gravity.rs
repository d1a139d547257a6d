//! The pairwise force law and the acceleration it contributes.
use crate::fixed::{
    abs, div_trunc, floor_sqrt, isqrt, GRAVITATIONAL_CONSTANT, MAX_COORDINATE, MAX_MASS, MAX_STEP,
    MIN_DISTANCE, ONE,
};
use crate::physics::Vector;
use vstd::arithmetic::div_mod::{
    lemma_div_by_multiple, lemma_div_is_ordered, lemma_div_is_ordered_by_denominator,
};
use vstd::prelude::*;

verus! {

/// A mass that a body may carry.
pub open spec fn valid_mass(m: int) -> bool {
    1 <= m <= MAX_MASS
}

/// A position within the representable world.
pub open spec fn valid_position(p: Vector) -> bool {
    abs(p.x as int) <= MAX_COORDINATE && abs(p.y as int) <= MAX_COORDINATE
}

/// Distance used by the force law: the true distance, but never less than
/// `MIN_DISTANCE`.
pub open spec fn clamped_distance(len: int) -> int {
    if len < MIN_DISTANCE {
        MIN_DISTANCE as int
    } else {
        len
    }
}

/// Magnitude of the attraction between masses `ma` and `mb` at distance
/// `dist`, all in fixed-point steps: `G * ma * mb / dist^2`.
pub open spec fn force_magnitude(ma: int, mb: int, dist: int) -> int {
    (GRAVITATIONAL_CONSTANT * ma * mb * (ONE * ONE * ONE)) / (dist * dist)
}

/// Length of the vector `(dx, dy)`, rounded down.
pub open spec fn length(dx: int, dy: int) -> int {
    floor_sqrt((dx * dx + dy * dy) as nat) as int
}

/// Force that a body of mass `mb` at `pb` exerts on a body of mass `ma` at `pa`:
/// the magnitude along the unit direction from `pa` to `pb`. Coincident bodies
/// exert no force on each other.
pub open spec fn pair_force(ma: int, pa: Vector, mb: int, pb: Vector) -> (int, int) {
    let dx = pb.x - pa.x;
    let dy = pb.y - pa.y;
    let len = length(dx, dy);
    let q = force_magnitude(ma, mb, clamped_distance(len));
    if len == 0 {
        (0, 0)
    } else {
        (div_trunc(q * dx, len), div_trunc(q * dy, len))
    }
}

/// Change of velocity over a step `dt` that a force component `f` causes on mass `m`.
pub open spec fn accel_from_force(f: int, m: int, dt: int) -> int {
    div_trunc(dt * f, ONE * m)
}

/// Upper bound on one force component between masses `ma` and `mb`.
pub open spec fn force_cap(ma: int, mb: int) -> int {
    GRAVITATIONAL_CONSTANT * ma * mb * ONE
}

/// Upper bound on the velocity change that one pair contributes in one tick.
pub open spec fn delta_cap() -> int {
    GRAVITATIONAL_CONSTANT * MAX_MASS * MAX_STEP
}

pub proof fn lemma_div_trunc_neg(a: int, d: int)
    requires
        d > 0,
    ensures
        div_trunc(-a, d) == -div_trunc(a, d),
{
}

/// `div_trunc(k * s, d)` for `k >= 0` is the quotient of magnitudes with the sign of `s`.
pub proof fn lemma_div_trunc_scaled(k: int, s: int, d: int)
    requires
        k >= 0,
        d > 0,
    ensures
        div_trunc(k * s, d) == if s >= 0 {
            (k * abs(s)) / d
        } else {
            -((k * abs(s)) / d)
        },
{
    if s >= 0 {
        assert(k * s >= 0) by (nonlinear_arith)
            requires
                k >= 0,
                s >= 0,
        ;
    } else {
        assert(k * s == -(k * (-s))) by (nonlinear_arith);
        assert(k * (-s) >= 0) by (nonlinear_arith)
            requires
                k >= 0,
                s < 0,
        ;
        if k * (-s) == 0 {
            assert(0int / d == 0);
        }
    }
}

/// Newton's third law for the force law: the force on `a` from `b` is the
/// exact negation of the force on `b` from `a`.
pub proof fn lemma_pair_force_antisymmetric(ma: int, pa: Vector, mb: int, pb: Vector)
    ensures
        pair_force(mb, pb, ma, pa) == (
            -pair_force(ma, pa, mb, pb).0,
            -pair_force(ma, pa, mb, pb).1,
        ),
{
    let dx = pb.x - pa.x;
    let dy = pb.y - pa.y;
    assert((-dx) * (-dx) == dx * dx) by (nonlinear_arith);
    assert((-dy) * (-dy) == dy * dy) by (nonlinear_arith);
    assert(pa.x - pb.x == -dx);
    assert(pa.y - pb.y == -dy);
    let len = length(dx, dy);
    assert(length(-dx, -dy) == len);
    let c = clamped_distance(len);
    assert(GRAVITATIONAL_CONSTANT * mb * ma * (ONE * ONE * ONE) == GRAVITATIONAL_CONSTANT * ma
        * mb * (ONE * ONE * ONE)) by (nonlinear_arith);
    let q = force_magnitude(ma, mb, c);
    assert(force_magnitude(mb, ma, c) == q);
    if len != 0 {
        assert(q * (-dx) == -(q * dx)) by (nonlinear_arith);
        assert(q * (-dy) == -(q * dy)) by (nonlinear_arith);
        lemma_div_trunc_neg(q * dx, len);
        lemma_div_trunc_neg(q * dy, len);
    }
}

proof fn lemma_component_le_length(a: int, b: int, len: int)
    requires
        a * a + b * b < (len + 1) * (len + 1),
        len >= 0,
    ensures
        abs(a) <= len,
{
    assert(abs(a) * abs(a) == a * a) by (nonlinear_arith);
    assert(b * b >= 0) by (nonlinear_arith);
    if abs(a) > len {
        assert(abs(a) * abs(a) >= (len + 1) * (len + 1)) by (nonlinear_arith)
            requires
                abs(a) >= len + 1,
                len >= 0,
        ;
    }
}

/// Each component of the pair force is at most `force_cap`.
pub proof fn lemma_pair_force_bounded(ma: int, pa: Vector, mb: int, pb: Vector)
    requires
        valid_mass(ma),
        valid_mass(mb),
    ensures
        abs(pair_force(ma, pa, mb, pb).0) <= force_cap(ma, mb),
        abs(pair_force(ma, pa, mb, pb).1) <= force_cap(ma, mb),
{
    let dx = pb.x - pa.x;
    let dy = pb.y - pa.y;
    let len = length(dx, dy);
    if len != 0 {
        let c = clamped_distance(len);
        let q = force_magnitude(ma, mb, c);
        lemma_force_magnitude_bounded(ma, mb, c);
        let n = (dx * dx + dy * dy) as nat;
        assert(dx * dx >= 0 && dy * dy >= 0) by (nonlinear_arith);
        lemma_floor_sqrt_bounds(n);
        lemma_component_le_length(dx, dy, len);
        lemma_component_le_length(dy, dx, len);
        lemma_scaled_quotient_le(q, abs(dx), len);
        lemma_scaled_quotient_le(q, abs(dy), len);
        lemma_div_trunc_scaled(q, dx, len);
        lemma_div_trunc_scaled(q, dy, len);
    }
}

/// `(q * a) / len <= q` when `0 <= a <= len`.
proof fn lemma_scaled_quotient_le(q: int, a: int, len: int)
    requires
        q >= 0,
        0 <= a <= len,
        len > 0,
    ensures
        0 <= (q * a) / len <= q,
{
    assert(0 <= q * a <= q * len) by (nonlinear_arith)
        requires
            q >= 0,
            0 <= a <= len,
    ;
    lemma_div_is_ordered(q * a, q * len, len);
    lemma_div_is_ordered(0, q * a, len);
    lemma_div_by_multiple(q, len);
}

proof fn lemma_force_magnitude_bounded(ma: int, mb: int, c: int)
    requires
        valid_mass(ma),
        valid_mass(mb),
        c >= MIN_DISTANCE,
    ensures
        0 <= force_magnitude(ma, mb, c) <= force_cap(ma, mb),
{
    let b = GRAVITATIONAL_CONSTANT * ma * mb * ONE;
    let num = GRAVITATIONAL_CONSTANT * ma * mb * (ONE * ONE * ONE);
    assert(num == b * (ONE * ONE)) by (nonlinear_arith)
        requires
            b == GRAVITATIONAL_CONSTANT * ma * mb * ONE,
            num == GRAVITATIONAL_CONSTANT * ma * mb * (ONE * ONE * ONE),
    ;
    assert(b >= 0) by (nonlinear_arith)
        requires
            ma >= 1,
            mb >= 1,
            b == 6740 * ma * mb * 65536,
    ;
    assert(ONE * ONE <= c * c) by (nonlinear_arith)
        requires
            c >= ONE,
    ;
    lemma_div_is_ordered_by_denominator(num, ONE * ONE, c * c);
    lemma_div_by_multiple(b, ONE * ONE);
    lemma_div_is_ordered(0, num, c * c);
}

pub proof fn lemma_floor_sqrt_bounds(n: nat)
    ensures
        floor_sqrt(n) * floor_sqrt(n) <= n < (floor_sqrt(n) + 1) * (floor_sqrt(n) + 1),
{
    assert(n < (n + 1) * (n + 1)) by (nonlinear_arith);
    lemma_sqrt_below_bounds(n, n);
}

proof fn lemma_sqrt_below_bounds(n: nat, top: nat)
    requires
        n < (top + 1) * (top + 1),
    ensures
        crate::fixed::sqrt_below(n, top) * crate::fixed::sqrt_below(n, top) <= n < (
        crate::fixed::sqrt_below(n, top) + 1) * (crate::fixed::sqrt_below(n, top) + 1),
    decreases top,
{
    if top * top <= n || top == 0 {
    } else {
        lemma_sqrt_below_bounds(n, (top - 1) as nat);
    }
}

/// The velocity change from a force component of at most `force_cap(m, mo)` is
/// at most `delta_cap()`.
pub proof fn lemma_accel_bounded(f: int, m: int, mo: int, dt: int)
    requires
        valid_mass(m),
        valid_mass(mo),
        0 <= dt <= MAX_STEP,
        abs(f) <= force_cap(m, mo),
    ensures
        abs(accel_from_force(f, m, dt)) <= delta_cap(),
{
    let den = ONE * m;
    let cap = GRAVITATIONAL_CONSTANT * mo * dt;
    lemma_div_trunc_scaled(dt, f, den);
    assert(0 <= dt * abs(f) <= cap * den) by (nonlinear_arith)
        requires
            0 <= dt,
            abs(f) <= GRAVITATIONAL_CONSTANT * m * mo * ONE,
            den == ONE * m,
            cap == GRAVITATIONAL_CONSTANT * mo * dt,
    ;
    assert(cap >= 0 && cap <= delta_cap()) by (nonlinear_arith)
        requires
            0 <= dt <= MAX_STEP,
            1 <= mo <= MAX_MASS,
            cap == GRAVITATIONAL_CONSTANT * mo * dt,
    ;
    lemma_div_is_ordered(dt * abs(f), cap * den, den);
    lemma_div_is_ordered(0, dt * abs(f), den);
    lemma_div_by_multiple(cap, den);
}

/// Force on a body of mass `ma` at `pa` from a body of mass `mb` at `pb`.
pub fn gravity_between(ma: u64, pa: Vector, mb: u64, pb: Vector) -> (f: (i128, i128))
    requires
        valid_mass(ma as int),
        valid_mass(mb as int),
        valid_position(pa),
        valid_position(pb),
    ensures
        (f.0 as int, f.1 as int) == pair_force(ma as int, pa, mb as int, pb),
        abs(f.0 as int) <= force_cap(ma as int, mb as int),
        abs(f.1 as int) <= force_cap(ma as int, mb as int),
{
    proof {
        lemma_pair_force_bounded(ma as int, pa, mb as int, pb);
    }
    let dx: i64 = pb.x - pa.x;
    let dy: i64 = pb.y - pa.y;
    let adx: u128 = if dx >= 0 { dx as u128 } else { (-dx) as u128 };
    let ady: u128 = if dy >= 0 { dy as u128 } else { (-dy) as u128 };
    assert(adx * adx <= 0x4000_0000_0000_0000_0000_0000 && ady * ady <= 0x4000_0000_0000_0000_0000_0000) by (nonlinear_arith)
        requires
            adx <= 0x8000_0000_0000,
            ady <= 0x8000_0000_0000,
    ;
    assert(adx * adx == dx * dx && ady * ady == dy * dy) by (nonlinear_arith)
        requires
            adx == abs(dx as int),
            ady == abs(dy as int),
    ;
    let sq: u128 = adx * adx + ady * ady;
    let len: u128 = isqrt(sq);
    if len == 0 {
        return (0, 0);
    }
    assert(len < 0x1_0000_0000_0000) by (nonlinear_arith)
        requires
            len * len <= sq,
            sq < 0x1_0000_0000_0000_0000_0000_0000,
    ;
    let clamped: u128 = if len < MIN_DISTANCE as u128 { MIN_DISTANCE as u128 } else { len };
    assert(clamped * clamped <= 0x1_0000_0000_0000_0000_0000_0000) by (nonlinear_arith)
        requires
            clamped <= 0x1_0000_0000_0000,
    ;
    assert(clamped * clamped > 0) by (nonlinear_arith)
        requires
            clamped > 0,
    ;
    let g: u128 = GRAVITATIONAL_CONSTANT as u128;
    assert(g * ma * mb * (65536 * 65536 * 65536) <= 6740 * 0x1_0000_0000_0000 * 0x1_0000_0000_0000)
        by (nonlinear_arith)
        requires
            g == 6740,
            1 <= ma <= 0x100_0000,
            1 <= mb <= 0x100_0000,
    ;
    assert(g * ma <= 6740 * 0x100_0000 && g * ma * mb <= 6740 * 0x1_0000_0000_0000)
        by (nonlinear_arith)
        requires
            g == 6740,
            1 <= ma <= 0x100_0000,
            1 <= mb <= 0x100_0000,
    ;
    let num: u128 = g * (ma as u128) * (mb as u128) * (65536u128 * 65536u128 * 65536u128);
    let q: u128 = num / (clamped * clamped);
    assert(q == force_magnitude(ma as int, mb as int, clamped_distance(len as int)));
    proof {
        lemma_force_magnitude_bounded(ma as int, mb as int, clamped as int);
    }
    assert(q * adx <= force_cap(ma as int, mb as int) * 0x8000_0000_0000 && q * ady
        <= force_cap(ma as int, mb as int) * 0x8000_0000_0000) by (nonlinear_arith)
        requires
            0 <= q <= force_cap(ma as int, mb as int),
            adx <= 0x8000_0000_0000,
            ady <= 0x8000_0000_0000,
    ;
    assert(force_cap(ma as int, mb as int) <= 6740 * 0x1_0000_0000_0000 * 65536) by (nonlinear_arith)
        requires
            1 <= ma <= 0x100_0000,
            1 <= mb <= 0x100_0000,
    ;
    proof {
        lemma_floor_sqrt_bounds(sq as nat);
        lemma_force_magnitude_bounded(ma as int, mb as int, clamped as int);
        lemma_component_le_length(dx as int, dy as int, len as int);
        lemma_component_le_length(dy as int, dx as int, len as int);
        lemma_scaled_quotient_le(q as int, adx as int, len as int);
        lemma_scaled_quotient_le(q as int, ady as int, len as int);
        lemma_div_trunc_scaled(q as int, dx as int, len as int);
        lemma_div_trunc_scaled(q as int, dy as int, len as int);
    }
    let fx_mag: u128 = q * adx / len;
    let fy_mag: u128 = q * ady / len;
    let fx: i128 = if dx >= 0 { fx_mag as i128 } else { -(fx_mag as i128) };
    let fy: i128 = if dy >= 0 { fy_mag as i128 } else { -(fy_mag as i128) };
    (fx, fy)
}

/// Velocity change that force component `f` causes on mass `m` over step `dt`.
pub fn accel_component(f: i128, m: u64, mo: u64, dt: u32) -> (a: i128)
    requires
        valid_mass(m as int),
        valid_mass(mo as int),
        dt <= MAX_STEP,
        abs(f as int) <= force_cap(m as int, mo as int),
    ensures
        a == accel_from_force(f as int, m as int, dt as int),
        abs(a as int) <= delta_cap(),
{
    proof {
        lemma_accel_bounded(f as int, m as int, mo as int, dt as int);
        lemma_div_trunc_scaled(dt as int, f as int, ONE * m);
    }
    assert(force_cap(m as int, mo as int) <= 6740 * 0x1_0000_0000_0000 * 65536) by (nonlinear_arith)
        requires
            1 <= m <= 0x100_0000,
            1 <= mo <= 0x100_0000,
    ;
    let af: u128 = if f >= 0 { f as u128 } else { (-f) as u128 };
    assert(dt * af <= 0x10_0000 * (6740 * 0x1_0000_0000_0000 * 65536)) by (nonlinear_arith)
        requires
            dt <= 0x10_0000,
            af <= 6740 * 0x1_0000_0000_0000 * 65536,
    ;
    let den: u128 = 65536u128 * (m as u128);
    let mag: u128 = (dt as u128) * af / den;
    if f >= 0 {
        mag as i128
    } else {
        -(mag as i128)
    }
}

} // verus!
