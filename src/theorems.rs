//! Laws of the simulation, stated over the tick's specification and proved.
use crate::gravity::{accel_from_force, lemma_pair_force_antisymmetric, pair_force};
use crate::physics::{gravity_delta, run, ticked, zero_accumulator, Body, Motion};
use vstd::prelude::*;

verus! {

/// Newton's third law: in any set of bodies, on any tick, the force that body
/// `j` exerts on body `i` is the exact negation of the force that body `i`
/// exerts on body `j`; a dynamic body's accumulator receives the first scaled
/// by its own mass, and the other's receives the negation scaled by its mass.
pub proof fn newton_third_law(s: Seq<Body>, i: int, j: int, dt: int)
    requires
        0 <= i < s.len(),
        0 <= j < s.len(),
        s[i].is_dynamic(),
        s[j].is_dynamic(),
    ensures
        ({
            let f = pair_force(s[i].mass(), s[i].position(), s[j].mass(), s[j].position());
            &&& pair_force(s[j].mass(), s[j].position(), s[i].mass(), s[i].position()) == (
                -f.0,
                -f.1,
            )
            &&& gravity_delta(s, i, j, dt) == (
                accel_from_force(f.0, s[i].mass(), dt),
                accel_from_force(f.1, s[i].mass(), dt),
            )
            &&& gravity_delta(s, j, i, dt) == (
                accel_from_force(-f.0, s[j].mass(), dt),
                accel_from_force(-f.1, s[j].mass(), dt),
            )
        }),
{
    lemma_pair_force_antisymmetric(s[i].mass(), s[i].position(), s[j].mass(), s[j].position());
}

/// A static body is the same after any number of ticks, whatever forces act on it.
pub proof fn static_bodies_never_move(s: Seq<Body>, dt: int, n: nat, k: int)
    requires
        0 <= k < s.len(),
        !s[k].is_dynamic(),
    ensures
        run(s, dt, n).len() == s.len(),
        run(s, dt, n)[k] == s[k],
    decreases n,
{
    if n > 0 {
        static_bodies_never_move(s, dt, (n - 1) as nat, k);
    }
}

/// After a completed tick every dynamic body's accumulator is exactly zero.
pub proof fn accumulators_empty_after_tick(s: Seq<Body>, dt: int)
    ensures
        forall|k: int|
            0 <= k < ticked(s, dt).len() ==> match #[trigger] ticked(s, dt)[k].motion {
                Motion::Dynamic(pv) => pv.acceleration == zero_accumulator(),
                Motion::Static => true,
            },
{
}

/// Two runs from identical bodies with the same step and tick count end in
/// identical bodies.
pub proof fn runs_are_deterministic(s1: Seq<Body>, s2: Seq<Body>, dt: int, n: nat)
    requires
        s1 == s2,
    ensures
        run(s1, dt, n) == run(s2, dt, n),
{
}

/// Running zero ticks, however long the pause, leaves every body unchanged.
pub proof fn zero_ticks_change_nothing(s: Seq<Body>, dt: int)
    ensures
        run(s, dt, 0) == s,
{
}

} // verus!
