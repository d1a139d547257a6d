//! Bodies, the simulation world, and the tick that advances it.
use crate::fixed::{abs, clamp, div_trunc, MAX_COORDINATE, MAX_MASS, MAX_SPEED, MAX_STEP, ONE};
use crate::gravity::{
    accel_component, accel_from_force, delta_cap, force_cap, gravity_between, lemma_accel_bounded,
    lemma_pair_force_antisymmetric, lemma_pair_force_bounded, pair_force, valid_mass,
    valid_position,
};
use vstd::arithmetic::div_mod::{lemma_div_by_multiple, lemma_div_is_ordered};
use vstd::prelude::*;

verus! {

/// A two-dimensional vector of fixed-point coordinates.
#[derive(Clone, Copy, Debug, PartialEq, Eq, Structural)]
pub struct Vector {
    pub x: i64,
    pub y: i64,
}

/// Authoritative location of a body.
#[derive(Clone, Copy, Debug, PartialEq, Eq, Structural)]
pub struct PhysicsTransform {
    pub location: Vector,
}

/// Mass of a body.
#[derive(Clone, Copy, Debug, PartialEq, Eq, Structural)]
pub struct PhysicsMaterial {
    pub mass: u64,
}

/// Per-tick acceleration accumulator, already scaled to a velocity change.
#[derive(Clone, Copy, Debug, PartialEq, Eq, Structural)]
pub struct Accumulator {
    pub x: i128,
    pub y: i128,
}

/// Motion state of a dynamic body.
#[derive(Clone, Copy, Debug, PartialEq, Eq, Structural)]
pub struct PhysicsVelocity {
    pub velocity: Vector,
    pub acceleration: Accumulator,
}

/// Whether a body moves: a dynamic body carries a motion state and is moved by
/// gravity; a static body exerts gravity but never moves.
#[derive(Clone, Copy, Debug, PartialEq, Eq, Structural)]
pub enum Motion {
    Static,
    Dynamic(PhysicsVelocity),
}

/// Circular detection proxy: its center mirrors the body's position, its
/// radius is fixed when the body is made.
#[derive(Clone, Copy, Debug, PartialEq, Eq, Structural)]
pub struct Collider {
    pub center: Vector,
    pub radius: i64,
}

/// One point mass of the simulation.
#[derive(Clone, Copy, Debug, PartialEq, Eq, Structural)]
pub struct Body {
    pub material: PhysicsMaterial,
    pub transform: PhysicsTransform,
    pub motion: Motion,
    pub collider: Option<Collider>,
}

pub open spec fn zero_accumulator() -> Accumulator {
    Accumulator { x: 0, y: 0 }
}

pub open spec fn valid_velocity(v: Vector) -> bool {
    abs(v.x as int) <= MAX_SPEED && abs(v.y as int) <= MAX_SPEED
}

impl Body {
    pub open spec fn mass(&self) -> int {
        self.material.mass as int
    }

    pub open spec fn position(&self) -> Vector {
        self.transform.location
    }

    pub open spec fn is_dynamic(&self) -> bool {
        self.motion is Dynamic
    }

    /// A body between ticks: mass and position in range, a detection proxy,
    /// if any, centered in range with a non-negative radius, and, if dynamic,
    /// a velocity in range and an empty accumulator.
    pub open spec fn valid(&self) -> bool {
        &&& valid_mass(self.mass())
        &&& valid_position(self.position())
        &&& match self.collider {
            Some(c) => valid_position(c.center) && c.radius >= 0,
            None => true,
        }
        &&& match self.motion {
            Motion::Static => true,
            Motion::Dynamic(pv) => valid_velocity(pv.velocity) && pv.acceleration
                == zero_accumulator(),
        }
    }
}

/// Every body of `s` is valid.
pub open spec fn valid_bodies(s: Seq<Body>) -> bool {
    forall|k: int| 0 <= k < s.len() ==> #[trigger] s[k].valid()
}

/// Velocity change that body `l` causes on body `k` over a step `dt`; zero
/// when `k` is static.
pub open spec fn gravity_delta(s: Seq<Body>, k: int, l: int, dt: int) -> (int, int) {
    let f = pair_force(s[k].mass(), s[k].position(), s[l].mass(), s[l].position());
    if s[k].is_dynamic() {
        (accel_from_force(f.0, s[k].mass(), dt), accel_from_force(f.1, s[k].mass(), dt))
    } else {
        (0, 0)
    }
}

/// Sum of `gravity_delta(s, k, l, dt)` over the bodies `l < m`, other than `k`,
/// that `pick` selects.
pub open spec fn sum_deltas(
    s: Seq<Body>,
    k: int,
    dt: int,
    m: nat,
    pick: spec_fn(int) -> bool,
) -> (int, int)
    decreases m,
{
    if m == 0 {
        (0, 0)
    } else {
        let r = sum_deltas(s, k, dt, (m - 1) as nat, pick);
        let l = m - 1;
        if l != k && pick(l) {
            (r.0 + gravity_delta(s, k, l, dt).0, r.1 + gravity_delta(s, k, l, dt).1)
        } else {
            r
        }
    }
}

/// Total velocity change on body `k` from every other body over a step `dt`.
pub open spec fn net_gravity(s: Seq<Body>, k: int, dt: int) -> (int, int) {
    sum_deltas(s, k, dt, s.len(), |l: int| true)
}

/// Largest accumulator magnitude the integrator accepts.
pub open spec fn accumulator_cap() -> int {
    0x1000_0000_0000_0000_0000_0000_0000_0000
}

/// `b` between the force pass and the integrator: as valid, except that a
/// dynamic body's accumulator may hold a bounded velocity change.
pub open spec fn loaded(b: Body) -> bool {
    &&& valid_mass(b.mass())
    &&& valid_position(b.position())
    &&& match b.collider {
        Some(c) => valid_position(c.center) && c.radius >= 0,
        None => true,
    }
    &&& match b.motion {
        Motion::Static => true,
        Motion::Dynamic(pv) => valid_velocity(pv.velocity) && abs(pv.acceleration.x as int)
            <= accumulator_cap() && abs(pv.acceleration.y as int) <= accumulator_cap(),
    }
}

/// First integrator pass on one body: the accumulated change is added to the
/// velocity, which saturates at `MAX_SPEED`, and the accumulator is emptied.
pub open spec fn accelerated(b: Body) -> Body {
    match b.motion {
        Motion::Static => b,
        Motion::Dynamic(pv) => Body {
            motion: Motion::Dynamic(
                PhysicsVelocity {
                    velocity: Vector {
                        x: clamp(pv.velocity.x + pv.acceleration.x, MAX_SPEED as int) as i64,
                        y: clamp(pv.velocity.y + pv.acceleration.y, MAX_SPEED as int) as i64,
                    },
                    acceleration: zero_accumulator(),
                },
            ),
            ..b
        },
    }
}

/// `p` moved by `v` over a step `dt`, saturating at `MAX_COORDINATE`.
pub open spec fn moved_by(p: Vector, v: Vector, dt: int) -> Vector {
    Vector {
        x: clamp(p.x + div_trunc(v.x * dt, ONE as int), MAX_COORDINATE as int) as i64,
        y: clamp(p.y + div_trunc(v.y * dt, ONE as int), MAX_COORDINATE as int) as i64,
    }
}

/// Second integrator pass on one body: a dynamic body moves by its velocity.
pub open spec fn moved(b: Body, dt: int) -> Body {
    match b.motion {
        Motion::Static => b,
        Motion::Dynamic(pv) => Body {
            transform: PhysicsTransform { location: moved_by(b.position(), pv.velocity, dt) },
            ..b
        },
    }
}

/// The bodies after one tick of duration `dt`: the force pass over the
/// snapshot `s`, then velocities, then positions.
pub open spec fn ticked(s: Seq<Body>, dt: int) -> Seq<Body> {
    Seq::new(
        s.len(),
        |k: int| moved(accelerated(with_accumulated(s[k], net_gravity(s, k, dt))), dt),
    )
}

/// The bodies after `n` ticks of duration `dt`.
pub open spec fn run(s: Seq<Body>, dt: int, n: nat) -> Seq<Body>
    decreases n,
{
    if n == 0 {
        s
    } else {
        ticked(run(s, dt, (n - 1) as nat), dt)
    }
}

/// Whether the pair of bodies `k` and `l` comes before position `(i, j)` in
/// the solver's order: rows `i` ascending, and `j > i` ascending within a row.
pub open spec fn pair_done(k: int, l: int, i: int, j: int) -> bool {
    let lo = if k < l { k } else { l };
    let hi = if k < l { l } else { k };
    lo < i || (lo == i && hi < j)
}

/// Velocity change on body `k` from the pairs that come before `(i, j)` in the
/// solver's order.
pub open spec fn partial_gravity(s: Seq<Body>, k: int, dt: int, i: int, j: int) -> (int, int) {
    sum_deltas(s, k, dt, s.len(), |l: int| pair_done(k, l, i, j))
}

/// Body `b` of the snapshot whose accumulator holds `a`.
pub open spec fn with_accumulated(b: Body, a: (int, int)) -> Body {
    match b.motion {
        Motion::Static => b,
        Motion::Dynamic(pv) => Body {
            motion: Motion::Dynamic(
                PhysicsVelocity {
                    acceleration: Accumulator { x: a.0 as i128, y: a.1 as i128 },
                    ..pv
                },
            ),
            ..b
        },
    }
}

proof fn lemma_sum_ext(
    s: Seq<Body>,
    k: int,
    dt: int,
    m: nat,
    pick_old: spec_fn(int) -> bool,
    pick_new: spec_fn(int) -> bool,
)
    requires
        forall|l: int| 0 <= l < m && l != k ==> #[trigger] pick_old(l) == pick_new(l),
    ensures
        sum_deltas(s, k, dt, m, pick_old) == sum_deltas(s, k, dt, m, pick_new),
    decreases m,
{
    if m > 0 {
        lemma_sum_ext(s, k, dt, (m - 1) as nat, pick_old, pick_new);
    }
}

proof fn lemma_sum_step(
    s: Seq<Body>,
    k: int,
    dt: int,
    m: nat,
    pick_old: spec_fn(int) -> bool,
    pick_new: spec_fn(int) -> bool,
    x: int,
)
    requires
        0 <= x < m,
        x != k,
        !pick_old(x),
        pick_new(x),
        forall|l: int| 0 <= l < m && l != k && l != x ==> #[trigger] pick_old(l) == pick_new(l),
    ensures
        sum_deltas(s, k, dt, m, pick_new) == (
            sum_deltas(s, k, dt, m, pick_old).0 + gravity_delta(s, k, x, dt).0,
            sum_deltas(s, k, dt, m, pick_old).1 + gravity_delta(s, k, x, dt).1,
        ),
    decreases m,
{
    if x == m - 1 {
        lemma_sum_ext(s, k, dt, (m - 1) as nat, pick_old, pick_new);
    } else {
        lemma_sum_step(s, k, dt, (m - 1) as nat, pick_old, pick_new, x);
    }
}

proof fn lemma_sum_none(s: Seq<Body>, k: int, dt: int, m: nat, p: spec_fn(int) -> bool)
    requires
        forall|l: int| 0 <= l < m && l != k ==> !#[trigger] p(l),
    ensures
        sum_deltas(s, k, dt, m, p) == (0int, 0int),
    decreases m,
{
    if m > 0 {
        lemma_sum_none(s, k, dt, (m - 1) as nat, p);
    }
}

/// Each velocity change between valid bodies is at most `delta_cap()`.
pub proof fn lemma_delta_bounded(s: Seq<Body>, k: int, l: int, dt: int)
    requires
        valid_bodies(s),
        0 <= k < s.len(),
        0 <= l < s.len(),
        0 <= dt <= MAX_STEP,
    ensures
        abs(gravity_delta(s, k, l, dt).0) <= delta_cap(),
        abs(gravity_delta(s, k, l, dt).1) <= delta_cap(),
{
    assert(s[k].valid() && s[l].valid());
    let f = pair_force(s[k].mass(), s[k].position(), s[l].mass(), s[l].position());
    lemma_pair_force_bounded(s[k].mass(), s[k].position(), s[l].mass(), s[l].position());
    lemma_accel_bounded(f.0, s[k].mass(), s[l].mass(), dt);
    lemma_accel_bounded(f.1, s[k].mass(), s[l].mass(), dt);
}

proof fn lemma_sum_bounded(s: Seq<Body>, k: int, dt: int, m: nat, p: spec_fn(int) -> bool)
    requires
        valid_bodies(s),
        0 <= k < s.len(),
        m <= s.len(),
        0 <= dt <= MAX_STEP,
    ensures
        abs(sum_deltas(s, k, dt, m, p).0) <= m * delta_cap(),
        abs(sum_deltas(s, k, dt, m, p).1) <= m * delta_cap(),
    decreases m,
{
    if m > 0 {
        lemma_sum_bounded(s, k, dt, (m - 1) as nat, p);
        lemma_delta_bounded(s, k, m - 1, dt);
        assert(m * delta_cap() == (m - 1) * delta_cap() + delta_cap()) by (nonlinear_arith);
    }
}

/// `v` limited to `[-limit, limit]`.
fn clamp_to(v: i128, limit: i64) -> (r: i64)
    requires
        limit >= 0,
    ensures
        r == clamp(v as int, limit as int),
{
    if v > limit as i128 {
        limit
    } else if v < -(limit as i128) {
        -limit
    } else {
        v as i64
    }
}

impl PhysicsTransform {
    /// Moves the location by `velocity` over a step `delta`.
    pub fn move_by_velocity(&mut self, velocity: Vector, delta: u32)
        requires
            valid_velocity(velocity),
            valid_position(old(self).location),
            delta <= MAX_STEP,
        ensures
            final(self).location == moved_by(old(self).location, velocity, delta as int),
            valid_position(final(self).location),
    {
        let sx = shift(velocity.x, delta);
        let sy = shift(velocity.y, delta);
        self.location = Vector {
            x: clamp_to(self.location.x as i128 + sx, MAX_COORDINATE),
            y: clamp_to(self.location.y as i128 + sy, MAX_COORDINATE),
        };
    }
}

/// Distance travelled at speed `v` over a step `delta`, rounded toward zero.
fn shift(v: i64, delta: u32) -> (r: i128)
    requires
        abs(v as int) <= MAX_SPEED,
        delta <= MAX_STEP,
    ensures
        r == div_trunc(v * delta, ONE as int),
        abs(r as int) <= 0x4_0000_0000_0000,
{
    assert(abs(v * delta) <= 0x4_0000_0000_0000 * 65536) by (nonlinear_arith)
        requires
            abs(v as int) <= 0x4000_0000_0000,
            0 <= delta <= 0x10_0000,
    ;
    let p: i128 = v as i128 * delta as i128;
    proof {
        let m = abs(p as int);
        lemma_div_is_ordered(m, 0x4_0000_0000_0000int * 65536, 65536);
        lemma_div_by_multiple(0x4_0000_0000_0000int, 65536);
        lemma_div_is_ordered(0, m, 65536);
    }
    if p >= 0 {
        p / 65536
    } else {
        -((-p) / 65536)
    }
}

impl PhysicsVelocity {
    pub open spec fn spec_new(velocity: Vector) -> Self {
        PhysicsVelocity { velocity, acceleration: zero_accumulator() }
    }

    /// A motion state with the given velocity and an empty accumulator.
    pub fn new(velocity: Vector) -> (r: Self)
        ensures
            r == Self::spec_new(velocity),
    {
        PhysicsVelocity { velocity, acceleration: Accumulator { x: 0, y: 0 } }
    }

    /// Adds to the accumulator the velocity change that `force` causes on a
    /// body of mass `mass` over a step `delta`; `other_mass` is the mass that
    /// the force comes from.
    fn add_acceleration_from_force(
        &mut self,
        mass: u64,
        force: (i128, i128),
        other_mass: u64,
        delta: u32,
    )
        requires
            valid_mass(mass as int),
            valid_mass(other_mass as int),
            delta <= MAX_STEP,
            abs(force.0 as int) <= force_cap(mass as int, other_mass as int),
            abs(force.1 as int) <= force_cap(mass as int, other_mass as int),
            abs(old(self).acceleration.x as int) <= 0x1_0000_0000_0000_0000 * delta_cap(),
            abs(old(self).acceleration.y as int) <= 0x1_0000_0000_0000_0000 * delta_cap(),
        ensures
            final(self).velocity == old(self).velocity,
            final(self).acceleration.x == old(self).acceleration.x + accel_from_force(
                force.0 as int,
                mass as int,
                delta as int,
            ),
            final(self).acceleration.y == old(self).acceleration.y + accel_from_force(
                force.1 as int,
                mass as int,
                delta as int,
            ),
    {
        assert(delta_cap() == 6740 * 0x100_0000 * 0x10_0000);
        let ax = accel_component(force.0, mass, other_mass, delta);
        let ay = accel_component(force.1, mass, other_mass, delta);
        self.acceleration = Accumulator {
            x: self.acceleration.x + ax,
            y: self.acceleration.y + ay,
        };
    }

    /// Adds the accumulated velocity change to the velocity, saturating at
    /// `MAX_SPEED`.
    pub fn apply_acceleration(&mut self)
        requires
            valid_velocity(old(self).velocity),
            abs(old(self).acceleration.x as int) <= accumulator_cap(),
            abs(old(self).acceleration.y as int) <= accumulator_cap(),
        ensures
            final(self).velocity == (Vector {
                x: clamp(old(self).velocity.x + old(self).acceleration.x, MAX_SPEED as int) as i64,
                y: clamp(old(self).velocity.y + old(self).acceleration.y, MAX_SPEED as int) as i64,
            }),
            valid_velocity(final(self).velocity),
            final(self).acceleration == old(self).acceleration,
    {
        self.velocity = Vector {
            x: clamp_to(self.velocity.x as i128 + self.acceleration.x, MAX_SPEED),
            y: clamp_to(self.velocity.y as i128 + self.acceleration.y, MAX_SPEED),
        };
    }

    /// Empties the accumulator.
    pub fn reset_acceleration(&mut self)
        ensures
            final(self).acceleration == zero_accumulator(),
            final(self).velocity == old(self).velocity,
    {
        self.acceleration = Accumulator { x: 0, y: 0 };
    }
}

/// Why an edit of a body was refused.
#[derive(Clone, Copy, Debug, PartialEq, Eq, Structural)]
pub enum EditError {
    /// The value lies outside the range the world can hold.
    OutOfRange,
    /// Only a dynamic body has a velocity.
    NotDynamic,
}

/// Whether both components of `v` have magnitude at most `limit`.
pub fn in_range(v: Vector, limit: i64) -> (r: bool)
    requires
        limit >= 0,
    ensures
        r == (abs(v.x as int) <= limit && abs(v.y as int) <= limit),
{
    -limit <= v.x && v.x <= limit && -limit <= v.y && v.y <= limit
}

/// `b` with the center of its detection proxy, if any, at its position.
pub open spec fn synced(b: Body) -> Body {
    match b.collider {
        Some(c) => Body { collider: Some(Collider { center: b.position(), ..c }), ..b },
        None => b,
    }
}

/// The simulation context: an arena of bodies addressed by index.
pub struct World {
    bodies: Vec<Body>,
}

impl View for World {
    type V = Seq<Body>;

    closed spec fn view(&self) -> Seq<Body> {
        self.bodies@
    }
}

/// The pair `(k, l)` seen from the solver's position `(i, j)` inside a row.
proof fn lemma_pair_advance(
    s: Seq<Body>,
    dt: int,
    n: nat,
    i: int,
    j: int,
    k: int,
)
    requires
        0 <= i < j < n,
        0 <= k < n,
        n == s.len(),
    ensures
        k == i ==> partial_gravity(s, k, dt, i, j + 1) == (
            partial_gravity(s, k, dt, i, j).0 + gravity_delta(
                s,
                k,
                j,
                dt,
            ).0,
            partial_gravity(s, k, dt, i, j).1 + gravity_delta(
                s,
                k,
                j,
                dt,
            ).1,
        ),
        k == j ==> partial_gravity(s, k, dt, i, j + 1) == (
            partial_gravity(s, k, dt, i, j).0 + gravity_delta(
                s,
                k,
                i,
                dt,
            ).0,
            partial_gravity(s, k, dt, i, j).1 + gravity_delta(
                s,
                k,
                i,
                dt,
            ).1,
        ),
        k != i && k != j ==> partial_gravity(s, k, dt, i, j + 1)
            == partial_gravity(s, k, dt, i, j),
{
    let pick_old = |l: int| pair_done(k, l, i, j);
    let pick_new = |l: int| pair_done(k, l, i, j + 1);
    if k == i {
        lemma_sum_step(s, k, dt, n, pick_old, pick_new, j);
    } else if k == j {
        lemma_sum_step(s, k, dt, n, pick_old, pick_new, i);
    } else {
        lemma_sum_ext(s, k, dt, n, pick_old, pick_new);
    }
}

impl World {
    /// Every body is valid: the state between ticks.
    pub open spec fn wf(&self) -> bool {
        valid_bodies(self@)
    }

    /// An empty world.
    pub fn new() -> (w: World)
        ensures
            w@ == Seq::<Body>::empty(),
    {
        World { bodies: Vec::new() }
    }

    /// Number of bodies.
    pub fn len(&self) -> (r: usize)
        ensures
            r == self@.len(),
    {
        self.bodies.len()
    }

    /// The body at `index`.
    pub fn body(&self, index: usize) -> (b: Body)
        requires
            index < self@.len(),
        ensures
            b == self@[index as int],
    {
        self.bodies[index]
    }

    /// Adds a body and returns its index.
    pub fn add_body(&mut self, body: Body) -> (index: usize)
        requires
            old(self).wf(),
            body.valid(),
        ensures
            final(self).wf(),
            final(self)@ == old(self)@.push(body),
            index == old(self)@.len(),
    {
        let index = self.bodies.len();
        self.bodies.push(body);
        proof {
            assert forall|k: int| 0 <= k < self@.len() implies #[trigger] self@[k].valid() by {
                if k < index {
                    assert(old(self)@[k].valid());
                }
            }
        }
        index
    }

    /// Removes the body at `index`; the bodies after it move down by one.
    pub fn remove_body(&mut self, index: usize) -> (b: Body)
        requires
            old(self).wf(),
            index < old(self)@.len(),
        ensures
            final(self).wf(),
            final(self)@ == old(self)@.remove(index as int),
            b == old(self)@[index as int],
    {
        let b = self.bodies.remove(index);
        proof {
            assert forall|k: int| 0 <= k < self@.len() implies #[trigger] self@[k].valid() by {
                if k < index {
                    assert(old(self)@[k].valid());
                } else {
                    assert(old(self)@[k + 1].valid());
                }
            }
        }
        b
    }

    /// Moves the body at `index` to `location`, if that lies in the world.
    pub fn set_position(&mut self, index: usize, location: Vector) -> (r: Result<(), EditError>)
        requires
            old(self).wf(),
            index < old(self)@.len(),
        ensures
            final(self).wf(),
            r is Ok <==> valid_position(location),
            r is Ok ==> final(self)@ == old(self)@.update(
                index as int,
                Body { transform: PhysicsTransform { location }, ..old(self)@[index as int] },
            ),
            r is Err ==> final(self)@ == old(self)@ && r == Err::<(), EditError>(
                EditError::OutOfRange,
            ),
    {
        if !in_range(location, MAX_COORDINATE) {
            return Err(EditError::OutOfRange);
        }
        let b = self.bodies[index];
        self.bodies[index] = Body { transform: PhysicsTransform { location }, ..b };
        proof {
            assert forall|k: int| 0 <= k < self@.len() implies #[trigger] self@[k].valid() by {
                assert(old(self)@[k].valid());
            }
        }
        Ok(())
    }

    /// Sets the velocity of the dynamic body at `index`.
    pub fn set_velocity(&mut self, index: usize, velocity: Vector) -> (r: Result<(), EditError>)
        requires
            old(self).wf(),
            index < old(self)@.len(),
        ensures
            final(self).wf(),
            r is Ok <==> old(self)@[index as int].is_dynamic() && valid_velocity(velocity),
            r is Ok ==> final(self)@ == old(self)@.update(
                index as int,
                Body {
                    motion: Motion::Dynamic(PhysicsVelocity::spec_new(velocity)),
                    ..old(self)@[index as int]
                },
            ),
            r is Err ==> final(self)@ == old(self)@,
            r == Err::<(), EditError>(EditError::NotDynamic) <==> !old(self)@[
                index as int
            ].is_dynamic(),
    {
        let b = self.bodies[index];
        match b.motion {
            Motion::Static => Err(EditError::NotDynamic),
            Motion::Dynamic(_) => {
                if !in_range(velocity, MAX_SPEED) {
                    return Err(EditError::OutOfRange);
                }
                self.bodies[index] = Body {
                    motion: Motion::Dynamic(PhysicsVelocity::new(velocity)),
                    ..b
                };
                proof {
                    assert forall|k: int| 0 <= k < self@.len() implies #[trigger] self@[k].valid() by {
                        assert(old(self)@[k].valid());
                    }
                }
                Ok(())
            },
        }
    }

    /// Sets the mass of the body at `index`, if it is a valid mass.
    pub fn set_mass(&mut self, index: usize, mass: u64) -> (r: Result<(), EditError>)
        requires
            old(self).wf(),
            index < old(self)@.len(),
        ensures
            final(self).wf(),
            r is Ok <==> valid_mass(mass as int),
            r is Ok ==> final(self)@ == old(self)@.update(
                index as int,
                Body { material: PhysicsMaterial { mass }, ..old(self)@[index as int] },
            ),
            r is Err ==> final(self)@ == old(self)@ && r == Err::<(), EditError>(
                EditError::OutOfRange,
            ),
    {
        if mass < 1 || mass > MAX_MASS {
            return Err(EditError::OutOfRange);
        }
        let b = self.bodies[index];
        self.bodies[index] = Body { material: PhysicsMaterial { mass }, ..b };
        proof {
            assert forall|k: int| 0 <= k < self@.len() implies #[trigger] self@[k].valid() by {
                assert(old(self)@[k].valid());
            }
        }
        Ok(())
    }

    /// Copies every body's position into the center of its detection proxy.
    /// The proxy's radius is left as it is.
    pub fn sync_colliders(&mut self)
        requires
            old(self).wf(),
        ensures
            final(self).wf(),
            final(self)@ == Seq::new(old(self)@.len(), |k: int| synced(old(self)@[k])),
    {
        let ghost s = self@;
        let n = self.bodies.len();
        let mut k: usize = 0;
        while k < n
            invariant
                n == s.len(),
                self@.len() == n,
                0 <= k <= n,
                valid_bodies(s),
                forall|x: int| 0 <= x < k ==> #[trigger] self@[x] == synced(s[x]),
                forall|x: int| k <= x < n ==> #[trigger] self@[x] == s[x],
            decreases n - k,
        {
            let b = self.bodies[k];
            match b.collider {
                Some(c) => {
                    self.bodies[k] = Body {
                        collider: Some(Collider { center: b.transform.location, ..c }),
                        ..b
                    };
                },
                None => {},
            }
            k += 1;
        }
        proof {
            assert(self@ =~= Seq::new(s.len(), |k: int| synced(s[k])));
            assert forall|k: int| 0 <= k < self@.len() implies #[trigger] self@[k].valid() by {
                assert(s[k].valid());
            }
        }
    }

    /// Integrator, first pass: every dynamic body takes its accumulated
    /// velocity change, and its accumulator is emptied.
    fn apply_accelerations(&mut self)
        requires
            forall|k: int| 0 <= k < old(self)@.len() ==> #[trigger] loaded(old(self)@[k]),
        ensures
            final(self)@.len() == old(self)@.len(),
            forall|k: int|
                0 <= k < old(self)@.len() ==> #[trigger] final(self)@[k] == accelerated(
                    old(self)@[k],
                ),
            forall|k: int| 0 <= k < old(self)@.len() ==> (#[trigger] final(self)@[k]).valid(),
    {
        let ghost s = self@;
        let n = self.bodies.len();
        let mut k: usize = 0;
        while k < n
            invariant
                n == s.len(),
                self@.len() == n,
                0 <= k <= n,
                forall|x: int| 0 <= x < n ==> #[trigger] loaded(s[x]),
                forall|x: int| 0 <= x < k ==> #[trigger] self@[x] == accelerated(s[x]),
                forall|x: int| 0 <= x < k ==> (#[trigger] self@[x]).valid(),
                forall|x: int| k <= x < n ==> #[trigger] self@[x] == s[x],
            decreases n - k,
        {
            let b = self.bodies[k];
            assert(loaded(s[k as int]));
            match b.motion {
                Motion::Dynamic(pv) => {
                    let mut pv = pv;
                    pv.apply_acceleration();
                    pv.reset_acceleration();
                    self.bodies[k] = Body { motion: Motion::Dynamic(pv), ..b };
                },
                Motion::Static => {},
            }
            k += 1;
        }
    }

    /// Integrator, second pass: every dynamic body moves by its velocity.
    fn move_bodies(&mut self, dt: u32)
        requires
            valid_bodies(old(self)@),
            dt <= MAX_STEP,
        ensures
            final(self)@.len() == old(self)@.len(),
            forall|k: int|
                0 <= k < old(self)@.len() ==> #[trigger] final(self)@[k] == moved(
                    old(self)@[k],
                    dt as int,
                ),
            valid_bodies(final(self)@),
    {
        let ghost s = self@;
        let n = self.bodies.len();
        let mut k: usize = 0;
        while k < n
            invariant
                n == s.len(),
                self@.len() == n,
                0 <= k <= n,
                dt <= MAX_STEP,
                valid_bodies(s),
                forall|x: int| 0 <= x < k ==> #[trigger] self@[x] == moved(s[x], dt as int),
                forall|x: int| 0 <= x < k ==> (#[trigger] self@[x]).valid(),
                forall|x: int| k <= x < n ==> #[trigger] self@[x] == s[x],
            decreases n - k,
        {
            let b = self.bodies[k];
            assert(s[k as int].valid());
            match b.motion {
                Motion::Dynamic(pv) => {
                    let mut t = b.transform;
                    t.move_by_velocity(pv.velocity, dt);
                    self.bodies[k] = Body { transform: t, ..b };
                },
                Motion::Static => {},
            }
            k += 1;
        }
    }

    /// Advances the simulation by one fixed step of duration `dt`: the force
    /// pass over a snapshot of all bodies, then every velocity, then every
    /// position. Static bodies never change; every accumulator ends empty.
    pub fn tick(&mut self, dt: u32)
        requires
            old(self).wf(),
            dt <= MAX_STEP,
        ensures
            final(self).wf(),
            final(self)@ == ticked(old(self)@, dt as int),
    {
        let ghost s = self@;
        let n = self.bodies.len();
        assert(delta_cap() == 6740 * 0x100_0000 * 0x10_0000);
        self.solve(dt);
        proof {
            assert forall|k: int| 0 <= k < s.len() implies #[trigger] loaded(self@[k]) by {
                assert(s[k].valid());
                let g = net_gravity(s, k, dt as int);
                lemma_sum_bounded(s, k, dt as int, s.len(), |l: int| true);
                assert(abs(g.0) <= s.len() * delta_cap() && abs(g.1) <= s.len() * delta_cap());
                assert(s.len() * delta_cap() <= 0x1_0000_0000_0000_0000 * delta_cap()) by (nonlinear_arith)
                    requires s.len() <= 0x1_0000_0000_0000_0000int, delta_cap() >= 0;
                assert(delta_cap() == 6740 * 0x100_0000 * 0x10_0000);
                assert(0x1_0000_0000_0000_0000 * delta_cap() <= accumulator_cap());
                assert(abs(g.0) <= accumulator_cap() && abs(g.1) <= accumulator_cap());
                assert(self@[k] == with_accumulated(s[k], g));
            }
        }
        let ghost mid = self@;
        self.apply_accelerations();
        let ghost acc = self@;
        self.move_bodies(dt);
        proof {
            assert forall|k: int| 0 <= k < s.len() implies #[trigger] self@[k] == ticked(s, dt as int)[k] by {
                assert(acc[k] == accelerated(mid[k]));
            }
            assert(self@ =~= ticked(s, dt as int));
        }
    }

    /// Force pass: adds to the accumulator of every dynamic body the velocity
    /// change that every other body causes on it over `dt`. Each unordered
    /// pair is visited once, rows ascending; positions, masses and velocities
    /// are left as they are.
    fn solve(&mut self, dt: u32)
        requires
            valid_bodies(old(self)@),
            dt <= MAX_STEP,
        ensures
            final(self)@.len() == old(self)@.len(),
            forall|k: int|
                0 <= k < old(self)@.len() ==> #[trigger] final(self)@[k] == with_accumulated(
                    old(self)@[k],
                    net_gravity(old(self)@, k, dt as int),
                ),
    {
        let ghost s = self@;
        let n = self.bodies.len();
        let ghost dti = dt as int;
        proof {
            assert forall|k: int| 0 <= k < n implies #[trigger] self@[k] == with_accumulated(
                s[k],
                partial_gravity(s, k, dti, 0, 1),
            ) by {
                lemma_sum_none(s, k, dti, n as nat, |l: int| pair_done(k, l, 0, 1));
                assert(s[k].valid());
            }
        }
        let mut i: usize = 0;
        while i < n
            invariant
                n == s.len(),
                self@.len() == n,
                valid_bodies(s),
                dt <= MAX_STEP,
                dti == dt,
                0 <= i <= n,
                forall|k: int|
                    0 <= k < n ==> #[trigger] self@[k] == with_accumulated(
                        s[k],
                        partial_gravity(s, k, dti, i as int, i + 1),
                    ),
            decreases n - i,
        {
            let mut j: usize = i + 1;
            while j < n
                invariant
                    n == s.len(),
                    self@.len() == n,
                    valid_bodies(s),
                    dt <= MAX_STEP,
                    dti == dt,
                    0 <= i < n,
                    i + 1 <= j <= n,
                    forall|k: int|
                        0 <= k < n ==> #[trigger] self@[k] == with_accumulated(
                            s[k],
                            partial_gravity(s, k, dti, i as int, j as int),
                        ),
                decreases n - j,
            {
                let bi = self.bodies[i];
                let bj = self.bodies[j];
                let ghost ai = partial_gravity(s, i as int, dti, i as int, j as int);
                let ghost aj = partial_gravity(s, j as int, dti, i as int, j as int);
                proof {
                    assert(s[i as int].valid() && s[j as int].valid());
                    lemma_pair_force_antisymmetric(
                        s[i as int].mass(),
                        s[i as int].position(),
                        s[j as int].mass(),
                        s[j as int].position(),
                    );
                    lemma_sum_bounded(s, i as int, dti, n as nat, |l: int| pair_done(i as int, l, i as int, j as int));
                    lemma_sum_bounded(s, j as int, dti, n as nat, |l: int| pair_done(j as int, l, i as int, j as int));
                    assert((n as int) * delta_cap() <= 0x1_0000_0000_0000_0000 * delta_cap()) by (nonlinear_arith)
                        requires n <= 0x1_0000_0000_0000_0000int, delta_cap() >= 0;
                    assert(crate::gravity::force_cap(s[i as int].mass(), s[j as int].mass())
                        == crate::gravity::force_cap(s[j as int].mass(), s[i as int].mass())) by (nonlinear_arith);
                    lemma_pair_advance(s, dti, n as nat, i as int, j as int, i as int);
                    lemma_pair_advance(s, dti, n as nat, i as int, j as int, j as int);
                    assert forall|k: int| 0 <= k < n && k != i && k != j implies
                        #[trigger] partial_gravity(s, k, dti, i as int, j + 1)
                        == partial_gravity(s, k, dti, i as int, j as int) by {
                        lemma_pair_advance(s, dti, n as nat, i as int, j as int, k);
                    }
                }
                let mi = bi.material.mass;
                let mj = bj.material.mass;
                let f = gravity_between(mi, bi.transform.location, mj, bj.transform.location);
                assert(crate::gravity::force_cap(mi as int, mj as int) <= 6740 * 0x1_0000_0000_0000 * 65536) by (nonlinear_arith)
                    requires
                        1 <= mi <= 0x100_0000,
                        1 <= mj <= 0x100_0000,
                ;
                if let Motion::Dynamic(pv) = bi.motion {
                    let mut pv = pv;
                    pv.add_acceleration_from_force(mi, f, mj, dt);
                    self.bodies[i] = Body { motion: Motion::Dynamic(pv), ..bi };
                }
                if let Motion::Dynamic(pv) = bj.motion {
                    let mut pv = pv;
                    pv.add_acceleration_from_force(mj, (-f.0, -f.1), mi, dt);
                    self.bodies[j] = Body { motion: Motion::Dynamic(pv), ..bj };
                }
                j += 1;
            }
            proof {
                assert forall|k: int| 0 <= k < n implies
                    #[trigger] partial_gravity(s, k, dti, i as int, n as int)
                    == partial_gravity(s, k, dti, i + 1, i + 2) by {
                    lemma_sum_ext(s, k, dti, n as nat, |l: int| pair_done(k, l, i as int, n as int), |l: int| pair_done(k, l, i + 1, i + 2));
                }
            }
            i += 1;
        }
        proof {
            assert forall|k: int| 0 <= k < n implies
                #[trigger] partial_gravity(s, k, dti, n as int, n + 1)
                == net_gravity(s, k, dti) by {
                lemma_sum_ext(s, k, dti, n as nat, |l: int| pair_done(k, l, n as int, n + 1), |l: int| true);
            }
        }
    }
}

} // verus!
