//! Construction of bodies and levels from plain descriptions.
use crate::fixed::{floor_sqrt, isqrt, MAX_COORDINATE, MAX_MASS, MAX_SPEED, ONE};
use crate::gravity::{valid_mass, valid_position};
use crate::physics::{
    in_range, valid_velocity, Body, Collider, Motion, PhysicsMaterial, PhysicsTransform,
    PhysicsVelocity, Vector, World,
};
use vstd::prelude::*;

verus! {

/// Density of every planet; a planet's radius is `sqrt(mass / pi) / PLANET_DENSITY`.
pub const PLANET_DENSITY: u64 = 1;

/// An sRGB color with alpha, one byte per channel.
#[derive(Clone, Copy, Debug, PartialEq, Eq, Structural)]
pub struct Color {
    pub r: u8,
    pub g: u8,
    pub b: u8,
    pub a: u8,
}

/// How a planet is drawn: not used by the physics.
#[derive(Clone, Copy, Debug, PartialEq, Eq, Structural)]
pub struct PlanetStyle {
    pub radius: i64,
    pub color: Color,
}

/// A body together with how it is drawn.
#[derive(Clone, Copy, Debug, PartialEq, Eq, Structural)]
pub struct Planet {
    pub body: Body,
    pub style: PlanetStyle,
}

/// Description of a planet to create.
///
/// Without a radius, the radius is derived from the mass. Without a
/// velocity, the planet is static.
#[derive(Clone, Copy, Debug, PartialEq, Eq, Structural)]
pub struct PlanetBuilder {
    pub mass: i64,
    pub position: Vector,
    pub velocity: Option<Vector>,
    pub radius: Option<i64>,
    pub color: Color,
}

/// Why a planet description was rejected.
#[derive(Clone, Copy, Debug, PartialEq, Eq, Structural)]
pub enum PlanetError {
    NegativeMass,
    ZeroMass,
    MassTooLarge,
    NegativeRadius,
    PositionOutOfRange,
    VelocityOutOfRange,
}

/// `sqrt(mass / pi) / PLANET_DENSITY` in fixed-point steps, with pi taken as 355/113.
pub open spec fn radius_of(mass: int) -> int {
    (floor_sqrt(((mass * (ONE * ONE) * 113) / 355) as nat) as int) / (PLANET_DENSITY as int)
}

/// Radius of a planet of the given mass.
pub fn calculate_radius(mass: u64) -> (r: i64)
    requires
        valid_mass(mass as int),
    ensures
        r == radius_of(mass as int),
        r >= 0,
{
    assert(mass * (65536 * 65536) * 113 <= 0x100_0000 * (65536 * 65536) * 113) by (nonlinear_arith)
        requires
            mass <= 0x100_0000,
    ;
    let scaled: u128 = (mass as u128) * (65536u128 * 65536u128) * 113 / 355;
    let root = isqrt(scaled);
    assert(root < 0x1_0000_0000_0000) by (nonlinear_arith)
        requires
            root * root <= scaled,
            scaled < 0x1_0000_0000_0000_0000_0000_0000,
    ;
    (root / (PLANET_DENSITY as u128)) as i64
}

/// The first check that `pb` fails, if any: mass, then radius, then position,
/// then velocity.
pub open spec fn planet_error(pb: PlanetBuilder) -> Option<PlanetError> {
    if pb.mass < 0 {
        Some(PlanetError::NegativeMass)
    } else if pb.mass == 0 {
        Some(PlanetError::ZeroMass)
    } else if pb.mass > MAX_MASS {
        Some(PlanetError::MassTooLarge)
    } else if pb.radius is Some && pb.radius->Some_0 < 0 {
        Some(PlanetError::NegativeRadius)
    } else if !valid_position(pb.position) {
        Some(PlanetError::PositionOutOfRange)
    } else if pb.velocity is Some && !valid_velocity(pb.velocity->Some_0) {
        Some(PlanetError::VelocityOutOfRange)
    } else {
        None
    }
}

/// The planet that a description `pb` without errors builds.
pub open spec fn built_planet(pb: PlanetBuilder) -> Planet {
    let radius = match pb.radius {
        Some(r) => r as int,
        None => radius_of(pb.mass as int),
    };
    Planet {
        body: Body {
            material: PhysicsMaterial { mass: pb.mass as u64 },
            transform: PhysicsTransform { location: pb.position },
            motion: match pb.velocity {
                Some(v) => Motion::Dynamic(PhysicsVelocity::spec_new(v)),
                None => Motion::Static,
            },
            collider: Some(Collider { center: pb.position, radius: radius as i64 }),
        },
        style: PlanetStyle { radius: radius as i64, color: pb.color },
    }
}

impl Default for PlanetBuilder {
    /// Mass zero at the origin, static, radius from mass, opaque white.
    fn default() -> (r: Self)
        ensures
            r.mass == 0,
            r.position == (Vector { x: 0, y: 0 }),
            r.velocity is None,
            r.radius is None,
            r.color == (Color { r: 255, g: 255, b: 255, a: 255 }),
    {
        PlanetBuilder {
            mass: 0,
            position: Vector { x: 0, y: 0 },
            velocity: None,
            radius: None,
            color: Color { r: 255, g: 255, b: 255, a: 255 },
        }
    }
}

/// Builds the planet that `pb` describes and adds its body to `world`, as the
/// editor's create action does. Returns the new body's index and its style.
pub fn create_planet(world: &mut World, pb: PlanetBuilder) -> (r: Result<(usize, PlanetStyle), PlanetError>)
    requires
        old(world).wf(),
    ensures
        final(world).wf(),
        r is Ok <==> planet_error(pb) is None,
        r is Ok ==> final(world)@ == old(world)@.push(built_planet(pb).body) && r->Ok_0 == (
            old(world)@.len() as usize,
            built_planet(pb).style,
        ),
        r is Err ==> final(world)@ == old(world)@ && Some(r->Err_0) == planet_error(pb),
{
    match pb.build() {
        Ok(p) => {
            let index = world.add_body(p.body);
            Ok((index, p.style))
        },
        Err(e) => Err(e),
    }
}

impl PlanetBuilder {
    /// Builds the planet: a dynamic body when a velocity is given, a static
    /// one otherwise. A negative or zero mass, a negative radius, or a value
    /// out of the world's range is rejected.
    pub fn build(self) -> (r: Result<Planet, PlanetError>)
        ensures
            r is Ok <==> planet_error(self) is None,
            r is Ok ==> r->Ok_0 == built_planet(self) && r->Ok_0.body.valid(),
            r is Err ==> Some(r->Err_0) == planet_error(self),
    {
        if self.mass < 0 {
            return Err(PlanetError::NegativeMass);
        }
        if self.mass == 0 {
            return Err(PlanetError::ZeroMass);
        }
        if self.mass > MAX_MASS as i64 {
            return Err(PlanetError::MassTooLarge);
        }
        if let Some(r) = self.radius {
            if r < 0 {
                return Err(PlanetError::NegativeRadius);
            }
        }
        if !in_range(self.position, MAX_COORDINATE) {
            return Err(PlanetError::PositionOutOfRange);
        }
        if let Some(v) = self.velocity {
            if !in_range(v, MAX_SPEED) {
                return Err(PlanetError::VelocityOutOfRange);
            }
        }
        let mass = self.mass as u64;
        let radius = match self.radius {
            Some(r) => r,
            None => calculate_radius(mass),
        };
        let motion = match self.velocity {
            Some(v) => Motion::Dynamic(PhysicsVelocity::new(v)),
            None => Motion::Static,
        };
        let body = Body {
            material: PhysicsMaterial { mass },
            transform: PhysicsTransform { location: self.position },
            motion,
            collider: Some(Collider { center: self.position, radius }),
        };
        Ok(Planet { body, style: PlanetStyle { radius, color: self.color } })
    }
}

/// An ordered list of planet descriptions that makes up a level.
#[derive(Clone, Debug)]
pub struct LevelBuilder {
    planets: Vec<PlanetBuilder>,
}

impl View for LevelBuilder {
    type V = Seq<PlanetBuilder>;

    closed spec fn view(&self) -> Seq<PlanetBuilder> {
        self.planets@
    }
}

impl Default for LevelBuilder {
    fn default() -> (r: Self)
        ensures
            r@ == Seq::<PlanetBuilder>::empty(),
    {
        LevelBuilder { planets: Vec::new() }
    }
}

impl LevelBuilder {
    /// A level with no planets.
    pub fn new() -> (r: Self)
        ensures
            r@ == Seq::<PlanetBuilder>::empty(),
    {
        LevelBuilder { planets: Vec::new() }
    }

    /// The level with `planet` added after the others.
    pub fn add_planet(self, planet: PlanetBuilder) -> (r: Self)
        ensures
            r@ == self@.push(planet),
    {
        let mut planets = self.planets;
        planets.push(planet);
        LevelBuilder { planets }
    }

    /// Builds every planet in order into a new world, with the style of each
    /// at the same index. Fails with the error of the first planet that is
    /// rejected.
    pub fn construct_level(&self) -> (r: Result<(World, Vec<PlanetStyle>), PlanetError>)
        ensures
            r is Ok <==> forall|i: int| 0 <= i < self@.len() ==> #[trigger] planet_error(self@[i]) is None,
            r is Ok ==> {
                &&& r->Ok_0.0.wf()
                &&& r->Ok_0.0@ == Seq::new(self@.len(), |i: int| built_planet(self@[i]).body)
                &&& r->Ok_0.1@ == Seq::new(self@.len(), |i: int| built_planet(self@[i]).style)
            },
            r is Err ==> exists|i: int|
                0 <= i < self@.len() && #[trigger] planet_error(self@[i]) == Some(r->Err_0) && forall|
                    j: int,
                | 0 <= j < i ==> #[trigger] planet_error(self@[j]) is None,
    {
        let mut world = World::new();
        let mut styles: Vec<PlanetStyle> = Vec::new();
        let n = self.planets.len();
        let mut i: usize = 0;
        while i < n
            invariant
                n == self@.len(),
                0 <= i <= n,
                world.wf(),
                world@ == Seq::new(i as nat, |x: int| built_planet(self@[x]).body),
                styles@ == Seq::new(i as nat, |x: int| built_planet(self@[x]).style),
                forall|j: int| 0 <= j < i ==> #[trigger] planet_error(self@[j]) is None,
            decreases n - i,
        {
            match self.planets[i].build() {
                Ok(p) => {
                    world.add_body(p.body);
                    styles.push(p.style);
                    assert(world@ =~= Seq::new((i + 1) as nat, |x: int| built_planet(self@[x]).body));
                    assert(styles@ =~= Seq::new((i + 1) as nat, |x: int| built_planet(self@[x]).style));
                },
                Err(e) => {
                    assert(planet_error(self@[i as int]) == Some(e));
                    return Err(e);
                },
            }
            i += 1;
        }
        Ok((world, styles))
    }
}

} // verus!
