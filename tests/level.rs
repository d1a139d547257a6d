use n_body_platformer::fixed::{MAX_COORDINATE, MAX_MASS, MAX_SPEED, ONE};
use n_body_platformer::level_builder::{
    calculate_radius, create_planet, Color, LevelBuilder, PlanetBuilder, PlanetError,
};
use n_body_platformer::physics::{Collider, Motion, PhysicsVelocity, Vector};

const RED: Color = Color { r: 255, g: 0, b: 0, a: 255 };

fn builder(mass: i64) -> PlanetBuilder {
    PlanetBuilder {
        mass,
        position: Vector { x: 3 * ONE, y: -2 * ONE },
        velocity: Some(Vector { x: ONE, y: 0 }),
        radius: None,
        color: RED,
    }
}

#[test]
fn zero_mass_is_rejected() {
    assert_eq!(builder(0).build(), Err(PlanetError::ZeroMass));
}

#[test]
fn negative_mass_is_rejected() {
    assert_eq!(builder(-1).build(), Err(PlanetError::NegativeMass));
}

#[test]
fn too_large_mass_is_rejected() {
    assert_eq!(builder(MAX_MASS as i64 + 1).build(), Err(PlanetError::MassTooLarge));
    assert!(builder(MAX_MASS as i64).build().is_ok());
}

#[test]
fn negative_radius_is_rejected() {
    let pb = PlanetBuilder { radius: Some(-1), ..builder(10) };
    assert_eq!(pb.build(), Err(PlanetError::NegativeRadius));
    let pb = PlanetBuilder { radius: Some(0), ..builder(10) };
    assert_eq!(pb.build().unwrap().style.radius, 0);
}

#[test]
fn out_of_range_values_are_rejected() {
    let pb = PlanetBuilder { position: Vector { x: MAX_COORDINATE + 1, y: 0 }, ..builder(10) };
    assert_eq!(pb.build(), Err(PlanetError::PositionOutOfRange));
    let pb = PlanetBuilder { velocity: Some(Vector { x: 0, y: -MAX_SPEED - 1 }), ..builder(10) };
    assert_eq!(pb.build(), Err(PlanetError::VelocityOutOfRange));
    // Mass is checked before anything else.
    let pb = PlanetBuilder { radius: Some(-5), ..builder(0) };
    assert_eq!(pb.build(), Err(PlanetError::ZeroMass));
}

#[test]
fn velocity_decides_the_kind_of_body() {
    let dynamic = builder(100).build().unwrap();
    assert_eq!(
        dynamic.body.motion,
        Motion::Dynamic(PhysicsVelocity::new(Vector { x: ONE, y: 0 }))
    );
    let fixed = PlanetBuilder { velocity: None, ..builder(100) }.build().unwrap();
    assert_eq!(fixed.body.motion, Motion::Static);
    assert_eq!(fixed.body.material.mass, 100);
    assert_eq!(fixed.body.transform.location, Vector { x: 3 * ONE, y: -2 * ONE });
    assert_eq!(fixed.style.color, RED);
}

#[test]
fn radius_derives_from_mass() {
    // sqrt(100 / pi) = 5.6419 world units.
    assert_eq!(calculate_radius(100), 369747);
    assert_eq!(calculate_radius(1000), 1169243);
    let p = builder(100).build().unwrap();
    assert_eq!(p.style.radius, 369747);
    assert_eq!(
        p.body.collider,
        Some(Collider { center: Vector { x: 3 * ONE, y: -2 * ONE }, radius: 369747 })
    );
    let explicit = PlanetBuilder { radius: Some(12345), ..builder(100) }.build().unwrap();
    assert_eq!(explicit.style.radius, 12345);
    assert_eq!(explicit.body.collider.unwrap().radius, 12345);
}

#[test]
fn level_builds_in_order() {
    let level = LevelBuilder::default()
        .add_planet(builder(300))
        .add_planet(PlanetBuilder { velocity: None, ..builder(3600) });
    let (world, styles) = level.construct_level().unwrap();
    assert_eq!(world.len(), 2);
    assert_eq!(styles.len(), 2);
    assert_eq!(world.body(0).material.mass, 300);
    assert_eq!(world.body(1).motion, Motion::Static);
    assert_eq!(styles[1].radius, calculate_radius(3600));
}

#[test]
fn level_reports_first_rejected_planet() {
    let level = LevelBuilder::new()
        .add_planet(builder(5))
        .add_planet(builder(-3))
        .add_planet(builder(0));
    assert_eq!(level.construct_level().err(), Some(PlanetError::NegativeMass));
}

#[test]
fn default_planet_has_zero_mass() {
    let pb = PlanetBuilder::default();
    assert_eq!(pb.mass, 0);
    assert_eq!(pb.velocity, None);
    assert_eq!(pb.build(), Err(PlanetError::ZeroMass));
}

#[test]
fn created_planet_joins_the_world() {
    let (mut world, _) = LevelBuilder::new().add_planet(builder(300)).construct_level().unwrap();
    let (index, style) = create_planet(&mut world, builder(1000)).unwrap();
    assert_eq!(index, 1);
    assert_eq!(style.radius, 1169243);
    assert_eq!(world.len(), 2);
    assert_eq!(world.body(1).material.mass, 1000);
    assert_eq!(create_planet(&mut world, builder(0)), Err(PlanetError::ZeroMass));
    assert_eq!(world.len(), 2);
}
