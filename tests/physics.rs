use n_body_platformer::fixed::{isqrt, MAX_COORDINATE, MAX_STEP, ONE};
use n_body_platformer::gravity::gravity_between;
use n_body_platformer::level_builder::{Color, LevelBuilder, PlanetBuilder};
use n_body_platformer::physics::{
    Accumulator, Body, EditError, Motion, PhysicsTransform, PhysicsVelocity, Vector, World,
};

const WHITE: Color = Color { r: 255, g: 255, b: 255, a: 255 };

fn v(x: i64, y: i64) -> Vector {
    Vector { x, y }
}

fn planet(mass: i64, x: i64, y: i64, velocity: Option<Vector>) -> PlanetBuilder {
    PlanetBuilder { mass, position: v(x * ONE, y * ONE), velocity, radius: None, color: WHITE }
}

fn world_of(planets: &[PlanetBuilder]) -> World {
    let mut level = LevelBuilder::new();
    for p in planets {
        level = level.add_planet(*p);
    }
    level.construct_level().expect("valid level").0
}

fn velocity_of(b: &Body) -> Vector {
    match b.motion {
        Motion::Dynamic(pv) => pv.velocity,
        Motion::Static => panic!("static body"),
    }
}

fn accumulator_of(b: &Body) -> Accumulator {
    match b.motion {
        Motion::Dynamic(pv) => pv.acceleration,
        Motion::Static => panic!("static body"),
    }
}

#[test]
fn two_equal_bodies_one_tick() {
    let mut w = world_of(&[planet(100, 0, 0, Some(v(0, 0))), planet(100, 10, 0, Some(v(0, 0)))]);
    w.tick(ONE as u32);
    let a = w.body(0);
    let b = w.body(1);
    assert_eq!(velocity_of(&a), v(6740 * ONE, 0));
    assert_eq!(velocity_of(&b), v(-6740 * ONE, 0));
    assert_eq!(a.transform.location, v(6740 * ONE, 0));
    assert_eq!(b.transform.location, v(10 * ONE - 6740 * ONE, 0));
    assert_eq!(accumulator_of(&a), Accumulator { x: 0, y: 0 });
    assert_eq!(accumulator_of(&b), Accumulator { x: 0, y: 0 });
}

#[test]
fn static_anchor_pulls_dynamic_body() {
    let mut w = world_of(&[planet(1000, 0, 0, None), planet(1, 100, 0, Some(v(0, 0)))]);
    let anchor = w.body(0);
    for _ in 0..10 {
        w.tick(1024);
    }
    assert_eq!(w.body(0), anchor);
    assert_eq!(w.body(0).transform.location, v(0, 0));
    let moving = w.body(1);
    assert_eq!(velocity_of(&moving), v(-7313852, 0));
    assert_eq!(moving.transform.location, v(5941667, 0));
    assert!(moving.transform.location.x < 100 * ONE);
}

#[test]
fn equilateral_triangle_pulls_toward_centroid() {
    let h = (866.0254037844386f64 * ONE as f64).round() as i64;
    let mut level = LevelBuilder::new();
    level = level.add_planet(planet(100, 0, 0, Some(v(0, 0))));
    level = level.add_planet(planet(100, 1000, 0, Some(v(0, 0))));
    level = level.add_planet(PlanetBuilder {
        mass: 100,
        position: v(500 * ONE, h),
        velocity: Some(v(0, 0)),
        radius: None,
        color: WHITE,
    });
    let mut w = level.construct_level().unwrap().0;
    let start: Vec<Vector> = (0..3).map(|i| w.body(i).transform.location).collect();
    let cx = (start[0].x + start[1].x + start[2].x) as f64 / 3.0;
    let cy = (start[0].y + start[1].y + start[2].y) as f64 / 3.0;
    w.tick(ONE as u32);
    // Three pairs: each body feels two equal pulls 60 degrees apart.
    let expected = 2.0 * 0.674 * (std::f64::consts::PI / 6.0).cos();
    for i in 0..3 {
        let vel = velocity_of(&w.body(i));
        let (vx, vy) = (vel.x as f64, vel.y as f64);
        let magnitude = (vx * vx + vy * vy).sqrt() / ONE as f64;
        assert!((magnitude - expected).abs() < expected * 1e-3, "magnitude {}", magnitude);
        let (tx, ty) = (cx - start[i].x as f64, cy - start[i].y as f64);
        let cross = vx * ty - vy * tx;
        let dot = vx * tx + vy * ty;
        assert!(dot > 0.0);
        assert!(cross.abs() < 1e-3 * (vx * vx + vy * vy).sqrt() * (tx * tx + ty * ty).sqrt());
    }
}

#[test]
fn pair_forces_are_exact_negations() {
    let pa = v(0, 0);
    let pb = v(3 * ONE, 4 * ONE);
    let f = gravity_between(100, pa, 300, pb);
    let g = gravity_between(300, pb, 100, pa);
    assert_eq!(f, (318033100800, 424044134400));
    assert_eq!(g, (-f.0, -f.1));
    let far = gravity_between(7, v(-1000 * ONE, 250 * ONE), 11, v(37 * ONE, -5 * ONE));
    let back = gravity_between(11, v(37 * ONE, -5 * ONE), 7, v(-1000 * ONE, 250 * ONE));
    assert_eq!(far, (-back.0, -back.1));
}

#[test]
fn coincident_bodies_exert_no_force() {
    assert_eq!(gravity_between(50, v(ONE, ONE), 70, v(ONE, ONE)), (0, 0));
}

#[test]
fn close_bodies_use_the_minimum_distance() {
    // 100 steps apart: the force law uses one world unit instead.
    assert_eq!(gravity_between(5, v(0, 0), 7, v(100, 0)), (15459942400, 0));
    assert_eq!(15459942400, 6740 * 5 * 7 * ONE as i128);
}

#[test]
fn static_body_stays_put_over_many_ticks() {
    let mut w = world_of(&[
        planet(5000, 3, -4, None),
        planet(20, 50, 0, Some(v(0, 10 * ONE))),
        planet(30, -70, 20, Some(v(2 * ONE, 0))),
    ]);
    let anchor = w.body(0);
    for _ in 0..50 {
        w.tick(1024);
    }
    assert_eq!(w.body(0), anchor);
}

#[test]
fn accumulators_are_empty_after_each_tick() {
    let mut w = world_of(&[
        planet(500, 0, 0, Some(v(0, 0))),
        planet(20, 40, 30, Some(v(ONE, 0))),
        planet(800, -60, 10, None),
    ]);
    for _ in 0..5 {
        w.tick(4096);
        for i in [0usize, 1] {
            assert_eq!(accumulator_of(&w.body(i)), Accumulator { x: 0, y: 0 });
        }
    }
}

#[test]
fn identical_runs_end_identically() {
    let planets = [
        planet(420000, 0, 0, Some(v(0, 0))),
        planet(4200, 1600, 0, Some(v(0, 150 * ONE))),
        planet(40, 1500, 0, Some(v(0, 96 * ONE))),
        planet(3700, 600, 300, Some(v(-180 * ONE, 230 * ONE))),
    ];
    let mut a = world_of(&planets);
    let mut b = world_of(&planets);
    for _ in 0..40 {
        a.tick(1024);
        b.tick(1024);
    }
    for i in 0..4 {
        assert_eq!(a.body(i), b.body(i));
    }
}

#[test]
fn no_ticks_leave_bodies_unchanged() {
    let planets = [planet(100, 1, 2, Some(v(ONE, -ONE))), planet(200, -3, 4, None)];
    let w = world_of(&planets);
    let again = world_of(&planets);
    for i in 0..2 {
        assert_eq!(w.body(i), again.body(i));
        assert_eq!(w.body(i).transform.location, planets[i].position);
    }
}

#[test]
fn positions_saturate_at_the_world_edge() {
    let mut w = world_of(&[planet(1, 0, 0, Some(v(0, 0)))]);
    w.set_position(0, v(MAX_COORDINATE - 5, 0)).unwrap();
    w.set_velocity(0, v(100 * ONE, 0)).unwrap();
    w.tick(MAX_STEP);
    assert_eq!(w.body(0).transform.location, v(MAX_COORDINATE, 0));
}

#[test]
fn collider_follows_position_on_sync() {
    let mut w = world_of(&[planet(100, 0, 0, Some(v(ONE, 0)))]);
    let before = w.body(0).collider.unwrap();
    w.tick(ONE as u32);
    assert_eq!(w.body(0).collider.unwrap().center, before.center);
    w.sync_colliders();
    let after = w.body(0).collider.unwrap();
    assert_eq!(after.center, w.body(0).transform.location);
    assert_eq!(after.center, v(ONE, 0));
    assert_eq!(after.radius, before.radius);
}

#[test]
fn edits_are_checked() {
    let mut w = world_of(&[planet(100, 0, 0, None), planet(10, 5, 5, Some(v(0, 0)))]);
    assert_eq!(w.set_velocity(0, v(1, 1)), Err(EditError::NotDynamic));
    assert_eq!(w.set_velocity(1, v(i64::MAX, 0)), Err(EditError::OutOfRange));
    assert_eq!(w.set_position(1, v(0, MAX_COORDINATE + 1)), Err(EditError::OutOfRange));
    assert_eq!(w.set_mass(1, 0), Err(EditError::OutOfRange));
    assert_eq!(w.set_mass(1, 42), Ok(()));
    assert_eq!(w.body(1).material.mass, 42);
    assert_eq!(w.set_velocity(1, v(3, -3)), Ok(()));
    assert_eq!(velocity_of(&w.body(1)), v(3, -3));
    let removed = w.remove_body(0);
    assert_eq!(removed.motion, Motion::Static);
    assert_eq!(w.len(), 1);
    assert_eq!(w.body(0).material.mass, 42);
}

#[test]
fn motion_state_helpers() {
    let mut pv = PhysicsVelocity::new(v(5, -5));
    assert_eq!(pv.acceleration, Accumulator { x: 0, y: 0 });
    pv.acceleration = Accumulator { x: 10, y: 20 };
    pv.apply_acceleration();
    assert_eq!(pv.velocity, v(15, 15));
    pv.reset_acceleration();
    assert_eq!(pv.acceleration, Accumulator { x: 0, y: 0 });
    let mut t = PhysicsTransform { location: v(0, 0) };
    t.move_by_velocity(v(2 * ONE, -3 * ONE), (ONE / 2) as u32);
    assert_eq!(t.location, v(ONE, -3 * ONE / 2));
    let mut w = World::new();
    assert_eq!(w.len(), 0);
    w.tick(ONE as u32);
    assert_eq!(w.len(), 0);
}

#[test]
fn integer_square_roots() {
    assert_eq!(isqrt(0), 0);
    assert_eq!(isqrt(1), 1);
    assert_eq!(isqrt(15), 3);
    assert_eq!(isqrt(16), 4);
    assert_eq!(isqrt(1 << 94), 1 << 47);
    assert_eq!(isqrt((1 << 94) - 1), (1 << 47) - 1);
}
