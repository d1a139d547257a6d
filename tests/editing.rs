use n_body_platformer::edit_tools::{circles_intersect, picking_backend_physics, EditorWindow};
use n_body_platformer::fixed::ONE;
use n_body_platformer::level_builder::{Color, LevelBuilder, PlanetBuilder};
use n_body_platformer::physics::Vector;
use n_body_platformer::trails::{Trail, TRAIL_LENGTH};

#[test]
fn editor_window_state() {
    let mut w = EditorWindow::new(false);
    assert!(!w.get());
    assert!(w.place_at_cursor(true));
    assert!(!w.place_at_cursor(true));
    w.toggle();
    assert!(w.get());
    assert!(!w.place_at_cursor(false));
    assert!(w.place_at_cursor(true));
    w.set(false);
    assert!(!w.get());
    assert!(w.just_changed);
    let d = EditorWindow::default();
    assert!(!d.is_open && !d.just_changed);
}

#[test]
fn circles_meet_when_touching() {
    let o = Vector { x: 0, y: 0 };
    assert!(circles_intersect(o, 3, Vector { x: 5, y: 0 }, 2));
    assert!(!circles_intersect(o, 3, Vector { x: 5, y: 1 }, 2));
    assert!(circles_intersect(o, 0, o, 0));
}

#[test]
fn picking_finds_bodies_under_pointer() {
    let white = Color { r: 255, g: 255, b: 255, a: 255 };
    let level = LevelBuilder::new()
        .add_planet(PlanetBuilder {
            mass: 100,
            position: Vector { x: 0, y: 0 },
            velocity: None,
            radius: Some(10 * ONE),
            color: white,
        })
        .add_planet(PlanetBuilder {
            mass: 100,
            position: Vector { x: 50 * ONE, y: 0 },
            velocity: Some(Vector { x: 0, y: 0 }),
            radius: Some(10 * ONE),
            color: white,
        })
        .add_planet(PlanetBuilder {
            mass: 100,
            position: Vector { x: 5 * ONE, y: 5 * ONE },
            velocity: None,
            radius: Some(ONE),
            color: white,
        });
    let world = level.construct_level().unwrap().0;
    assert_eq!(picking_backend_physics(&world, Vector { x: 4 * ONE, y: 4 * ONE }, ONE), vec![0, 2]);
    assert_eq!(picking_backend_physics(&world, Vector { x: 45 * ONE, y: 0 }, ONE), vec![1]);
    assert_eq!(picking_backend_physics(&world, Vector { x: 30 * ONE, y: 30 * ONE }, ONE), Vec::<usize>::new());
}

#[test]
fn trail_keeps_newest_points() {
    let mut t = Trail::new();
    for i in 0..(TRAIL_LENGTH + 5) {
        t.add_to_trail(i);
    }
    assert_eq!(t.len(), TRAIL_LENGTH);
    assert_eq!(*t.point(0), TRAIL_LENGTH + 4);
    assert_eq!(*t.point(TRAIL_LENGTH - 1), 5);
}

#[test]
fn short_trail_keeps_everything() {
    let mut t = Trail::new();
    t.add_to_trail('a');
    t.add_to_trail('b');
    assert_eq!(t.len(), 2);
    assert_eq!(*t.point(0), 'b');
    assert_eq!(*t.point(1), 'a');
}
