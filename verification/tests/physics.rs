use physics_sim::fixed::UNIT;
use physics_sim::physics::{ColliderType, Physics, PhysicsObject};
use physics_sim::{Behavior, SimObject, Vector};

struct Inert;

impl Behavior for Inert {
    fn update(&mut self, _obj: &mut SimObject<Self>) {}

    fn fixed_update(&mut self, _obj: &mut SimObject<Self>) {}
}

fn body(mass: i64) -> PhysicsObject {
    PhysicsObject::new(
        ColliderType::Circle { radius: 15 * UNIT },
        mass,
        Vector::new(0, 0),
        Vector::new(0, 0),
    )
}

fn entity(x: i64, y: i64, physics_object: Option<PhysicsObject>) -> SimObject<Inert> {
    SimObject::new(x, y, 0, None, physics_object, None, None)
}

#[test]
fn rest_state_is_idempotent() {
    // zero gravity, zero velocity, no injected forces: no motion, ever
    let mut world = Physics::new(Vector::new(0, 0));
    let mut objects = vec![entity(10 * UNIT, 50 * UNIT, Some(body(UNIT)))];
    for _ in 0..100 {
        world.update(&mut objects, 10_000);
    }
    assert_eq!(objects[0].x, 10 * UNIT);
    assert_eq!(objects[0].y, 50 * UNIT);
}

#[test]
fn falling_body_matches_discrete_euler_sum() {
    // gravity (0, -9.8), mass 1, dt = 0.01 s, 100 ticks: the displacement is
    // the sum of the per-tick velocities times dt (semi-implicit Euler), not
    // the continuous-time closed form 0.5*g*t^2
    let gravity = Vector::new(0, -9_800_000);
    let mass = UNIT;
    let dt: u64 = 10_000;
    let mut world = Physics::new(gravity);
    let y0 = 50 * UNIT;
    let mut objects = vec![entity(0, y0, Some(body(mass)))];
    for _ in 0..100 {
        world.update(&mut objects, dt);
    }

    // ground truth from the discrete recurrence, in the same fixed-point scale
    let mut v: i64 = 0;
    let mut y: i64 = y0;
    for _ in 0..100 {
        let accel = -9_800_000i64; // g * m / m
        v += accel * dt as i64 / UNIT;
        y += v * dt as i64 / UNIT;
    }
    assert_eq!(objects[0].y, y);
    assert_eq!(objects[0].y, y0 - 4_949_000);

    // the continuous-time closed form 0.5*g*t^2 gives -4.9 units instead
    assert_ne!(objects[0].y, y0 - 4_900_000);
}

#[test]
fn entity_without_body_is_untouched() {
    let mut world = Physics::new(Vector::new(0, -9_800_000));
    let mut objects = vec![entity(7 * UNIT, 9 * UNIT, None)];
    objects[0].rotation = 123_456;
    let id = objects[0].id;
    for _ in 0..50 {
        world.update(&mut objects, 10_000);
    }
    assert_eq!(objects[0].x, 7 * UNIT);
    assert_eq!(objects[0].y, 9 * UNIT);
    assert_eq!(objects[0].rotation, 123_456);
    assert_eq!(objects[0].id, id);
}

#[test]
fn injected_force_is_a_single_tick_impulse() {
    // zero gravity; inject 2 N once; one second per tick
    let mut world = Physics::new(Vector::new(0, 0));
    let mut objects = vec![entity(0, 0, Some(body(UNIT)))];
    match objects[0].physics_object {
        Some(ref mut b) => {
            b.apply_force(Vector::new(2 * UNIT, 0));
            assert_eq!(b.get_force_count(), 2);
        },
        None => unreachable!(),
    }

    world.update(&mut objects, 1_000_000);
    let b = objects[0].physics_object.as_ref().unwrap();
    assert_eq!(b.get_force_count(), 1); // injected forces are cleared
    assert_eq!(b.get_velocity(), Vector::new(2 * UNIT, 0));
    assert_eq!(objects[0].x, 2 * UNIT);

    // next tick: no force left, velocity stays, position keeps drifting
    world.update(&mut objects, 1_000_000);
    let b = objects[0].physics_object.as_ref().unwrap();
    assert_eq!(b.get_velocity(), Vector::new(2 * UNIT, 0));
    assert_eq!(objects[0].x, 4 * UNIT);
}

#[test]
fn gravity_slot_is_rewritten_each_tick() {
    let mut world = Physics::new(Vector::new(0, -9_800_000));
    let mut objects = vec![entity(0, 0, Some(body(2 * UNIT)))];
    world.update(&mut objects, 10_000);
    let b = objects[0].physics_object.as_ref().unwrap();
    // acceleration is g, independent of mass: (g * m) / m
    assert_eq!(b.get_acceleration(), Vector::new(0, -9_800_000));
    assert_eq!(b.get_mass(), 2 * UNIT);
}

#[test]
fn collider_shapes_are_recorded() {
    let shapes = [
        ColliderType::Circle { radius: UNIT },
        ColliderType::Rectangle { width: UNIT, height: 2 * UNIT },
        ColliderType::Line { length: 3 * UNIT },
    ];
    for shape in shapes {
        let b = PhysicsObject::new(shape, UNIT, Vector::new(0, 0), Vector::new(0, 0));
        assert_eq!(b.get_mass(), UNIT);
    }
}
