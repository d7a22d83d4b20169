use physics_sim::fixed::UNIT;
use physics_sim::graphics::{Color, RenderObject, RenderType};
use physics_sim::physics::{ColliderType, Physics, PhysicsObject};
use physics_sim::{Behavior, SimObject, Simulation, Vector};

enum Motion {
    Spin,
    GrowLine,
}

impl Behavior for Motion {
    fn update(&mut self, obj: &mut SimObject<Self>) {
        match self {
            Motion::Spin => {
                obj.rotation += 100_000; // 0.1 degrees per variable tick
            },
            Motion::GrowLine => {
                if let Ok(render_object) = obj.get_render_object_mut() {
                    if let RenderType::Line { magnitude } = render_object.render_type {
                        render_object.render_type = RenderType::Line { magnitude: magnitude + 50_000 };
                    }
                }
            },
        }
    }

    fn fixed_update(&mut self, obj: &mut SimObject<Self>) {
        obj.rotation += 1;
    }
}

fn falling_entity(x: i64, y: i64) -> SimObject<Motion> {
    SimObject::new(
        x,
        y,
        0,
        None,
        Some(PhysicsObject::new(
            ColliderType::Circle { radius: 15 * UNIT },
            UNIT,
            Vector::new(0, 0),
            Vector::new(0, 0),
        )),
        None,
        None,
    )
}

fn sim(time_step: i32) -> Simulation<Motion> {
    Simulation::new(time_step, Physics::new(Vector::new(0, -9_800_000)))
}

#[test]
fn new_simulation_starts_cold() {
    let s = sim(10_000);
    assert_eq!(s.objects.len(), 0);
    assert_eq!(s.time_step, 10_000);
    assert_eq!(s.get_delta_time(), 0);
    assert_eq!(s.get_fixed_delta_time(), 0);
}

#[test]
fn no_fixed_tick_before_interval_elapses() {
    let mut s = sim(10_000);
    s.objects.push(falling_entity(0, 50 * UNIT));
    for now in [1_000u64, 2_000, 5_000, 9_999] {
        s.update(now);
    }
    // no fixed tick ran: the fixed clock never moved and nothing fell
    assert_eq!(s.get_fixed_delta_time(), 0);
    assert_eq!(s.objects[0].y, 50 * UNIT);
    let b = s.objects[0].physics_object.as_ref().unwrap();
    assert_eq!(b.get_velocity(), Vector::new(0, 0));
}

#[test]
fn exactly_one_fixed_tick_on_the_crossing_call() {
    let mut s = sim(10_000);
    s.objects.push(falling_entity(0, 50 * UNIT));
    s.update(9_999);
    assert_eq!(s.get_fixed_delta_time(), 0);
    s.update(10_000);
    // the crossing call ran one fixed tick and measured the elapsed time
    assert_eq!(s.get_fixed_delta_time(), 10_000);
    // that first tick integrated with the previously measured duration, zero
    assert_eq!(s.objects[0].y, 50 * UNIT);
    s.update(20_000);
    // the second tick integrates a real 0.01 s step
    assert_eq!(s.get_fixed_delta_time(), 10_000);
    let b = s.objects[0].physics_object.as_ref().unwrap();
    assert_eq!(b.get_velocity(), Vector::new(0, -98_000));
    assert_eq!(s.objects[0].y, 50 * UNIT - 980);
}

#[test]
fn no_catch_up_burst_after_a_long_stall() {
    let mut s = sim(10_000);
    s.objects.push(falling_entity(0, 50 * UNIT));
    // ten intervals' worth of time passes before a single update call
    s.update(100_000);
    assert_eq!(s.get_fixed_delta_time(), 100_000);
    // immediately afterwards no further tick is due
    s.update(100_001);
    assert_eq!(s.get_fixed_delta_time(), 100_000);
    assert_eq!(s.objects[0].y, 50 * UNIT);
}

#[test]
fn variable_behavior_runs_every_update() {
    let mut s = sim(1_000_000);
    s.objects.push(SimObject::new(0, 0, 0, None, None, Some(Motion::Spin), None));
    s.update(1);
    s.update(2);
    s.update(3);
    assert_eq!(s.objects[0].rotation, 300_000);
}

#[test]
fn fixed_behavior_runs_only_on_fixed_ticks() {
    let mut s = sim(10_000);
    s.objects.push(SimObject::new(0, 0, 0, None, None, None, Some(Motion::Spin)));
    s.update(1_000);
    s.update(2_000);
    assert_eq!(s.objects[0].rotation, 0);
    s.update(10_000);
    assert_eq!(s.objects[0].rotation, 1);
    s.update(10_500);
    assert_eq!(s.objects[0].rotation, 1);
}

#[test]
fn behavior_can_reshape_its_render_object() {
    let mut s = sim(1_000_000);
    s.objects.push(SimObject::new(
        10 * UNIT,
        50 * UNIT,
        0,
        Some(RenderObject::new(Color::rgb(255, 0, 0), RenderType::Line { magnitude: 12 * UNIT })),
        None,
        Some(Motion::GrowLine),
        None,
    ));
    s.update(1);
    s.update(2);
    match &s.objects[0].render_object {
        Some(render_object) => match render_object.render_type {
            RenderType::Line { magnitude } => assert_eq!(magnitude, 12 * UNIT + 100_000),
            _ => unreachable!(),
        },
        None => unreachable!(),
    }
}

#[test]
fn frame_clock_tracks_wall_time_between_updates() {
    let mut s = sim(1_000_000);
    s.update(5);
    assert_eq!(s.get_delta_time(), 5);
    s.update(8);
    assert_eq!(s.get_delta_time(), 3);
}

#[test]
fn render_object_lookup_reports_missing_state() {
    let with: SimObject<Motion> = SimObject::new(
        0,
        0,
        0,
        Some(RenderObject::new(Color::rgb(1, 2, 3), RenderType::Point)),
        None,
        None,
        None,
    );
    assert!(with.get_render_object().is_ok());
    assert_eq!(with.get_render_object().unwrap().color, Color::rgb(1, 2, 3));

    let mut without: SimObject<Motion> = SimObject::new(0, 0, 0, None, None, None, None);
    assert!(without.get_render_object().is_err());
    assert!(without.get_render_object_mut().is_err());
}

#[test]
fn entity_ids_are_assigned_at_creation() {
    let a: SimObject<Motion> = SimObject::new(0, 0, 0, None, None, None, None);
    let b: SimObject<Motion> = SimObject::new(0, 0, 0, None, None, None, None);
    // random 128-bit identities: a collision here is negligible
    assert_ne!(a.id, b.id);
}
