use space_trader::motion::{
    facing_of, isqrt, step_component, turn_heading, Acceleration, Rotation, Transform, Vec3,
    Velocity, FULL_TURN, TURN_SPEED,
};
use space_trader::timer::MICROS_PER_SECOND;
use space_trader::world::{Entity, EntityKind, World};

#[test]
fn symplectic_euler_two_ticks() {
    let mut world = World::new();
    let mut e = Entity::new(EntityKind::Enemy, Transform::from_translation(Vec3::zero()));
    e.velocity = Some(Velocity::new(Vec3::zero()));
    e.acceleration = Some(Acceleration::new(Vec3::new(10_000, 0, 0)));
    world.spawn(e);
    for _ in 0..2 {
        world.update_velocities(MICROS_PER_SECOND);
        world.update_positions(MICROS_PER_SECOND);
        world.update_headings(MICROS_PER_SECOND);
    }
    let moved = world.at(0);
    assert_eq!(moved.velocity.unwrap().value, Vec3::new(20_000, 0, 0));
    assert_eq!(moved.transform.translation, Vec3::new(30_000, 0, 0));
}

#[test]
fn euler_step_rounds_toward_zero() {
    assert_eq!(step_component(0, 10_000, 1), 0);
    assert_eq!(step_component(0, 1_000_000, 1), 1);
    assert_eq!(step_component(0, -1_500_000, 1), -1);
    assert_eq!(step_component(5, 3, 500_000), 6);
    assert_eq!(step_component(5, -3, 500_000), 4);
}

#[test]
fn euler_step_saturates() {
    assert_eq!(step_component(i64::MAX - 1, i64::MAX, u64::MAX), i64::MAX);
    assert_eq!(step_component(i64::MIN + 1, i64::MIN, u64::MAX), i64::MIN);
}

#[test]
fn integer_square_root() {
    assert_eq!(isqrt(0), 0);
    assert_eq!(isqrt(1), 1);
    assert_eq!(isqrt(24), 4);
    assert_eq!(isqrt(25), 5);
    assert_eq!(isqrt(26), 5);
    assert_eq!(isqrt(u128::MAX), u64::MAX as u128);
}

#[test]
fn normalize_keeps_direction() {
    assert_eq!(Vec3::new(3, 4, 0).normalize_or_zero(), Vec3::new(600, 800, 0));
    assert_eq!(Vec3::new(0, -7, 0).normalize_or_zero(), Vec3::new(0, -1000, 0));
    assert_eq!(Vec3::new(-1, -1, 0).normalize_or_zero(), Vec3::new(-707, -707, 0));
    assert_eq!(Vec3::new(1, 2, 0).normalize_or_zero(), Vec3::new(447, 894, 0));
    assert_eq!(Vec3::new(2_000, 0, 0).normalize_or_zero(), Vec3::new(1000, 0, 0));
    assert_eq!(Vec3::new(i64::MAX, i64::MAX, 0).normalize_or_zero(), Vec3::new(707, 707, 0));
}

#[test]
fn normalize_zero_stays_zero() {
    assert_eq!(Vec3::zero().normalize_or_zero(), Vec3::zero());
}

#[test]
fn facing_at_quarter_turns() {
    assert_eq!(facing_of(0), Vec3::new(0, 1000, 0));
    assert_eq!(facing_of(90_000), Vec3::new(-1000, 0, 0));
    assert_eq!(facing_of(180_000), Vec3::new(0, -1000, 0));
    assert_eq!(facing_of(270_000), Vec3::new(1000, 0, 0));
    assert_eq!(facing_of(30_000).x, -500);
}

#[test]
fn heading_turns_and_wraps() {
    let left = Rotation { speed: TURN_SPEED, factor: 1000 };
    let right = Rotation { speed: TURN_SPEED, factor: -1000 };
    assert_eq!(turn_heading(0, left, MICROS_PER_SECOND), 260_000);
    assert_eq!(turn_heading(0, right, MICROS_PER_SECOND), 100_000);
    assert_eq!(turn_heading(200_000, left, MICROS_PER_SECOND), 100_000);
    assert_eq!(turn_heading(5, Rotation::new(), MICROS_PER_SECOND), 5);
    assert!(turn_heading(FULL_TURN - 1, left, u64::MAX) < FULL_TURN);
}

#[test]
fn transform_up_follows_heading() {
    let mut t = Transform::from_translation(Vec3::zero());
    assert_eq!(t.up(), Vec3::new(0, 1000, 0));
    t.heading = 270_000;
    assert_eq!(t.up(), Vec3::new(1000, 0, 0));
}
