//! What the spawners create: the player's ship, enemies, projectiles and
//! stations, with the game's fixed speeds, sizes and lifetimes.
use crate::motion::{
    facing, scale_unit, scaled, sum_sat, add_saturating, Acceleration, Rotation, Transform,
    Vec3, Velocity, TURN_SPEED, UNIT,
};
use crate::timer::{Timer, TimerMode, MICROS_PER_SECOND};
use crate::world::{Entity, EntityKind, Screen};
use vstd::prelude::*;

verus! {

broadcast use Timer::lemma_fresh;

/// Seconds between two enemy spawns.
pub const ENEMY_SPAWN_SECONDS: u64 = 3;

/// Seconds an enemy lives.
pub const ENEMY_LIFETIME_SECONDS: u64 = 20;

/// Enemy speed, in world units per second.
pub const ENEMY_SPEED: i32 = 50;

/// Enemy acceleration, in world units per second squared.
pub const ENEMY_ACCELERATION: i32 = 1;

/// Enemies appear with both coordinates in `[-SPAWN_EXTENT, SPAWN_EXTENT)`.
pub const SPAWN_EXTENT: i64 = 100_000;

/// The ship's speed under thrust, in world units per second.
pub const MOVEMENT_SPEED: i32 = 280;

/// Projectile speed, in world units per second.
pub const PROJECTILE_SPEED: i32 = 500;

/// How far ahead of the ship a projectile appears, in world units.
pub const PROJECTILE_FORWARD_OFFSET: i32 = 20;

/// Seconds a projectile lives.
pub const PROJECTILE_LIFETIME_SECONDS: u64 = 2;

/// The random values an enemy is made from.
#[derive(Clone, Copy, Debug, PartialEq, Eq, Structural)]
pub struct EnemyDraw {
    /// Where the enemy appears.
    pub x: i64,
    pub y: i64,
    /// The direction of its velocity, before normalising.
    pub vx: i64,
    pub vy: i64,
    /// The direction of its acceleration, before normalising.
    pub ax: i64,
    pub ay: i64,
}

impl EnemyDraw {
    /// Each value lies in the range it is drawn from.
    pub open spec fn wf(self) -> bool {
        &&& -SPAWN_EXTENT <= self.x < SPAWN_EXTENT
        &&& -SPAWN_EXTENT <= self.y < SPAWN_EXTENT
        &&& -UNIT <= self.vx < UNIT
        &&& -UNIT <= self.vy < UNIT
        &&& -UNIT <= self.ax < UNIT
        &&& -UNIT <= self.ay < UNIT
    }
}

/// The enemy made from `d`: at the drawn point, moving and accelerating along
/// the drawn directions normalised (zero stays zero), with a one-shot lifetime.
pub open spec fn enemy_spec(d: EnemyDraw) -> Entity {
    Entity {
        id: 0,
        kind: EntityKind::Enemy,
        transform: Transform {
            translation: Vec3 { x: d.x, y: d.y, z: 0 },
            heading: 0,
            scale: Vec3 { x: UNIT, y: UNIT, z: UNIT },
        },
        velocity: Some(
            Velocity { value: scaled(Vec3 { x: d.vx, y: d.vy, z: 0 }.normalized(), ENEMY_SPEED as int) },
        ),
        acceleration: Some(
            Acceleration {
                value: scaled(Vec3 { x: d.ax, y: d.ay, z: 0 }.normalized(), ENEMY_ACCELERATION as int),
            },
        ),
        rotation: None,
        lifetime: Some(
            Timer::fresh((ENEMY_LIFETIME_SECONDS * MICROS_PER_SECOND) as nat, TimerMode::Once),
        ),
        screen: None,
        station: None,
    }
}

/// Both directions an enemy is made from come out of normalising as length
/// `UNIT` up to rounding, or zero where the drawn direction is zero.
pub open spec fn unit_or_zero(v: Vec3) -> bool {
    if v.norm_sq() == 0 {
        v.normalized() == Vec3::zero_spec()
    } else {
        (UNIT - 2) * (UNIT - 2) <= v.normalized().norm_sq() <= (UNIT + 2) * (UNIT + 2)
    }
}

pub fn enemy_from(d: EnemyDraw) -> (r: Entity)
    ensures
        r == enemy_spec(d),
        r.wf(),
        unit_or_zero(Vec3 { x: d.vx, y: d.vy, z: 0 }),
        unit_or_zero(Vec3 { x: d.ax, y: d.ay, z: 0 }),
{
    let v = Vec3::new(d.vx, d.vy, 0).normalize_or_zero();
    let a = Vec3::new(d.ax, d.ay, 0).normalize_or_zero();
    let mut e = Entity::new(EntityKind::Enemy, Transform::from_translation(Vec3::new(d.x, d.y, 0)));
    e.velocity = Some(Velocity::new(scale_unit(v, ENEMY_SPEED)));
    e.acceleration = Some(Acceleration::new(scale_unit(a, ENEMY_ACCELERATION)));
    e.lifetime = Some(Timer::from_seconds(ENEMY_LIFETIME_SECONDS, TimerMode::Once));
    e
}

/// The projectile fired from a ship at `t`: a little ahead of it, flying the
/// way it faces, with a one-shot lifetime.
pub open spec fn projectile_spec(t: Transform) -> Entity {
    let up = facing(t.heading as int);
    Entity {
        id: 0,
        kind: EntityKind::Projectile,
        transform: Transform {
            translation: sum_sat(t.translation, scaled(up, PROJECTILE_FORWARD_OFFSET as int)),
            heading: 0,
            scale: Vec3 { x: 30, y: 30, z: 0 },
        },
        velocity: Some(Velocity { value: scaled(up, PROJECTILE_SPEED as int) }),
        acceleration: Some(Acceleration { value: Vec3::zero_spec() }),
        rotation: None,
        lifetime: Some(
            Timer::fresh((PROJECTILE_LIFETIME_SECONDS * MICROS_PER_SECOND) as nat, TimerMode::Once),
        ),
        screen: None,
        station: None,
    }
}

pub fn projectile_from(t: &Transform) -> (r: Entity)
    requires
        t.wf(),
    ensures
        r == projectile_spec(*t),
        r.wf(),
{
    let up = t.up();
    let at = add_saturating(t.translation, scale_unit(up, PROJECTILE_FORWARD_OFFSET));
    let placed = Transform::from_translation(at).with_scale(Vec3::new(30, 30, 0));
    let mut e = Entity::new(EntityKind::Projectile, placed);
    e.velocity = Some(Velocity::new(scale_unit(up, PROJECTILE_SPEED)));
    e.acceleration = Some(Acceleration::new(Vec3::zero()));
    e.lifetime = Some(Timer::from_seconds(PROJECTILE_LIFETIME_SECONDS, TimerMode::Once));
    e
}

/// The player's ship as it enters the game: at the origin, at rest, facing up.
pub open spec fn player_spec() -> Entity {
    Entity {
        id: 0,
        kind: EntityKind::Player,
        transform: Transform {
            translation: Vec3 { x: 0, y: 0, z: UNIT },
            heading: 0,
            scale: Vec3 { x: 200, y: 200, z: UNIT },
        },
        velocity: Some(Velocity { value: Vec3::zero_spec() }),
        acceleration: Some(Acceleration { value: Vec3::zero_spec() }),
        rotation: Some(Rotation { speed: TURN_SPEED, factor: 0 }),
        lifetime: None,
        screen: None,
        station: None,
    }
}

pub fn player_ship() -> (r: Entity)
    ensures
        r == player_spec(),
        r.wf(),
{
    let placed = Transform::from_translation(Vec3::new(0, 0, UNIT)).with_scale(
        Vec3::new(200, 200, UNIT),
    );
    let mut e = Entity::new(EntityKind::Player, placed);
    e.velocity = Some(Velocity::new(Vec3::zero()));
    e.acceleration = Some(Acceleration::new(Vec3::zero()));
    e.rotation = Some(Rotation::new());
    e
}

/// The steering and thrust keys held during a tick.
#[derive(Clone, Copy, Debug, PartialEq, Eq, Structural)]
pub struct Controls {
    pub rotate_left: bool,
    pub rotate_right: bool,
    pub thrust: bool,
}

/// The steering factor the keys ask for, in thousandths: left and right cancel.
pub open spec fn steering(c: Controls) -> int {
    (if c.rotate_left { UNIT as int } else { 0 }) - (if c.rotate_right { UNIT as int } else { 0 })
}

/// A ship after the keys are read: its steering is set from them, and its
/// velocity points the way it faces, at full speed under thrust and zero
/// otherwise. Other entities, and ships without a velocity or a spin, are
/// left as they are.
pub open spec fn steered_spec(e: Entity, c: Controls) -> Entity {
    match (e.velocity, e.rotation) {
        (Some(_), Some(r)) => if e.kind == EntityKind::Player {
            Entity {
                rotation: Some(Rotation { factor: steering(c) as i16, ..r }),
                velocity: Some(
                    Velocity {
                        value: scaled(
                            facing(e.transform.heading as int),
                            if c.thrust {
                                MOVEMENT_SPEED as int
                            } else {
                                0
                            },
                        ),
                    },
                ),
                ..e
            }
        } else {
            e
        },
        _ => e,
    }
}

pub fn steered(e: Entity, c: Controls) -> (r: Entity)
    requires
        e.wf(),
    ensures
        r == steered_spec(e, c),
        r.wf(),
        r.id == e.id,
{
    match (e.velocity, e.rotation) {
        (Some(_), Some(rot)) => {
            if e.kind == EntityKind::Player {
                let mut factor: i16 = 0;
                if c.rotate_left {
                    factor = factor + 1000;
                }
                if c.rotate_right {
                    factor = factor - 1000;
                }
                let speed: i32 = if c.thrust {
                    MOVEMENT_SPEED
                } else {
                    0
                };
                let mut out = e;
                out.rotation = Some(Rotation { factor, ..rot });
                out.velocity = Some(Velocity::new(scale_unit(e.transform.up(), speed)));
                out
            } else {
                e
            }
        },
        _ => e,
    }
}

/// Where the level's stations stand, in order.
pub open spec fn station_site(i: int) -> Vec3 {
    if i == 0 {
        Vec3 { x: 200_000, y: 200_000, z: UNIT }
    } else {
        Vec3 { x: 100_000, y: 400_000, z: UNIT }
    }
}

/// The entity of the level's `i`-th station.
pub open spec fn station_spec(i: int) -> Entity {
    Entity {
        id: 0,
        kind: EntityKind::Station,
        transform: Transform {
            translation: station_site(i),
            heading: 0,
            scale: Vec3 { x: 600, y: 600, z: 600 },
        },
        velocity: None,
        acceleration: None,
        rotation: None,
        lifetime: None,
        screen: None,
        station: Some(i as usize),
    }
}

pub fn station_entity(i: usize) -> (r: Entity)
    ensures
        r == station_spec(i as int),
        r.wf(),
{
    let site = if i == 0 {
        Vec3::new(200_000, 200_000, UNIT)
    } else {
        Vec3::new(100_000, 400_000, UNIT)
    };
    let mut e = Entity::new(
        EntityKind::Station,
        Transform::from_translation(site).with_scale(Vec3::new(600, 600, 600)),
    );
    e.station = Some(i);
    e
}

/// The camera, at the origin.
pub open spec fn camera_spec() -> Entity {
    Entity {
        id: 0,
        kind: EntityKind::Camera,
        transform: Transform {
            translation: Vec3::zero_spec(),
            heading: 0,
            scale: Vec3 { x: UNIT, y: UNIT, z: UNIT },
        },
        velocity: None,
        acceleration: None,
        rotation: None,
        lifetime: None,
        screen: None,
        station: None,
    }
}

pub fn camera() -> (r: Entity)
    ensures
        r == camera_spec(),
        r.wf(),
{
    Entity::new(EntityKind::Camera, Transform::from_translation(Vec3::zero()))
}

/// The camera moved onto the point `target`.
pub open spec fn camera_moved_spec(c: Entity, target: Vec3) -> Entity {
    Entity { transform: Transform { translation: target, ..c.transform }, ..c }
}

/// The root of an interface screen; a station menu records its station.
pub open spec fn screen_root_spec(screen: Screen, station: Option<usize>) -> Entity {
    Entity {
        id: 0,
        kind: EntityKind::Interface,
        transform: Transform {
            translation: Vec3::zero_spec(),
            heading: 0,
            scale: Vec3 { x: UNIT, y: UNIT, z: UNIT },
        },
        velocity: None,
        acceleration: None,
        rotation: None,
        lifetime: None,
        screen: Some(screen),
        station,
    }
}

pub fn screen_root(screen: Screen, station: Option<usize>) -> (r: Entity)
    ensures
        r == screen_root_spec(screen, station),
        r.wf(),
{
    let mut e = Entity::new(EntityKind::Interface, Transform::from_translation(Vec3::zero()));
    e.screen = Some(screen);
    e.station = station;
    e
}

} // verus!
