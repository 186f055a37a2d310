use space_trader::schedule::{Phase, Schedule, System};

#[test]
fn standard_schedule_runs_phases_in_order() {
    let s = Schedule::standard();
    let systems: Vec<System> = s.entries().iter().map(|e| e.1).collect();
    assert_eq!(
        systems,
        vec![
            System::PlayerMovement,
            System::PlayerWeaponControls,
            System::SpawnEnemy,
            System::UpdateVelocity,
            System::UpdatePosition,
            System::UpdateRotation,
            System::DespawnEnemy,
            System::DespawnProjectile,
        ]
    );
}

#[test]
fn adding_places_system_after_its_phase() {
    let mut s = Schedule::new();
    s.add(Phase::DespawnEntities, System::DespawnEnemy);
    s.add(Phase::UserInput, System::SpawnEnemy);
    s.add(Phase::EntityUpdates, System::UpdateVelocity);
    s.add(Phase::UserInput, System::PlayerMovement);
    s.add(Phase::EntityUpdates, System::UpdatePosition);
    let order: Vec<(Phase, System)> = s.entries().clone();
    assert_eq!(
        order,
        vec![
            (Phase::UserInput, System::SpawnEnemy),
            (Phase::UserInput, System::PlayerMovement),
            (Phase::EntityUpdates, System::UpdateVelocity),
            (Phase::EntityUpdates, System::UpdatePosition),
            (Phase::DespawnEntities, System::DespawnEnemy),
        ]
    );
}
