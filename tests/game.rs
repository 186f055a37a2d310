use space_trader::chance::draw_enemy;
use space_trader::game::{Game, Input};
use space_trader::items::{Inventory, Item, ItemType, Station};
use space_trader::motion::{Transform, Vec3};
use space_trader::rules::{
    enemy_from, player_ship, projectile_from, steered, Controls, EnemyDraw, SPAWN_EXTENT,
};
use space_trader::state::{GameState, StateMachine, Transition};
use space_trader::timer::MICROS_PER_SECOND;
use space_trader::world::{EntityKind, Screen, World};

const MS: u64 = 1_000;

fn quiet() -> Input {
    Input {
        controls: Controls { rotate_left: false, rotate_right: false, thrust: false },
        fire: false,
        pause_pressed: false,
        start_clicked: false,
        exit_clicked: false,
        menu_close_clicked: false,
        station_clicked: None,
    }
}

fn draw() -> EnemyDraw {
    EnemyDraw { x: 1_000, y: -2_000, vx: 3, vy: 4, ax: 0, ay: -5 }
}

fn started_game() -> Game {
    let mut g = Game::new();
    g.step(0, &Input { start_clicked: true, ..quiet() }, draw());
    g.step(0, &quiet(), draw());
    g.step(0, &quiet(), draw());
    assert_eq!(g.state(), GameState::InGame);
    g
}

fn station_id(g: &Game) -> u64 {
    let w = g.world();
    (0..w.len()).map(|i| w.at(i)).find(|e| e.kind == EntityKind::Station).unwrap().id
}

#[test]
fn state_machine_start_then_two_resolutions() {
    let mut m = StateMachine::new();
    m.start_game();
    assert_eq!(
        m.resolve(),
        Some(Transition { exited: GameState::StartMenu, entered: GameState::LoadingGame })
    );
    assert_eq!(m.current(), GameState::LoadingGame);
    assert_eq!(
        m.resolve(),
        Some(Transition { exited: GameState::LoadingGame, entered: GameState::InGame })
    );
    assert_eq!(m.current(), GameState::InGame);
    assert_eq!(m.resolve(), None);
}

#[test]
fn last_request_wins() {
    let mut m = StateMachine::new();
    m.set_next(GameState::Paused);
    m.set_next(GameState::LoadingGame);
    m.resolve();
    assert_eq!(m.current(), GameState::LoadingGame);
}

#[test]
fn pause_toggles_only_in_game() {
    let mut m = StateMachine::new();
    m.toggle_pause();
    assert_eq!(m.resolve(), None);
    m.set_next(GameState::InGame);
    m.resolve();
    m.toggle_pause();
    m.resolve();
    assert_eq!(m.current(), GameState::Paused);
    m.toggle_pause();
    m.resolve();
    assert_eq!(m.current(), GameState::InGame);
}

#[test]
fn menu_request_is_idempotent() {
    let mut m = StateMachine { current: GameState::InGameMenu, next: None };
    assert!(!m.request_menu());
    assert_eq!(m, StateMachine { current: GameState::InGameMenu, next: None });
    let mut m = StateMachine { current: GameState::InGame, next: None };
    assert!(m.request_menu());
    m.resolve();
    assert_eq!(m.current(), GameState::InGameMenu);
    m.close_menu();
    m.resolve();
    assert_eq!(m.current(), GameState::InGame);
}

#[test]
fn new_game_shows_start_menu() {
    let g = Game::new();
    assert_eq!(g.state(), GameState::StartMenu);
    assert_eq!(g.world().count(EntityKind::Camera), 1);
    assert_eq!(g.world().count_screen(Screen::StartMenu), 1);
    assert!(g.station(1).is_some());
    assert!(g.station(2).is_none());
}

#[test]
fn start_reaches_game_in_two_resolutions() {
    let mut g = Game::new();
    let o = g.step(0, &Input { start_clicked: true, ..quiet() }, draw());
    assert_eq!(o.transition, None);
    assert_eq!(g.state(), GameState::StartMenu);
    let o = g.step(0, &quiet(), draw());
    assert_eq!(
        o.transition,
        Some(Transition { exited: GameState::StartMenu, entered: GameState::LoadingGame })
    );
    assert_eq!(g.state(), GameState::LoadingGame);
    assert_eq!(g.world().count_screen(Screen::StartMenu), 0);
    assert_eq!(g.world().count(EntityKind::Player), 1);
    let o = g.step(0, &quiet(), draw());
    assert_eq!(
        o.transition,
        Some(Transition { exited: GameState::LoadingGame, entered: GameState::InGame })
    );
    assert_eq!(g.state(), GameState::InGame);
    assert_eq!(g.world().count(EntityKind::Station), 2);
}

#[test]
fn quit_only_from_start_menu() {
    let mut g = Game::new();
    assert!(g.step(0, &Input { exit_clicked: true, ..quiet() }, draw()).quit);
    let mut g = started_game();
    assert!(!g.step(0, &Input { exit_clicked: true, ..quiet() }, draw()).quit);
}

#[test]
fn station_click_opens_one_menu() {
    let mut g = started_game();
    let id = station_id(&g);
    g.step(0, &Input { station_clicked: Some(id), ..quiet() }, draw());
    assert_eq!(g.world().count_screen(Screen::StationMenu), 1);
    g.step(0, &quiet(), draw());
    assert_eq!(g.state(), GameState::InGameMenu);
    let open = g.open_menu_station().unwrap();
    assert_eq!(g.station(open).unwrap().name, "Trade Station 1");
    for _ in 0..3 {
        g.step(0, &Input { station_clicked: Some(id), ..quiet() }, draw());
        assert_eq!(g.state(), GameState::InGameMenu);
        assert_eq!(g.world().count_screen(Screen::StationMenu), 1);
    }
}

#[test]
fn click_on_non_station_is_dropped() {
    let mut g = started_game();
    let before = g.world().len();
    g.step(0, &Input { station_clicked: Some(0), ..quiet() }, draw());
    g.step(0, &Input { station_clicked: Some(999_999), ..quiet() }, draw());
    assert_eq!(g.world().len(), before);
    assert_eq!(g.state(), GameState::InGame);
}

#[test]
fn closing_the_menu_resumes() {
    let mut g = started_game();
    let id = station_id(&g);
    g.step(0, &Input { station_clicked: Some(id), ..quiet() }, draw());
    g.step(0, &quiet(), draw());
    g.step(0, &Input { menu_close_clicked: true, ..quiet() }, draw());
    assert_eq!(g.world().count_screen(Screen::StationMenu), 0);
    g.step(0, &quiet(), draw());
    assert_eq!(g.state(), GameState::InGame);
    assert_eq!(g.world().count(EntityKind::Station), 2);
}

#[test]
fn pause_stops_spawning_and_motion() {
    let mut g = started_game();
    g.step(0, &Input { pause_pressed: true, ..quiet() }, draw());
    g.step(0, &quiet(), draw());
    assert_eq!(g.state(), GameState::Paused);
    for _ in 0..5 {
        g.step(3 * MICROS_PER_SECOND, &quiet(), draw());
    }
    assert_eq!(g.world().count(EntityKind::Enemy), 0);
    g.step(0, &Input { pause_pressed: true, ..quiet() }, draw());
    g.step(0, &quiet(), draw());
    assert_eq!(g.state(), GameState::InGame);
}

#[test]
fn spawner_cadence_in_game() {
    let mut g = started_game();
    let mut counts = Vec::new();
    for _ in 0..9 {
        g.step(MICROS_PER_SECOND, &quiet(), draw());
        counts.push(g.world().count(EntityKind::Enemy));
    }
    assert_eq!(counts, vec![0, 0, 1, 1, 1, 2, 2, 2, 3]);
}

#[test]
fn enemy_lives_twenty_seconds() {
    let mut world = World::new();
    world.spawn(enemy_from(draw()));
    for _ in 0..19 {
        world.despawn_expired(EntityKind::Enemy, MICROS_PER_SECOND);
    }
    world.despawn_expired(EntityKind::Enemy, 990 * MS);
    assert_eq!(world.count(EntityKind::Enemy), 1);
    world.despawn_expired(EntityKind::Enemy, 10 * MS);
    assert_eq!(world.count(EntityKind::Enemy), 0);
}

#[test]
fn projectile_lives_two_seconds() {
    let mut world = World::new();
    world.spawn(projectile_from(&Transform::from_translation(Vec3::zero())));
    world.despawn_expired(EntityKind::Projectile, 1_999 * MS);
    world.despawn_expired(EntityKind::Enemy, 10 * MICROS_PER_SECOND);
    assert_eq!(world.count(EntityKind::Projectile), 1);
    world.despawn_expired(EntityKind::Projectile, MS);
    assert_eq!(world.count(EntityKind::Projectile), 0);
}

#[test]
fn enemy_from_draw() {
    let e = enemy_from(draw());
    assert_eq!(e.kind, EntityKind::Enemy);
    assert_eq!(e.transform.translation, Vec3::new(1_000, -2_000, 0));
    assert_eq!(e.velocity.unwrap().value, Vec3::new(30_000, 40_000, 0));
    assert_eq!(e.acceleration.unwrap().value, Vec3::new(0, -1_000, 0));
    assert_eq!(e.lifetime.unwrap().duration(), 20 * MICROS_PER_SECOND);
}

#[test]
fn short_drawn_direction_still_gives_full_speed() {
    let e = enemy_from(EnemyDraw { x: 0, y: 0, vx: 1, vy: 1, ax: -1, ay: 0 });
    assert_eq!(e.velocity.unwrap().value, Vec3::new(35_350, 35_350, 0));
    assert_eq!(e.acceleration.unwrap().value, Vec3::new(-1_000, 0, 0));
}

#[test]
fn enemy_with_zero_direction_stands_still() {
    let e = enemy_from(EnemyDraw { x: 0, y: 0, vx: 0, vy: 0, ax: 0, ay: 0 });
    assert_eq!(e.velocity.unwrap().value, Vec3::zero());
    assert_eq!(e.acceleration.unwrap().value, Vec3::zero());
}

#[test]
fn projectile_ahead_of_ship() {
    let mut t = Transform::from_translation(Vec3::new(5_000, 0, 1_000));
    t.heading = 270_000;
    let p = projectile_from(&t);
    assert_eq!(p.kind, EntityKind::Projectile);
    assert_eq!(p.transform.translation, Vec3::new(25_000, 0, 1_000));
    assert_eq!(p.velocity.unwrap().value, Vec3::new(500_000, 0, 0));
    assert_eq!(p.lifetime.unwrap().duration(), 2 * MICROS_PER_SECOND);
}

#[test]
fn fire_spawns_one_projectile_per_tick() {
    let mut g = started_game();
    for _ in 0..3 {
        g.step(10 * MS, &Input { fire: true, ..quiet() }, draw());
    }
    assert_eq!(g.world().count(EntityKind::Projectile), 3);
}

#[test]
fn steering_sets_spin_and_thrust() {
    let ship = player_ship();
    let s = steered(ship, Controls { rotate_left: true, rotate_right: false, thrust: true });
    assert_eq!(s.rotation.unwrap().factor, 1000);
    assert_eq!(s.velocity.unwrap().value, Vec3::new(0, 280_000, 0));
    let s = steered(ship, Controls { rotate_left: true, rotate_right: true, thrust: false });
    assert_eq!(s.rotation.unwrap().factor, 0);
    assert_eq!(s.velocity.unwrap().value, Vec3::zero());
}

#[test]
fn camera_follows_player() {
    let mut g = started_game();
    let thrust = Controls { rotate_left: false, rotate_right: false, thrust: true };
    g.step(MICROS_PER_SECOND, &Input { controls: thrust, ..quiet() }, draw());
    let w = g.world();
    let player = (0..w.len()).map(|i| w.at(i)).find(|e| e.kind == EntityKind::Player).unwrap();
    let cam = (0..w.len()).map(|i| w.at(i)).find(|e| e.kind == EntityKind::Camera).unwrap();
    assert_eq!(player.transform.translation, Vec3::new(0, 280_000, 1_000));
    assert_eq!(cam.transform.translation, player.transform.translation);
}

#[test]
fn random_draws_stay_in_range_and_vary() {
    let draws: Vec<EnemyDraw> = (0..200).map(|_| draw_enemy()).collect();
    for d in &draws {
        assert!(-SPAWN_EXTENT <= d.x && d.x < SPAWN_EXTENT);
        assert!(-SPAWN_EXTENT <= d.y && d.y < SPAWN_EXTENT);
        assert!(-1000 <= d.vx && d.vx < 1000 && -1000 <= d.ay && d.ay < 1000);
    }
    assert!(draws.iter().any(|d| d.x != -SPAWN_EXTENT));
    assert!(draws.iter().any(|d| d.x != draws[0].x));
}

#[test]
fn update_draws_its_own_enemy() {
    let mut g = started_game();
    for _ in 0..3 {
        g.update(MICROS_PER_SECOND, &quiet());
    }
    assert_eq!(g.world().count(EntityKind::Enemy), 1);
}

#[test]
fn items_are_named_after_their_kind() {
    let i = Item::new(ItemType::IronOre, 2, 20);
    assert_eq!(i.name, "Iron Ore");
    assert_eq!((i.value, i.quantity), (2, 20));
    assert_eq!(Item::new(ItemType::EnergyCell, 1, 100).name, "Energy Cell");
    assert_eq!(Item::new(ItemType::Silica, 2, 30).name, "Silica");
    let inv = Inventory::new(vec![i.clone(), i]);
    assert_eq!(inv.size, 2);
    let s = Station::new(String::from("Depot"), inv);
    assert_eq!(s.name, "Depot");
    assert_eq!(s.inventory.items.len(), 2);
}

#[test]
fn level_stations_carry_their_stock() {
    let g = Game::new();
    let first = g.station(0).unwrap();
    assert_eq!(first.name, "Trade Station 1");
    assert_eq!(first.inventory.size, 2);
    let stock: Vec<(ItemType, &str, usize, usize)> = first
        .inventory
        .items
        .iter()
        .map(|i| (i.item_type, i.name.as_str(), i.value, i.quantity))
        .collect();
    assert_eq!(
        stock,
        vec![(ItemType::EnergyCell, "Energy Cell", 1, 100), (ItemType::Silica, "Silica", 2, 30)]
    );
    let second = g.station(1).unwrap();
    assert_eq!(second.name, "Trade Station 2");
    let stock: Vec<(ItemType, usize, usize)> =
        second.inventory.items.iter().map(|i| (i.item_type, i.value, i.quantity)).collect();
    assert_eq!(stock, vec![(ItemType::EnergyCell, 1, 200), (ItemType::IronOre, 2, 20)]);
}

#[test]
fn no_menu_open_at_start() {
    let g = started_game();
    assert_eq!(g.open_menu_station(), None);
}
