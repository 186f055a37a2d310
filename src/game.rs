//! The composition root: one tick runs the state transition point, then the
//! input systems, the entity updates and the despawners, in that order.
use crate::chance::draw_enemy;
use crate::items::{item_name, Inventory, Item, ItemType, Station};
use crate::motion::Transform;
use crate::rules::{
    camera, camera_moved_spec, camera_spec, enemy_from, enemy_spec, player_ship, player_spec,
    projectile_from, projectile_spec, screen_root, screen_root_spec, station_entity,
    station_spec, Controls, EnemyDraw, ENEMY_SPAWN_SECONDS,
};
use crate::schedule::{phase_ordered, Phase, Schedule, System};
use crate::state::{GameState, StateMachine, Transition};
use crate::timer::{
    lemma_repeating_cadence, lemma_take_step, run, total, Timer,
    TimerMode, TimerView, MICROS_PER_SECOND,
};
use crate::world::{
    count_kind, count_screen, lemma_count_screen_update, lemma_count_witness, position_of,
    single_of, Entity, EntityKind, Screen, World, WorldView,
};
use vstd::prelude::*;

verus! {

broadcast use {Timer::lemma_ticked_timer, Timer::lemma_fresh};

/// What the player did during a tick.
#[derive(Clone, Copy, Debug, PartialEq, Eq, Structural)]
pub struct Input {
    pub controls: Controls,
    /// The fire key is held.
    pub fire: bool,
    /// The pause key went down this tick.
    pub pause_pressed: bool,
    /// The start button of the start menu was pressed.
    pub start_clicked: bool,
    /// The quit button of the start menu was pressed.
    pub exit_clicked: bool,
    /// The close button of the station menu was pressed.
    pub menu_close_clicked: bool,
    /// The entity that was clicked, if any.
    pub station_clicked: Option<u64>,
}

/// What a tick reports back to the host.
#[derive(Clone, Copy, Debug, PartialEq, Eq, Structural)]
pub struct Outcome {
    /// The change of mode made at this tick's transition point.
    pub transition: Option<Transition>,
    /// The player asked to leave the game.
    pub quit: bool,
}

/// The mathematical state of a game.
pub struct GameView {
    pub world: WorldView,
    pub state: StateMachine,
    pub spawn_timer: Timer,
    /// The in-game systems in the order they run.
    pub schedule: Seq<(Phase, System)>,
}

/// The enemy spawner's period, in microseconds.
pub open spec fn spawn_period() -> nat {
    (ENEMY_SPAWN_SECONDS * MICROS_PER_SECOND) as nat
}

impl GameView {
    pub open spec fn wf(self) -> bool {
        &&& self.world.wf()
        &&& self.spawn_timer.wf()
        &&& self.spawn_timer@.duration == spawn_period()
        &&& self.spawn_timer@.repeating
        &&& phase_ordered(self.schedule)
    }

    pub open spec fn with_world(self, world: WorldView) -> GameView {
        GameView { world, ..self }
    }

    pub open spec fn with_state(self, state: StateMachine) -> GameView {
        GameView { state, ..self }
    }
}

/// Leaving a mode removes the screen it owns.
pub open spec fn after_exit(w: WorldView, s: GameState) -> WorldView {
    if s == GameState::StartMenu {
        w.screen_cleared(Screen::StartMenu)
    } else {
        w
    }
}

/// Entering a mode sets up what it needs: the start menu its screen, loading
/// the player's ship, and a new game the level's stations.
pub open spec fn after_enter(w: WorldView, t: Transition) -> WorldView {
    match t.entered {
        GameState::StartMenu => w.spawned(screen_root_spec(Screen::StartMenu, None)),
        GameState::LoadingGame => w.spawned(player_spec()),
        GameState::InGame => if t.exited == GameState::LoadingGame {
            w.spawned(station_spec(0)).spawned(station_spec(1))
        } else {
            w
        },
        _ => w,
    }
}

/// The transition point of a tick: the pending mode, if any, is entered with
/// the exit and enter hooks of the change.
pub open spec fn resolved_view(g: GameView) -> (GameView, Option<Transition>) {
    let (m, t) = g.state.resolved();
    match t {
        Some(tr) => (
            g.with_state(m).with_world(after_enter(after_exit(g.world, tr.exited), tr)),
            t,
        ),
        None => (g.with_state(m), None),
    }
}

/// The mode requests made by the pause key and the start button.
pub open spec fn state_inputs_view(m: StateMachine, input: Input) -> StateMachine {
    let m1 = if input.pause_pressed {
        m.pause_toggled()
    } else {
        m
    };
    if m.current == GameState::StartMenu && input.start_clicked {
        m1.requested(GameState::LoadingGame)
    } else {
        m1
    }
}

/// The quit button only acts in the start menu.
pub open spec fn quit_requested(m: StateMachine, input: Input) -> bool {
    m.current == GameState::StartMenu && input.exit_clicked
}

/// A click on a station opens its menu, unless the menu is already the mode;
/// a click on anything that is not a station, or on nothing left, is dropped.
pub open spec fn station_clicked_view(g: GameView, input: Input) -> GameView {
    match input.station_clicked {
        Some(id) => if g.state.current == GameState::InGameMenu {
            g
        } else {
            match position_of(g.world.entities, id) {
                Some(i) => if g.world.entities[i].kind == EntityKind::Station {
                    g.with_world(
                        g.world.spawned(
                            screen_root_spec(Screen::StationMenu, g.world.entities[i].station),
                        ),
                    ).with_state(g.state.menu_requested())
                } else {
                    g
                },
                None => g,
            }
        },
        None => g,
    }
}

/// The close button of an open station menu removes it and asks to resume.
pub open spec fn menu_closed_view(g: GameView, input: Input) -> GameView {
    if input.menu_close_clicked && count_screen(g.world.entities, Screen::StationMenu) > 0 {
        g.with_world(g.world.screen_cleared(Screen::StationMenu)).with_state(
            g.state.requested(GameState::InGame),
        )
    } else {
        g
    }
}

/// The fire key spawns a projectile ahead of the only player ship.
pub open spec fn fired_view(w: WorldView, fire: bool) -> WorldView {
    if fire && count_kind(w.entities, EntityKind::Player) == 1 {
        w.spawned(projectile_spec(w.entities[single_of(w.entities, EntityKind::Player)].transform))
    } else {
        w
    }
}

/// The spawner's timer advances, and each time it fires an enemy made from
/// `draw` appears.
pub open spec fn enemy_spawned_view(g: GameView, dt: nat, draw: EnemyDraw) -> GameView {
    let t = g.spawn_timer.ticked_timer(dt);
    GameView {
        world: if t@.just_finished {
            g.world.spawned(enemy_spec(draw))
        } else {
            g.world
        },
        spawn_timer: t,
        ..g
    }
}

/// What one in-game system does to the game.
pub open spec fn system_view(
    g: GameView,
    system: System,
    dt: nat,
    input: Input,
    draw: EnemyDraw,
) -> GameView {
    match system {
        System::PlayerMovement => g.with_world(g.world.players_steered(input.controls)),
        System::PlayerWeaponControls => g.with_world(fired_view(g.world, input.fire)),
        System::SpawnEnemy => enemy_spawned_view(g, dt, draw),
        System::UpdateVelocity => g.with_world(g.world.velocities_updated(dt)),
        System::UpdatePosition => g.with_world(g.world.positions_updated(dt)),
        System::UpdateRotation => g.with_world(g.world.headings_updated(dt)),
        System::DespawnEnemy => g.with_world(g.world.expired_removed(EntityKind::Enemy, dt)),
        System::DespawnProjectile => g.with_world(
            g.world.expired_removed(EntityKind::Projectile, dt),
        ),
    }
}

/// The game after running `systems` in order.
pub open spec fn systems_view(
    g: GameView,
    systems: Seq<(Phase, System)>,
    dt: nat,
    input: Input,
    draw: EnemyDraw,
) -> GameView
    decreases systems.len(),
{
    if systems.len() == 0 {
        g
    } else {
        system_view(systems_view(g, systems.drop_last(), dt, input, draw), systems.last().1, dt, input, draw)
    }
}

/// In-game systems never change the mode, nor the schedule.
pub proof fn lemma_systems_keep_state(
    g: GameView,
    systems: Seq<(Phase, System)>,
    dt: nat,
    input: Input,
    draw: EnemyDraw,
)
    ensures
        systems_view(g, systems, dt, input, draw).state == g.state,
        systems_view(g, systems, dt, input, draw).schedule == g.schedule,
    decreases systems.len(),
{
    if systems.len() > 0 {
        lemma_systems_keep_state(g, systems.drop_last(), dt, input, draw);
    }
}

/// The systems that only run in game, in the order of the schedule.
pub open spec fn in_game_view(g: GameView, dt: nat, input: Input, draw: EnemyDraw) -> GameView {
    systems_view(g, g.schedule, dt, input, draw)
}

/// The camera follows the only player ship.
pub open spec fn camera_synced(w: WorldView) -> WorldView {
    if count_kind(w.entities, EntityKind::Player) == 1 && count_kind(
        w.entities,
        EntityKind::Camera,
    ) == 1 {
        let p = w.entities[single_of(w.entities, EntityKind::Player)];
        let ci = single_of(w.entities, EntityKind::Camera);
        w.replaced(ci, camera_moved_spec(w.entities[ci], p.transform.translation))
    } else {
        w
    }
}

/// One whole tick of `dt` microseconds.
pub open spec fn stepped_view(g: GameView, dt: nat, input: Input, draw: EnemyDraw) -> (
    GameView,
    Outcome,
) {
    let (g1, t) = resolved_view(g);
    let quit = quit_requested(g1.state, input);
    let g2 = g1.with_state(state_inputs_view(g1.state, input));
    let g3 = menu_closed_view(station_clicked_view(g2, input), input);
    let g4 = if g3.state.current == GameState::InGame {
        in_game_view(g3, dt, input, draw)
    } else {
        g3
    };
    (g4.with_world(camera_synced(g4.world)), Outcome { transition: t, quit })
}

/// Input that asks for no change of mode and clicks nothing.
pub open spec fn quiet(input: Input) -> bool {
    &&& !input.pause_pressed
    &&& !input.start_clicked
    &&& !input.exit_clicked
    &&& !input.menu_close_clicked
    &&& input.station_clicked is None
}

/// From the start menu with nothing pending, a tick in which start is pressed
/// changes no mode yet; the next tick enters `LoadingGame`, and the one after,
/// with no further input, enters `InGame`.
pub proof fn lemma_start_game_sequence(
    g: GameView,
    dts: Seq<nat>,
    inputs: Seq<Input>,
    draws: Seq<EnemyDraw>,
)
    requires
        g.wf(),
        g.state == (StateMachine { current: GameState::StartMenu, next: None }),
        dts.len() == 3,
        inputs.len() == 3,
        draws.len() == 3,
        quiet(Input { start_clicked: false, ..inputs[0] }),
        inputs[0].start_clicked,
        quiet(inputs[1]),
        quiet(inputs[2]),
    ensures
        ({
            let (g1, o1) = stepped_view(g, dts[0], inputs[0], draws[0]);
            let (g2, o2) = stepped_view(g1, dts[1], inputs[1], draws[1]);
            let (g3, o3) = stepped_view(g2, dts[2], inputs[2], draws[2]);
            &&& o1.transition is None
            &&& g1.state == (StateMachine {
                current: GameState::StartMenu,
                next: Some(GameState::LoadingGame),
            })
            &&& o2.transition == Some(
                Transition { exited: GameState::StartMenu, entered: GameState::LoadingGame },
            )
            &&& g2.state.current == GameState::LoadingGame
            &&& o3.transition == Some(
                Transition { exited: GameState::LoadingGame, entered: GameState::InGame },
            )
            &&& g3.state == (StateMachine { current: GameState::InGame, next: None })
        }),
{
    let (g1, o1) = stepped_view(g, dts[0], inputs[0], draws[0]);
    let (g2, o2) = stepped_view(g1, dts[1], inputs[1], draws[1]);
    let (r3, t3) = resolved_view(g2);
    let g3a = menu_closed_view(
        station_clicked_view(r3.with_state(state_inputs_view(r3.state, inputs[2])), inputs[2]),
        inputs[2],
    );
    lemma_systems_keep_state(g3a, g3a.schedule, dts[2], inputs[2], draws[2]);
}

/// A station click while the station menu is the mode changes nothing: the
/// click handler leaves the game as it is, and a whole tick with no other
/// input keeps the mode and spawns no second menu.
pub proof fn lemma_station_click_in_menu(g: GameView, dt: nat, input: Input, draw: EnemyDraw)
    requires
        g.wf(),
        g.state == (StateMachine { current: GameState::InGameMenu, next: None }),
        input.station_clicked is Some,
        quiet(Input { station_clicked: None, ..input }),
    ensures
        station_clicked_view(g, input) == g,
        stepped_view(g, dt, input, draw).0.state == g.state,
        count_screen(stepped_view(g, dt, input, draw).0.world.entities, Screen::StationMenu)
            == count_screen(g.world.entities, Screen::StationMenu),
{
    let w = g.world;
    if count_kind(w.entities, EntityKind::Player) == 1 && count_kind(
        w.entities,
        EntityKind::Camera,
    ) == 1 {
        lemma_count_witness(w.entities, EntityKind::Camera);
        let ci = single_of(w.entities, EntityKind::Camera);
        let p = w.entities[single_of(w.entities, EntityKind::Player)];
        lemma_count_screen_update(
            w.entities,
            ci,
            camera_moved_spec(w.entities[ci], p.transform.translation),
            Screen::StationMenu,
        );
    }
}

/// An entity that is a station menu and records its station.
pub open spec fn menu_of_station(e: Entity) -> bool {
    e.screen == Some(Screen::StationMenu) && e.station is Some
}

/// The game after one call of the enemy spawner per delta, in order.
pub open spec fn spawner_run(g: GameView, dts: Seq<nat>, draw: EnemyDraw) -> GameView
    decreases dts.len(),
{
    if dts.len() == 0 {
        g
    } else {
        enemy_spawned_view(spawner_run(g, dts.drop_last(), draw), dts.last(), draw)
    }
}

proof fn lemma_spawner_state(g: GameView, dts: Seq<nat>, draw: EnemyDraw)
    requires
        g.wf(),
    ensures
        ({
            let h = spawner_run(g, dts, draw);
            &&& h.spawn_timer.wf()
            &&& h.spawn_timer@ == run(g.spawn_timer@, dts)
            &&& h.world.next_id <= g.world.next_id + dts.len()
            &&& h.world.entities.len() + g.world.next_id == g.world.entities.len()
                + h.world.next_id
        }),
    decreases dts.len(),
{
    if dts.len() > 0 {
        lemma_spawner_state(g, dts.drop_last(), draw);
    }
}

/// A fresh enemy spawner adds one enemy on exactly the calls during which the
/// running total of the deltas passes a multiple of its period, and none on the
/// others: one enemy per period of input, never two in one call.
pub proof fn lemma_spawner_cadence(g: GameView, dts: Seq<nat>, draw: EnemyDraw, i: int)
    requires
        g.wf(),
        g.spawn_timer@ == TimerView::started(spawn_period(), true),
        0 <= i < dts.len(),
        g.world.next_id + dts.len() < u64::MAX,
    ensures
        spawner_run(g, dts.take(i + 1), draw).world.entities.len() == spawner_run(
            g,
            dts.take(i),
            draw,
        ).world.entities.len() + if total(dts.take(i + 1)) / spawn_period() > total(dts.take(i))
            / spawn_period() {
            1nat
        } else {
            0nat
        },
{
    lemma_take_step(dts, i);
    lemma_spawner_state(g, dts.take(i), draw);
    lemma_repeating_cadence(spawn_period(), dts, i);
    let h = spawner_run(g, dts.take(i), draw);
    assert(spawner_run(g, dts.take(i + 1), draw) == enemy_spawned_view(h, dts[i], draw));
    assert(h.spawn_timer.ticked_timer(dts[i])@ == run(g.spawn_timer@, dts.take(i + 1)));
}

/// A game: its entities, its mode, the enemy spawner, and the level's stations.
pub struct Game {
    world: World,
    state: StateMachine,
    spawn_timer: Timer,
    schedule: Schedule,
    stations: Vec<Station>,
}

impl View for Game {
    type V = GameView;

    closed spec fn view(&self) -> GameView {
        GameView {
            world: self.world@,
            state: self.state,
            spawn_timer: self.spawn_timer,
            schedule: self.schedule@,
        }
    }
}

/// A station named `name` whose stock is, in order, one item per entry of
/// `goods` (kind, unit value, quantity), with its size recorded.
pub open spec fn stocked(s: Station, name: Seq<char>, goods: Seq<(ItemType, usize, usize)>) -> bool {
    &&& s.name@ == name
    &&& s.inventory.size == goods.len()
    &&& s.inventory.items@.len() == goods.len()
    &&& forall|i: int|
        0 <= i < goods.len() ==> {
            let item = #[trigger] s.inventory.items@[i];
            &&& item.item_type == goods[i].0
            &&& item.name@ == item_name(goods[i].0)
            &&& item.value == goods[i].1
            &&& item.quantity == goods[i].2
        }
}

/// The level's `i`-th station as it is set up.
pub open spec fn level_station(i: int, s: Station) -> bool {
    if i == 0 {
        stocked(
            s,
            "Trade Station 1"@,
            seq![(ItemType::EnergyCell, 1usize, 100usize), (ItemType::Silica, 2usize, 30usize)],
        )
    } else {
        stocked(
            s,
            "Trade Station 2"@,
            seq![(ItemType::EnergyCell, 1usize, 200usize), (ItemType::IronOre, 2usize, 20usize)],
        )
    }
}

/// The stations of the level, in order.
fn level_stations() -> (r: Vec<Station>)
    ensures
        r@.len() == 2,
        level_station(0, r@[0]),
        level_station(1, r@[1]),
{
    proof {
        reveal_strlit("Trade Station 1");
        reveal_strlit("Trade Station 2");
    }
    let mut first_stock: Vec<Item> = Vec::new();
    first_stock.push(Item::new(ItemType::EnergyCell, 1, 100));
    first_stock.push(Item::new(ItemType::Silica, 2, 30));
    let first = Station::new(String::from_str("Trade Station 1"), Inventory::new(first_stock));
    let mut second_stock: Vec<Item> = Vec::new();
    second_stock.push(Item::new(ItemType::EnergyCell, 1, 200));
    second_stock.push(Item::new(ItemType::IronOre, 2, 20));
    let second = Station::new(String::from_str("Trade Station 2"), Inventory::new(second_stock));
    let mut r: Vec<Station> = Vec::new();
    r.push(first);
    r.push(second);
    r
}

impl Game {
    pub open spec fn wf(&self) -> bool {
        self@.wf()
    }

    /// The level's stations, in order.
    pub closed spec fn stations(&self) -> Seq<Station> {
        self.stations@
    }

    /// How many stations the level has.
    pub open spec fn station_count(&self) -> nat {
        self.stations().len()
    }

    /// A game in the start menu: the camera and the start screen exist, and the
    /// enemy spawner is at the start of its period.
    pub fn new() -> (r: Game)
        ensures
            r.wf(),
            r@.state == (StateMachine { current: GameState::StartMenu, next: None }),
            r@.world == (WorldView { entities: Seq::<Entity>::empty(), next_id: 0 }).spawned(
                camera_spec(),
            ).spawned(screen_root_spec(Screen::StartMenu, None)),
            r@.spawn_timer@ == TimerView::started(spawn_period(), true),
            r@.schedule == crate::schedule::standard_systems(),
            r.station_count() == 2,
            level_station(0, r.stations()[0]),
            level_station(1, r.stations()[1]),
    {
        let mut world = World::new();
        world.spawn(camera());
        world.spawn(screen_root(Screen::StartMenu, None));
        Game {
            world,
            state: StateMachine::new(),
            spawn_timer: Timer::from_seconds(ENEMY_SPAWN_SECONDS, TimerMode::Repeating),
            schedule: Schedule::standard(),
            stations: level_stations(),
        }
    }

    pub fn world(&self) -> (r: &World)
        ensures
            r@ == self@.world,
    {
        &self.world
    }

    pub fn state(&self) -> (r: GameState)
        ensures
            r == self@.state.current,
    {
        self.state.current
    }

    pub fn state_machine(&self) -> (r: StateMachine)
        ensures
            r == self@.state,
    {
        self.state
    }

    pub fn spawn_timer(&self) -> (r: &Timer)
        ensures
            *r == self@.spawn_timer,
    {
        &self.spawn_timer
    }

    /// The level's `i`-th station, if there is one.
    pub fn station(&self, i: usize) -> (r: Option<&Station>)
        ensures
            r is Some <==> i < self.station_count(),
            r matches Some(s) ==> *s == self.stations()[i as int],
    {
        if i < self.stations.len() {
            Some(&self.stations[i])
        } else {
            None
        }
    }

    /// The station whose menu is open, if one is.
    pub fn open_menu_station(&self) -> (r: Option<usize>)
        ensures
            r matches Some(s) ==> exists|i: int|
                0 <= i < self@.world.entities.len() && #[trigger] self@.world.entities[i].screen
                    == Some(Screen::StationMenu) && self@.world.entities[i].station == Some(s),
    {
        let mut i: usize = 0;
        while i < self.world.len()
            invariant
                i <= self@.world.entities.len(),
                forall|j: int| 0 <= j < i ==> !menu_of_station(#[trigger] self@.world.entities[j]),
            decreases self@.world.entities.len() - i,
        {
            let e = self.world.at(i);
            if e.screen == Some(Screen::StationMenu) {
                if let Some(s) = e.station {
                    assert(menu_of_station(self@.world.entities[i as int]));
                    return Some(s);
                }
            }
            i = i + 1;
        }
        None
    }

    /// Applies the exit hook of `s`.
    fn exit_hook(&mut self, s: GameState)
        requires
            old(self).wf(),
        ensures
            final(self).wf(),
            final(self)@ == old(self)@.with_world(after_exit(old(self)@.world, s)),
            final(self).station_count() == old(self).station_count(),
    {
        if s == GameState::StartMenu {
            self.world.despawn_components(Screen::StartMenu);
        }
    }

    /// Applies the enter hook of the mode `t` enters.
    fn enter_hook(&mut self, t: Transition)
        requires
            old(self).wf(),
        ensures
            final(self).wf(),
            final(self)@ == old(self)@.with_world(after_enter(old(self)@.world, t)),
            final(self).station_count() == old(self).station_count(),
    {
        match t.entered {
            GameState::StartMenu => {
                self.world.spawn(screen_root(Screen::StartMenu, None));
            },
            GameState::LoadingGame => {
                self.world.spawn(player_ship());
            },
            GameState::InGame => {
                if t.exited == GameState::LoadingGame {
                    self.world.spawn(station_entity(0));
                    self.world.spawn(station_entity(1));
                }
            },
            _ => {},
        }
    }

    /// The transition point: applies the pending mode and its hooks.
    pub fn resolve_state(&mut self) -> (r: Option<Transition>)
        requires
            old(self).wf(),
        ensures
            final(self).wf(),
            (final(self)@, r) == resolved_view(old(self)@),
            final(self).station_count() == old(self).station_count(),
    {
        let t = self.state.resolve();
        match t {
            Some(tr) => {
                self.exit_hook(tr.exited);
                self.enter_hook(tr);
            },
            None => {},
        }
        t
    }

    /// Reads the pause key and the start menu's buttons; returns whether the
    /// player asked to quit.
    pub fn game_state_input_events(&mut self, input: &Input) -> (r: bool)
        requires
            old(self).wf(),
        ensures
            final(self).wf(),
            final(self)@ == old(self)@.with_state(state_inputs_view(old(self)@.state, *input)),
            r == quit_requested(old(self)@.state, *input),
            final(self).station_count() == old(self).station_count(),
    {
        let in_start_menu = self.state.current == GameState::StartMenu;
        if input.pause_pressed {
            self.state.toggle_pause();
        }
        if in_start_menu && input.start_clicked {
            self.state.start_game();
        }
        in_start_menu && input.exit_clicked
    }

    /// Opens the menu of a clicked station.
    pub fn spawn_station_menu(&mut self, input: &Input)
        requires
            old(self).wf(),
        ensures
            final(self).wf(),
            final(self)@ == station_clicked_view(old(self)@, *input),
            final(self).station_count() == old(self).station_count(),
    {
        match input.station_clicked {
            Some(id) => {
                if self.state.current != GameState::InGameMenu {
                    match self.world.index_of(id) {
                        Some(i) => {
                            let e = *self.world.at(i);
                            if e.kind == EntityKind::Station {
                                self.world.spawn(screen_root(Screen::StationMenu, e.station));
                                self.state.request_menu();
                            }
                        },
                        None => {},
                    }
                }
            },
            None => {},
        }
    }

    /// Closes an open station menu when its close button was pressed.
    pub fn on_click_exit(&mut self, input: &Input)
        requires
            old(self).wf(),
        ensures
            final(self).wf(),
            final(self)@ == menu_closed_view(old(self)@, *input),
            final(self).station_count() == old(self).station_count(),
    {
        if input.menu_close_clicked && self.world.count_screen(Screen::StationMenu) > 0 {
            self.world.despawn_components(Screen::StationMenu);
            self.state.close_menu();
        }
    }

    /// Steers every player ship from the held keys.
    pub fn player_movement(&mut self, controls: Controls)
        requires
            old(self).wf(),
        ensures
            final(self).wf(),
            final(self)@ == old(self)@.with_world(old(self)@.world.players_steered(controls)),
            final(self).station_count() == old(self).station_count(),
    {
        self.world.steer_players(controls);
    }

    /// Fires a projectile from the only player ship while the fire key is held.
    pub fn player_weapon_controls(&mut self, fire: bool)
        requires
            old(self).wf(),
        ensures
            final(self).wf(),
            final(self)@ == old(self)@.with_world(fired_view(old(self)@.world, fire)),
            final(self).station_count() == old(self).station_count(),
    {
        if fire {
            match self.world.single(EntityKind::Player) {
                Some(i) => {
                    let t: Transform = self.world.at(i).transform;
                    self.world.spawn(projectile_from(&t));
                },
                None => {},
            }
        }
    }

    /// Advances the spawner and spawns an enemy made from `draw` when it fires.
    pub fn spawn_enemy(&mut self, dt: u64, draw: EnemyDraw)
        requires
            old(self).wf(),
        ensures
            final(self).wf(),
            final(self)@ == enemy_spawned_view(old(self)@, dt as nat, draw),
            final(self).station_count() == old(self).station_count(),
    {
        self.spawn_timer.tick(dt);
        if self.spawn_timer.just_finished() {
            self.world.spawn(enemy_from(draw));
        }
    }

    /// Removes the enemies whose lifetime ran out.
    pub fn despawn_enemy(&mut self, dt: u64)
        requires
            old(self).wf(),
        ensures
            final(self).wf(),
            final(self)@ == old(self)@.with_world(
                old(self)@.world.expired_removed(EntityKind::Enemy, dt as nat),
            ),
            final(self).station_count() == old(self).station_count(),
    {
        self.world.despawn_expired(EntityKind::Enemy, dt);
    }

    /// Removes the projectiles whose lifetime ran out.
    pub fn despawn_projectile(&mut self, dt: u64)
        requires
            old(self).wf(),
        ensures
            final(self).wf(),
            final(self)@ == old(self)@.with_world(
                old(self)@.world.expired_removed(EntityKind::Projectile, dt as nat),
            ),
            final(self).station_count() == old(self).station_count(),
    {
        self.world.despawn_expired(EntityKind::Projectile, dt);
    }

    /// Moves the camera onto the only player ship.
    pub fn sync_player_camera(&mut self)
        requires
            old(self).wf(),
        ensures
            final(self).wf(),
            final(self)@ == old(self)@.with_world(camera_synced(old(self)@.world)),
            final(self).station_count() == old(self).station_count(),
    {
        match (self.world.single(EntityKind::Player), self.world.single(EntityKind::Camera)) {
            (Some(p), Some(c)) => {
                let target = self.world.at(p).transform.translation;
                let mut cam = *self.world.at(c);
                cam.transform.translation = target;
                self.world.replace(c, cam);
            },
            _ => {},
        }
    }

    /// Runs one in-game system.
    pub fn run_system(&mut self, system: System, dt: u64, input: &Input, draw: EnemyDraw)
        requires
            old(self).wf(),
        ensures
            final(self).wf(),
            final(self)@ == system_view(old(self)@, system, dt as nat, *input, draw),
            final(self).station_count() == old(self).station_count(),
    {
        match system {
            System::PlayerMovement => self.player_movement(input.controls),
            System::PlayerWeaponControls => self.player_weapon_controls(input.fire),
            System::SpawnEnemy => self.spawn_enemy(dt, draw),
            System::UpdateVelocity => self.world.update_velocities(dt),
            System::UpdatePosition => self.world.update_positions(dt),
            System::UpdateRotation => self.world.update_headings(dt),
            System::DespawnEnemy => self.despawn_enemy(dt),
            System::DespawnProjectile => self.despawn_projectile(dt),
        }
    }

    /// Runs the in-game systems in the order of the schedule.
    pub fn run_schedule(&mut self, dt: u64, input: &Input, draw: EnemyDraw)
        requires
            old(self).wf(),
        ensures
            final(self).wf(),
            final(self)@ == in_game_view(old(self)@, dt as nat, *input, draw),
            final(self).station_count() == old(self).station_count(),
    {
        let ghost systems = self@.schedule;
        let ghost start = self@;
        let n = self.schedule.entries().len();
        let mut i: usize = 0;
        while i < n
            invariant
                n == systems.len(),
                i <= n,
                self.wf(),
                self@.schedule == systems,
                self.station_count() == old(self).station_count(),
                systems == start.schedule,
                start == old(self)@,
                self@ == systems_view(start, systems.take(i as int), dt as nat, *input, draw),
            decreases n - i,
        {
            let system = self.schedule.entries()[i].1;
            proof {
                assert(systems.take(i + 1).drop_last() =~= systems.take(i as int));
            }
            self.run_system(system, dt, input, draw);
            i = i + 1;
        }
        assert(systems.take(n as int) =~= systems);
    }

    /// One tick of `dt` microseconds, with `draw` for an enemy that spawns.
    pub fn step(&mut self, dt: u64, input: &Input, draw: EnemyDraw) -> (r: Outcome)
        requires
            old(self).wf(),
        ensures
            final(self).wf(),
            (final(self)@, r) == stepped_view(old(self)@, dt as nat, *input, draw),
            final(self).station_count() == old(self).station_count(),
    {
        let transition = self.resolve_state();
        let quit = self.game_state_input_events(input);
        self.spawn_station_menu(input);
        self.on_click_exit(input);
        if self.state.current == GameState::InGame {
            self.run_schedule(dt, input, draw);
        }
        self.sync_player_camera();
        Outcome { transition, quit }
    }

    /// One tick of `dt` microseconds, drawing the values for an enemy that
    /// spawns at random.
    pub fn update(&mut self, dt: u64, input: &Input) -> (r: Outcome)
        requires
            old(self).wf(),
        ensures
            final(self).wf(),
            exists|draw: EnemyDraw|
                draw.wf() && (final(self)@, r) == #[trigger] stepped_view(
                    old(self)@,
                    dt as nat,
                    *input,
                    draw,
                ),
            final(self).station_count() == old(self).station_count(),
    {
        let draw = draw_enemy();
        self.step(dt, input, draw)
    }
}

} // verus!
