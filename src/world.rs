//! The entity store: every game object with the components attached to it,
//! kept in order of creation and addressed by a unique identifier.
use crate::motion::{
    euler, turn_heading, turned_heading, Acceleration, Rotation, Transform, Velocity,
};
use crate::rules::{steered, steered_spec, Controls};
use crate::timer::{
    lemma_once_state, lemma_run_wf, run, total, Timer, TimerMode, TimerView,
};
use vstd::prelude::*;

verus! {

broadcast use Timer::lemma_ticked_timer;

/// What an entity is, used by the systems to pick the entities they act on.
#[derive(Clone, Copy, Debug, PartialEq, Eq, Structural)]
pub enum EntityKind {
    Player,
    Enemy,
    Projectile,
    Station,
    Camera,
    /// A node of an interface screen.
    Interface,
}

/// An interface screen whose entities are removed together.
#[derive(Clone, Copy, Debug, PartialEq, Eq, Structural)]
pub enum Screen {
    StartMenu,
    StationMenu,
}

/// A game object and its components.
#[derive(Clone, Copy, Debug)]
pub struct Entity {
    pub id: u64,
    pub kind: EntityKind,
    pub transform: Transform,
    pub velocity: Option<Velocity>,
    pub acceleration: Option<Acceleration>,
    pub rotation: Option<Rotation>,
    /// Counts down to the entity's removal.
    pub lifetime: Option<Timer>,
    /// The screen the entity belongs to, if it is part of one.
    pub screen: Option<Screen>,
    /// The station, by its place in the level's list, that a station entity or
    /// a station menu stands for.
    pub station: Option<usize>,
}

impl Entity {
    pub open spec fn wf(self) -> bool {
        &&& self.transform.wf()
        &&& self.lifetime matches Some(t) ==> t.wf()
    }

    /// An entity of `kind` at `transform` with no other component; the store
    /// gives it its identifier when it is spawned.
    pub fn new(kind: EntityKind, transform: Transform) -> (r: Entity)
        ensures
            r == (Entity {
                id: 0,
                kind,
                transform,
                velocity: None,
                acceleration: None,
                rotation: None,
                lifetime: None,
                screen: None,
                station: None,
            }),
    {
        Entity {
            id: 0,
            kind,
            transform,
            velocity: None,
            acceleration: None,
            rotation: None,
            lifetime: None,
            screen: None,
            station: None,
        }
    }

    /// The velocity after one step of its acceleration, where it has both.
    pub open spec fn velocity_stepped(self, dt: nat) -> Entity {
        match (self.velocity, self.acceleration) {
            (Some(v), Some(a)) => Entity {
                velocity: Some(Velocity { value: v.value.stepped_by(a.value, dt) }),
                ..self
            },
            _ => self,
        }
    }

    /// The position after one step of its velocity, where it has one.
    pub open spec fn position_stepped(self, dt: nat) -> Entity {
        match self.velocity {
            Some(v) => Entity {
                transform: Transform {
                    translation: self.transform.translation.stepped_by(v.value, dt),
                    ..self.transform
                },
                ..self
            },
            None => self,
        }
    }

    /// The heading after one step of its spin, where it has one.
    pub open spec fn heading_turned(self, dt: nat) -> Entity {
        match self.rotation {
            Some(r) => Entity {
                transform: Transform {
                    heading: turned_heading(self.transform.heading as nat, r, dt) as u32,
                    ..self.transform
                },
                ..self
            },
            None => self,
        }
    }

    /// The entity after `dt` microseconds on its lifetime, if it is of `kind`
    /// and has one.
    pub open spec fn aged(self, kind: EntityKind, dt: nat) -> Entity {
        if self.kind == kind {
            match self.lifetime {
                Some(t) => Entity { lifetime: Some(t.ticked_timer(dt)), ..self },
                None => self,
            }
        } else {
            self
        }
    }

    /// An entity of `kind` whose lifetime ran out on the last tick.
    pub open spec fn expired(self, kind: EntityKind) -> bool {
        self.kind == kind && (self.lifetime matches Some(t) && t@.just_finished)
    }
}

pub open spec fn ids_increasing(s: Seq<Entity>) -> bool {
    forall|i: int, j: int| 0 <= i < j < s.len() ==> s[i].id < s[j].id
}

pub open spec fn all_wf_below(s: Seq<Entity>, bound: nat) -> bool {
    forall|i: int| 0 <= i < s.len() ==> s[i].wf() && s[i].id < bound
}

/// How many entities of `kind` there are.
pub open spec fn count_kind(s: Seq<Entity>, kind: EntityKind) -> nat
    decreases s.len(),
{
    if s.len() == 0 {
        0
    } else {
        count_kind(s.drop_last(), kind) + if s.last().kind == kind {
            1nat
        } else {
            0nat
        }
    }
}

/// How many entities belong to `screen`.
pub open spec fn count_screen(s: Seq<Entity>, screen: Screen) -> nat
    decreases s.len(),
{
    if s.len() == 0 {
        0
    } else {
        count_screen(s.drop_last(), screen) + if s.last().screen == Some(screen) {
            1nat
        } else {
            0nat
        }
    }
}

/// The position of the entity with identifier `id`, if there is one.
pub open spec fn position_of(s: Seq<Entity>, id: u64) -> Option<int> {
    if exists|i: int| 0 <= i < s.len() && #[trigger] s[i].id == id {
        Some(choose|i: int| 0 <= i < s.len() && #[trigger] s[i].id == id)
    } else {
        None
    }
}

/// The position of an entity of `kind`: the only one when `count_kind` is one.
pub open spec fn single_of(s: Seq<Entity>, kind: EntityKind) -> int {
    choose|i: int| 0 <= i < s.len() && #[trigger] s[i].kind == kind
}

/// Some entity of `kind` exists when the count is positive, so `single_of`
/// then names one of them.
pub proof fn lemma_count_witness(s: Seq<Entity>, kind: EntityKind)
    requires
        count_kind(s, kind) > 0,
    ensures
        0 <= single_of(s, kind) < s.len(),
        s[single_of(s, kind)].kind == kind,
    decreases s.len(),
{
    if s.last().kind == kind {
        assert(s[s.len() - 1].kind == kind);
    } else {
        lemma_count_witness(s.drop_last(), kind);
        let k = single_of(s.drop_last(), kind);
        assert(s[k].kind == kind);
    }
}

/// When there is exactly one entity of `kind`, any entity of that kind is it.
proof fn lemma_count_one_unique(s: Seq<Entity>, kind: EntityKind, i: int, j: int)
    requires
        count_kind(s, kind) == 1,
        0 <= i < s.len(),
        0 <= j < s.len(),
        s[i].kind == kind,
        s[j].kind == kind,
    ensures
        i == j,
    decreases s.len(),
{
    let n = s.len() - 1;
    if i != n && j != n {
        if s.last().kind == kind {
            lemma_count_positive(s.drop_last(), kind, i);
        } else {
            lemma_count_one_unique(s.drop_last(), kind, i, j);
        }
    } else if i != j {
        let k = if i == n { j } else { i };
        lemma_count_positive(s.drop_last(), kind, k);
    }
}

/// Over any sequence of ticks, each entity with a velocity and an acceleration
/// ends where semi-implicit Euler integration of its starting position and
/// velocity under its constant acceleration puts it; the store keeps its
/// entities, in order, with their identifiers and accelerations.
pub proof fn lemma_motion_is_euler(w: WorldView, dts: Seq<nat>, i: int)
    requires
        0 <= i < w.entities.len(),
        w.entities[i].velocity is Some,
        w.entities[i].acceleration is Some,
    ensures
        ({
            let e = w.entities[i];
            let f = w.moved_through(dts).entities[i];
            &&& w.moved_through(dts).entities.len() == w.entities.len()
            &&& f.id == e.id
            &&& f.kind == e.kind
            &&& f.acceleration == e.acceleration
            &&& f.velocity is Some
            &&& (f.transform.translation, f.velocity.unwrap().value) == euler(
                e.transform.translation,
                e.velocity.unwrap().value,
                e.acceleration.unwrap().value,
                dts,
            )
        }),
    decreases dts.len(),
{
    if dts.len() > 0 {
        lemma_motion_is_euler(w, dts.drop_last(), i);
    }
}

/// Replacing an entity by one of the same screen keeps the count of that screen.
pub proof fn lemma_count_screen_update(s: Seq<Entity>, i: int, e: Entity, screen: Screen)
    requires
        0 <= i < s.len(),
        e.screen == s[i].screen,
    ensures
        count_screen(s.update(i, e), screen) == count_screen(s, screen),
    decreases s.len(),
{
    let u = s.update(i, e);
    if i < s.len() - 1 {
        assert(u.drop_last() =~= s.drop_last().update(i, e));
        lemma_count_screen_update(s.drop_last(), i, e, screen);
    } else {
        assert(u.drop_last() =~= s.drop_last());
    }
}

/// Whether an entity with identifier `id` is in the store.
pub open spec fn present(s: Seq<Entity>, id: u64) -> bool {
    exists|i: int| 0 <= i < s.len() && #[trigger] s[i].id == id
}

/// An expiry pass keeps the store well formed.
pub proof fn lemma_expired_removed_wf(w: WorldView, kind: EntityKind, dt: nat)
    requires
        w.wf(),
    ensures
        w.expired_removed(kind, dt).wf(),
        w.expired_removed(kind, dt).next_id == w.next_id,
{
    let aged = w.entities.map_values(|e: Entity| e.aged(kind, dt));
    assert(ids_increasing(aged));
    assert(all_wf_below(aged, w.next_id));
    lemma_filter_keeps_order(aged, |e: Entity| !e.expired(kind), w.next_id);
}

/// An expiry pass keeps an entity when its advanced lifetime has not run out on
/// this pass, and drops it otherwise.
proof fn lemma_expired_removed_member(w: WorldView, kind: EntityKind, dt: nat, i: int)
    requires
        w.wf(),
        0 <= i < w.entities.len(),
    ensures
        present(w.expired_removed(kind, dt).entities, w.entities[i].id) <==> !w.entities[i].aged(
            kind,
            dt,
        ).expired(kind),
        !w.entities[i].aged(kind, dt).expired(kind) ==> exists|j: int|
            0 <= j < w.expired_removed(kind, dt).entities.len()
                && #[trigger] w.expired_removed(kind, dt).entities[j] == w.entities[i].aged(
                kind,
                dt,
            ),
{
    let keep = |e: Entity| !e.expired(kind);
    let aged = w.entities.map_values(|e: Entity| e.aged(kind, dt));
    let f = aged.filter(keep);
    let x = aged[i];
    assert(w.expired_removed(kind, dt).entities == f);
    if keep(x) {
        aged.lemma_filter_contains(keep, i);
        assert(f.contains(x));
        let j = choose|j: int| 0 <= j < f.len() && f[j] == x;
        assert(f[j].id == w.entities[i].id);
    } else {
        if present(f, w.entities[i].id) {
            let j = choose|j: int| 0 <= j < f.len() && #[trigger] f[j].id == w.entities[i].id;
            assert(f.contains(f[j]));
            aged.lemma_filter_contains_rev(keep, f[j]);
            let k = choose|k: int| 0 <= k < aged.len() && aged[k] == f[j];
            if k < i {
                assert(w.entities[k].id < w.entities[i].id);
            } else if k > i {
                assert(w.entities[i].id < w.entities[k].id);
            }
            aged.lemma_filter_pred(keep, j);
        }
    }
}

/// An expiry pass never brings back an entity that is gone.
proof fn lemma_expired_removed_absent(w: WorldView, kind: EntityKind, dt: nat, id: u64)
    requires
        !present(w.entities, id),
    ensures
        !present(w.expired_removed(kind, dt).entities, id),
{
    let keep = |e: Entity| !e.expired(kind);
    let aged = w.entities.map_values(|e: Entity| e.aged(kind, dt));
    let f = aged.filter(keep);
    assert(w.expired_removed(kind, dt).entities == f);
    if present(f, id) {
        let j = choose|j: int| 0 <= j < f.len() && #[trigger] f[j].id == id;
        assert(f.contains(f[j]));
        aged.lemma_filter_contains_rev(keep, f[j]);
        let k = choose|k: int| 0 <= k < aged.len() && aged[k] == f[j];
        assert(w.entities[k].id == id);
    }
}

/// An entity of `kind` that starts a one-shot lifetime of `duration` survives
/// each expiry pass while the accumulated delta stays below `duration`, and is
/// removed by the pass at which it reaches `duration`, never to return.
pub proof fn lemma_lifetime_expiry(
    w: WorldView,
    kind: EntityKind,
    duration: nat,
    dts: Seq<nat>,
    i: int,
)
    requires
        w.wf(),
        0 <= i < w.entities.len(),
        w.entities[i].kind == kind,
        0 < duration <= u64::MAX,
        w.entities[i].lifetime == Some(Timer::fresh(duration, TimerMode::Once)),
    ensures
        present(w.expiry_passes(kind, dts).entities, w.entities[i].id) <==> total(dts) < duration,
        w.expiry_passes(kind, dts).wf(),
{
    lemma_lifetime_expiry_state(w, kind, duration, dts, i);
}

proof fn lemma_lifetime_expiry_state(
    w: WorldView,
    kind: EntityKind,
    duration: nat,
    dts: Seq<nat>,
    i: int,
)
    requires
        w.wf(),
        0 <= i < w.entities.len(),
        w.entities[i].kind == kind,
        0 < duration <= u64::MAX,
        w.entities[i].lifetime == Some(Timer::fresh(duration, TimerMode::Once)),
    ensures
        w.expiry_passes(kind, dts).wf(),
        present(w.expiry_passes(kind, dts).entities, w.entities[i].id) <==> total(dts) < duration,
        total(dts) < duration ==> exists|j: int|
            0 <= j < w.expiry_passes(kind, dts).entities.len() && ({
                let e = #[trigger] w.expiry_passes(kind, dts).entities[j];
                &&& e.id == w.entities[i].id
                &&& e.kind == kind
                &&& e.lifetime matches Some(t) && t@ == run(
                    TimerView::started(duration, false),
                    dts,
                )
            }),
    decreases dts.len(),
{
    let id = w.entities[i].id;
    let start = TimerView::started(duration, false);
    Timer::lemma_fresh(duration, TimerMode::Once);
    lemma_once_state(duration, dts);
    if dts.len() == 0 {
        assert(present(w.entities, id));
    } else {
        let prev = dts.drop_last();
        let d = dts.last();
        let wp = w.expiry_passes(kind, prev);
        lemma_lifetime_expiry_state(w, kind, duration, prev, i);
        lemma_expired_removed_wf(wp, kind, d);
        lemma_once_state(duration, prev);
        lemma_run_wf(start, prev);
        if total(prev) < duration {
            let j = choose|j: int|
                0 <= j < wp.entities.len() && ({
                    let e = #[trigger] wp.entities[j];
                    &&& e.id == id
                    &&& e.kind == kind
                    &&& e.lifetime matches Some(t) && t@ == run(start, prev)
                });
            let e = wp.entities[j];
            let t = e.lifetime.unwrap();
            assert(wp.entities[j].wf());
            Timer::lemma_ticked_timer(t, d);
            lemma_expired_removed_member(wp, kind, d, j);
            if total(dts) < duration {
                let k = choose|k: int|
                    0 <= k < wp.expired_removed(kind, d).entities.len()
                        && #[trigger] wp.expired_removed(kind, d).entities[k] == e.aged(kind, d);
                assert(w.expiry_passes(kind, dts).entities[k] == e.aged(kind, d));
            }
        } else {
            lemma_expired_removed_absent(wp, kind, d, id);
        }
    }
}

/// Keeping some entities of an ordered store keeps it ordered and well formed.
proof fn lemma_filter_keeps_order(s: Seq<Entity>, p: spec_fn(Entity) -> bool, bound: nat)
    requires
        ids_increasing(s),
        all_wf_below(s, bound),
    ensures
        ids_increasing(s.filter(p)),
        all_wf_below(s.filter(p), bound),
        forall|k: int| 0 <= k < s.filter(p).len() ==> p(#[trigger] s.filter(p)[k]),
    decreases s.len(),
{
    broadcast use Seq::lemma_filter_push;

    reveal(Seq::filter);
    if s.len() > 0 {
        let t = s.drop_last();
        let e = s.last();
        lemma_filter_keeps_order(t, p, bound);
        assert(s == t.push(e));
        let ft = t.filter(p);
        assert forall|k: int| 0 <= k < ft.len() implies #[trigger] ft[k].id < e.id by {
            assert(ft.contains(ft[k]));
            t.lemma_filter_contains_rev(p, ft[k]);
        }
    }
}

proof fn lemma_count_take_step(s: Seq<Entity>, i: int, kind: EntityKind)
    requires
        0 <= i < s.len(),
    ensures
        count_kind(s.take(i + 1), kind) == count_kind(s.take(i), kind) + if s[i].kind == kind {
            1nat
        } else {
            0nat
        },
{
    assert(s.take(i + 1).drop_last() =~= s.take(i));
}

proof fn lemma_count_take_monotone(s: Seq<Entity>, i: int, j: int, kind: EntityKind)
    requires
        0 <= i <= j <= s.len(),
    ensures
        count_kind(s.take(i), kind) <= count_kind(s.take(j), kind),
    decreases j - i,
{
    if i < j {
        lemma_count_take_monotone(s, i, j - 1, kind);
        lemma_count_take_step(s, j - 1, kind);
    }
}

proof fn lemma_count_positive(s: Seq<Entity>, kind: EntityKind, i: int)
    requires
        0 <= i < s.len(),
        s[i].kind == kind,
    ensures
        count_kind(s, kind) >= 1,
    decreases s.len(),
{
    if i < s.len() - 1 {
        lemma_count_positive(s.drop_last(), kind, i);
    }
}

/// The store of all entities, in order of creation.
pub struct World {
    entities: Vec<Entity>,
    next_id: u64,
}

/// The mathematical state of the store.
pub struct WorldView {
    /// The entities in order of creation.
    pub entities: Seq<Entity>,
    /// The identifier the next spawned entity receives.
    pub next_id: nat,
}

impl WorldView {
    pub open spec fn wf(self) -> bool {
        &&& ids_increasing(self.entities)
        &&& all_wf_below(self.entities, self.next_id)
    }

    /// The store after spawning `e` under the next identifier; unchanged once
    /// every identifier has been used.
    pub open spec fn spawned(self, e: Entity) -> WorldView {
        if self.next_id >= u64::MAX {
            self
        } else {
            WorldView {
                entities: self.entities.push(Entity { id: self.next_id as u64, ..e }),
                next_id: self.next_id + 1,
            }
        }
    }

    pub open spec fn with_entities(self, entities: Seq<Entity>) -> WorldView {
        WorldView { entities, ..self }
    }

    pub open spec fn velocities_updated(self, dt: nat) -> WorldView {
        self.with_entities(self.entities.map_values(|e: Entity| e.velocity_stepped(dt)))
    }

    pub open spec fn positions_updated(self, dt: nat) -> WorldView {
        self.with_entities(self.entities.map_values(|e: Entity| e.position_stepped(dt)))
    }

    pub open spec fn headings_updated(self, dt: nat) -> WorldView {
        self.with_entities(self.entities.map_values(|e: Entity| e.heading_turned(dt)))
    }

    /// The store after the lifetimes of entities of `kind` advanced by `dt` and
    /// those that ran out were removed.
    pub open spec fn expired_removed(self, kind: EntityKind, dt: nat) -> WorldView {
        self.with_entities(
            self.entities.map_values(|e: Entity| e.aged(kind, dt)).filter(
                |e: Entity| !e.expired(kind),
            ),
        )
    }

    /// The three motion steps of one tick, in their fixed order.
    pub open spec fn moved(self, dt: nat) -> WorldView {
        self.velocities_updated(dt).positions_updated(dt).headings_updated(dt)
    }

    /// The store after the motion steps of one tick per delta, in order.
    pub open spec fn moved_through(self, dts: Seq<nat>) -> WorldView
        decreases dts.len(),
    {
        if dts.len() == 0 {
            self
        } else {
            self.moved_through(dts.drop_last()).moved(dts.last())
        }
    }

    pub open spec fn players_steered(self, c: Controls) -> WorldView {
        self.with_entities(self.entities.map_values(|e: Entity| steered_spec(e, c)))
    }

    pub open spec fn replaced(self, i: int, e: Entity) -> WorldView {
        self.with_entities(self.entities.update(i, e))
    }

    /// The store after one expiry pass for entities of `kind` per delta, in order.
    pub open spec fn expiry_passes(self, kind: EntityKind, dts: Seq<nat>) -> WorldView
        decreases dts.len(),
    {
        if dts.len() == 0 {
            self
        } else {
            self.expiry_passes(kind, dts.drop_last()).expired_removed(kind, dts.last())
        }
    }

    pub open spec fn screen_cleared(self, screen: Screen) -> WorldView {
        self.with_entities(self.entities.filter(|e: Entity| e.screen != Some(screen)))
    }
}

impl View for World {
    type V = WorldView;

    closed spec fn view(&self) -> WorldView {
        WorldView { entities: self.entities@, next_id: self.next_id as nat }
    }
}

impl World {
    pub open spec fn wf(&self) -> bool {
        self@.wf()
    }

    pub fn new() -> (r: World)
        ensures
            r.wf(),
            r@ == (WorldView { entities: Seq::<Entity>::empty(), next_id: 0 }),
    {
        World { entities: Vec::new(), next_id: 0 }
    }

    pub fn len(&self) -> (r: usize)
        ensures
            r == self@.entities.len(),
    {
        self.entities.len()
    }

    /// The entity at position `i` in creation order.
    pub fn at(&self, i: usize) -> (r: &Entity)
        requires
            i < self@.entities.len(),
        ensures
            *r == self@.entities[i as int],
    {
        &self.entities[i]
    }

    /// Adds `e` under the next free identifier and returns that identifier;
    /// nothing is added once every identifier has been used.
    pub fn spawn(&mut self, e: Entity) -> (r: Option<u64>)
        requires
            old(self).wf(),
            e.wf(),
        ensures
            final(self).wf(),
            final(self)@ == old(self)@.spawned(e),
            r == if old(self)@.next_id < u64::MAX {
                Some(old(self)@.next_id as u64)
            } else {
                None
            },
    {
        if self.next_id == u64::MAX {
            return None;
        }
        let id = self.next_id;
        self.entities.push(Entity { id, ..e });
        self.next_id = id + 1;
        Some(id)
    }

    /// The position of the entity with identifier `id`, if there is one.
    pub fn index_of(&self, id: u64) -> (r: Option<usize>)
        requires
            self.wf(),
        ensures
            r matches Some(i) ==> i < self@.entities.len() && self@.entities[i as int].id == id
                && position_of(self@.entities, id) == Some(i as int),
            r is None ==> position_of(self@.entities, id) is None,
    {
        let mut i: usize = 0;
        while i < self.entities.len()
            invariant
                i <= self@.entities.len(),
                self.wf(),
                forall|j: int| 0 <= j < i ==> self@.entities[j].id != id,
            decreases self@.entities.len() - i,
        {
            if self.entities[i].id == id {
                proof {
                    let s = self@.entities;
                    assert(s[i as int].id == id);
                    let c = choose|k: int| 0 <= k < s.len() && #[trigger] s[k].id == id;
                    if c < i {
                        assert(s[c].id < s[i as int].id);
                    } else if c > i {
                        assert(s[i as int].id < s[c].id);
                    }
                }
                return Some(i);
            }
            i = i + 1;
        }
        None
    }

    /// How many entities of `kind` there are.
    pub fn count(&self, kind: EntityKind) -> (r: usize)
        ensures
            r == count_kind(self@.entities, kind),
    {
        let mut n: usize = 0;
        let mut i: usize = 0;
        while i < self.entities.len()
            invariant
                i <= self@.entities.len(),
                n == count_kind(self@.entities.take(i as int), kind),
                n <= i,
            decreases self@.entities.len() - i,
        {
            proof {
                lemma_count_take_step(self@.entities, i as int, kind);
            }
            if self.entities[i].kind == kind {
                n = n + 1;
            }
            i = i + 1;
        }
        assert(self@.entities.take(i as int) =~= self@.entities);
        n
    }

    /// How many entities belong to `screen`.
    pub fn count_screen(&self, screen: Screen) -> (r: usize)
        ensures
            r == count_screen(self@.entities, screen),
    {
        let mut n: usize = 0;
        let mut i: usize = 0;
        while i < self.entities.len()
            invariant
                i <= self@.entities.len(),
                n == count_screen(self@.entities.take(i as int), screen),
                n <= i,
            decreases self@.entities.len() - i,
        {
            assert(self@.entities.take(i + 1).drop_last() =~= self@.entities.take(i as int));
            let in_screen = match self.entities[i].screen {
                Some(s) => s == screen,
                None => false,
            };
            if in_screen {
                n = n + 1;
            }
            i = i + 1;
        }
        assert(self@.entities.take(i as int) =~= self@.entities);
        n
    }

    /// The position of the only entity of `kind`; none when there are no such
    /// entities or more than one.
    pub fn single(&self, kind: EntityKind) -> (r: Option<usize>)
        ensures
            r is Some <==> count_kind(self@.entities, kind) == 1,
            r matches Some(i) ==> i < self@.entities.len() && self@.entities[i as int].kind == kind
                && i == single_of(self@.entities, kind),
    {
        let mut found: Option<usize> = None;
        let mut i: usize = 0;
        while i < self.entities.len()
            invariant
                i <= self@.entities.len(),
                found is None <==> count_kind(self@.entities.take(i as int), kind) == 0,
                found matches Some(k) ==> k < i && self@.entities[k as int].kind == kind && count_kind(
                    self@.entities.take(i as int),
                    kind,
                ) == 1,
            decreases self@.entities.len() - i,
        {
            proof {
                lemma_count_take_step(self@.entities, i as int, kind);
            }
            if self.entities[i].kind == kind {
                if found.is_some() {
                    proof {
                        let k = found.unwrap() as int;
                        assert(self@.entities.take(i as int)[k] == self@.entities[k]);
                        lemma_count_positive(self@.entities.take(i as int), kind, k);
                        lemma_count_take_monotone(self@.entities, i as int + 1, self@.entities.len() as int, kind);
                        assert(self@.entities.take(self@.entities.len() as int) =~= self@.entities);
                    }
                    return None;
                }
                found = Some(i);
            }
            i = i + 1;
        }
        assert(self@.entities.take(i as int) =~= self@.entities);
        proof {
            if found is Some {
                let s = self@.entities;
                let k = found.unwrap() as int;
                let c = single_of(s, kind);
                assert(s[k].kind == kind);
                lemma_count_one_unique(s, kind, k, c);
            }
        }
        found
    }

    /// Applies each entity's acceleration to its velocity over `dt` microseconds.
    pub fn update_velocities(&mut self, dt: u64)
        requires
            old(self).wf(),
        ensures
            final(self).wf(),
            final(self)@ == old(self)@.velocities_updated(dt as nat),
    {
        let ghost before = self@.entities;
        let mut i: usize = 0;
        while i < self.entities.len()
            invariant
                i <= self@.entities.len() == before.len(),
                self.next_id == old(self).next_id,
                forall|j: int| 0 <= j < i ==> self@.entities[j] == before[j].velocity_stepped(dt as nat),
                forall|j: int| i <= j < self@.entities.len() ==> self@.entities[j] == before[j],
                ids_increasing(before),
                all_wf_below(before, self@.next_id),
            decreases self@.entities.len() - i,
        {
            let mut e = self.entities[i];
            match (e.velocity, e.acceleration) {
                (Some(v), Some(a)) => {
                    e.velocity = Some(Velocity { value: v.value.step_by(&a.value, dt) });
                },
                _ => {},
            }
            self.entities.set(i, e);
            i = i + 1;
        }
        assert(self@.entities =~= before.map_values(|e: Entity| e.velocity_stepped(dt as nat)));
    }

    /// Applies each entity's velocity to its position over `dt` microseconds.
    pub fn update_positions(&mut self, dt: u64)
        requires
            old(self).wf(),
        ensures
            final(self).wf(),
            final(self)@ == old(self)@.positions_updated(dt as nat),
    {
        let ghost before = self@.entities;
        let mut i: usize = 0;
        while i < self.entities.len()
            invariant
                i <= self@.entities.len() == before.len(),
                self.next_id == old(self).next_id,
                forall|j: int| 0 <= j < i ==> self@.entities[j] == before[j].position_stepped(dt as nat),
                forall|j: int| i <= j < self@.entities.len() ==> self@.entities[j] == before[j],
                ids_increasing(before),
                all_wf_below(before, self@.next_id),
            decreases self@.entities.len() - i,
        {
            let mut e = self.entities[i];
            match e.velocity {
                Some(v) => {
                    e.transform.translation = e.transform.translation.step_by(&v.value, dt);
                },
                None => {},
            }
            self.entities.set(i, e);
            i = i + 1;
        }
        assert(self@.entities =~= before.map_values(|e: Entity| e.position_stepped(dt as nat)));
    }

    /// Turns each spinning entity's heading over `dt` microseconds.
    pub fn update_headings(&mut self, dt: u64)
        requires
            old(self).wf(),
        ensures
            final(self).wf(),
            final(self)@ == old(self)@.headings_updated(dt as nat),
    {
        let ghost before = self@.entities;
        let mut i: usize = 0;
        while i < self.entities.len()
            invariant
                i <= self@.entities.len() == before.len(),
                self.next_id == old(self).next_id,
                forall|j: int| 0 <= j < i ==> self@.entities[j] == before[j].heading_turned(dt as nat),
                forall|j: int| i <= j < self@.entities.len() ==> self@.entities[j] == before[j],
                ids_increasing(before),
                all_wf_below(before, self@.next_id),
            decreases self@.entities.len() - i,
        {
            let mut e = self.entities[i];
            match e.rotation {
                Some(r) => {
                    e.transform.heading = turn_heading(e.transform.heading, r, dt);
                },
                None => {},
            }
            self.entities.set(i, e);
            i = i + 1;
        }
        assert(self@.entities =~= before.map_values(|e: Entity| e.heading_turned(dt as nat)));
    }

    /// Puts `e` in place of the entity at position `i`, which it must keep the
    /// identifier of.
    pub fn replace(&mut self, i: usize, e: Entity)
        requires
            old(self).wf(),
            i < old(self)@.entities.len(),
            e.wf(),
            e.id == old(self)@.entities[i as int].id,
        ensures
            final(self).wf(),
            final(self)@ == old(self)@.replaced(i as int, e),
    {
        self.entities.set(i, e);
    }

    /// Applies the held keys to every player ship.
    pub fn steer_players(&mut self, c: Controls)
        requires
            old(self).wf(),
        ensures
            final(self).wf(),
            final(self)@ == old(self)@.players_steered(c),
    {
        let ghost before = self@.entities;
        let mut i: usize = 0;
        while i < self.entities.len()
            invariant
                i <= self@.entities.len() == before.len(),
                self.next_id == old(self).next_id,
                forall|j: int| 0 <= j < i ==> self@.entities[j] == steered_spec(before[j], c),
                forall|j: int| i <= j < self@.entities.len() ==> self@.entities[j] == before[j],
                ids_increasing(before),
                all_wf_below(before, self@.next_id),
            decreases self@.entities.len() - i,
        {
            let e = steered(self.entities[i], c);
            self.entities.set(i, e);
            i = i + 1;
        }
        assert(self@.entities =~= before.map_values(|e: Entity| steered_spec(e, c)));
    }

    /// Advances the lifetime of every entity of `kind` by `dt` microseconds and
    /// removes those whose lifetime ran out on this tick.
    pub fn despawn_expired(&mut self, kind: EntityKind, dt: u64)
        requires
            old(self).wf(),
        ensures
            final(self).wf(),
            final(self)@ == old(self)@.expired_removed(kind, dt as nat),
    {
        broadcast use Seq::lemma_filter_push;

        let ghost aged = self@.entities.map_values(|e: Entity| e.aged(kind, dt as nat));
        let ghost keep = |e: Entity| !e.expired(kind);
        let mut kept: Vec<Entity> = Vec::new();
        let mut i: usize = 0;
        while i < self.entities.len()
            invariant
                i <= self@.entities.len() == aged.len(),
                aged == self@.entities.map_values(|e: Entity| e.aged(kind, dt as nat)),
                kept@ == aged.take(i as int).filter(keep),
                keep == (|e: Entity| !e.expired(kind)),
                self@.entities == old(self)@.entities,
                self.next_id == old(self).next_id,
                ids_increasing(self@.entities),
                all_wf_below(self@.entities, self@.next_id),
            decreases self@.entities.len() - i,
        {
            let mut e = self.entities[i];
            if e.kind == kind {
                match e.lifetime {
                    Some(t) => {
                        let mut t2 = t;
                        t2.tick(dt);
                        e.lifetime = Some(t2);
                    },
                    None => {},
                }
            }
            proof {
                assert(aged.take(i + 1) == aged.take(i as int).push(aged[i as int]));
                aged.take(i as int).lemma_filter_push(aged[i as int], keep);
                assert(e == aged[i as int]);
            }
            let gone = e.kind == kind && match e.lifetime {
                Some(t) => t.just_finished(),
                None => false,
            };
            if !gone {
                kept.push(e);
            }
            i = i + 1;
        }
        assert(aged.take(i as int) =~= aged);
        proof {
            assert(ids_increasing(aged));
            lemma_filter_keeps_order(aged, keep, self@.next_id);
        }
        self.entities = kept;
    }

    /// Removes every entity that belongs to `screen`.
    pub fn despawn_components(&mut self, screen: Screen)
        requires
            old(self).wf(),
        ensures
            final(self).wf(),
            final(self)@ == old(self)@.screen_cleared(screen),
            count_screen(final(self)@.entities, screen) == 0,
    {
        broadcast use Seq::lemma_filter_push;

        let ghost keep = |e: Entity| e.screen != Some(screen);
        let mut kept: Vec<Entity> = Vec::new();
        let mut i: usize = 0;
        while i < self.entities.len()
            invariant
                i <= self@.entities.len(),
                kept@ == self@.entities.take(i as int).filter(keep),
                keep == (|e: Entity| e.screen != Some(screen)),
                self@.entities == old(self)@.entities,
                self.next_id == old(self).next_id,
                ids_increasing(self@.entities),
                all_wf_below(self@.entities, self@.next_id),
            decreases self@.entities.len() - i,
        {
            let e = self.entities[i];
            proof {
                assert(self@.entities.take(i + 1) == self@.entities.take(i as int).push(self@.entities[i as int]));
                self@.entities.take(i as int).lemma_filter_push(self@.entities[i as int], keep);
            }
            let in_screen = match e.screen {
                Some(s) => s == screen,
                None => false,
            };
            if !in_screen {
                kept.push(e);
            }
            i = i + 1;
        }
        assert(self@.entities.take(i as int) =~= self@.entities);
        proof {
            lemma_filter_keeps_order(self@.entities, keep, self@.next_id);
            lemma_count_screen_none(self@.entities.filter(keep), screen);
        }
        self.entities = kept;
    }
}

proof fn lemma_count_screen_none(s: Seq<Entity>, screen: Screen)
    requires
        forall|k: int| 0 <= k < s.len() ==> s[k].screen != Some(screen),
    ensures
        count_screen(s, screen) == 0,
    decreases s.len(),
{
    if s.len() > 0 {
        lemma_count_screen_none(s.drop_last(), screen);
    }
}

} // verus!
