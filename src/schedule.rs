//! The ordered list of in-game systems: each system belongs to a phase, phases
//! run in a fixed order, and systems of one phase run in the order they were
//! added.
use vstd::prelude::*;

verus! {

/// A named bucket of systems; the phases of a tick run in declaration order.
#[derive(Clone, Copy, Debug, PartialEq, Eq, Structural)]
pub enum Phase {
    /// Reads the controls, fires, and spawns.
    UserInput,
    /// Integrates motion.
    EntityUpdates,
    /// Removes what has expired.
    DespawnEntities,
}

/// The place of a phase in a tick.
pub open spec fn rank(p: Phase) -> nat {
    match p {
        Phase::UserInput => 0,
        Phase::EntityUpdates => 1,
        Phase::DespawnEntities => 2,
    }
}

fn rank_of(p: Phase) -> (r: u8)
    ensures
        r == rank(p),
{
    match p {
        Phase::UserInput => 0,
        Phase::EntityUpdates => 1,
        Phase::DespawnEntities => 2,
    }
}

/// A system that runs only while the game is being played.
#[derive(Clone, Copy, Debug, PartialEq, Eq, Structural)]
pub enum System {
    PlayerMovement,
    PlayerWeaponControls,
    SpawnEnemy,
    UpdateVelocity,
    UpdatePosition,
    UpdateRotation,
    DespawnEnemy,
    DespawnProjectile,
}

/// Entries are ordered by the rank of their phase.
pub open spec fn phase_ordered(s: Seq<(Phase, System)>) -> bool {
    forall|i: int, j: int| 0 <= i < j < s.len() ==> rank(s[i].0) <= rank(s[j].0)
}

/// Where an entry of phase `p` goes: after every entry of its phase or an
/// earlier one.
pub open spec fn slot_for(s: Seq<(Phase, System)>, p: Phase) -> int
    decreases s.len(),
{
    if s.len() == 0 {
        0
    } else if rank(s.last().0) <= rank(p) {
        s.len() as int
    } else {
        slot_for(s.drop_last(), p)
    }
}

/// The list after adding `system` to phase `p`.
pub open spec fn added(s: Seq<(Phase, System)>, p: Phase, system: System) -> Seq<(Phase, System)> {
    s.insert(slot_for(s, p), (p, system))
}

proof fn lemma_slot_for(s: Seq<(Phase, System)>, p: Phase)
    requires
        phase_ordered(s),
    ensures
        0 <= slot_for(s, p) <= s.len(),
        forall|i: int| 0 <= i < slot_for(s, p) ==> rank(#[trigger] s[i].0) <= rank(p),
        forall|i: int| slot_for(s, p) <= i < s.len() ==> rank(p) < rank(#[trigger] s[i].0),
    decreases s.len(),
{
    if s.len() == 0 {
    } else if rank(s.last().0) <= rank(p) {
        assert forall|i: int| 0 <= i < s.len() implies rank(#[trigger] s[i].0) <= rank(p) by {
            if i < s.len() - 1 {
                assert(rank(s[i].0) <= rank(s[s.len() - 1].0));
            }
        }
    } else {
        let t = s.drop_last();
        assert forall|i: int, j: int| 0 <= i < j < t.len() implies rank(t[i].0) <= rank(
            t[j].0,
        ) by {
            assert(t[i] == s[i] && t[j] == s[j]);
        }
        lemma_slot_for(t, p);
        assert forall|i: int| 0 <= i < slot_for(s, p) implies rank(#[trigger] s[i].0) <= rank(p) by {
            assert(s[i] == t[i]);
        }
        assert forall|i: int| slot_for(s, p) <= i < s.len() implies rank(p) < rank(
            #[trigger] s[i].0,
        ) by {
            if i < s.len() - 1 {
                assert(s[i] == t[i]);
            }
        }
    }
}

/// The in-game systems, ordered by phase.
pub struct Schedule {
    entries: Vec<(Phase, System)>,
}

impl View for Schedule {
    type V = Seq<(Phase, System)>;

    closed spec fn view(&self) -> Seq<(Phase, System)> {
        self.entries@
    }
}

impl Schedule {
    pub open spec fn wf(&self) -> bool {
        phase_ordered(self@)
    }

    pub fn new() -> (r: Schedule)
        ensures
            r.wf(),
            r@ == Seq::<(Phase, System)>::empty(),
    {
        Schedule { entries: Vec::new() }
    }

    /// Adds `system` to phase `p`, after the systems already in that phase.
    pub fn add(&mut self, p: Phase, system: System)
        requires
            old(self).wf(),
        ensures
            final(self).wf(),
            final(self)@ == added(old(self)@, p, system),
    {
        let r = rank_of(p);
        let mut k: usize = self.entries.len();
        assert(self@.take(k as int) =~= self@);
        loop
            invariant
                k <= self@.len(),
                r == rank(p),
                self@ == old(self)@,
                slot_for(self@, p) == slot_for(self@.take(k as int), p),
            ensures
                k == slot_for(old(self)@, p),
            decreases k,
        {
            if k == 0 {
                break;
            }
            let rk = rank_of(self.entries[k - 1].0);
            proof {
                let t = self@.take(k as int);
                assert(t.drop_last() =~= self@.take(k - 1));
                assert(t.last() == self@[k - 1]);
                assert(t.len() == k);
                assert(rk == rank(t.last().0));
                if rk <= r {
                    assert(slot_for(t, p) == k);
                } else {
                    assert(slot_for(t, p) == slot_for(self@.take(k - 1), p));
                }
            }
            if rk <= r {
                break;
            }
            k = k - 1;
        }
        proof {
            lemma_add_keeps_phase_order(old(self)@, p, system);
        }
        self.entries.insert(k, (p, system));
    }

    /// The systems in the order they run.
    pub fn entries(&self) -> (r: &Vec<(Phase, System)>)
        ensures
            r@ == self@,
    {
        &self.entries
    }

    /// The game's systems: ship controls, firing and the enemy spawner read
    /// input; velocity, then position, then rotation are integrated; then
    /// expired enemies and projectiles are removed.
    pub fn standard() -> (r: Schedule)
        ensures
            r.wf(),
            r@ == standard_systems(),
    {
        let mut s = Schedule::new();
        let ghost all = standard_systems();
        let mut i: usize = 0;
        while i < 8
            invariant
                i <= 8,
                all == standard_systems(),
                s.wf(),
                s@ == all.take(i as int),
            decreases 8 - i,
        {
            let (p, system) = match i {
                0 => (Phase::UserInput, System::PlayerMovement),
                1 => (Phase::UserInput, System::PlayerWeaponControls),
                2 => (Phase::UserInput, System::SpawnEnemy),
                3 => (Phase::EntityUpdates, System::UpdateVelocity),
                4 => (Phase::EntityUpdates, System::UpdatePosition),
                5 => (Phase::EntityUpdates, System::UpdateRotation),
                6 => (Phase::DespawnEntities, System::DespawnEnemy),
                _ => (Phase::DespawnEntities, System::DespawnProjectile),
            };
            proof {
                assert((p, system) == all[i as int]);
                if i > 0 {
                    assert(s@.last() == all[i - 1]);
                    assert(rank(all[i - 1].0) <= rank(all[i as int].0));
                }
                assert(slot_for(s@, p) == s@.len());
                assert(all.take(i + 1) =~= s@.insert(i as int, (p, system)));
            }
            s.add(p, system);
            i = i + 1;
        }
        assert(all.take(8) =~= all);
        s
    }
}

/// The game's systems in the order they run.
pub open spec fn standard_systems() -> Seq<(Phase, System)> {
    seq![
        (Phase::UserInput, System::PlayerMovement),
        (Phase::UserInput, System::PlayerWeaponControls),
        (Phase::UserInput, System::SpawnEnemy),
        (Phase::EntityUpdates, System::UpdateVelocity),
        (Phase::EntityUpdates, System::UpdatePosition),
        (Phase::EntityUpdates, System::UpdateRotation),
        (Phase::DespawnEntities, System::DespawnEnemy),
        (Phase::DespawnEntities, System::DespawnProjectile),
    ]
}

/// However many systems each phase holds, adding one keeps every phase ahead of
/// the later ones: the new system runs after all systems of its own and earlier
/// phases, before all systems of later phases, and the others keep their
/// relative order.
pub proof fn lemma_add_keeps_phase_order(s: Seq<(Phase, System)>, p: Phase, system: System)
    requires
        phase_ordered(s),
    ensures
        phase_ordered(added(s, p, system)),
        ({
            let k = slot_for(s, p);
            let n = added(s, p, system);
            &&& n.len() == s.len() + 1
            &&& n[k] == (p, system)
            &&& forall|i: int| 0 <= i < k ==> n[i] == s[i] && rank(#[trigger] s[i].0) <= rank(p)
            &&& forall|i: int| k < i < n.len() ==> n[i] == s[i - 1] && rank(p) < rank(
                #[trigger] s[i - 1].0,
            )
        }),
{
    lemma_slot_for(s, p);
    let k = slot_for(s, p);
    let n = added(s, p, system);
    assert forall|i: int, j: int| 0 <= i < j < n.len() implies rank(n[i].0) <= rank(n[j].0) by {
        if j < k {
        } else if i < k && j == k {
            assert(n[i] == s[i]);
        } else if i < k {
            assert(n[i] == s[i] && n[j] == s[j - 1]);
        } else if i == k {
            assert(n[j] == s[j - 1]);
        } else {
            assert(n[i] == s[i - 1] && n[j] == s[j - 1]);
        }
    }
    assert forall|i: int| k < i < n.len() implies n[i] == s[i - 1] && rank(p) < rank(
        #[trigger] s[i - 1].0,
    ) by {
        assert(k <= i - 1);
    }
}

} // verus!
