//! Everything that is particular to creatures.

use vstd::prelude::*;
use crate::components::{Entity, InCombat, Target, Threat};
use crate::game::combat::{
    AGGRO_THREAT, LeaveCombatEvent, same_instance, spec_engage, spec_homebound,
};
use crate::game::unit::{Follow, MoveDestination, Speed, Unit, UnitBundle};
use crate::game::world::{lemma_same_population, table_view, World, WorldView};
use crate::math::{
    Position, spec_closer_than, spec_gap, spec_planar_closer_than, spec_planar_distance_squared,
    spec_range_squared, UNIT,
};
use crate::shared_components::NPC;

verus! {

/// Sub-units a creature covers in one tick.
pub const NPC_SPEED: u32 = 900;

/// Where a creature belongs: usually the point it was spawned at.
#[derive(Clone, Copy, Debug, PartialEq, Eq, Structural)]
pub struct Home(pub Position);

/// Marks a creature that attacks players on sight.
#[derive(Clone, Copy, Debug, PartialEq, Eq, Structural)]
pub struct Enemy;

/// Marks a creature that has left combat and walks home, out of reach of any
/// damage.
#[derive(Clone, Copy, Debug, PartialEq, Eq, Structural)]
pub struct Evading;

/// The components every new creature starts with.
#[derive(Clone, Debug, PartialEq, Eq)]
pub struct NPCBundle {
    pub npc: NPC,
    pub unit: UnitBundle,
    pub home: Home,
}

impl NPCBundle {
    /// The starting components of a creature called `name`, of kind `class`,
    /// whose home is the `position` it stands at.
    pub open spec fn spec_new(name: String, class: String, position: Position) -> NPCBundle {
        NPCBundle {
            npc: NPC,
            unit: UnitBundle {
                speed: Speed(NPC_SPEED),
                ..UnitBundle::spec_new(name, class, position)
            },
            home: Home(position),
        }
    }

    /// The starting components of a creature called `name`, of kind `class`,
    /// whose home is the `position` it stands at.
    pub fn new(name: String, class: String, position: Position) -> (bundle: Self)
        ensures
            bundle == NPCBundle::spec_new(name, class, position),
    {
        let mut npc = NPCBundle {
            npc: NPC,
            unit: UnitBundle::new(name, class, position),
            home: Home(position),
        };
        npc.unit.speed = Speed(NPC_SPEED);
        npc
    }
}

/// World units within which a hostile creature notices a player.
pub const AGGRO_RANGE: u32 = 100;

/// World units from its home below which an evading creature is home.
pub const HOME_RANGE: u32 = 1;

/// Whether `unit` is a creature on the lookout: hostile, placed in a map,
/// alive, and neither in combat nor evading.
pub open spec fn on_lookout(unit: Unit) -> bool {
    &&& unit.npc is Some
    &&& unit.enemy is Some
    &&& unit.map_instance is Some
    &&& unit.in_combat is None
    &&& unit.dead is None
    &&& unit.evading is None
}

/// Whether `creature` notices `other`: a living player of the same map
/// instance, strictly closer on the ground than the aggro range.
pub open spec fn notices(creature: Unit, other: Unit) -> bool {
    &&& other.player is Some
    &&& other.dead is None
    &&& other.map_instance == creature.map_instance
    &&& spec_planar_closer_than(creature.position, other.position, AGGRO_RANGE)
}

/// Whether the evasion rule finds `unit` home: an evading creature strictly
/// closer to its home than the home range.
pub open spec fn is_home(unit: Unit) -> bool {
    &&& unit.npc is Some
    &&& unit.evading is Some
    &&& unit.home is Some
    &&& spec_closer_than(unit.position, unit.home.unwrap().0, HOME_RANGE)
}

impl WorldView {
    /// Whether the unit at index `j` is the first in store order that the
    /// creature at index `i` notices.
    pub open spec fn first_noticed(self, i: int, j: int) -> bool {
        &&& 0 <= j < self.units.len()
        &&& notices(self.units[i], self.units[j])
        &&& forall|k: int| 0 <= k < j ==> !notices(self.units[i], #[trigger] self.units[k])
    }

    /// The player the creature at index `i` attacks on sight, if it is on the
    /// lookout and notices one.
    pub open spec fn prey(self, i: int) -> Option<Entity> {
        if on_lookout(self.units[i]) && exists|j: int| self.first_noticed(i, j) {
            Some(self.units[choose|j: int| self.first_noticed(i, j)].entity)
        } else {
            None
        }
    }

    /// Combat entry by range: every creature on the lookout that notices a
    /// player gets a threat table that holds the first one at the entry
    /// score, and goes after it.
    pub open spec fn spec_aggro_by_range_system(self) -> WorldView {
        WorldView {
            units: Seq::new(
                self.units.len(),
                |i: int|
                    match self.prey(i) {
                        Some(entity) => spec_engage(self.units[i], entity),
                        None => self.units[i],
                    },
            ),
            threats: Seq::new(
                self.threats.len(),
                |i: int|
                    if 0 <= i < self.units.len() && self.prey(i) is Some {
                        Some(
                            Map::<Entity, i32>::empty().insert(
                                self.prey(i).unwrap(),
                                AGGRO_THREAT,
                            ),
                        )
                    } else {
                        self.threats[i]
                    },
            ),
            ..self
        }
    }

    /// The way home: a creature that left combat and has a home drops its
    /// target and whom it follows, starts evading and heads home.
    pub open spec fn spec_return_to_home(self, evt: LeaveCombatEvent) -> WorldView {
        if self.has(evt.entity) && self.units[self.find(evt.entity)].npc is Some
            && self.units[self.find(evt.entity)].home is Some {
            let i = self.find(evt.entity);
            self.with_unit(i, spec_homebound(self.units[i]))
        } else {
            self
        }
    }

    /// The way home taken for each unit that left combat.
    pub open spec fn spec_return_to_home_system(self, events: Seq<LeaveCombatEvent>) -> WorldView
        decreases events.len(),
    {
        if events.len() == 0 {
            self
        } else {
            self.spec_return_to_home_system(events.drop_last()).spec_return_to_home(events.last())
        }
    }

    /// The end of evasion: every evading creature that is home stops
    /// evading.
    pub open spec fn spec_npc_evaded_system(self) -> WorldView {
        WorldView {
            units: Seq::new(
                self.units.len(),
                |i: int|
                    if is_home(self.units[i]) {
                        Unit { evading: None, ..self.units[i] }
                    } else {
                        self.units[i]
                    },
            ),
            ..self
        }
    }
}

impl World {
    /// Sends the creature of `evt` home.
    pub fn return_to_home(&mut self, evt: &LeaveCombatEvent)
        requires
            old(self)@.wf(),
        ensures
            final(self)@.wf(),
            final(self)@ =~= old(self)@.spec_return_to_home(*evt),
    {
        match self.index_of(evt.entity) {
            Some(i) => {
                if self.units[i].npc.is_some() {
                    if let Some(spawn_point) = self.units[i].home {
                        self.units[i].target = None;
                        self.units[i].follow = None;
                        self.units[i].evading = Some(Evading);
                        self.units[i].destination = Some(MoveDestination(spawn_point.0));
                        proof {
                            lemma_same_population(old(self)@, self@);
                        }
                    }
                }
            },
            None => {},
        }
    }

    /// Sends every creature home that left combat.
    pub fn return_to_home_system(&mut self, events: &Vec<LeaveCombatEvent>)
        requires
            old(self)@.wf(),
        ensures
            final(self)@.wf(),
            final(self)@ == old(self)@.spec_return_to_home_system(events@),
    {
        let mut i: usize = 0;
        while i < events.len()
            invariant
                i <= events.len(),
                self@.wf(),
                self@ == old(self)@.spec_return_to_home_system(events@.take(i as int)),
            decreases events.len() - i,
        {
            proof {
                assert(events@.take(i + 1).drop_last() == events@.take(i as int));
            }
            self.return_to_home(&events[i]);
            i += 1;
        }
        proof {
            assert(events@.take(i as int) == events@);
        }
    }

    /// Ends the evasion of every creature that is home.
    pub fn npc_evaded_system(&mut self)
        requires
            old(self)@.wf(),
        ensures
            final(self)@.wf(),
            final(self)@ =~= old(self)@.spec_npc_evaded_system(),
    {
        let mut i: usize = 0;
        while i < self.units.len()
            invariant
                i <= self.units.len(),
                old(self)@.wf(),
                self.units@.len() == old(self).units@.len(),
                self.threats == old(self).threats,
                self.maps == old(self).maps,
                self.network == old(self).network,
                self.recovery == old(self).recovery,
                self.next_entity == old(self).next_entity,
                self.profile == old(self).profile,
                forall|k: int|
                    0 <= k < i ==> #[trigger] self.units@[k] == old(
                        self,
                    )@.spec_npc_evaded_system().units[k],
                forall|k: int|
                    i <= k < self.units@.len() ==> #[trigger] self.units@[k] == old(self).units@[k],
            decreases self.units.len() - i,
        {
            if self.units[i].npc.is_some() && self.units[i].evading.is_some() {
                if let Some(home) = self.units[i].home {
                    if self.units[i].position.closer_than(&home.0, HOME_RANGE) {
                        self.units[i].evading = None;
                    }
                }
            }
            i += 1;
        }
        proof {
            lemma_same_population(old(self)@, self@);
        }
    }

    /// The first unit in store order that the creature at index `i` notices.
    pub(crate) fn first_noticed_by(&self, i: usize) -> (found: Option<usize>)
        requires
            i < self.units@.len(),
        ensures
            found is Some <==> exists|j: int| self@.first_noticed(i as int, j),
            found is Some ==> self@.first_noticed(i as int, found.unwrap() as int),
    {
        let mut j: usize = 0;
        while j < self.units.len()
            invariant
                j <= self.units.len(),
                i < self.units@.len(),
                forall|k: int|
                    0 <= k < j ==> !notices(self.units@[i as int], #[trigger] self.units@[k]),
            decreases self.units.len() - j,
        {
            if self.units[j].player.is_some() && self.units[j].dead.is_none() && same_instance(
                &self.units[j],
                &self.units[i],
            ) && self.units[i].position.planar_closer_than(&self.units[j].position, AGGRO_RANGE) {
                assert(self@.first_noticed(i as int, j as int));
                return Some(j);
            }
            j += 1;
        }
        None
    }

    /// Pulls every creature on the lookout into combat against the first
    /// player it notices.
    pub fn aggro_by_range_system(&mut self)
        requires
            old(self)@.wf(),
        ensures
            final(self)@.wf(),
            final(self)@ =~= old(self)@.spec_aggro_by_range_system(),
    {
        let mut i: usize = 0;
        while i < self.units.len()
            invariant
                i <= self.units.len(),
                old(self)@.wf(),
                self.units@.len() == old(self).units@.len(),
                self.threats@.len() == old(self).threats@.len(),
                self.maps == old(self).maps,
                self.network == old(self).network,
                self.recovery == old(self).recovery,
                self.next_entity == old(self).next_entity,
                self.profile == old(self).profile,
                forall|k: int|
                    0 <= k < self.units@.len() ==> #[trigger] self.units@[k] == (Unit {
                        in_combat: self.units@[k].in_combat,
                        target: self.units@[k].target,
                        follow: self.units@[k].follow,
                        changes: self.units@[k].changes,
                        ..old(self).units@[k]
                    }),
                forall|k: int|
                    0 <= k < i ==> #[trigger] self.units@[k] == old(
                        self,
                    )@.spec_aggro_by_range_system().units[k],
                forall|k: int|
                    0 <= k < i ==> table_view(#[trigger] self.threats@[k]) == old(
                        self,
                    )@.spec_aggro_by_range_system().threats[k],
                forall|k: int|
                    i <= k < self.units@.len() ==> #[trigger] self.units@[k] == old(self).units@[k],
                forall|k: int|
                    i <= k < self.units@.len() ==> #[trigger] self.threats@[k] == old(
                        self,
                    ).threats@[k],
            decreases self.units.len() - i,
        {
            if self.units[i].npc.is_some() && self.units[i].enemy.is_some()
                && self.units[i].map_instance.is_some() && self.units[i].in_combat.is_none()
                && self.units[i].dead.is_none() && self.units[i].evading.is_none() {
                let found = self.first_noticed_by(i);
                proof {
                    let w = old(self)@;
                    assert forall|j: int| self@.first_noticed(i as int, j) == w.first_noticed(
                        i as int,
                        j,
                    ) by {
                        if 0 <= j < w.units.len() {
                            assert(notices(self.units@[i as int], self.units@[j]) == notices(
                                w.units[i as int],
                                w.units[j],
                            ));
                            if self@.first_noticed(i as int, j) {
                                assert forall|k: int| 0 <= k < j implies !notices(
                                    w.units[i as int],
                                    #[trigger] w.units[k],
                                ) by {
                                    assert(!notices(self.units@[i as int], self.units@[k]));
                                }
                            }
                            if w.first_noticed(i as int, j) {
                                assert forall|k: int| 0 <= k < j implies !notices(
                                    self.units@[i as int],
                                    #[trigger] self.units@[k],
                                ) by {
                                    assert(!notices(w.units[i as int], w.units[k]));
                                }
                            }
                        }
                    }
                }
                if let Some(j) = found {
                    proof {
                        let w = old(self)@;
                        let c = choose|c: int| w.first_noticed(i as int, c);
                        assert(w.first_noticed(i as int, j as int));
                        if c < j {
                            assert(!notices(w.units[i as int], w.units[c]));
                        }
                        if j < c {
                            assert(!notices(w.units[i as int], w.units[j as int]));
                        }
                    }
                    let target: Entity = self.units[j].entity;
                    let mut threat = Threat::new();
                    threat.add(target, AGGRO_THREAT);
                    self.threats[i] = Some(threat);
                    self.units[i].target = Some(Target(target));
                    self.units[i].in_combat = Some(InCombat);
                    self.units[i].follow = Some(Follow(target));
                    self.units[i].changes.threat = true;
                    self.units[i].changes.entered_combat = true;
                }
            }
            i += 1;
        }
        proof {
            lemma_same_population(old(self)@, self@);
        }
    }
}

/// Combat entry by range keeps the threat invariant: whoever it pulls into
/// combat gets a table that holds its prey.
pub proof fn lemma_aggro_by_range_keeps_combat(w: WorldView)
    requires
        w.wf(),
        w.combat_consistent(),
    ensures
        w.spec_aggro_by_range_system().combat_consistent(),
{
    let after = w.spec_aggro_by_range_system();
    assert forall|i: int| 0 <= i < after.units.len() && 0 <= i < after.threats.len() implies ((
    #[trigger] after.units[i]).in_combat is Some <==> after.threats[i] is Some
        && after.threats[i].unwrap() != Map::<Entity, i32>::empty()) by {
        if w.prey(i) is Some {
            assert(after.threats[i].unwrap().contains_key(w.prey(i).unwrap()));
        } else {
            assert(w.units[i].in_combat is Some <==> w.threats[i] is Some && w.threats[i].unwrap()
                != Map::<Entity, i32>::empty());
        }
    }
}

/// The aggro range is an open ball: a creature notices a living player of
/// its map instance exactly when the player is strictly closer on the
/// ground than the aggro range.  One that stands at the range exactly, in
/// line with the creature, goes unnoticed; one that stands a hundredth of a
/// world unit closer is noticed.
pub proof fn lemma_aggro_range_boundary(creature: Unit, player: Unit)
    requires
        player.player is Some,
        player.dead is None,
        player.map_instance == creature.map_instance,
        player.position.y == creature.position.y,
    ensures
        notices(creature, player) <==> spec_gap(creature.position.x, player.position.x)
            < AGGRO_RANGE * UNIT,
        spec_gap(creature.position.x, player.position.x) == 100_000 ==> !notices(creature, player),
        spec_gap(creature.position.x, player.position.x) == 99_990 ==> notices(creature, player),
{
    let gap = spec_gap(creature.position.x, player.position.x);
    let level = spec_gap(creature.position.y, player.position.y);
    let range: nat = 100_000;
    assert(range == AGGRO_RANGE * UNIT);
    assert(spec_range_squared(AGGRO_RANGE) == range * range);
    assert(level == 0);
    assert(level * level == 0);
    assert(spec_planar_distance_squared(creature.position, player.position) == gap * gap);
    assert(gap < range <==> gap * gap < range * range) by (nonlinear_arith);
    assert(notices(creature, player) <==> gap * gap < range * range);
}

} // verus!
