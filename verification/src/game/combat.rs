//! Combat: who attacks whom, what damage does, and how threat keeps units in
//! combat.

use vstd::prelude::*;
use crate::components::{Dead, Entity, Health, InCombat, spec_highest, spec_score, Target, Threat};
use crate::game::npc::Evading;
use crate::game::unit::{AttackSpeed, Changes, DeathEvent, Follow, MoveDestination, Unit};
use crate::game::world::{lemma_same_population, table_view, World, WorldView};
use crate::math::{
    saturating_difference, saturating_sum, spec_farther_than, spec_saturating_difference,
    spec_saturating_sum,
};

verus! {

/// World units within which an auto-attack lands.
pub const COMBAT_RANGE: u32 = 20;

/// The leash: world units an attacker may be away from a creature's home
/// before the creature gives up on it.
pub const MAX_DISTANCE: u32 = 300;

/// The score an attacker starts with when it pulls a creature into combat.
pub const AGGRO_THREAT: i32 = 100;

/// The damage of one auto-attack.
pub const AUTO_ATTACK_DAMAGE: i32 = 1;

/// `origin` deals `damage` to `receiver`.
#[derive(Clone, Copy, Debug, PartialEq, Eq, Structural)]
pub struct DoDamageEvent {
    pub origin: Entity,
    pub receiver: Entity,
    pub damage: i32,
}

impl DoDamageEvent {
    /// The event that `origin` deals `damage` to `receiver`.
    pub fn new(origin: Entity, receiver: Entity, damage: i32) -> (event: Self)
        ensures
            event == (DoDamageEvent { origin, receiver, damage }),
    {
        DoDamageEvent { origin, receiver, damage }
    }
}

/// A unit went from being in combat to not being in combat.
#[derive(Clone, Copy, Debug, PartialEq, Eq, Structural)]
pub struct LeaveCombatEvent {
    pub entity: Entity,
}

/// `unit` with its health taken down by `damage`.
pub open spec fn spec_hurt(unit: Unit, damage: i32) -> Unit {
    Unit {
        health: Health(spec_saturating_difference(unit.health.0, damage)),
        changes: Changes { health: true, ..unit.changes },
        ..unit
    }
}

/// `unit` as it enters combat against `origin`.
pub open spec fn spec_engage(unit: Unit, origin: Entity) -> Unit {
    Unit {
        in_combat: Some(InCombat),
        target: Some(Target(origin)),
        follow: Some(Follow(origin)),
        changes: Changes { threat: true, entered_combat: true, ..unit.changes },
        ..unit
    }
}

/// `unit` as found dead.
pub open spec fn spec_slain(unit: Unit) -> Unit {
    Unit { dead: Some(Dead), ..unit }
}

/// Whether the death rule applies to `unit`: its health is gone and it is
/// not marked dead yet.
pub open spec fn dies(unit: Unit) -> bool {
    unit.health.0 <= 0 && unit.dead is None
}

/// The death event of `unit`, where it dies.
pub open spec fn death_event(unit: Unit) -> Option<DeathEvent> {
    if dies(unit) {
        Some(DeathEvent { entity: unit.entity })
    } else {
        None
    }
}

/// `death_event` as a function value.
pub open spec fn death_event_fn() -> spec_fn(Unit) -> Option<DeathEvent> {
    |unit: Unit| death_event(unit)
}

/// The entity `unit` is after, if any.
pub open spec fn incumbent(unit: Unit) -> Option<Entity> {
    match unit.target {
        Some(target) => Some(target.0),
        None => None,
    }
}

/// `unit` with its attack cooldown advanced by `delta` nanoseconds.
pub open spec fn spec_cooled(unit: Unit, delta: u64) -> Unit {
    Unit { attack_speed: AttackSpeed(unit.attack_speed.0.spec_tick(delta)), ..unit }
}

/// `unit` as it goes after `entity`.
pub open spec fn spec_pursuing(unit: Unit, entity: Entity) -> Unit {
    Unit { target: Some(Target(entity)), follow: Some(Follow(entity)), ..unit }
}

/// `unit` as it turns home after combat.
pub open spec fn spec_homebound(unit: Unit) -> Unit {
    Unit {
        target: None,
        follow: None,
        evading: Some(Evading),
        destination: Some(MoveDestination(unit.home.unwrap().0)),
        ..unit
    }
}

/// The indices `0 .. n`.
pub open spec fn indices(n: nat) -> Seq<int> {
    Seq::new(n, |i: int| i)
}

/// Whether one of the first `n` of `events` is the death of `entity`.
pub open spec fn died_among(events: Seq<DeathEvent>, n: int, entity: Entity) -> bool {
    exists|k: int| 0 <= k < n && k < events.len() && (#[trigger] events[k]).entity == entity
}

/// Whether one of `events` is the death of `entity`.
pub open spec fn died(events: Seq<DeathEvent>, entity: Entity) -> bool {
    died_among(events, events.len() as int, entity)
}

/// `table` without those who died among the first `n` of `events`: every
/// other entry stays, with its score.
pub open spec fn spec_bereft(table: Map<Entity, i32>, events: Seq<DeathEvent>, n: int) -> Map<
    Entity,
    i32,
> {
    Map::new(
        |attacker: Entity| table.contains_key(attacker) && !died_among(events, n, attacker),
        |attacker: Entity| table[attacker],
    )
}

/// Takes those who died out of `table`, and tells whether there was one.
pub fn forget_dead(table: &mut Threat, events: &Vec<DeathEvent>) -> (removed: bool)
    ensures
        final(table)@ == spec_bereft(old(table)@, events@, events@.len() as int),
        removed == (final(table)@ != old(table)@),
{
    let ghost start = table@;
    let mut removed = false;
    let mut k: usize = 0;
    proof {
        assert(table@ =~= spec_bereft(start, events@, 0));
    }
    while k < events.len()
        invariant
            k <= events.len(),
            start == old(table)@,
            table@ == spec_bereft(start, events@, k as int),
            removed == exists|j: int|
                0 <= j < k && start.contains_key((#[trigger] events@[j]).entity),
        decreases events.len() - k,
    {
        let died_entity: Entity = events[k].entity;
        if table.contains(died_entity) {
            table.remove(died_entity);
            removed = true;
            proof {
                assert(start.contains_key(events@[k as int].entity));
            }
        } else {
            proof {
                if start.contains_key(died_entity) {
                    assert(died_among(events@, k as int, died_entity));
                    let j = choose|j: int|
                        0 <= j < k && j < events@.len() && (#[trigger] events@[j]).entity
                            == died_entity;
                    assert(start.contains_key(events@[j].entity));
                }
            }
        }
        proof {
            let goal = spec_bereft(start, events@, k + 1);
            assert forall|attacker: Entity| table@.contains_key(attacker) <==> goal.contains_key(
                attacker,
            ) by {
                if died_among(events@, k + 1, attacker) {
                    let j = choose|j: int|
                        0 <= j < k + 1 && j < events@.len() && (#[trigger] events@[j]).entity
                            == attacker;
                    if j < k {
                        assert(died_among(events@, k as int, attacker));
                    }
                }
                if died_among(events@, k as int, attacker) {
                    let j = choose|j: int|
                        0 <= j < k && j < events@.len() && (#[trigger] events@[j]).entity
                            == attacker;
                    assert(events@[j].entity == attacker);
                    assert(died_among(events@, k + 1, attacker));
                }
                if attacker == died_entity {
                    assert(events@[k as int].entity == attacker);
                    assert(died_among(events@, k + 1, attacker));
                }
            }
            assert(table@ =~= goal);
        }
        k += 1;
    }
    proof {
        if removed {
            let j = choose|j: int|
                0 <= j < k && start.contains_key((#[trigger] events@[j]).entity);
            assert(died_among(events@, events@.len() as int, events@[j].entity));
            assert(!table@.contains_key(events@[j].entity));
        } else {
            assert forall|attacker: Entity| start.contains_key(attacker) implies table@.contains_key(
                attacker,
            ) by {
                if died_among(events@, events@.len() as int, attacker) {
                    let j = choose|j: int|
                        0 <= j < events@.len() && j < events@.len() && (
                        #[trigger] events@[j]).entity == attacker;
                    assert(start.contains_key(events@[j].entity));
                }
            }
            assert(table@ =~= start);
        }
    }
    removed
}

impl WorldView {
    /// Whether the unit `unit` of this world may auto-attack: it is in
    /// combat and alive, and its target is a unit that is alive.
    pub open spec fn can_attack(self, unit: Unit) -> bool {
        &&& unit.in_combat is Some
        &&& unit.dead is None
        &&& unit.target is Some
        &&& self.has(unit.target.unwrap().0)
        &&& self.units[self.find(unit.target.unwrap().0)].dead is None
    }

    /// The auto-attack of `unit` in a tick of `delta` nanoseconds: one damage
    /// event against its target, if it may attack, its cooldown runs out in
    /// this tick and the target is within combat range.
    pub open spec fn strike(self, unit: Unit, delta: u64) -> Option<DoDamageEvent> {
        if self.can_attack(unit) && unit.attack_speed.0.spec_tick(delta).just_finished
            && !spec_farther_than(
            unit.position,
            self.units[self.find(unit.target.unwrap().0)].position,
            COMBAT_RANGE,
        ) {
            Some(
                DoDamageEvent {
                    origin: unit.entity,
                    receiver: unit.target.unwrap().0,
                    damage: AUTO_ATTACK_DAMAGE,
                },
            )
        } else {
            None
        }
    }

    /// `strike` as a function value.
    pub open spec fn strike_fn(self, delta: u64) -> spec_fn(Unit) -> Option<DoDamageEvent> {
        |unit: Unit| self.strike(unit, delta)
    }

    /// The auto-attacks of a tick: one event for each unit that strikes, in
    /// store order.
    pub open spec fn spec_auto_attack_events(self, delta: u64) -> Seq<DoDamageEvent> {
        self.units.filter_map(self.strike_fn(delta))
    }

    /// The world after the auto-attacks of a tick: the cooldown of every unit
    /// that may attack has advanced, in range or not.
    pub open spec fn spec_auto_attack_system(self, delta: u64) -> WorldView {
        WorldView {
            units: Seq::new(
                self.units.len(),
                |i: int|
                    if self.can_attack(self.units[i]) {
                        spec_cooled(self.units[i], delta)
                    } else {
                        self.units[i]
                    },
            ),
            ..self
        }
    }

    /// The threat table at index `i` without those who died.
    pub open spec fn spec_without_dead(self, i: int, events: Seq<DeathEvent>) -> Option<
        Map<Entity, i32>,
    > {
        match self.threats[i] {
            Some(table) => Some(spec_bereft(table, events, events.len() as int)),
            None => None,
        }
    }

    /// The dead leave the threat tables: every table loses those who died
    /// and keeps every other entry with its score; a unit whose table lost
    /// one is marked for replication.
    pub open spec fn spec_remove_dead_from_threat(self, events: Seq<DeathEvent>) -> WorldView {
        WorldView {
            units: Seq::new(
                self.units.len(),
                |i: int|
                    if self.spec_without_dead(i, events) != self.threats[i] {
                        Unit {
                            changes: Changes { threat: true, ..self.units[i].changes },
                            ..self.units[i]
                        }
                    } else {
                        self.units[i]
                    },
            ),
            threats: Seq::new(self.threats.len(), |i: int| self.spec_without_dead(i, events)),
            ..self
        }
    }

    /// Whether the unit at index `i` has to forget `attacker`: the attacker
    /// is no unit any more, or dead, or in another map instance, or farther
    /// from the unit's home than the leash allows.
    pub open spec fn stale(self, i: int, attacker: Entity) -> bool {
        ||| !self.has(attacker)
        ||| self.units[self.find(attacker)].dead is Some
        ||| self.units[self.find(attacker)].map_instance != self.units[i].map_instance
        ||| self.units[i].home is Some && spec_farther_than(
            self.units[self.find(attacker)].position,
            self.units[i].home.unwrap().0,
            MAX_DISTANCE,
        )
    }

    /// The threat table at index `i` without the attackers to forget.
    pub open spec fn spec_decayed(self, i: int) -> Option<Map<Entity, i32>> {
        match self.threats[i] {
            Some(table) => Some(
                Map::new(
                    |attacker: Entity| table.contains_key(attacker) && !self.stale(i, attacker),
                    |attacker: Entity| table[attacker],
                ),
            ),
            None => None,
        }
    }

    /// Threat removal: every table loses the attackers to forget; a unit
    /// whose table lost one is marked for replication.
    pub open spec fn spec_remove_unreachable_targets_from_threat(self) -> WorldView {
        WorldView {
            units: Seq::new(
                self.units.len(),
                |i: int|
                    if self.spec_decayed(i) != self.threats[i] {
                        Unit {
                            changes: Changes { threat: true, ..self.units[i].changes },
                            ..self.units[i]
                        }
                    } else {
                        self.units[i]
                    },
            ),
            threats: Seq::new(self.threats.len(), |i: int| self.spec_decayed(i)),
            ..self
        }
    }

    /// The attacker the unit at index `i` turns to, if it is a creature in
    /// combat that has one with a score above zero.
    pub open spec fn pick(self, i: int) -> Option<Entity> {
        if self.units[i].npc is Some && self.units[i].in_combat is Some && self.threats[i] is Some {
            spec_highest(self.threats[i].unwrap(), incumbent(self.units[i]))
        } else {
            None
        }
    }

    /// Target selection: every creature in combat targets and follows the
    /// attacker with the highest threat.
    pub open spec fn spec_target_and_follow_highest_threat(self) -> WorldView {
        WorldView {
            units: Seq::new(
                self.units.len(),
                |i: int|
                    match self.pick(i) {
                        Some(entity) => spec_pursuing(self.units[i], entity),
                        None => self.units[i],
                    },
            ),
            ..self
        }
    }

    /// Whether the unit at index `i` leaves combat: it is in combat, and its
    /// threat table is empty or it is dead.
    pub open spec fn leaves(self, i: int) -> bool {
        &&& self.units[i].in_combat is Some
        &&& self.threats[i] is Some
        &&& self.threats[i].unwrap() == Map::<Entity, i32>::empty() || self.units[i].dead is Some
    }

    /// The event for the unit at index `i`, where it leaves combat.
    pub open spec fn leave_event(self, i: int) -> Option<LeaveCombatEvent> {
        if 0 <= i < self.units.len() && self.leaves(i) {
            Some(LeaveCombatEvent { entity: self.units[i].entity })
        } else {
            None
        }
    }

    /// `leave_event` as a function value.
    pub open spec fn leave_event_fn(self) -> spec_fn(int) -> Option<LeaveCombatEvent> {
        |i: int| self.leave_event(i)
    }

    /// The events of combat exit: one for each unit that leaves combat, in
    /// store order.
    pub open spec fn spec_leave_combat_events(self) -> Seq<LeaveCombatEvent> {
        indices(self.units.len()).filter_map(self.leave_event_fn())
    }

    /// Combat exit: every unit that leaves combat loses its mark and its
    /// threat table.
    pub open spec fn spec_leave_combat(self) -> WorldView {
        WorldView {
            units: Seq::new(
                self.units.len(),
                |i: int|
                    if self.leaves(i) {
                        Unit { in_combat: None, ..self.units[i] }
                    } else {
                        self.units[i]
                    },
            ),
            threats: Seq::new(
                self.threats.len(),
                |i: int|
                    if 0 <= i < self.units.len() && self.leaves(i) {
                        None
                    } else {
                        self.threats[i]
                    },
            ),
            ..self
        }
    }

    /// Damage application: the receiver's health goes down by the damage,
    /// unless there is no such unit or it is evading.
    pub open spec fn spec_do_damage(self, evt: DoDamageEvent) -> WorldView {
        if self.has(evt.receiver) && self.units[self.find(evt.receiver)].evading is None {
            let r = self.find(evt.receiver);
            self.with_unit(r, spec_hurt(self.units[r], evt.damage))
        } else {
            self
        }
    }

    /// Whether `evt` adds to the threat table of its receiver: the receiver
    /// is a creature in combat.
    pub open spec fn adds_threat(self, evt: DoDamageEvent) -> bool {
        &&& self.has(evt.receiver)
        &&& self.units[self.find(evt.receiver)].npc is Some
        &&& self.units[self.find(evt.receiver)].in_combat is Some
        &&& self.threats[self.find(evt.receiver)] is Some
    }

    /// Threat accumulation: a creature in combat holds the damage against its
    /// origin.
    pub open spec fn spec_increase_threat_on_damage(self, evt: DoDamageEvent) -> WorldView {
        if self.adds_threat(evt) {
            let r = self.find(evt.receiver);
            let table = self.threats[r].unwrap();
            let unit = self.units[r];
            self.with_threat(
                r,
                Some(
                    table.insert(
                        evt.origin,
                        spec_saturating_sum(spec_score(table, evt.origin), evt.damage),
                    ),
                ),
            ).with_unit(r, Unit { changes: Changes { threat: true, ..unit.changes }, ..unit })
        } else {
            self
        }
    }

    /// Whether `evt` pulls its receiver into combat: the receiver is a
    /// creature that is alive, not in combat and not evading.
    pub open spec fn pulls(self, evt: DoDamageEvent) -> bool {
        &&& self.has(evt.receiver)
        &&& self.units[self.find(evt.receiver)].npc is Some
        &&& self.units[self.find(evt.receiver)].in_combat is None
        &&& self.units[self.find(evt.receiver)].dead is None
        &&& self.units[self.find(evt.receiver)].evading is None
    }

    /// Combat entry by damage: the creature gets a fresh threat table that
    /// holds the origin at the entry score plus the damage, and goes after
    /// the origin.
    pub open spec fn spec_aggro_by_damage(self, evt: DoDamageEvent) -> WorldView {
        if self.pulls(evt) {
            let r = self.find(evt.receiver);
            self.with_threat(
                r,
                Some(
                    Map::<Entity, i32>::empty().insert(
                        evt.origin,
                        spec_saturating_sum(AGGRO_THREAT, evt.damage),
                    ),
                ),
            ).with_unit(r, spec_engage(self.units[r], evt.origin))
        } else {
            self
        }
    }

    /// A unit without a target takes whoever damages it as its target.
    pub open spec fn spec_target_on_damage(self, evt: DoDamageEvent) -> WorldView {
        if self.has(evt.receiver) && self.units[self.find(evt.receiver)].target is None {
            let r = self.find(evt.receiver);
            self.with_unit(r, Unit { target: Some(Target(evt.origin)), ..self.units[r] })
        } else {
            self
        }
    }

    /// Everything one damage event does, in order: damage, threat for a
    /// creature in combat, combat entry for one that is not, target.
    pub open spec fn spec_on_damage(self, evt: DoDamageEvent) -> WorldView {
        self.spec_do_damage(evt).spec_increase_threat_on_damage(evt).spec_aggro_by_damage(
            evt,
        ).spec_target_on_damage(evt)
    }

    /// The damage events of a tick resolved one after the other.
    pub open spec fn spec_damage_system(self, events: Seq<DoDamageEvent>) -> WorldView
        decreases events.len(),
    {
        if events.len() == 0 {
            self
        } else {
            self.spec_damage_system(events.drop_last()).spec_on_damage(events.last())
        }
    }

    /// Death detection: every unit whose health is gone and that is not
    /// marked dead yet is marked dead.
    pub open spec fn spec_death_system(self) -> WorldView {
        WorldView {
            units: Seq::new(
                self.units.len(),
                |i: int|
                    if dies(self.units[i]) {
                        spec_slain(self.units[i])
                    } else {
                        self.units[i]
                    },
            ),
            ..self
        }
    }

    /// The death events of death detection: one for each unit that dies, in
    /// store order.
    pub open spec fn spec_death_events(self) -> Seq<DeathEvent> {
        self.units.filter_map(death_event_fn())
    }
}

impl World {
    /// Applies the damage of `evt` to its receiver.
    pub fn do_damage(&mut self, evt: &DoDamageEvent)
        requires
            old(self)@.wf(),
        ensures
            final(self)@.wf(),
            final(self)@ =~= old(self)@.spec_do_damage(*evt),
    {
        match self.index_of(evt.receiver) {
            Some(r) => {
                if self.units[r].evading.is_none() {
                    let health: i32 = self.units[r].health.0;
                    self.units[r].health = Health(saturating_difference(health, evt.damage));
                    self.units[r].changes.health = true;
                    proof {
                        lemma_same_population(old(self)@, self@);
                    }
                }
            },
            None => {},
        }
    }

    /// Adds the damage of `evt` to the threat its origin has with the
    /// receiver, where the receiver is a creature in combat.
    pub fn increase_threat_on_damage(&mut self, evt: &DoDamageEvent)
        requires
            old(self)@.wf(),
        ensures
            final(self)@.wf(),
            final(self)@ =~= old(self)@.spec_increase_threat_on_damage(*evt),
    {
        match self.index_of(evt.receiver) {
            Some(r) => {
                if self.units[r].npc.is_some() && self.units[r].in_combat.is_some() {
                    match &mut self.threats[r] {
                        Some(table) => {
                            table.add(evt.origin, evt.damage);
                        },
                        None => {},
                    }
                    self.units[r].changes.threat = true;
                    proof {
                        lemma_same_population(old(self)@, self@);
                    }
                }
            },
            None => {},
        }
    }

    /// Pulls the receiver of `evt` into combat against its origin, where the
    /// receiver is a creature that is alive, not in combat and not evading.
    pub fn aggro_by_damage(&mut self, evt: &DoDamageEvent)
        requires
            old(self)@.wf(),
        ensures
            final(self)@.wf(),
            final(self)@ =~= old(self)@.spec_aggro_by_damage(*evt),
    {
        match self.index_of(evt.receiver) {
            Some(r) => {
                if self.units[r].npc.is_some() && self.units[r].in_combat.is_none()
                    && self.units[r].dead.is_none() && self.units[r].evading.is_none() {
                    let mut table = Threat::new();
                    table.add(evt.origin, saturating_sum(AGGRO_THREAT, evt.damage));
                    self.threats[r] = Some(table);
                    self.units[r].in_combat = Some(InCombat);
                    self.units[r].follow = Some(Follow(evt.origin));
                    self.units[r].target = Some(Target(evt.origin));
                    self.units[r].changes.threat = true;
                    self.units[r].changes.entered_combat = true;
                    proof {
                        lemma_same_population(old(self)@, self@);
                    }
                }
            },
            None => {},
        }
    }

    /// Makes the origin of `evt` the target of its receiver, where the
    /// receiver has none.
    pub fn target_on_damage(&mut self, evt: &DoDamageEvent)
        requires
            old(self)@.wf(),
        ensures
            final(self)@.wf(),
            final(self)@ =~= old(self)@.spec_target_on_damage(*evt),
    {
        match self.index_of(evt.receiver) {
            Some(r) => {
                if self.units[r].target.is_none() {
                    self.units[r].target = Some(Target(evt.origin));
                    proof {
                        lemma_same_population(old(self)@, self@);
                    }
                }
            },
            None => {},
        }
    }

    /// Resolves the damage events of a tick, one after the other.
    pub fn do_damage_system(&mut self, events: &Vec<DoDamageEvent>)
        requires
            old(self)@.wf(),
        ensures
            final(self)@.wf(),
            final(self)@ == old(self)@.spec_damage_system(events@),
    {
        let mut i: usize = 0;
        while i < events.len()
            invariant
                i <= events.len(),
                self@.wf(),
                self@ == old(self)@.spec_damage_system(events@.take(i as int)),
            decreases events.len() - i,
        {
            proof {
                assert(events@.take(i + 1).drop_last() == events@.take(i as int));
            }
            self.do_damage(&events[i]);
            self.increase_threat_on_damage(&events[i]);
            self.aggro_by_damage(&events[i]);
            self.target_on_damage(&events[i]);
            i += 1;
        }
        proof {
            assert(events@.take(i as int) == events@);
        }
    }

    /// Marks every unit dead whose health is gone, and reports each once.
    pub fn death_system(&mut self) -> (events: Vec<DeathEvent>)
        requires
            old(self)@.wf(),
        ensures
            final(self)@.wf(),
            final(self)@ =~= old(self)@.spec_death_system(),
            events@ == old(self)@.spec_death_events(),
    {
        let mut events: Vec<DeathEvent> = Vec::new();
        let mut i: usize = 0;
        while i < self.units.len()
            invariant
                i <= self.units.len(),
                old(self)@.wf(),
                self.units@.len() == old(self).units@.len(),
                self.threats == old(self).threats,
                self.maps == old(self).maps,
                self.network == old(self).network,
                self.recovery == old(self).recovery,
                self.next_entity == old(self).next_entity,
                self.profile == old(self).profile,
                forall|k: int|
                    0 <= k < i ==> #[trigger] self.units@[k] == old(self)@.spec_death_system().units[k],
                forall|k: int|
                    i <= k < self.units@.len() ==> #[trigger] self.units@[k] == old(self).units@[k],
                events@ == old(self).units@.take(i as int).filter_map(death_event_fn()),
            decreases self.units.len() - i,
        {
            proof {
                old(self).units@.lemma_filter_map_take_succ(death_event_fn(), i as int);
            }
            if self.units[i].health.0 <= 0 && self.units[i].dead.is_none() {
                self.units[i].dead = Some(Dead);
                events.push(DeathEvent { entity: self.units[i].entity });
            }
            i += 1;
        }
        proof {
            assert(old(self).units@.take(i as int) == old(self).units@);
            lemma_same_population(old(self)@, self@);
        }
        events
    }

    /// Lets every unit that may attack strike its target: the cooldown
    /// advances by `delta` nanoseconds, and where it runs out with the target
    /// in range a damage event comes out.
    pub fn auto_attack_system(&mut self, delta: u64) -> (events: Vec<DoDamageEvent>)
        requires
            old(self)@.wf(),
        ensures
            final(self)@.wf(),
            final(self)@ =~= old(self)@.spec_auto_attack_system(delta),
            events@ == old(self)@.spec_auto_attack_events(delta),
    {
        let mut events: Vec<DoDamageEvent> = Vec::new();
        let mut i: usize = 0;
        while i < self.units.len()
            invariant
                i <= self.units.len(),
                old(self)@.wf(),
                self@.wf(),
                self@.ids() == old(self)@.ids(),
                self.units@.len() == old(self).units@.len(),
                self.threats == old(self).threats,
                self.maps == old(self).maps,
                self.network == old(self).network,
                self.recovery == old(self).recovery,
                self.next_entity == old(self).next_entity,
                self.profile == old(self).profile,
                forall|k: int|
                    0 <= k < i ==> #[trigger] self.units@[k] == old(
                        self,
                    )@.spec_auto_attack_system(delta).units[k],
                forall|k: int|
                    i <= k < self.units@.len() ==> #[trigger] self.units@[k] == old(self).units@[k],
                events@ == old(self).units@.take(i as int).filter_map(
                    old(self)@.strike_fn(delta),
                ),
            decreases self.units.len() - i,
        {
            proof {
                old(self).units@.lemma_filter_map_take_succ(
                    old(self)@.strike_fn(delta),
                    i as int,
                );
            }
            if self.units[i].in_combat.is_some() && self.units[i].dead.is_none() {
                if let Some(target) = self.units[i].target {
                    if let Some(t) = self.index_of(target.0) {
                        if self.units[t].dead.is_none() {
                            let enemy_position = self.units[t].position;
                            self.units[i].attack_speed.0.tick(delta);
                            if self.units[i].attack_speed.0.just_finished()
                                && !self.units[i].position.farther_than(
                                &enemy_position,
                                COMBAT_RANGE,
                            ) {
                                events.push(
                                    DoDamageEvent::new(
                                        self.units[i].entity,
                                        target.0,
                                        AUTO_ATTACK_DAMAGE,
                                    ),
                                );
                            }
                            proof {
                                lemma_same_population(old(self)@, self@);
                            }
                        }
                    }
                }
            }
            i += 1;
        }
        proof {
            assert(old(self).units@.take(i as int) == old(self).units@);
        }
        events
    }

    /// Whether the unit at index `i` has to forget `attacker`.
    pub(crate) fn is_stale(&self, i: usize, attacker: Entity) -> (stale: bool)
        requires
            self@.wf(),
            i < self.units@.len(),
        ensures
            stale == self@.stale(i as int, attacker),
    {
        match self.index_of(attacker) {
            None => true,
            Some(a) => {
                if self.units[a].dead.is_some() {
                    true
                } else if !same_instance(&self.units[a], &self.units[i]) {
                    true
                } else {
                    match self.units[i].home {
                        Some(home) => self.units[a].position.farther_than(&home.0, MAX_DISTANCE),
                        None => false,
                    }
                }
            },
        }
    }

    /// Takes those who died out of every threat table.
    pub fn remove_dead_from_threat(&mut self, died: &Vec<DeathEvent>)
        requires
            old(self)@.wf(),
        ensures
            final(self)@.wf(),
            final(self)@ =~= old(self)@.spec_remove_dead_from_threat(died@),
    {
        let mut i: usize = 0;
        while i < self.units.len()
            invariant
                i <= self.units.len(),
                old(self)@.wf(),
                self.units@.len() == old(self).units@.len(),
                self.threats@.len() == old(self).threats@.len(),
                self.maps == old(self).maps,
                self.network == old(self).network,
                self.recovery == old(self).recovery,
                self.next_entity == old(self).next_entity,
                self.profile == old(self).profile,
                forall|k: int|
                    0 <= k < i ==> #[trigger] self.units@[k] == old(
                        self,
                    )@.spec_remove_dead_from_threat(died@).units[k],
                forall|k: int|
                    0 <= k < i ==> table_view(#[trigger] self.threats@[k]) == old(
                        self,
                    )@.spec_without_dead(k, died@),
                forall|k: int|
                    i <= k < self.units@.len() ==> #[trigger] self.units@[k] == old(self).units@[k],
                forall|k: int|
                    i <= k < self.units@.len() ==> #[trigger] self.threats@[k] == old(
                        self,
                    ).threats@[k],
            decreases self.units.len() - i,
        {
            let removed: bool = match &mut self.threats[i] {
                Some(table) => forget_dead(table, died),
                None => false,
            };
            if removed {
                self.units[i].changes.threat = true;
            }
            i += 1;
        }
        proof {
            lemma_same_population(old(self)@, self@);
        }
    }

    /// Removes from every threat table the attackers that are gone, dead, in
    /// another map instance or beyond the leash.
    pub fn remove_unreachable_targets_from_threat(&mut self)
        requires
            old(self)@.wf(),
        ensures
            final(self)@.wf(),
            final(self)@ =~= old(self)@.spec_remove_unreachable_targets_from_threat(),
    {
        let mut i: usize = 0;
        while i < self.units.len()
            invariant
                i <= self.units.len(),
                old(self)@.wf(),
                self@.wf(),
                self@.ids() == old(self)@.ids(),
                self.units@.len() == old(self).units@.len(),
                self.threats@.len() == old(self).threats@.len(),
                self.maps == old(self).maps,
                self.network == old(self).network,
                self.recovery == old(self).recovery,
                self.next_entity == old(self).next_entity,
                self.profile == old(self).profile,
                forall|k: int|
                    0 <= k < self.units@.len() ==> #[trigger] self.units@[k] == (Unit {
                        changes: self.units@[k].changes,
                        ..old(self).units@[k]
                    }),
                forall|k: int|
                    0 <= k < i ==> #[trigger] self.units@[k] == old(
                        self,
                    )@.spec_remove_unreachable_targets_from_threat().units[k],
                forall|k: int|
                    0 <= k < i ==> table_view(#[trigger] self.threats@[k]) == old(
                        self,
                    )@.spec_decayed(k),
                forall|k: int|
                    i <= k < self.units@.len() ==> #[trigger] self.units@[k] == old(self).units@[k],
                forall|k: int|
                    i <= k < self.units@.len() ==> #[trigger] self.threats@[k] == old(
                        self,
                    ).threats@[k],
            decreases self.units.len() - i,
        {
            let removed = self.decay_table(i, Ghost(old(self)@));
            if removed {
                self.units[i].changes.threat = true;
            }
            proof {
                lemma_same_population(old(self)@, self@);
            }
            i += 1;
        }
    }

    /// Takes the attackers to forget out of the threat table at index `i`,
    /// and tells whether there was one.
    fn decay_table(&mut self, i: usize, Ghost(start): Ghost<WorldView>) -> (removed: bool)
        requires
            old(self)@.wf(),
            start.wf(),
            i < old(self).units@.len(),
            start.units.len() == old(self).units@.len(),
            start.ids() == old(self)@.ids(),
            forall|k: int|
                0 <= k < start.units.len() ==> #[trigger] old(self).units@[k] == (Unit {
                    changes: old(self).units@[k].changes,
                    ..start.units[k]
                }),
            table_view(old(self).threats@[i as int]) == start.threats[i as int],
        ensures
            final(self).units == old(self).units,
            final(self).maps == old(self).maps,
            final(self).network == old(self).network,
            final(self).recovery == old(self).recovery,
            final(self).next_entity == old(self).next_entity,
            final(self).profile == old(self).profile,
            final(self).threats@.len() == old(self).threats@.len(),
            forall|k: int|
                0 <= k < old(self).threats@.len() && k != i ==> #[trigger] final(self).threats@[k]
                    == old(self).threats@[k],
            table_view(final(self).threats@[i as int]) == start.spec_decayed(i as int),
            removed == (start.spec_decayed(i as int) != start.threats[i as int]),
    {
        let pairs: Vec<(Entity, i32)> = match &self.threats[i] {
            Some(table) => table.entries(),
            None => {
                return false;
            },
        };
        let ghost table = start.threats[i as int].unwrap();
        let mut removed = false;
        let mut k: usize = 0;
        while k < pairs.len()
            invariant
                k <= pairs.len(),
                i < self.units@.len(),
                old(self)@.wf(),
                self@.wf(),
                start.wf(),
                self.units == old(self).units,
                self.maps == old(self).maps,
                self.network == old(self).network,
                self.recovery == old(self).recovery,
                self.next_entity == old(self).next_entity,
                self.profile == old(self).profile,
                self.threats@.len() == old(self).threats@.len(),
                start.units.len() == self.units@.len(),
                start.ids() == self@.ids(),
                forall|j: int|
                    0 <= j < start.units.len() ==> #[trigger] self.units@[j] == (Unit {
                        changes: self.units@[j].changes,
                        ..start.units[j]
                    }),
                forall|j: int|
                    0 <= j < old(self).threats@.len() && j != i ==> #[trigger] self.threats@[j]
                        == old(self).threats@[j],
                start.threats[i as int] == Some(table),
                forall|a: int, b: int| 0 <= a < b < pairs@.len() ==> pairs@[a].0 != pairs@[b].0,
                forall|j: int|
                    0 <= j < pairs@.len() ==> table.contains_key(#[trigger] pairs@[j].0),
                forall|entity: Entity| #[trigger]
                    table.contains_key(entity) ==> exists|j: int|
                        0 <= j < pairs@.len() && pairs@[j].0 == entity,
                self.threats@[i as int] is Some,
                forall|entity: Entity|
                    self.threats@[i as int].unwrap()@.contains_key(entity) <==> table.contains_key(
                        entity,
                    ) && !(start.stale(i as int, entity) && exists|j: int|
                        0 <= j < k && pairs@[j].0 == entity),
                forall|entity: Entity|
                    self.threats@[i as int].unwrap()@.contains_key(entity)
                        ==> self.threats@[i as int].unwrap()@[entity] == table[entity],
                removed == exists|j: int| 0 <= j < k && start.stale(i as int, pairs@[j].0),
            decreases pairs.len() - k,
        {
            let attacker: Entity = pairs[k].0;
            let stale = self.is_stale(i, attacker);
            assert(stale == start.stale(i as int, attacker));
            if stale {
                match &mut self.threats[i] {
                    Some(live) => {
                        live.remove(attacker);
                    },
                    None => {},
                }
                removed = true;
            }
            proof {
                let now = self.threats@[i as int].unwrap()@;
                assert forall|entity: Entity|
                    now.contains_key(entity) <==> table.contains_key(entity) && !(start.stale(
                        i as int,
                        entity,
                    ) && exists|j: int| 0 <= j < k + 1 && pairs@[j].0 == entity) by {
                    if entity == attacker {
                        assert(pairs@[k as int].0 == entity);
                    } else {
                        if exists|j: int| 0 <= j < k + 1 && pairs@[j].0 == entity {
                            let j = choose|j: int| 0 <= j < k + 1 && pairs@[j].0 == entity;
                            assert(j < k);
                        }
                    }
                }
                if stale {
                    assert(start.stale(i as int, pairs@[k as int].0));
                } else {
                    if exists|j: int| 0 <= j < k + 1 && start.stale(i as int, pairs@[j].0) {
                        let j = choose|j: int|
                            0 <= j < k + 1 && start.stale(i as int, pairs@[j].0);
                        assert(j < k);
                    }
                }
                lemma_same_population(old(self)@, self@);
            }
            k += 1;
        }
        proof {
            let now = self.threats@[i as int].unwrap()@;
            let goal = start.spec_decayed(i as int).unwrap();
            assert forall|entity: Entity| now.contains_key(entity) <==> goal.contains_key(
                entity,
            ) by {
                if table.contains_key(entity) {
                    let j = choose|j: int| 0 <= j < pairs@.len() && pairs@[j].0 == entity;
                    assert(pairs@[j].0 == entity);
                }
            }
            assert(now =~= goal);
            if removed {
                let j = choose|j: int| 0 <= j < k && start.stale(i as int, pairs@[j].0);
                assert(table.contains_key(pairs@[j].0));
                assert(!goal.contains_key(pairs@[j].0));
            } else {
                assert forall|entity: Entity| table.contains_key(entity) implies goal.contains_key(
                    entity,
                ) by {
                    let j = choose|j: int| 0 <= j < pairs@.len() && pairs@[j].0 == entity;
                    assert(!start.stale(i as int, pairs@[j].0));
                }
                assert(goal =~= table);
            }
        }
        removed
    }

    /// Makes every creature in combat target and follow the attacker with
    /// the highest threat.
    pub fn target_and_follow_highest_threat(&mut self)
        requires
            old(self)@.wf(),
        ensures
            final(self)@.wf(),
            final(self)@ =~= old(self)@.spec_target_and_follow_highest_threat(),
    {
        let mut i: usize = 0;
        while i < self.units.len()
            invariant
                i <= self.units.len(),
                old(self)@.wf(),
                self.units@.len() == old(self).units@.len(),
                self.threats == old(self).threats,
                self.maps == old(self).maps,
                self.network == old(self).network,
                self.recovery == old(self).recovery,
                self.next_entity == old(self).next_entity,
                self.profile == old(self).profile,
                forall|k: int|
                    0 <= k < i ==> #[trigger] self.units@[k] == old(
                        self,
                    )@.spec_target_and_follow_highest_threat().units[k],
                forall|k: int|
                    i <= k < self.units@.len() ==> #[trigger] self.units@[k] == old(self).units@[k],
            decreases self.units.len() - i,
        {
            if self.units[i].npc.is_some() && self.units[i].in_combat.is_some() {
                let now: Option<Entity> = match self.units[i].target {
                    Some(target) => Some(target.0),
                    None => None,
                };
                let chosen: Option<Entity> = match &self.threats[i] {
                    Some(table) => table.highest(now),
                    None => None,
                };
                if let Some(highest_threat_entity) = chosen {
                    self.units[i].target = Some(Target(highest_threat_entity));
                    self.units[i].follow = Some(Follow(highest_threat_entity));
                }
            }
            i += 1;
        }
        proof {
            lemma_same_population(old(self)@, self@);
        }
    }

    /// Takes every unit out of combat whose threat table is empty or that is
    /// dead, and reports each once.
    pub fn leave_combat(&mut self) -> (events: Vec<LeaveCombatEvent>)
        requires
            old(self)@.wf(),
        ensures
            final(self)@.wf(),
            final(self)@ =~= old(self)@.spec_leave_combat(),
            events@ == old(self)@.spec_leave_combat_events(),
    {
        let mut events: Vec<LeaveCombatEvent> = Vec::new();
        let mut i: usize = 0;
        while i < self.units.len()
            invariant
                i <= self.units.len(),
                old(self)@.wf(),
                self.units@.len() == old(self).units@.len(),
                self.threats@.len() == old(self).threats@.len(),
                self.maps == old(self).maps,
                self.network == old(self).network,
                self.recovery == old(self).recovery,
                self.next_entity == old(self).next_entity,
                self.profile == old(self).profile,
                forall|k: int|
                    0 <= k < i ==> #[trigger] self.units@[k] == old(
                        self,
                    )@.spec_leave_combat().units[k],
                forall|k: int|
                    0 <= k < i ==> table_view(#[trigger] self.threats@[k]) == old(
                        self,
                    )@.spec_leave_combat().threats[k],
                forall|k: int|
                    i <= k < self.units@.len() ==> #[trigger] self.units@[k] == old(self).units@[k],
                forall|k: int|
                    i <= k < self.units@.len() ==> #[trigger] self.threats@[k] == old(
                        self,
                    ).threats@[k],
                events@ == indices(old(self).units@.len()).take(i as int).filter_map(
                    old(self)@.leave_event_fn(),
                ),
            decreases self.units.len() - i,
        {
            proof {
                indices(old(self).units@.len()).lemma_filter_map_take_succ(
                    old(self)@.leave_event_fn(),
                    i as int,
                );
            }
            if self.units[i].in_combat.is_some() {
                let over: bool = self.units[i].dead.is_some() || match &self.threats[i] {
                    Some(table) => table.is_empty(),
                    None => false,
                };
                if over {
                    self.units[i].in_combat = None;
                    self.threats[i] = None;
                    events.push(LeaveCombatEvent { entity: self.units[i].entity });
                }
            }
            i += 1;
        }
        proof {
            assert(indices(old(self).units@.len()).take(i as int) == indices(
                old(self).units@.len(),
            ));
            lemma_same_population(old(self)@, self@);
        }
        events
    }
}

/// `b` differs from `a` in nothing that combat goes by: every unit is in
/// combat in both or in neither, and the threat tables are the same.
pub open spec fn same_combat(a: WorldView, b: WorldView) -> bool {
    &&& b.units.len() == a.units.len()
    &&& b.threats == a.threats
    &&& forall|i: int|
        0 <= i < a.units.len() ==> (#[trigger] b.units[i]).in_combat == a.units[i].in_combat
}

/// The threat invariant goes by nothing but the combat marks and the threat
/// tables.
pub proof fn lemma_same_combat(a: WorldView, b: WorldView)
    requires
        a.combat_consistent(),
        same_combat(a, b),
    ensures
        b.combat_consistent(),
{
    assert forall|i: int| 0 <= i < b.units.len() && 0 <= i < b.threats.len() implies ((
    #[trigger] b.units[i]).in_combat is Some <==> b.threats[i] is Some && b.threats[i].unwrap()
        != Map::<Entity, i32>::empty()) by {
        assert(a.units[i].in_combat is Some <==> a.threats[i] is Some && a.threats[i].unwrap()
            != Map::<Entity, i32>::empty());
    }
}

/// A sequence none of whose elements gives anything gives nothing.
pub proof fn lemma_filter_map_none<A, B>(s: Seq<A>, f: spec_fn(A) -> Option<B>)
    requires
        forall|i: int| 0 <= i < s.len() ==> f(#[trigger] s[i]) is None,
    ensures
        s.filter_map(f) == Seq::<B>::empty(),
    decreases s.len(),
{
    if s.len() > 0 {
        assert forall|i: int| 0 <= i < s.drop_last().len() implies f(
            #[trigger] s.drop_last()[i],
        ) is None by {
            assert(s.drop_last()[i] == s[i]);
        }
        lemma_filter_map_none(s.drop_last(), f);
    }
}

/// Combat exit restores the threat invariant: afterwards a unit is in combat
/// exactly when it carries a threat table that is not empty, and no unit in
/// combat is dead.
pub proof fn lemma_leave_combat_consistent(w: WorldView)
    requires
        w.wf(),
    ensures
        w.spec_leave_combat().combat_consistent(),
        forall|i: int|
            0 <= i < w.units.len() && (#[trigger] w.spec_leave_combat().units[i]).in_combat is Some
                ==> w.spec_leave_combat().units[i].dead is None,
{
}

/// Combat exit is idempotent: a second pass right after the first finds no
/// unit to take out of combat, emits no event and changes nothing.
pub proof fn lemma_leave_combat_idempotent(w: WorldView)
    requires
        w.wf(),
    ensures
        w.spec_leave_combat().spec_leave_combat() == w.spec_leave_combat(),
        w.spec_leave_combat().spec_leave_combat_events() == Seq::<LeaveCombatEvent>::empty(),
{
    let once = w.spec_leave_combat();
    assert(once.spec_leave_combat() =~= once);
    lemma_filter_map_none(indices(once.units.len()), once.leave_event_fn());
}

/// A unit that is not in combat does not leave combat: taking it out again
/// emits no event for it.
pub proof fn lemma_leave_combat_needs_combat(w: WorldView, i: int)
    requires
        0 <= i < w.units.len(),
        w.units[i].in_combat is None,
    ensures
        w.leave_event(i) is None,
        w.spec_leave_combat().units[i] == w.units[i],
{
}

/// Death is marked once: right after death detection, death detection finds
/// nobody who dies.
pub proof fn lemma_death_once(w: WorldView)
    ensures
        w.spec_death_system().spec_death_events() == Seq::<DeathEvent>::empty(),
        w.spec_death_system().spec_death_system() == w.spec_death_system(),
{
    let after = w.spec_death_system();
    lemma_filter_map_none(after.units, death_event_fn());
    assert(after.spec_death_system() =~= after);
}

/// The dead do not auto-attack.
pub proof fn lemma_dead_never_attack(w: WorldView, unit: Unit, delta: u64)
    requires
        unit.dead is Some,
    ensures
        w.strike(unit, delta) is None,
        !w.can_attack(unit),
{
}

/// The dead leave every threat table and nothing else does: after those
/// who died were taken out, no table holds one of them, every other entry
/// of every table is there with the score it had, and no table has gained
/// one.
pub proof fn lemma_dead_leave_every_table(w: WorldView, events: Seq<DeathEvent>, i: int)
    requires
        0 <= i < w.threats.len(),
        w.threats[i] is Some,
    ensures
        w.spec_remove_dead_from_threat(events).threats[i] is Some,
        forall|attacker: Entity|
            died(events, attacker) ==> !w.spec_remove_dead_from_threat(
                events,
            ).threats[i].unwrap().contains_key(attacker),
        forall|attacker: Entity|
            !died(events, attacker) ==> (w.spec_remove_dead_from_threat(
                events,
            ).threats[i].unwrap().contains_key(attacker) <==> w.threats[i].unwrap().contains_key(
                attacker,
            )),
        forall|attacker: Entity|
            w.spec_remove_dead_from_threat(events).threats[i].unwrap().contains_key(attacker)
                ==> w.spec_remove_dead_from_threat(events).threats[i].unwrap()[attacker]
                == w.threats[i].unwrap()[attacker],
{
}

/// Every unit that death detection marks is among those who died: the
/// death events name exactly the units that were marked.
pub proof fn lemma_death_events_name_the_dead(w: WorldView, i: int)
    requires
        0 <= i < w.units.len(),
    ensures
        dies(w.units[i]) ==> died(w.spec_death_events(), w.units[i].entity),
{
    if dies(w.units[i]) {
        lemma_filter_map_has(w.units, death_event_fn(), i);
        let events = w.spec_death_events();
        let k = choose|k: int|
            0 <= k < events.len() && events[k] == death_event_fn()(w.units[i]).unwrap();
        assert(events[k].entity == w.units[i].entity);
    }
}

/// What an element of a sequence gives is among what the sequence gives.
pub proof fn lemma_filter_map_has<A, B>(s: Seq<A>, f: spec_fn(A) -> Option<B>, i: int)
    requires
        0 <= i < s.len(),
        f(s[i]) is Some,
    ensures
        exists|k: int| 0 <= k < s.filter_map(f).len() && s.filter_map(f)[k] == f(s[i]).unwrap(),
    decreases s.len(),
{
    let front = s.drop_last();
    let all = s.filter_map(f);
    if i == s.len() - 1 {
        assert(all == front.filter_map(f) + seq![f(s[i]).unwrap()]);
        assert(all[all.len() - 1] == f(s[i]).unwrap());
    } else {
        assert(front[i] == s[i]);
        lemma_filter_map_has(front, f, i);
        let k = choose|k: int|
            0 <= k < front.filter_map(f).len() && front.filter_map(f)[k] == f(s[i]).unwrap();
        assert(all[k] == front.filter_map(f)[k]);
    }
}

/// Threat removal forgets the dead: afterwards no threat table holds an
/// attacker that is dead.
pub proof fn lemma_dead_forgotten(w: WorldView, i: int, attacker: Entity)
    requires
        w.wf(),
        0 <= i < w.units.len(),
        w.has(attacker),
        w.units[w.find(attacker)].dead is Some,
    ensures
        w.spec_remove_unreachable_targets_from_threat().threats[i] is Some
            ==> !w.spec_remove_unreachable_targets_from_threat().threats[i].unwrap().contains_key(
            attacker,
        ),
{
}

/// The leash: threat removal forgets every attacker that is farther from
/// the home of a creature than the leash allows.  Where that was the only
/// attacker, the table is empty afterwards.
pub proof fn lemma_leash(w: WorldView, i: int, attacker: Entity)
    requires
        w.wf(),
        0 <= i < w.units.len(),
        w.threats[i] is Some,
        w.units[i].home is Some,
        w.has(attacker),
        spec_farther_than(
            w.units[w.find(attacker)].position,
            w.units[i].home.unwrap().0,
            MAX_DISTANCE,
        ),
    ensures
        w.spec_remove_unreachable_targets_from_threat().threats[i] is Some,
        !w.spec_remove_unreachable_targets_from_threat().threats[i].unwrap().contains_key(
            attacker,
        ),
        w.threats[i].unwrap().dom() =~= set![attacker]
            ==> w.spec_remove_unreachable_targets_from_threat().threats[i].unwrap()
            == Map::<Entity, i32>::empty(),
{
    let after = w.spec_remove_unreachable_targets_from_threat().threats[i].unwrap();
    if w.threats[i].unwrap().dom() =~= set![attacker] {
        assert(after =~= Map::<Entity, i32>::empty());
    }
}

/// Damage pulls a creature into combat: a creature that is alive, out of
/// combat and not evading takes the damage, gets a threat table that holds
/// the origin at the entry score plus the damage and nothing else, and
/// targets and follows the origin.
pub proof fn lemma_damage_triggers_combat(w: WorldView, evt: DoDamageEvent)
    requires
        w.wf(),
        w.pulls(evt),
    ensures
        ({
            let after = w.spec_on_damage(evt);
            let r = w.find(evt.receiver);
            &&& after.units[r].health == Health(
                spec_saturating_difference(w.units[r].health.0, evt.damage),
            )
            &&& after.units[r].in_combat is Some
            &&& after.threats[r] == Some(
                Map::<Entity, i32>::empty().insert(
                    evt.origin,
                    spec_saturating_sum(AGGRO_THREAT, evt.damage),
                ),
            )
            &&& after.units[r].target == Some(Target(evt.origin))
            &&& after.units[r].follow == Some(Follow(evt.origin))
        }),
{
    let hurt = w.spec_do_damage(evt);
    let r = w.find(evt.receiver);
    assert(hurt.ids() =~= w.ids());
    assert(hurt.spec_increase_threat_on_damage(evt) == hurt);
    let pulled = hurt.spec_aggro_by_damage(evt);
    assert(pulled.ids() =~= w.ids());
    assert(pulled.spec_target_on_damage(evt).ids() =~= w.ids());
}

/// The way home goes by nothing that combat goes by.
pub proof fn lemma_return_to_home_keeps_combat(w: WorldView, events: Seq<LeaveCombatEvent>)
    requires
        w.wf(),
        w.combat_consistent(),
    ensures
        w.spec_return_to_home_system(events).wf(),
        w.spec_return_to_home_system(events).combat_consistent(),
        same_combat(w, w.spec_return_to_home_system(events)),
    decreases events.len(),
{
    if events.len() > 0 {
        lemma_return_to_home_keeps_combat(w, events.drop_last());
        let before = w.spec_return_to_home_system(events.drop_last());
        let after = before.spec_return_to_home(events.last());
        assert(same_combat(before, after));
        assert(before.same_population(after));
        lemma_same_population(before, after);
        lemma_same_combat(w, after);
    }
}

/// Whether two units are children of the same map instance, or both of none.
pub fn same_instance(a: &Unit, b: &Unit) -> (same: bool)
    ensures
        same == (a.map_instance == b.map_instance),
{
    match (a.map_instance, b.map_instance) {
        (Some(x), Some(y)) => x.0 == y.0,
        (None, None) => true,
        _ => false,
    }
}

} // verus!
