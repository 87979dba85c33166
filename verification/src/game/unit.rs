//! What players and creatures have in common.

use vstd::prelude::*;
use crate::components::{
    Dead, Entity, Health, InCombat, Interactable, Mana, MaxHealth, MaxMana, Saying, Target,
};
use crate::game::actions::spell::Casting;
use crate::game::interactions::Portal;
use crate::game::map::MapInstanceEntity;
use crate::game::npc::{Enemy, Evading, Home};
use crate::game::player::{Charmed, LoggingOut};
use crate::game::scripts::Script;
use crate::game::scripts::follower::Follower;
use crate::game::thinkers::Thinker;
use crate::game::world::{lemma_same_population, World, WorldView};
use crate::math::{Position, spec_closer_than, spec_step_toward};
use crate::network::NetworkClientId;
use crate::shared_components::{Name, NPC, Player};
use crate::time::{Timer, TimerMode};

verus! {

/// Sub-units a unit on foot covers in one tick, unless told otherwise.
pub const DEFAULT_SPEED: u32 = 1000;

/// Health and mana a unit starts with.
pub const STARTING_VITALS: i32 = 5;

/// Nanoseconds between two auto-attacks.
pub const ATTACK_PERIOD: u64 = 1_000_000_000;

/// Nanoseconds between two recoveries of health.
pub const RECOVERY_PERIOD: u64 = 2_000_000_000;

/// A point the movement rule takes the unit to.
#[derive(Clone, Copy, Debug, PartialEq, Eq, Structural)]
pub struct MoveDestination(pub Position);

/// Makes a unit go after another one.
#[derive(Clone, Copy, Debug, PartialEq, Eq, Structural)]
pub struct Follow(pub Entity);

/// Sub-units covered per tick on foot.
#[derive(Clone, Copy, Debug, PartialEq, Eq, Structural)]
pub struct Speed(pub u32);

impl Default for Speed {
    fn default() -> (speed: Self)
        ensures
            speed == Speed(DEFAULT_SPEED),
    {
        Speed(DEFAULT_SPEED)
    }
}

/// The side a unit is on.
#[derive(Clone, Debug, PartialEq, Eq)]
pub struct Faction(pub String);

/// The cooldown between two auto-attacks.
#[derive(Clone, Copy, Debug, PartialEq, Eq, Structural)]
pub struct AttackSpeed(pub Timer);

/// The timer that paces the recovery of health out of combat.
#[derive(Clone, Copy, Debug, PartialEq, Eq, Structural)]
pub struct HealthRecoveryTimer(pub Timer);

/// A unit was found dead.
#[derive(Clone, Copy, Debug, PartialEq, Eq, Structural)]
pub struct DeathEvent {
    pub entity: Entity,
}

/// Which replicated components of a unit were touched since the last
/// replication pass.
#[derive(Clone, Copy, Debug, PartialEq, Eq, Structural)]
pub struct Changes {
    pub position: bool,
    pub health: bool,
    pub mana: bool,
    pub threat: bool,
    pub map_instance: bool,
    pub entered_combat: bool,
}

impl Changes {
    /// Nothing touched.
    pub open spec fn spec_none() -> Changes {
        Changes {
            position: false,
            health: false,
            mana: false,
            threat: false,
            map_instance: false,
            entered_combat: false,
        }
    }

    /// Nothing touched.
    pub fn none() -> (changes: Changes)
        ensures
            changes == Changes::spec_none(),
    {
        Changes {
            position: false,
            health: false,
            mana: false,
            threat: false,
            map_instance: false,
            entered_combat: false,
        }
    }
}

/// The components every new unit starts with.
#[derive(Clone, Debug, PartialEq, Eq)]
pub struct UnitBundle {
    pub name: Name,
    pub class: String,
    pub speed: Speed,
    pub health: Health,
    pub max_health: MaxHealth,
    pub mana: Mana,
    pub max_mana: MaxMana,
    pub attack_speed: AttackSpeed,
    pub position: Position,
}

impl UnitBundle {
    /// The starting components of a unit called `name`, of kind `class`,
    /// standing at `position`: full health and mana, default speed, the
    /// attack cooldown at its start.
    pub open spec fn spec_new(name: String, class: String, position: Position) -> UnitBundle {
        UnitBundle {
            name: Name(name),
            class,
            speed: Speed(DEFAULT_SPEED),
            health: Health(STARTING_VITALS),
            max_health: MaxHealth(STARTING_VITALS),
            mana: Mana(STARTING_VITALS),
            max_mana: MaxMana(STARTING_VITALS),
            attack_speed: AttackSpeed(
                Timer {
                    elapsed: 0,
                    duration: ATTACK_PERIOD,
                    mode: TimerMode::Repeating,
                    finished: false,
                    just_finished: false,
                },
            ),
            position,
        }
    }

    /// The starting components of a unit called `name`, of kind `class`,
    /// standing at `position`.
    pub fn new(name: String, class: String, position: Position) -> (bundle: Self)
        ensures
            bundle == UnitBundle::spec_new(name, class, position),
    {
        UnitBundle {
            name: Name(name),
            class,
            speed: Speed(DEFAULT_SPEED),
            health: Health(STARTING_VITALS),
            max_health: MaxHealth(STARTING_VITALS),
            mana: Mana(STARTING_VITALS),
            max_mana: MaxMana(STARTING_VITALS),
            attack_speed: AttackSpeed(Timer::new(ATTACK_PERIOD, TimerMode::Repeating)),
            position,
        }
    }
}

/// Any actor of the simulation, player or creature, with the components it
/// carries.  A component that can come and go is an `Option`.
#[derive(Debug)]
pub struct Unit {
    pub entity: Entity,
    pub name: Name,
    /// The kind of unit, which also names its looks.
    pub class: String,
    pub position: Position,
    pub speed: Speed,
    pub health: Health,
    pub max_health: MaxHealth,
    pub mana: Mana,
    pub max_mana: MaxMana,
    pub attack_speed: AttackSpeed,
    /// The map instance the unit is a child of.
    pub map_instance: Option<MapInstanceEntity>,
    pub target: Option<Target>,
    pub follow: Option<Follow>,
    pub destination: Option<MoveDestination>,
    pub in_combat: Option<InCombat>,
    pub dead: Option<Dead>,
    pub evading: Option<Evading>,
    pub home: Option<Home>,
    pub npc: Option<NPC>,
    pub enemy: Option<Enemy>,
    pub player: Option<Player>,
    /// The client this unit belongs to.
    pub client: Option<NetworkClientId>,
    pub charmed: Option<Charmed>,
    pub logging_out: Option<LoggingOut>,
    pub interactable: Option<Interactable>,
    pub portal: Option<Portal>,
    pub thinker: Option<Thinker>,
    pub saying: Option<Saying>,
    pub casting: Option<Casting>,
    pub script: Option<Script<Follower>>,
    pub changes: Changes,
}

impl Unit {
    /// The unit `entity` that starts with `bundle` and nothing else.
    pub open spec fn spec_from_bundle(entity: Entity, bundle: UnitBundle) -> Unit {
        Unit {
            entity,
            name: bundle.name,
            class: bundle.class,
            position: bundle.position,
            speed: bundle.speed,
            health: bundle.health,
            max_health: bundle.max_health,
            mana: bundle.mana,
            max_mana: bundle.max_mana,
            attack_speed: bundle.attack_speed,
            map_instance: None,
            target: None,
            follow: None,
            destination: None,
            in_combat: None,
            dead: None,
            evading: None,
            home: None,
            npc: None,
            enemy: None,
            player: None,
            client: None,
            charmed: None,
            logging_out: None,
            interactable: None,
            portal: None,
            thinker: None,
            saying: None,
            casting: None,
            script: None,
            changes: Changes::spec_none(),
        }
    }

    /// The unit `entity` that starts with `bundle` and nothing else.
    pub fn from_bundle(entity: Entity, bundle: UnitBundle) -> (unit: Unit)
        ensures
            unit == Unit::spec_from_bundle(entity, bundle),
    {
        Unit {
            entity,
            name: bundle.name,
            class: bundle.class,
            position: bundle.position,
            speed: bundle.speed,
            health: bundle.health,
            max_health: bundle.max_health,
            mana: bundle.mana,
            max_mana: bundle.max_mana,
            attack_speed: bundle.attack_speed,
            map_instance: None,
            target: None,
            follow: None,
            destination: None,
            in_combat: None,
            dead: None,
            evading: None,
            home: None,
            npc: None,
            enemy: None,
            player: None,
            client: None,
            charmed: None,
            logging_out: None,
            interactable: None,
            portal: None,
            thinker: None,
            saying: None,
            casting: None,
            script: None,
            changes: Changes::none(),
        }
    }
}

/// World units from its destination below which a unit has arrived.
pub const ARRIVAL_RANGE: u32 = 1;

/// Health a unit recovers each time the recovery timer runs out.
pub const RECOVERY_AMOUNT: i32 = 1;

/// Whether the movement rule finds `unit` at its destination.
pub open spec fn arrived(unit: Unit) -> bool {
    unit.destination is Some && spec_closer_than(
        unit.position,
        unit.destination.unwrap().0,
        ARRIVAL_RANGE,
    )
}

/// `unit` after one tick of movement: without its destination where it has
/// arrived, else one step closer to it.
pub open spec fn spec_moved(unit: Unit) -> Unit {
    if unit.destination is None {
        unit
    } else if arrived(unit) {
        Unit { destination: None, ..unit }
    } else {
        Unit {
            position: spec_step_toward(unit.position, unit.destination.unwrap().0, unit.speed.0),
            changes: Changes { position: true, ..unit.changes },
            ..unit
        }
    }
}

/// Whether the recovery rule applies to `unit`: it is alive, out of combat
/// and below its full health.
pub open spec fn recovers(unit: Unit) -> bool {
    unit.dead is None && unit.in_combat is None && unit.health.0 < unit.max_health.0
}

/// `unit` after a recovery of health.
pub open spec fn spec_recovered(unit: Unit) -> Unit {
    if recovers(unit) {
        Unit {
            health: Health((unit.health.0 + RECOVERY_AMOUNT) as i32),
            changes: Changes { health: true, ..unit.changes },
            ..unit
        }
    } else {
        unit
    }
}

impl WorldView {
    /// The unit at index `i` after the follow rule: its destination is where
    /// the unit it follows stands; it follows nobody where that one is gone.
    pub open spec fn spec_following(self, i: int) -> Unit {
        let unit = self.units[i];
        match unit.follow {
            None => unit,
            Some(follow) => if self.has(follow.0) {
                Unit {
                    destination: Some(MoveDestination(self.units[self.find(follow.0)].position)),
                    ..unit
                }
            } else {
                Unit { follow: None, ..unit }
            },
        }
    }

    /// The follow rule applied to every unit.
    pub open spec fn spec_follow_system(self) -> WorldView {
        WorldView {
            units: Seq::new(self.units.len(), |i: int| self.spec_following(i)),
            ..self
        }
    }

    /// The movement rule applied to every unit.
    pub open spec fn spec_movement_system(self) -> WorldView {
        WorldView {
            units: Seq::new(self.units.len(), |i: int| spec_moved(self.units[i])),
            ..self
        }
    }

    /// Recovery of health: the recovery timer advances by `delta`
    /// nanoseconds; where it runs out, the recovery rule is applied to every
    /// unit.
    pub open spec fn spec_health_recovery_system(self, delta: u64) -> WorldView {
        let timer = self.recovery_timer.spec_tick(delta);
        if timer.just_finished {
            WorldView {
                units: Seq::new(self.units.len(), |i: int| spec_recovered(self.units[i])),
                recovery_timer: timer,
                ..self
            }
        } else {
            WorldView { recovery_timer: timer, ..self }
        }
    }
}

impl World {
    /// Points every follower at the unit it follows, and frees those whose
    /// leader is gone.
    pub fn follow_system(&mut self)
        requires
            old(self)@.wf(),
        ensures
            final(self)@.wf(),
            final(self)@ =~= old(self)@.spec_follow_system(),
    {
        let mut i: usize = 0;
        while i < self.units.len()
            invariant
                i <= self.units.len(),
                old(self)@.wf(),
                self@.wf(),
                self@.ids() == old(self)@.ids(),
                self.units@.len() == old(self).units@.len(),
                self.threats == old(self).threats,
                self.maps == old(self).maps,
                self.network == old(self).network,
                self.recovery == old(self).recovery,
                self.next_entity == old(self).next_entity,
                self.profile == old(self).profile,
                forall|k: int|
                    0 <= k < i ==> #[trigger] self.units@[k] == old(self)@.spec_following(k),
                forall|k: int|
                    i <= k < self.units@.len() ==> #[trigger] self.units@[k] == old(self).units@[k],
            decreases self.units.len() - i,
        {
            if let Some(follow) = self.units[i].follow {
                match self.index_of(follow.0) {
                    Some(leader) => {
                        let position = self.units[leader].position;
                        self.units[i].destination = Some(MoveDestination(position));
                    },
                    None => {
                        self.units[i].follow = None;
                    },
                }
                proof {
                    lemma_same_population(old(self)@, self@);
                }
            }
            i += 1;
        }
    }

    /// Moves every unit that has a destination one step, and takes the
    /// destination from those that have arrived.
    pub fn movement_system(&mut self)
        requires
            old(self)@.wf(),
        ensures
            final(self)@.wf(),
            final(self)@ =~= old(self)@.spec_movement_system(),
    {
        let mut i: usize = 0;
        while i < self.units.len()
            invariant
                i <= self.units.len(),
                old(self)@.wf(),
                self.units@.len() == old(self).units@.len(),
                self.threats == old(self).threats,
                self.maps == old(self).maps,
                self.network == old(self).network,
                self.recovery == old(self).recovery,
                self.next_entity == old(self).next_entity,
                self.profile == old(self).profile,
                forall|k: int|
                    0 <= k < i ==> #[trigger] self.units@[k] == spec_moved(old(self).units@[k]),
                forall|k: int|
                    i <= k < self.units@.len() ==> #[trigger] self.units@[k] == old(self).units@[k],
            decreases self.units.len() - i,
        {
            if let Some(destination) = self.units[i].destination {
                if self.units[i].position.closer_than(&destination.0, ARRIVAL_RANGE) {
                    self.units[i].destination = None;
                } else {
                    let speed: u32 = self.units[i].speed.0;
                    let reached = self.units[i].position.step_toward(&destination.0, speed);
                    self.units[i].position = reached;
                    self.units[i].changes.position = true;
                }
            }
            i += 1;
        }
        proof {
            lemma_same_population(old(self)@, self@);
        }
    }

    /// Lets `delta` nanoseconds pass on the recovery timer and, where it runs
    /// out, gives every unit that is alive, out of combat and hurt some
    /// health back.
    pub fn health_recovery_system(&mut self, delta: u64)
        requires
            old(self)@.wf(),
        ensures
            final(self)@.wf(),
            final(self)@ =~= old(self)@.spec_health_recovery_system(delta),
    {
        self.recovery.0.tick(delta);
        if !self.recovery.0.just_finished() {
            proof {
                lemma_same_population(old(self)@, self@);
            }
            return ;
        }
        let mut i: usize = 0;
        while i < self.units.len()
            invariant
                i <= self.units.len(),
                old(self)@.wf(),
                self.units@.len() == old(self).units@.len(),
                self.threats == old(self).threats,
                self.maps == old(self).maps,
                self.network == old(self).network,
                self.recovery.0 == old(self).recovery.0.spec_tick(delta),
                self.next_entity == old(self).next_entity,
                self.profile == old(self).profile,
                forall|k: int|
                    0 <= k < i ==> #[trigger] self.units@[k] == spec_recovered(
                        old(self).units@[k],
                    ),
                forall|k: int|
                    i <= k < self.units@.len() ==> #[trigger] self.units@[k] == old(self).units@[k],
            decreases self.units.len() - i,
        {
            if self.units[i].dead.is_none() && self.units[i].in_combat.is_none()
                && self.units[i].health.0 < self.units[i].max_health.0 {
                let health: i32 = self.units[i].health.0;
                self.units[i].health = Health(health + RECOVERY_AMOUNT);
                self.units[i].changes.health = true;
            }
            i += 1;
        }
        proof {
            lemma_same_population(old(self)@, self@);
        }
    }
}

} // verus!
