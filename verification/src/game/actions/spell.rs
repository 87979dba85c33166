//! Casting a spell.

use vstd::prelude::*;
use crate::components::Entity;
use crate::game::actions::ActionState;
use crate::game::combat::DoDamageEvent;
use crate::game::map::{instance_of, spec_instance_of, Teleport};
use crate::game::unit::Unit;
use crate::game::world::{lemma_same_population, World, WorldView};
use crate::math::Position;
use crate::time::{Timer, TimerMode};

verus! {

/// Marks a unit that has begun to cast.
#[derive(Clone, Copy, Debug, PartialEq, Eq, Structural)]
pub struct Casting;

/// What a spell does.
#[derive(Clone, Debug, PartialEq, Eq)]
pub enum SpellCastType {
    /// Deals `amount` of damage at the cost of `mana`.
    Damage { amount: i32, mana: i32 },
    /// Takes the caster to a point of a map.
    Teleport { map: String, coordinates: Position },
}

/// The action of casting a spell.
#[derive(Clone, Debug, PartialEq, Eq)]
pub struct CastSpell {
    pub cast_type: SpellCastType,
    /// How long the cast takes.
    pub cast_duration: Timer,
    pub channeling: bool,
    pub force_self_target: bool,
}

/// What a spell brings about once it is cast.
#[derive(Clone, Debug, PartialEq, Eq)]
pub enum SpellEffect {
    Nothing,
    Damage(DoDamageEvent),
    Teleport(Teleport),
}

impl Default for CastSpell {
    /// A spell that does no damage, at once.
    fn default() -> (spell: Self)
        ensures
            spell.cast_type matches SpellCastType::Damage { amount, mana } && amount == 0 && mana
                == 0,
            spell.cast_duration == (Timer {
                elapsed: 0,
                duration: 0,
                mode: TimerMode::Once,
                finished: false,
                just_finished: false,
            }),
            !spell.channeling,
            !spell.force_self_target,
    {
        CastSpell {
            cast_type: SpellCastType::Damage { amount: 0, mana: 0 },
            cast_duration: Timer::new(0, TimerMode::Once),
            channeling: false,
            force_self_target: false,
        }
    }
}

impl CastSpell {
    /// Whether a step of `delta` nanoseconds from `state` completes the
    /// cast.
    pub open spec fn completes(self, state: ActionState, delta: u64) -> bool {
        state == ActionState::Executing && self.cast_duration.spec_tick(delta).finished
    }

    /// The action after a step of `delta` nanoseconds from `state`: the
    /// timer runs while the cast is under way.
    pub open spec fn spec_step(self, state: ActionState, delta: u64) -> CastSpell {
        match state {
            ActionState::Executing => CastSpell {
                cast_duration: self.cast_duration.spec_tick(delta),
                ..self
            },
            _ => self,
        }
    }

    /// Where the action stands after a step of `delta` nanoseconds from
    /// `state`.
    pub open spec fn spec_next_state(self, state: ActionState, delta: u64) -> ActionState {
        match state {
            ActionState::Requested => ActionState::Executing,
            ActionState::Executing => if self.cast_duration.spec_tick(delta).finished {
                ActionState::Success
            } else {
                ActionState::Executing
            },
            ActionState::Cancelled => ActionState::Failure,
            _ => state,
        }
    }

    /// What the spell of `caster` brings about: damage goes to the target
    /// of the caster, to the caster itself where it has none; a teleport
    /// takes the caster away from the map instance it is a child of.
    pub open spec fn spec_effect(self, caster: Unit) -> SpellEffect {
        match self.cast_type {
            SpellCastType::Damage { amount, mana } => SpellEffect::Damage(
                DoDamageEvent {
                    origin: caster.entity,
                    receiver: match caster.target {
                        Some(target) => target.0,
                        None => caster.entity,
                    },
                    damage: amount,
                },
            ),
            SpellCastType::Teleport { map, coordinates } => SpellEffect::Teleport(
                Teleport {
                    entity: caster.entity,
                    map,
                    map_instance: None,
                    prev_map_instance: spec_instance_of(caster),
                    position: coordinates,
                },
            ),
        }
    }
}

impl WorldView {
    /// The world after a step of a spell action of `actor`: a cast that is
    /// asked for marks the caster as casting.
    pub open spec fn spec_spell_action_system(self, actor: Entity, state: ActionState) -> WorldView {
        if self.has(actor) && state == ActionState::Requested {
            self.with_unit(
                self.find(actor),
                Unit { casting: Some(Casting), ..self.units[self.find(actor)] },
            )
        } else {
            self
        }
    }
}

/// What a step of a spell action gives: where the action stands, and what
/// the spell brings about in this step.
#[derive(Clone, Debug, PartialEq, Eq)]
pub struct SpellStep {
    pub state: ActionState,
    pub effect: SpellEffect,
}

impl World {
    /// Takes the spell action `spell` of `actor` one step of `delta`
    /// nanoseconds on from `state`.  An action whose actor is no unit stays
    /// as it is.
    pub fn spell_action_system(
        &mut self,
        actor: Entity,
        state: ActionState,
        spell: &mut CastSpell,
        delta: u64,
    ) -> (step: SpellStep)
        requires
            old(self)@.wf(),
        ensures
            final(self)@.wf(),
            final(self)@ =~= old(self)@.spec_spell_action_system(actor, state),
            !old(self)@.has(actor) ==> *final(spell) == *old(spell) && step.state == state
                && step.effect is Nothing,
            old(self)@.has(actor) ==> *final(spell) == old(spell).spec_step(state, delta)
                && step.state == old(spell).spec_next_state(state, delta),
            old(self)@.has(actor) && old(spell).completes(state, delta) ==> step.effect
                == old(spell).spec_effect(old(self)@.units[old(self)@.find(actor)]),
            !old(spell).completes(state, delta) ==> step.effect is Nothing,
    {
        let me: usize = match self.index_of(actor) {
            Some(me) => me,
            None => {
                return SpellStep { state, effect: SpellEffect::Nothing };
            },
        };
        match state {
            ActionState::Requested => {
                self.units[me].casting = Some(Casting);
                proof {
                    lemma_same_population(old(self)@, self@);
                }
                SpellStep { state: ActionState::Executing, effect: SpellEffect::Nothing }
            },
            ActionState::Executing => {
                spell.cast_duration.tick(delta);
                if !spell.cast_duration.finished() {
                    return SpellStep { state: ActionState::Executing, effect: SpellEffect::Nothing };
                }
                let entity = self.units[me].entity;
                let effect = match &spell.cast_type {
                    SpellCastType::Damage { amount, mana } => SpellEffect::Damage(
                        DoDamageEvent {
                            origin: entity,
                            receiver: match self.units[me].target {
                                Some(target) => target.0,
                                None => entity,
                            },
                            damage: *amount,
                        },
                    ),
                    SpellCastType::Teleport { map, coordinates } => SpellEffect::Teleport(
                        Teleport {
                            entity,
                            map: map.clone(),
                            map_instance: None,
                            prev_map_instance: instance_of(&self.units[me]),
                            position: *coordinates,
                        },
                    ),
                };
                SpellStep { state: ActionState::Success, effect }
            },
            ActionState::Cancelled => SpellStep {
                state: ActionState::Failure,
                effect: SpellEffect::Nothing,
            },
            _ => SpellStep { state, effect: SpellEffect::Nothing },
        }
    }
}

} // verus!
