//! Replication: which state reaches which clients.
//!
//! Every rule reads the world and the events of the tick and gives the
//! messages to send, each with its scope.  None of them changes the world.

use vstd::prelude::*;
use crate::components::{Entity, ThreatMap};
use crate::game::combat::{indices, LeaveCombatEvent};
use crate::game::map::{DespawnEvent, MapInstanceEntity, optional};
use crate::game::unit::{Changes, DeathEvent, Unit};
use crate::game::world::{lemma_same_population, World, WorldView};
use crate::network::{
    BroadcastScope, lemma_outbound_push, outbound, OutboundView, SendServerMessageEvent,
};
use crate::network::messages::server::{MessageView, ServerMessages, Vitals};
use crate::network::server::{recipient, SendEntityInfoEvent};

verus! {

/// World units within which a client hears what a unit says.
pub const CHAT_RANGE: u32 = 100;

/// The scope of the map instance `unit` is a child of.
pub open spec fn map_scope(unit: Unit, except: Option<Entity>) -> BroadcastScope {
    BroadcastScope::Instance { instance: unit.map_instance.unwrap().0, except }
}

/// What the others in its map instance hear of a unit that has just become
/// a child of it.
pub open spec fn spawn_message(unit: Unit) -> Option<OutboundView> {
    if unit.changes.map_instance && unit.map_instance is Some {
        Some(
            OutboundView {
                scope: map_scope(unit, Some(unit.entity)),
                message: MessageView::Spawn { entity: unit.entity },
            },
        )
    } else {
        None
    }
}

/// `spawn_message` as a function value.
pub open spec fn spawn_message_fn() -> spec_fn(Unit) -> Option<OutboundView> {
    |unit: Unit| spawn_message(unit)
}

/// What those who stay in a map instance hear of a unit that left it.
pub open spec fn despawn_message(evt: DespawnEvent) -> Option<OutboundView> {
    Some(
        OutboundView {
            scope: BroadcastScope::Instance { instance: evt.map, except: Some(evt.entity) },
            message: MessageView::Despawn { entity: evt.entity },
        },
    )
}

/// `despawn_message` as a function value.
pub open spec fn despawn_message_fn() -> spec_fn(DespawnEvent) -> Option<OutboundView> {
    |evt: DespawnEvent| despawn_message(evt)
}

/// What its map instance hears of a unit that has moved.  The client of the
/// unit itself hears it only where the server moves the unit.
pub open spec fn movement_message(unit: Unit) -> Option<OutboundView> {
    if unit.changes.position && unit.map_instance is Some {
        Some(
            OutboundView {
                scope: map_scope(
                    unit,
                    if unit.charmed is Some {
                        None
                    } else {
                        Some(unit.entity)
                    },
                ),
                message: MessageView::Move { entity: unit.entity, pos: unit.position },
            },
        )
    } else {
        None
    }
}

/// `movement_message` as a function value.
pub open spec fn movement_message_fn() -> spec_fn(Unit) -> Option<OutboundView> {
    |unit: Unit| movement_message(unit)
}

/// What its map instance hears of a unit that has entered combat.
pub open spec fn entered_combat_message(unit: Unit) -> Option<OutboundView> {
    if unit.changes.entered_combat && unit.map_instance is Some {
        Some(
            OutboundView {
                scope: map_scope(unit, None),
                message: MessageView::CombatState { entity: unit.entity, in_combat: true },
            },
        )
    } else {
        None
    }
}

/// `entered_combat_message` as a function value.
pub open spec fn entered_combat_message_fn() -> spec_fn(Unit) -> Option<OutboundView> {
    |unit: Unit| entered_combat_message(unit)
}

/// What everyone hears of a death.
pub open spec fn death_message(evt: DeathEvent) -> Option<OutboundView> {
    Some(
        OutboundView {
            scope: BroadcastScope::Global,
            message: MessageView::Vitals { entity: evt.entity, vital: Vitals::Dead(true) },
        },
    )
}

/// `death_message` as a function value.
pub open spec fn death_message_fn() -> spec_fn(DeathEvent) -> Option<OutboundView> {
    |evt: DeathEvent| death_message(evt)
}

/// What its map instance hears of the health of a unit, where it changed.
pub open spec fn health_message(unit: Unit) -> Option<OutboundView> {
    if unit.changes.health && unit.map_instance is Some {
        Some(
            OutboundView {
                scope: map_scope(unit, None),
                message: MessageView::Vitals {
                    entity: unit.entity,
                    vital: Vitals::Health(unit.health.0),
                },
            },
        )
    } else {
        None
    }
}

/// What its map instance hears of the mana of a unit, where it changed.
pub open spec fn mana_message(unit: Unit) -> Option<OutboundView> {
    if unit.changes.mana && unit.map_instance is Some {
        Some(
            OutboundView {
                scope: map_scope(unit, None),
                message: MessageView::Vitals { entity: unit.entity, vital: Vitals::Mana(unit.mana.0) },
            },
        )
    } else {
        None
    }
}

/// The vitals that changed, unit by unit in store order, health before mana.
pub open spec fn spec_send_vitals_changed(units: Seq<Unit>) -> Seq<OutboundView>
    decreases units.len(),
{
    if units.len() == 0 {
        Seq::empty()
    } else {
        spec_send_vitals_changed(units.drop_last()) + optional(health_message(units.last()))
            + optional(mana_message(units.last()))
    }
}

/// What the clients near a unit hear of what it says.
pub open spec fn chat_message(unit: Unit) -> Option<OutboundView> {
    if unit.saying is Some && unit.map_instance is Some {
        Some(
            OutboundView {
                scope: BroadcastScope::Nearby {
                    instance: unit.map_instance.unwrap().0,
                    point: unit.position,
                    range: CHAT_RANGE,
                },
                message: MessageView::Saying { entity: unit.entity, msg: unit.saying.unwrap().0@ },
            },
        )
    } else {
        None
    }
}

/// `chat_message` as a function value.
pub open spec fn chat_message_fn() -> spec_fn(Unit) -> Option<OutboundView> {
    |unit: Unit| chat_message(unit)
}

/// A child of the map instance `instance` other than `except`.
pub open spec fn occupant(unit: Unit, instance: Entity, except: Entity) -> Option<Entity> {
    if unit.map_instance == Some(MapInstanceEntity(instance)) && unit.entity != except {
        Some(unit.entity)
    } else {
        None
    }
}

/// `occupant` as a function value.
pub open spec fn occupant_fn(instance: Entity, except: Entity) -> spec_fn(Unit) -> Option<Entity> {
    |unit: Unit| occupant(unit, instance, except)
}

impl WorldView {
    /// The children of the map instance `instance` other than `except`, in
    /// store order.
    pub open spec fn spec_occupants(self, instance: Entity, except: Entity) -> Seq<Entity> {
        self.units.filter_map(occupant_fn(instance, except))
    }

    /// What the client of a player hears when the player has just become a
    /// child of a live map instance: who else is there.
    pub open spec fn entity_list_message(self, unit: Unit) -> Option<OutboundView> {
        if unit.player is Some && unit.client is Some && unit.changes.map_instance
            && unit.map_instance is Some && self.has_instance(unit.map_instance.unwrap().0) {
            Some(
                OutboundView {
                    scope: BroadcastScope::Direct { client_id: unit.client.unwrap().0 },
                    message: MessageView::EntityList {
                        entities: self.spec_occupants(unit.map_instance.unwrap().0, unit.entity),
                    },
                },
            )
        } else {
            None
        }
    }

    /// `entity_list_message` as a function value.
    pub open spec fn entity_list_message_fn(self) -> spec_fn(Unit) -> Option<OutboundView> {
        |unit: Unit| self.entity_list_message(unit)
    }

    /// What its map instance hears of the threat table of the creature at
    /// index `i`, where the table changed.
    pub open spec fn threat_message(self, i: int) -> Option<OutboundView> {
        if 0 <= i < self.units.len() && self.units[i].npc is Some && self.units[i].changes.threat
            && self.threats[i] is Some && self.units[i].map_instance is Some {
            Some(
                OutboundView {
                    scope: map_scope(self.units[i], None),
                    message: MessageView::Threat {
                        entity: self.units[i].entity,
                        threat: self.threats[i].unwrap(),
                    },
                },
            )
        } else {
            None
        }
    }

    /// `threat_message` as a function value.
    pub open spec fn threat_message_fn(self) -> spec_fn(int) -> Option<OutboundView> {
        |i: int| self.threat_message(i)
    }

    /// What its map instance hears of a unit that left combat.
    pub open spec fn exit_combat_message(self, evt: LeaveCombatEvent) -> Option<OutboundView> {
        if self.has(evt.entity) && self.units[self.find(evt.entity)].map_instance is Some {
            Some(
                OutboundView {
                    scope: map_scope(self.units[self.find(evt.entity)], None),
                    message: MessageView::CombatState { entity: evt.entity, in_combat: false },
                },
            )
        } else {
            None
        }
    }

    /// `exit_combat_message` as a function value.
    pub open spec fn exit_combat_message_fn(self) -> spec_fn(LeaveCombatEvent) -> Option<
        OutboundView,
    > {
        |evt: LeaveCombatEvent| self.exit_combat_message(evt)
    }

    /// The answer to a client that asked for the details of an entity:
    /// everything there is to show of the unit; for an entity that is no
    /// unit, that it is gone.
    pub open spec fn entity_info_message(self, evt: SendEntityInfoEvent) -> Option<OutboundView> {
        if self.has(evt.entity) {
            let unit = self.units[self.find(evt.entity)];
            Some(
                OutboundView {
                    scope: BroadcastScope::Direct { client_id: evt.client_id },
                    message: MessageView::EntityInfo {
                        entity: evt.entity,
                        pos: unit.position,
                        name: unit.name.0@,
                        is_player: unit.player is Some,
                        friendly: unit.enemy is Some,
                        health: unit.health.0,
                        max_health: unit.max_health.0,
                        mana: unit.mana.0,
                        max_mana: unit.max_mana.0,
                        unit: unit.class@,
                        threat: self.threats[self.find(evt.entity)],
                        interactable: unit.interactable is Some,
                    },
                },
            )
        } else {
            Some(
                OutboundView {
                    scope: BroadcastScope::Direct { client_id: evt.client_id },
                    message: MessageView::Despawn { entity: evt.entity },
                },
            )
        }
    }

    /// `entity_info_message` as a function value.
    pub open spec fn entity_info_message_fn(self) -> spec_fn(SendEntityInfoEvent) -> Option<
        OutboundView,
    > {
        |evt: SendEntityInfoEvent| self.entity_info_message(evt)
    }

    /// The world after a replication pass: no component counts as touched.
    pub open spec fn spec_clear_changes(self) -> WorldView {
        WorldView {
            units: Seq::new(
                self.units.len(),
                |i: int| Unit { changes: Changes::spec_none(), ..self.units[i] },
            ),
            ..self
        }
    }
}

impl World {
    /// Tells the others in its map instance of every unit that has just
    /// become a child of it.
    pub fn send_spawn(&self) -> (events: Vec<SendServerMessageEvent>)
        ensures
            outbound(events@) == self@.units.filter_map(spawn_message_fn()),
    {
        let mut events: Vec<SendServerMessageEvent> = Vec::new();
        let mut i: usize = 0;
        proof {
            assert(outbound(events@) =~= Seq::empty());
        }
        while i < self.units.len()
            invariant
                i <= self.units.len(),
                outbound(events@) == self.units@.take(i as int).filter_map(spawn_message_fn()),
            decreases self.units.len() - i,
        {
            proof {
                self.units@.lemma_filter_map_take_succ(spawn_message_fn(), i as int);
            }
            if self.units[i].changes.map_instance {
                if let Some(map_instance) = self.units[i].map_instance {
                    let entity = self.units[i].entity;
                    let event = SendServerMessageEvent::to_map(
                        map_instance.0,
                        Some(entity),
                        ServerMessages::Spawn { entity },
                    );
                    proof {
                        lemma_outbound_push(events@, event);
                    }
                    events.push(event);
                }
            }
            i += 1;
        }
        proof {
            assert(self.units@.take(i as int) == self.units@);
        }
        events
    }

    /// Tells its map instance of every unit that has moved.
    pub fn send_movement(&self) -> (events: Vec<SendServerMessageEvent>)
        ensures
            outbound(events@) == self@.units.filter_map(movement_message_fn()),
    {
        let mut events: Vec<SendServerMessageEvent> = Vec::new();
        let mut i: usize = 0;
        proof {
            assert(outbound(events@) =~= Seq::empty());
        }
        while i < self.units.len()
            invariant
                i <= self.units.len(),
                outbound(events@) == self.units@.take(i as int).filter_map(movement_message_fn()),
            decreases self.units.len() - i,
        {
            proof {
                self.units@.lemma_filter_map_take_succ(movement_message_fn(), i as int);
            }
            if self.units[i].changes.position {
                if let Some(map_instance) = self.units[i].map_instance {
                    let moved_entity = self.units[i].entity;
                    let except: Option<Entity> = if self.units[i].charmed.is_some() {
                        None
                    } else {
                        Some(moved_entity)
                    };
                    let event = SendServerMessageEvent::to_map(
                        map_instance.0,
                        except,
                        ServerMessages::Move { entity: moved_entity, pos: self.units[i].position },
                    );
                    proof {
                        lemma_outbound_push(events@, event);
                    }
                    events.push(event);
                }
            }
            i += 1;
        }
        proof {
            assert(self.units@.take(i as int) == self.units@);
        }
        events
    }

    /// Tells its map instance of every unit that has entered combat.
    pub fn send_entered_combat(&self) -> (events: Vec<SendServerMessageEvent>)
        ensures
            outbound(events@) == self@.units.filter_map(entered_combat_message_fn()),
    {
        let mut events: Vec<SendServerMessageEvent> = Vec::new();
        let mut i: usize = 0;
        proof {
            assert(outbound(events@) =~= Seq::empty());
        }
        while i < self.units.len()
            invariant
                i <= self.units.len(),
                outbound(events@) == self.units@.take(i as int).filter_map(
                    entered_combat_message_fn(),
                ),
            decreases self.units.len() - i,
        {
            proof {
                self.units@.lemma_filter_map_take_succ(entered_combat_message_fn(), i as int);
            }
            if self.units[i].changes.entered_combat {
                if let Some(map_instance) = self.units[i].map_instance {
                    let event = SendServerMessageEvent::to_map(
                        map_instance.0,
                        None,
                        ServerMessages::CombatState {
                            entity: self.units[i].entity,
                            in_combat: true,
                        },
                    );
                    proof {
                        lemma_outbound_push(events@, event);
                    }
                    events.push(event);
                }
            }
            i += 1;
        }
        proof {
            assert(self.units@.take(i as int) == self.units@);
        }
        events
    }

    /// Tells the clients near it of what every unit says.
    pub fn send_chat(&self) -> (events: Vec<SendServerMessageEvent>)
        ensures
            outbound(events@) == self@.units.filter_map(chat_message_fn()),
    {
        let mut events: Vec<SendServerMessageEvent> = Vec::new();
        let mut i: usize = 0;
        proof {
            assert(outbound(events@) =~= Seq::empty());
        }
        while i < self.units.len()
            invariant
                i <= self.units.len(),
                outbound(events@) == self.units@.take(i as int).filter_map(chat_message_fn()),
            decreases self.units.len() - i,
        {
            proof {
                self.units@.lemma_filter_map_take_succ(chat_message_fn(), i as int);
            }
            if let Some(msg) = &self.units[i].saying {
                if let Some(map) = self.units[i].map_instance {
                    let event = SendServerMessageEvent::to_players_nearby(
                        map.0,
                        self.units[i].position,
                        CHAT_RANGE,
                        ServerMessages::Saying { entity: self.units[i].entity, msg: msg.0.clone() },
                    );
                    proof {
                        lemma_outbound_push(events@, event);
                    }
                    events.push(event);
                }
            }
            i += 1;
        }
        proof {
            assert(self.units@.take(i as int) == self.units@);
        }
        events
    }

    /// Tells its map instance of the vitals of every unit that changed.
    pub fn send_vitals_changed(&self) -> (events: Vec<SendServerMessageEvent>)
        ensures
            outbound(events@) == spec_send_vitals_changed(self@.units),
    {
        let mut events: Vec<SendServerMessageEvent> = Vec::new();
        let mut i: usize = 0;
        proof {
            assert(outbound(events@) =~= Seq::empty());
        }
        while i < self.units.len()
            invariant
                i <= self.units.len(),
                outbound(events@) == spec_send_vitals_changed(self.units@.take(i as int)),
            decreases self.units.len() - i,
        {
            proof {
                assert(self.units@.take(i + 1).drop_last() == self.units@.take(i as int));
            }
            if let Some(map_instance) = self.units[i].map_instance {
                let entity = self.units[i].entity;
                if self.units[i].changes.health {
                    let event = SendServerMessageEvent::to_map(
                        map_instance.0,
                        None,
                        ServerMessages::Vitals {
                            entity,
                            vital: Vitals::Health(self.units[i].health.0),
                        },
                    );
                    proof {
                        lemma_outbound_push(events@, event);
                    }
                    events.push(event);
                }
                if self.units[i].changes.mana {
                    let event = SendServerMessageEvent::to_map(
                        map_instance.0,
                        None,
                        ServerMessages::Vitals { entity, vital: Vitals::Mana(self.units[i].mana.0) },
                    );
                    proof {
                        lemma_outbound_push(events@, event);
                    }
                    events.push(event);
                }
            }
            i += 1;
        }
        proof {
            assert(self.units@.take(i as int) == self.units@);
        }
        events
    }

    /// Tells its map instance of the threat table of every creature whose
    /// table changed.
    pub fn send_threat(&self) -> (events: Vec<SendServerMessageEvent>)
        requires
            self@.wf(),
        ensures
            outbound(events@) == indices(self@.units.len()).filter_map(self@.threat_message_fn()),
    {
        let mut events: Vec<SendServerMessageEvent> = Vec::new();
        let mut i: usize = 0;
        proof {
            assert(outbound(events@) =~= Seq::empty());
        }
        while i < self.units.len()
            invariant
                i <= self.units.len(),
                self@.wf(),
                outbound(events@) == indices(self@.units.len()).take(i as int).filter_map(
                    self@.threat_message_fn(),
                ),
            decreases self.units.len() - i,
        {
            proof {
                indices(self@.units.len()).lemma_filter_map_take_succ(
                    self@.threat_message_fn(),
                    i as int,
                );
            }
            if self.units[i].npc.is_some() && self.units[i].changes.threat {
                if let Some(threat) = &self.threats[i] {
                    if let Some(creature_map_instance) = self.units[i].map_instance {
                        let event = SendServerMessageEvent::to_map(
                            creature_map_instance.0,
                            None,
                            ServerMessages::Threat {
                                entity: self.units[i].entity,
                                threat: threat.0.clone(),
                            },
                        );
                        proof {
                            lemma_outbound_push(events@, event);
                        }
                        events.push(event);
                    }
                }
            }
            i += 1;
        }
        proof {
            assert(indices(self@.units.len()).take(i as int) == indices(self@.units.len()));
        }
        events
    }

    /// Tells its map instance of every unit that left combat.
    pub fn send_exit_combat(&self, exit_combat: &Vec<LeaveCombatEvent>) -> (events: Vec<
        SendServerMessageEvent,
    >)
        requires
            self@.wf(),
        ensures
            outbound(events@) == exit_combat@.filter_map(self@.exit_combat_message_fn()),
    {
        let mut events: Vec<SendServerMessageEvent> = Vec::new();
        let mut i: usize = 0;
        proof {
            assert(outbound(events@) =~= Seq::empty());
        }
        while i < exit_combat.len()
            invariant
                i <= exit_combat.len(),
                self@.wf(),
                outbound(events@) == exit_combat@.take(i as int).filter_map(
                    self@.exit_combat_message_fn(),
                ),
            decreases exit_combat.len() - i,
        {
            proof {
                exit_combat@.lemma_filter_map_take_succ(self@.exit_combat_message_fn(), i as int);
            }
            let leave_combat_event = exit_combat[i];
            if let Some(u) = self.index_of(leave_combat_event.entity) {
                if let Some(map_instance) = self.units[u].map_instance {
                    let event = SendServerMessageEvent::to_map(
                        map_instance.0,
                        None,
                        ServerMessages::CombatState {
                            entity: leave_combat_event.entity,
                            in_combat: false,
                        },
                    );
                    proof {
                        lemma_outbound_push(events@, event);
                    }
                    events.push(event);
                }
            }
            i += 1;
        }
        proof {
            assert(exit_combat@.take(i as int) == exit_combat@);
        }
        events
    }

    /// Answers the clients that asked for the details of an entity.
    pub fn send_entity_info(&self, requests: &Vec<SendEntityInfoEvent>) -> (events: Vec<
        SendServerMessageEvent,
    >)
        requires
            self@.wf(),
        ensures
            outbound(events@) == requests@.filter_map(self@.entity_info_message_fn()),
    {
        let mut events: Vec<SendServerMessageEvent> = Vec::new();
        let mut i: usize = 0;
        proof {
            assert(outbound(events@) =~= Seq::empty());
        }
        while i < requests.len()
            invariant
                i <= requests.len(),
                self@.wf(),
                outbound(events@) == requests@.take(i as int).filter_map(
                    self@.entity_info_message_fn(),
                ),
            decreases requests.len() - i,
        {
            proof {
                requests@.lemma_filter_map_take_succ(self@.entity_info_message_fn(), i as int);
            }
            let request = requests[i];
            let entity = request.entity;
            let event = match self.index_of(entity) {
                Some(u) => {
                    let unit = &self.units[u];
                    let threat: Option<ThreatMap> = match &self.threats[u] {
                        Some(table) => Some(table.0.clone()),
                        None => None,
                    };
                    SendServerMessageEvent::directly_to(
                        request.client_id,
                        ServerMessages::EntityInfo {
                            entity,
                            pos: unit.position,
                            name: unit.name.0.clone(),
                            is_player: unit.player.is_some(),
                            friendly: unit.enemy.is_some(),
                            health: unit.health.0,
                            max_health: unit.max_health.0,
                            mana: unit.mana.0,
                            max_mana: unit.max_mana.0,
                            unit: unit.class.clone(),
                            threat,
                            interactable: unit.interactable.is_some(),
                        },
                    )
                },
                None => SendServerMessageEvent::directly_to(
                    request.client_id,
                    ServerMessages::Despawn { entity },
                ),
            };
            proof {
                lemma_outbound_push(events@, event);
            }
            events.push(event);
            i += 1;
        }
        proof {
            assert(requests@.take(i as int) == requests@);
        }
        events
    }

    /// The children of the map instance `instance` other than `except`.
    pub fn occupants(&self, instance: Entity, except: Entity) -> (entities: Vec<Entity>)
        ensures
            entities@ == self@.spec_occupants(instance, except),
    {
        let mut entities: Vec<Entity> = Vec::new();
        let mut i: usize = 0;
        while i < self.units.len()
            invariant
                i <= self.units.len(),
                entities@ == self.units@.take(i as int).filter_map(occupant_fn(instance, except)),
            decreases self.units.len() - i,
        {
            proof {
                self.units@.lemma_filter_map_take_succ(occupant_fn(instance, except), i as int);
            }
            if let Some(parent) = self.units[i].map_instance {
                if parent.0 == instance && self.units[i].entity != except {
                    entities.push(self.units[i].entity);
                }
            }
            i += 1;
        }
        proof {
            assert(self.units@.take(i as int) == self.units@);
        }
        entities
    }

    /// Tells the client of every player that has just become a child of a
    /// map instance who else is there.
    pub fn send_map_instance_entities(&self) -> (events: Vec<SendServerMessageEvent>)
        requires
            self@.wf(),
        ensures
            outbound(events@) == self@.units.filter_map(self@.entity_list_message_fn()),
    {
        let mut events: Vec<SendServerMessageEvent> = Vec::new();
        let mut i: usize = 0;
        proof {
            assert(outbound(events@) =~= Seq::empty());
        }
        while i < self.units.len()
            invariant
                i <= self.units.len(),
                self@.wf(),
                outbound(events@) == self.units@.take(i as int).filter_map(
                    self@.entity_list_message_fn(),
                ),
            decreases self.units.len() - i,
        {
            proof {
                self.units@.lemma_filter_map_take_succ(self@.entity_list_message_fn(), i as int);
            }
            if self.units[i].player.is_some() && self.units[i].changes.map_instance {
                if let Some(client_id) = self.units[i].client {
                    if let Some(current_map_instance) = self.units[i].map_instance {
                        if self.instance_index_of(current_map_instance.0).is_some() {
                            let event = SendServerMessageEvent::directly_to(
                                client_id.0,
                                ServerMessages::EntityList {
                                    entities: self.occupants(
                                        current_map_instance.0,
                                        self.units[i].entity,
                                    ),
                                },
                            );
                            proof {
                                lemma_outbound_push(events@, event);
                            }
                            events.push(event);
                        }
                    }
                }
            }
            i += 1;
        }
        proof {
            assert(self.units@.take(i as int) == self.units@);
        }
        events
    }

    /// Ends a replication pass: from now on no component counts as touched.
    pub fn clear_changes(&mut self)
        requires
            old(self)@.wf(),
        ensures
            final(self)@.wf(),
            final(self)@ =~= old(self)@.spec_clear_changes(),
    {
        let mut i: usize = 0;
        while i < self.units.len()
            invariant
                i <= self.units.len(),
                old(self)@.wf(),
                self.units@.len() == old(self).units@.len(),
                self.threats == old(self).threats,
                self.maps == old(self).maps,
                self.network == old(self).network,
                self.recovery == old(self).recovery,
                self.next_entity == old(self).next_entity,
                self.profile == old(self).profile,
                forall|k: int|
                    0 <= k < i ==> #[trigger] self.units@[k] == (Unit {
                        changes: Changes::spec_none(),
                        ..old(self).units@[k]
                    }),
                forall|k: int|
                    i <= k < self.units@.len() ==> #[trigger] self.units@[k] == old(self).units@[k],
            decreases self.units.len() - i,
        {
            self.units[i].changes = Changes::none();
            i += 1;
        }
        proof {
            lemma_same_population(old(self)@, self@);
        }
    }
}

/// Interest management for movement: the move of a unit goes to the
/// clients of the players in the same map instance and to no client of
/// another; the client of the unit itself gets it exactly when the unit is
/// charmed.
pub proof fn lemma_movement_interest(moved: Unit, player: Unit)
    requires
        movement_message(moved) is Some,
        player.player is Some,
        player.client is Some,
    ensures
        player.map_instance != moved.map_instance ==> recipient(
            player,
            movement_message(moved).unwrap().scope,
        ) is None,
        player.map_instance == moved.map_instance && player.entity != moved.entity ==> recipient(
            player,
            movement_message(moved).unwrap().scope,
        ) == Some(player.client.unwrap().0),
        player.map_instance == moved.map_instance && player.entity == moved.entity ==> (recipient(
            player,
            movement_message(moved).unwrap().scope,
        ) is Some <==> moved.charmed is Some),
{
}

/// A spawn goes to every other player of the map instance: to the client of
/// each player in it but for that of the unit itself.
pub proof fn lemma_spawn_interest(spawned: Unit, player: Unit)
    requires
        spawn_message(spawned) is Some,
        player.player is Some,
        player.client is Some,
    ensures
        recipient(player, spawn_message(spawned).unwrap().scope) is Some <==> player.map_instance
            == spawned.map_instance && player.entity != spawned.entity,
{
}

/// A despawn goes to those who stay: to the client of each player in the
/// map instance that was left, but for that of the unit that left.
pub proof fn lemma_despawn_interest(evt: DespawnEvent, player: Unit)
    requires
        player.player is Some,
        player.client is Some,
    ensures
        recipient(player, despawn_message(evt).unwrap().scope) is Some <==> player.map_instance
            == Some(MapInstanceEntity(evt.map)) && player.entity != evt.entity,
{
}

/// Tells those who stay in a map instance of every unit that left it.
pub fn send_despawn(despawn_events: &Vec<DespawnEvent>) -> (events: Vec<SendServerMessageEvent>)
    ensures
        outbound(events@) == despawn_events@.filter_map(despawn_message_fn()),
{
    let mut events: Vec<SendServerMessageEvent> = Vec::new();
    let mut i: usize = 0;
    proof {
        assert(outbound(events@) =~= Seq::empty());
    }
    while i < despawn_events.len()
        invariant
            i <= despawn_events.len(),
            outbound(events@) == despawn_events@.take(i as int).filter_map(despawn_message_fn()),
        decreases despawn_events.len() - i,
    {
        proof {
            despawn_events@.lemma_filter_map_take_succ(despawn_message_fn(), i as int);
        }
        let despawn = despawn_events[i];
        let event = SendServerMessageEvent::to_map(
            despawn.map,
            Some(despawn.entity),
            ServerMessages::Despawn { entity: despawn.entity },
        );
        proof {
            lemma_outbound_push(events@, event);
        }
        events.push(event);
        i += 1;
    }
    proof {
        assert(despawn_events@.take(i as int) == despawn_events@);
    }
    events
}

/// Tells everyone of every death.
pub fn send_death_events(death_events: &Vec<DeathEvent>) -> (events: Vec<SendServerMessageEvent>)
    ensures
        outbound(events@) == death_events@.filter_map(death_message_fn()),
{
    let mut events: Vec<SendServerMessageEvent> = Vec::new();
    let mut i: usize = 0;
    proof {
        assert(outbound(events@) =~= Seq::empty());
    }
    while i < death_events.len()
        invariant
            i <= death_events.len(),
            outbound(events@) == death_events@.take(i as int).filter_map(death_message_fn()),
        decreases death_events.len() - i,
    {
        proof {
            death_events@.lemma_filter_map_take_succ(death_message_fn(), i as int);
        }
        let death_event = death_events[i];
        let event = SendServerMessageEvent::to_everyone(
            ServerMessages::Vitals { entity: death_event.entity, vital: Vitals::Dead(true) },
        );
        proof {
            lemma_outbound_push(events@, event);
        }
        events.push(event);
        i += 1;
    }
    proof {
        assert(death_events@.take(i as int) == death_events@);
    }
    events
}

} // verus!
