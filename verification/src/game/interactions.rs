//! What happens when a player uses something.

use vstd::prelude::*;
use crate::components::Entity;
use crate::game::map::{instance_of, spec_instance_of, Teleport};
use crate::game::world::{World, WorldView};
use crate::math::{Position, spec_farther_than};
use crate::network::{
    BroadcastScope, lemma_outbound_push, outbound, OutboundView, SendServerMessageEvent,
};
use crate::network::messages::server::{MessageView, PlayerErrorMessage, ServerMessages};

verus! {

/// A player used an entity.
#[derive(Clone, Copy, Debug, PartialEq, Eq, Structural)]
pub struct EntityInteractionEvent {
    pub target: Entity,
    pub source: Entity,
}

/// A way into another map.
#[derive(Clone, Debug, PartialEq, Eq)]
pub struct Portal {
    pub map: String,
    pub position: Position,
}

/// World units within which a player can use something.
pub const INTERACTION_RANGE: u32 = 32;

impl WorldView {
    /// Whether `evt` is a player using a portal: the target is a unit that
    /// is a way into another map and can be used, the source is a player.
    pub open spec fn uses_portal(self, evt: EntityInteractionEvent) -> bool {
        &&& self.has(evt.target)
        &&& self.units[self.find(evt.target)].portal is Some
        &&& self.units[self.find(evt.target)].interactable is Some
        &&& self.has(evt.source)
        &&& self.units[self.find(evt.source)].player is Some
    }

    /// Whether the player of `evt` stands too far from what it uses.
    pub open spec fn out_of_reach(self, evt: EntityInteractionEvent) -> bool {
        spec_farther_than(
            self.units[self.find(evt.target)].position,
            self.units[self.find(evt.source)].position,
            INTERACTION_RANGE,
        )
    }

    /// The teleport a use of a portal asks for: the player goes to the map
    /// and the point the portal leads to, if it stands within reach.  The
    /// request names the map instance the player is a child of as the one
    /// it leaves, so that those who stay are told.
    pub open spec fn spec_portal_teleport(self, evt: EntityInteractionEvent) -> Option<Teleport> {
        if self.uses_portal(evt) && !self.out_of_reach(evt) {
            let portal = self.units[self.find(evt.target)].portal.unwrap();
            Some(
                Teleport {
                    entity: evt.source,
                    map: portal.map,
                    position: portal.position,
                    prev_map_instance: spec_instance_of(self.units[self.find(evt.source)]),
                    map_instance: None,
                },
            )
        } else {
            None
        }
    }

    /// `spec_portal_teleport` as a function value.
    pub open spec fn portal_teleport_fn(self) -> spec_fn(EntityInteractionEvent) -> Option<
        Teleport,
    > {
        |evt: EntityInteractionEvent| self.spec_portal_teleport(evt)
    }

    /// What a use of a portal from too far tells the client of the player.
    pub open spec fn spec_portal_error(self, evt: EntityInteractionEvent) -> Option<OutboundView> {
        if self.uses_portal(evt) && self.out_of_reach(evt) && self.units[self.find(
            evt.source,
        )].client is Some {
            Some(
                OutboundView {
                    scope: BroadcastScope::Direct {
                        client_id: self.units[self.find(evt.source)].client.unwrap().0,
                    },
                    message: MessageView::PlayerError { error: PlayerErrorMessage::TooFarAway },
                },
            )
        } else {
            None
        }
    }

    /// `spec_portal_error` as a function value.
    pub open spec fn portal_error_fn(self) -> spec_fn(EntityInteractionEvent) -> Option<
        OutboundView,
    > {
        |evt: EntityInteractionEvent| self.spec_portal_error(evt)
    }
}

impl World {
    /// Turns the uses of portals into teleports, and tells the players who
    /// stand too far.
    pub fn portal_interaction(&self, interactions: &Vec<EntityInteractionEvent>) -> (said: (
        Vec<Teleport>,
        Vec<SendServerMessageEvent>,
    ))
        requires
            self@.wf(),
        ensures
            said.0@ == interactions@.filter_map(self@.portal_teleport_fn()),
            outbound(said.1@) == interactions@.filter_map(self@.portal_error_fn()),
    {
        let mut teleports: Vec<Teleport> = Vec::new();
        let mut errors: Vec<SendServerMessageEvent> = Vec::new();
        let mut i: usize = 0;
        proof {
            assert(outbound(errors@) =~= Seq::empty());
        }
        while i < interactions.len()
            invariant
                i <= interactions.len(),
                self@.wf(),
                teleports@ == interactions@.take(i as int).filter_map(self@.portal_teleport_fn()),
                outbound(errors@) == interactions@.take(i as int).filter_map(
                    self@.portal_error_fn(),
                ),
            decreases interactions.len() - i,
        {
            proof {
                interactions@.lemma_filter_map_take_succ(self@.portal_teleport_fn(), i as int);
                interactions@.lemma_filter_map_take_succ(self@.portal_error_fn(), i as int);
            }
            let interaction = interactions[i];
            if let Some(t) = self.index_of(interaction.target) {
                if let Some(s) = self.index_of(interaction.source) {
                    if self.units[t].interactable.is_some() && self.units[s].player.is_some() {
                        if let Some(portal) = &self.units[t].portal {
                            if self.units[t].position.farther_than(
                                &self.units[s].position,
                                INTERACTION_RANGE,
                            ) {
                                if let Some(client) = self.units[s].client {
                                    let error = SendServerMessageEvent::directly_to(
                                        client.0,
                                        ServerMessages::PlayerError {
                                            error: PlayerErrorMessage::TooFarAway,
                                        },
                                    );
                                    proof {
                                        lemma_outbound_push(errors@, error);
                                    }
                                    errors.push(error);
                                }
                            } else {
                                teleports.push(
                                    Teleport {
                                        entity: interaction.source,
                                        map: portal.map.clone(),
                                        position: portal.position,
                                        prev_map_instance: instance_of(&self.units[s]),
                                        map_instance: None,
                                    },
                                );
                            }
                        }
                    }
                }
            }
            i += 1;
        }
        proof {
            assert(interactions@.take(i as int) == interactions@);
        }
        (teleports, errors)
    }
}

} // verus!
