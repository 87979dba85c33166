//! The server's end of the connections: sessions, what clients ask for, and
//! who a message goes to.

use vstd::prelude::*;
use crate::components::{Entity, Target};
use crate::game::interactions::EntityInteractionEvent;
use crate::game::map::{MapInstanceEntity, optional, Teleport};
use crate::game::player::LoggingOut;
use crate::game::unit::{Changes, Unit};
use crate::game::world::{lemma_same_population, World, WorldView};
use crate::math::{Position, spec_planar_closer_than};
use crate::network::{
    BroadcastScope, lemma_outbound_push, outbound, OutboundView, SendServerMessageEvent,
};
use crate::network::messages::client::ClientMessages;
use crate::network::messages::server::{DisconnectionReason, MessageView, ServerMessages};

verus! {

/// What the transport reports of a client.
#[derive(Clone, Copy, Debug, PartialEq, Eq, Structural)]
pub enum ServerEvent {
    ClientConnected { client_id: u64 },
    ClientDisconnected { client_id: u64 },
}

/// A message as it came in, with the client it came from.
#[derive(Clone, Copy, Debug, PartialEq, Eq, Structural)]
pub struct ClientMessage {
    pub client_id: u64,
    pub message: ClientMessages,
}

/// A client asked for everything there is to show of an entity.
#[derive(Clone, Copy, Debug, PartialEq, Eq, Structural)]
pub struct SendEntityInfoEvent {
    pub client_id: u64,
    pub entity: Entity,
}

/// Whether `unit` is a child of the map instance `instance`.
pub open spec fn spec_filter_players_on_map_instance(unit: Unit, instance: Entity) -> bool {
    unit.map_instance == Some(MapInstanceEntity(instance))
}

/// Whether `unit` is a child of the map instance `instance`.
pub fn filter_players_on_map_instance(unit: &Unit, instance: Entity) -> (inside: bool)
    ensures
        inside == spec_filter_players_on_map_instance(*unit, instance),
{
    match unit.map_instance {
        Some(parent) => parent.0 == instance,
        None => false,
    }
}

/// The client that gets a message of `scope` on behalf of `unit`: the unit
/// is the player of a client and within the scope.  The scopes that do not
/// go by units reach nobody here.
pub open spec fn recipient(unit: Unit, scope: BroadcastScope) -> Option<u64> {
    if unit.player is Some && unit.client is Some && match scope {
        BroadcastScope::Instance { instance, except } => spec_filter_players_on_map_instance(
            unit,
            instance,
        ) && except != Some(unit.entity),
        BroadcastScope::Nearby { instance, point, range } => spec_filter_players_on_map_instance(
            unit,
            instance,
        ) && spec_planar_closer_than(point, unit.position, range),
        _ => false,
    } {
        Some(unit.client.unwrap().0)
    } else {
        None
    }
}

/// `recipient` as a function value.
pub open spec fn recipient_fn(scope: BroadcastScope) -> spec_fn(Unit) -> Option<u64> {
    |unit: Unit| recipient(unit, scope)
}

/// The picture a client shows of its own player.
pub open spec fn spec_player_image() -> Seq<char> {
    "dreamland/Characters/Character_001"@
}

impl WorldView {
    /// Whether `clients` are those a message of `scope` goes to: the one
    /// named; or every connected client, each once, in whatever order the
    /// sessions are walked; or the clients of the players within the scope,
    /// in store order.
    pub open spec fn reaches(self, scope: BroadcastScope, clients: Seq<u64>) -> bool {
        match scope {
            BroadcastScope::Direct { client_id } => clients == seq![client_id],
            BroadcastScope::Global => self.all_clients(clients),
            _ => clients == self.units.filter_map(recipient_fn(scope)),
        }
    }

    /// The unit a client plays, as its session has it.
    pub open spec fn sender(self, client_id: u64) -> Option<Entity> {
        if self.has_session(client_id) {
            Some(self.sessions[client_id])
        } else {
            None
        }
    }

    /// What a connection tells the new client: which entity it plays.
    pub open spec fn spec_connection_message(self, evt: ServerEvent) -> Option<OutboundView> {
        match evt {
            ServerEvent::ClientConnected { client_id } => if self.joins(client_id) {
                Some(
                    OutboundView {
                        scope: BroadcastScope::Direct { client_id },
                        message: MessageView::PlayerInfo {
                            entity: Entity(self.next_entity),
                            pos: Position { x: 0, y: 0, z: 0 },
                            img: spec_player_image(),
                        },
                    },
                )
            } else {
                None
            },
            ServerEvent::ClientDisconnected { client_id } => None,
        }
    }

    /// The request that takes the unit of a new connection to its first map.
    pub open spec fn spec_connection_teleport(self, evt: ServerEvent) -> Option<Teleport> {
        match evt {
            ServerEvent::ClientConnected { client_id } => self.spec_join_teleport(client_id),
            ServerEvent::ClientDisconnected { client_id } => None,
        }
    }

    /// The end of a session: the session is gone, and the unit it was for,
    /// if there is one, is marked as logging out.
    pub open spec fn spec_disconnect(self, client_id: u64) -> WorldView {
        if self.has_session(client_id) {
            let entity = self.sessions[client_id];
            let closed = WorldView { sessions: self.sessions.remove(client_id), ..self };
            if self.has(entity) {
                closed.with_unit(
                    self.find(entity),
                    Unit { logging_out: Some(LoggingOut), ..self.units[self.find(entity)] },
                )
            } else {
                closed
            }
        } else {
            self
        }
    }

    /// What a report of the transport does to the world.
    pub open spec fn spec_connection_event(self, evt: ServerEvent) -> WorldView {
        match evt {
            ServerEvent::ClientConnected { client_id } => self.spec_player_join(client_id),
            ServerEvent::ClientDisconnected { client_id } => self.spec_disconnect(client_id),
        }
    }

    /// The reports of the transport, one after the other.
    pub open spec fn spec_handle_connection_events(self, events: Seq<ServerEvent>) -> WorldView
        decreases events.len(),
    {
        if events.len() == 0 {
            self
        } else {
            self.spec_handle_connection_events(events.drop_last()).spec_connection_event(
                events.last(),
            )
        }
    }

    /// What the connections of a tick tell the new clients.
    pub open spec fn spec_handle_connection_messages(self, events: Seq<ServerEvent>) -> Seq<
        OutboundView,
    >
        decreases events.len(),
    {
        if events.len() == 0 {
            Seq::empty()
        } else {
            self.spec_handle_connection_messages(events.drop_last()) + optional(
                self.spec_handle_connection_events(events.drop_last()).spec_connection_message(
                    events.last(),
                ),
            )
        }
    }

    /// The requests that take the units of the new connections to their
    /// first map.
    pub open spec fn spec_handle_connection_teleports(self, events: Seq<ServerEvent>) -> Seq<
        Teleport,
    >
        decreases events.len(),
    {
        if events.len() == 0 {
            Seq::empty()
        } else {
            self.spec_handle_connection_teleports(events.drop_last()) + optional(
                self.spec_handle_connection_events(events.drop_last()).spec_connection_teleport(
                    events.last(),
                ),
            )
        }
    }

    /// What a message of a client does to the unit the client plays: a move
    /// puts it where the client says, a target is taken or dropped as the
    /// client says, a disconnect marks it as logging out.  A message of a
    /// client without a session or without a unit does nothing.
    pub open spec fn spec_client_message(self, m: ClientMessage) -> WorldView {
        if self.sender(m.client_id) is Some && self.has(self.sender(m.client_id).unwrap()) {
            let i = self.find(self.sender(m.client_id).unwrap());
            let unit = self.units[i];
            match m.message {
                ClientMessages::Move { x, y } => self.with_unit(
                    i,
                    Unit {
                        position: Position { x, y, z: 0 },
                        changes: Changes { position: true, ..unit.changes },
                        ..unit
                    },
                ),
                ClientMessages::Disconnect => self.with_unit(
                    i,
                    Unit { logging_out: Some(LoggingOut), ..unit },
                ),
                ClientMessages::Target { target } => self.with_unit(
                    i,
                    Unit {
                        target: match target {
                            Some(entity) => Some(Target(entity)),
                            None => None,
                        },
                        ..unit
                    },
                ),
                _ => self,
            }
        } else {
            self
        }
    }

    /// The messages of the clients, one after the other.
    pub open spec fn spec_handle_client_messages(self, messages: Seq<ClientMessage>) -> WorldView
        decreases messages.len(),
    {
        if messages.len() == 0 {
            self
        } else {
            self.spec_handle_client_messages(messages.drop_last()).spec_client_message(
                messages.last(),
            )
        }
    }
}

/// The request for the details of an entity that a message holds, where its
/// client has a session.
pub open spec fn info_request(sessions: Map<u64, Entity>, m: ClientMessage) -> Option<
    SendEntityInfoEvent,
> {
    match m.message {
        ClientMessages::RequestEntityInfo { entity } => if sessions.contains_key(m.client_id) {
            Some(SendEntityInfoEvent { client_id: m.client_id, entity })
        } else {
            None
        },
        _ => None,
    }
}

/// `info_request` as a function value.
pub open spec fn info_request_fn(sessions: Map<u64, Entity>) -> spec_fn(ClientMessage) -> Option<
    SendEntityInfoEvent,
> {
    |m: ClientMessage| info_request(sessions, m)
}

/// The use of an entity that a message holds, where its client has a
/// session.
pub open spec fn interaction(sessions: Map<u64, Entity>, m: ClientMessage) -> Option<
    EntityInteractionEvent,
> {
    match m.message {
        ClientMessages::Interact { entity } => if sessions.contains_key(m.client_id) {
            Some(EntityInteractionEvent { target: entity, source: sessions[m.client_id] })
        } else {
            None
        },
        _ => None,
    }
}

/// `interaction` as a function value.
pub open spec fn interaction_fn(sessions: Map<u64, Entity>) -> spec_fn(ClientMessage) -> Option<
    EntityInteractionEvent,
> {
    |m: ClientMessage| interaction(sessions, m)
}

impl World {
    /// The clients a message of `scope` goes to.
    pub fn recipients(&self, scope: &BroadcastScope) -> (clients: Vec<u64>)
        ensures
            self@.reaches(*scope, clients@),
    {
        let mut clients: Vec<u64> = Vec::new();
        match scope {
            BroadcastScope::Direct { client_id } => {
                clients.push(*client_id);
                assert(clients@ =~= seq![*client_id]);
            },
            BroadcastScope::Global => {
                clients = self.connected_clients();
            },
            _ => {
                let mut i: usize = 0;
                while i < self.units.len()
                    invariant
                        i <= self.units.len(),
                        scope !is Direct,
                        scope !is Global,
                        clients@ == self.units@.take(i as int).filter_map(recipient_fn(*scope)),
                    decreases self.units.len() - i,
                {
                    proof {
                        self.units@.lemma_filter_map_take_succ(recipient_fn(*scope), i as int);
                    }
                    let unit = &self.units[i];
                    if unit.player.is_some() {
                        if let Some(client) = unit.client {
                            let inside: bool = match scope {
                                BroadcastScope::Instance {
                                    instance,
                                    except,
                                } => filter_players_on_map_instance(unit, *instance) && match except {
                                    Some(left_out) => *left_out != unit.entity,
                                    None => true,
                                },
                                BroadcastScope::Nearby {
                                    instance,
                                    point,
                                    range,
                                } => filter_players_on_map_instance(unit, *instance)
                                    && point.planar_closer_than(&unit.position, *range),
                                _ => false,
                            };
                            if inside {
                                clients.push(client.0);
                            }
                        }
                    }
                    i += 1;
                }
                proof {
                    assert(self.units@.take(i as int) == self.units@);
                }
            },
        }
        clients
    }

    /// Ends the session of `client_id` and marks its unit as logging out.
    pub fn disconnect(&mut self, client_id: u64)
        requires
            old(self)@.wf(),
        ensures
            final(self)@.wf(),
            final(self)@ =~= old(self)@.spec_disconnect(client_id),
    {
        if let Some(entity) = self.session_of(client_id) {
            self.network.player_entity_map.remove(&client_id);
            proof {
                let w = old(self)@;
                assert(self@.threats =~= w.threats);
                assert(self@.ids() =~= w.ids());
                assert(self@.instance_ids() =~= w.instance_ids());
                assert(self@.wf());
            }
            let ghost closed = self@;
            if let Some(i) = self.index_of(entity) {
                self.units[i].logging_out = Some(LoggingOut);
                proof {
                    lemma_same_population(closed, self@);
                }
            }
        }
    }

    /// Takes in one report of the transport: a new client gets a session
    /// and a unit, a client that is gone loses its session.  Tells what to
    /// say to a new client, and where its unit is to be taken.
    pub fn connection_event(&mut self, evt: &ServerEvent) -> (said: (
        Option<SendServerMessageEvent>,
        Option<Teleport>,
    ))
        requires
            old(self)@.wf(),
        ensures
            final(self)@.wf(),
            final(self)@ == old(self)@.spec_connection_event(*evt),
            said.0 is Some <==> old(self)@.spec_connection_message(*evt) is Some,
            said.0 is Some ==> said.0.unwrap()@ == old(self)@.spec_connection_message(
                *evt,
            ).unwrap(),
            said.1 == old(self)@.spec_connection_teleport(*evt),
    {
        match evt {
            ServerEvent::ClientConnected { client_id } => {
                let entity = Entity(self.next_entity);
                match self.player_join(*client_id) {
                    Some(teleport) => {
                        let message = SendServerMessageEvent::directly_to(
                            *client_id,
                            ServerMessages::PlayerInfo {
                                entity,
                                pos: Position::new(0, 0, 0),
                                img: "dreamland/Characters/Character_001".to_owned(),
                            },
                        );
                        (Some(message), Some(teleport))
                    },
                    None => (None, None),
                }
            },
            ServerEvent::ClientDisconnected { client_id } => {
                self.disconnect(*client_id);
                (None, None)
            },
        }
    }

    /// Takes in the reports of the transport, one after the other.  Tells
    /// what to say to the new clients, and where their units are to be
    /// taken.
    pub fn handle_connection_events(&mut self, events: &Vec<ServerEvent>) -> (said: (
        Vec<SendServerMessageEvent>,
        Vec<Teleport>,
    ))
        requires
            old(self)@.wf(),
        ensures
            final(self)@.wf(),
            final(self)@ == old(self)@.spec_handle_connection_events(events@),
            outbound(said.0@) == old(self)@.spec_handle_connection_messages(events@),
            said.1@ == old(self)@.spec_handle_connection_teleports(events@),
    {
        let mut messages: Vec<SendServerMessageEvent> = Vec::new();
        let mut teleports: Vec<Teleport> = Vec::new();
        let mut i: usize = 0;
        proof {
            assert(outbound(messages@) =~= Seq::empty());
        }
        while i < events.len()
            invariant
                i <= events.len(),
                self@.wf(),
                self@ == old(self)@.spec_handle_connection_events(events@.take(i as int)),
                outbound(messages@) == old(self)@.spec_handle_connection_messages(
                    events@.take(i as int),
                ),
                teleports@ == old(self)@.spec_handle_connection_teleports(
                    events@.take(i as int),
                ),
            decreases events.len() - i,
        {
            proof {
                assert(events@.take(i + 1).drop_last() == events@.take(i as int));
            }
            let said = self.connection_event(&events[i]);
            if let Some(message) = said.0 {
                proof {
                    lemma_outbound_push(messages@, message);
                }
                messages.push(message);
            }
            if let Some(teleport) = said.1 {
                teleports.push(teleport);
            }
            i += 1;
        }
        proof {
            assert(events@.take(i as int) == events@);
        }
        (messages, teleports)
    }

    /// Applies one message of a client to the unit the client plays.
    pub fn client_message(&mut self, m: &ClientMessage)
        requires
            old(self)@.wf(),
        ensures
            final(self)@.wf(),
            final(self)@ =~= old(self)@.spec_client_message(*m),
            final(self)@.sessions == old(self)@.sessions,
    {
        let entity: Entity = match self.session_of(m.client_id) {
            Some(entity) => entity,
            None => {
                return ;
            },
        };
        let i: usize = match self.index_of(entity) {
            Some(i) => i,
            None => {
                return ;
            },
        };
        match m.message {
            ClientMessages::Move { x, y } => {
                self.units[i].position = Position::new(x, y, 0);
                self.units[i].changes.position = true;
            },
            ClientMessages::Disconnect => {
                self.units[i].logging_out = Some(LoggingOut);
            },
            ClientMessages::Target { target } => {
                match target {
                    Some(target_entity) => {
                        self.units[i].target = Some(Target(target_entity));
                    },
                    None => {
                        self.units[i].target = None;
                    },
                }
            },
            _ => {},
        }
        proof {
            lemma_same_population(old(self)@, self@);
        }
    }

    /// Takes in the messages of the clients, one after the other.  Tells
    /// which details were asked for, and what the players used.
    pub fn handle_client_messages(&mut self, messages: &Vec<ClientMessage>) -> (asked: (
        Vec<SendEntityInfoEvent>,
        Vec<EntityInteractionEvent>,
    ))
        requires
            old(self)@.wf(),
        ensures
            final(self)@.wf(),
            final(self)@ == old(self)@.spec_handle_client_messages(messages@),
            asked.0@ == messages@.filter_map(info_request_fn(old(self)@.sessions)),
            asked.1@ == messages@.filter_map(interaction_fn(old(self)@.sessions)),
    {
        let mut requests: Vec<SendEntityInfoEvent> = Vec::new();
        let mut interactions: Vec<EntityInteractionEvent> = Vec::new();
        let ghost sessions = self@.sessions;
        let mut i: usize = 0;
        while i < messages.len()
            invariant
                i <= messages.len(),
                self@.wf(),
                sessions == old(self)@.sessions,
                self@.sessions == sessions,
                self@ == old(self)@.spec_handle_client_messages(messages@.take(i as int)),
                requests@ == messages@.take(i as int).filter_map(info_request_fn(sessions)),
                interactions@ == messages@.take(i as int).filter_map(interaction_fn(sessions)),
            decreases messages.len() - i,
        {
            proof {
                assert(messages@.take(i + 1).drop_last() == messages@.take(i as int));
                messages@.lemma_filter_map_take_succ(info_request_fn(sessions), i as int);
                messages@.lemma_filter_map_take_succ(interaction_fn(sessions), i as int);
            }
            let m = messages[i];
            if let Some(source) = self.session_of(m.client_id) {
                match m.message {
                    ClientMessages::RequestEntityInfo { entity } => {
                        requests.push(SendEntityInfoEvent { client_id: m.client_id, entity });
                    },
                    ClientMessages::Interact { entity } => {
                        interactions.push(
                            EntityInteractionEvent {
                                target: entity,
                                source,
                            },
                        );
                    },
                    _ => {},
                }
            }
            self.client_message(&m);
            i += 1;
        }
        proof {
            assert(messages@.take(i as int) == messages@);
        }
        (requests, interactions)
    }
}

/// What the server says to everyone when it goes down.
pub fn disconnect_clients_on_exit(exit: bool) -> (said: Option<SendServerMessageEvent>)
    ensures
        said is Some <==> exit,
        said is Some ==> said.unwrap()@ == (OutboundView {
            scope: BroadcastScope::Global,
            message: MessageView::Disconnect { reason: DisconnectionReason::ServerShutdown },
        }),
{
    if exit {
        Some(
            SendServerMessageEvent::to_everyone(
                ServerMessages::Disconnect { reason: DisconnectionReason::ServerShutdown },
            ),
        )
    } else {
        None
    }
}

} // verus!
