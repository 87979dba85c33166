//! The client's picture of the world, kept up by what the server says.

use vstd::prelude::*;
use crate::components::{
    Dead, Entity, Health, InCombat, Interactable, Mana, MaxHealth, MaxMana, ThreatMap,
};
use crate::game::world::{all_distinct, WorldView};
use crate::math::Position;
use crate::network::messages::client::ClientMessages;
use crate::network::messages::server::{
    DisconnectionReason, MessageView, PlayerErrorMessage, ServerMessages, Vitals,
};
use crate::network::server::SendEntityInfoEvent;
use crate::shared_components::Player;

verus! {

/// The entity of the server that a picture on the client stands for.
#[derive(Clone, Copy, Debug, PartialEq, Eq, Structural)]
pub struct ServerSideEntity(pub Entity);

/// Marks the picture of a unit that another player plays.
#[derive(Clone, Copy, Debug, PartialEq, Eq, Structural)]
pub struct PlayerEntity;

/// The map the client is to show has changed.
#[derive(Clone, Debug, PartialEq, Eq)]
pub struct MapChangeEvent {
    pub map_name: String,
}

/// What the server has told of a unit.
#[derive(Debug, PartialEq, Eq)]
pub struct EntityDetails {
    pub name: String,
    /// The kind of unit, which also names its looks.
    pub unit: String,
    pub health: Health,
    pub max_health: MaxHealth,
    pub mana: Mana,
    pub max_mana: MaxMana,
    pub threat: ThreatMap,
}

/// The client's picture of one entity of the server.
#[derive(Debug, PartialEq, Eq)]
pub struct ClientEntity {
    pub server: ServerSideEntity,
    /// Marks the picture of the unit this client plays.
    pub player: Option<Player>,
    pub position: Position,
    /// What the server has told of the unit, once it has.
    pub details: Option<EntityDetails>,
    pub player_entity: Option<PlayerEntity>,
    pub interactable: Option<Interactable>,
    pub dead: Option<Dead>,
    pub in_combat: Option<InCombat>,
}

/// What the server has told of a unit, as contracts see it.
pub struct EntityDetailsView {
    pub name: Seq<char>,
    pub unit: Seq<char>,
    pub health: Health,
    pub max_health: MaxHealth,
    pub mana: Mana,
    pub max_mana: MaxMana,
    pub threat: Map<Entity, i32>,
}

/// The client's picture of one entity, as contracts see it.
pub struct ClientEntityView {
    pub server: ServerSideEntity,
    pub player: Option<Player>,
    pub position: Position,
    pub details: Option<EntityDetailsView>,
    pub player_entity: Option<PlayerEntity>,
    pub interactable: Option<Interactable>,
    pub dead: Option<Dead>,
    pub in_combat: Option<InCombat>,
}

impl View for EntityDetails {
    type V = EntityDetailsView;

    open spec fn view(&self) -> EntityDetailsView {
        EntityDetailsView {
            name: self.name@,
            unit: self.unit@,
            health: self.health,
            max_health: self.max_health,
            mana: self.mana,
            max_mana: self.max_mana,
            threat: self.threat@,
        }
    }
}

impl View for ClientEntity {
    type V = ClientEntityView;

    open spec fn view(&self) -> ClientEntityView {
        ClientEntityView {
            server: self.server,
            player: self.player,
            position: self.position,
            details: match self.details {
                Some(details) => Some(details@),
                None => None,
            },
            player_entity: self.player_entity,
            interactable: self.interactable,
            dead: self.dead,
            in_combat: self.in_combat,
        }
    }
}

/// Everything the client knows of the world.
#[derive(Debug, PartialEq, Eq)]
pub struct ClientState {
    /// The entity of the server that this client plays.
    pub player_entity: Option<Entity>,
    /// The pictures of the entities the server has told of, in the order in
    /// which it told of them.
    pub entities: Vec<ClientEntity>,
}

/// The state of a client as contracts see it.
#[verifier::ext_equal]
pub struct ClientView {
    pub player_entity: Option<Entity>,
    pub entities: Seq<ClientEntityView>,
}

impl View for ClientState {
    type V = ClientView;

    open spec fn view(&self) -> ClientView {
        ClientView {
            player_entity: self.player_entity,
            entities: Seq::new(self.entities@.len(), |i: int| self.entities@[i]@),
        }
    }
}

/// What a message of the server asks of the client beyond its picture of
/// the world.
#[derive(Clone, Debug, PartialEq, Eq)]
pub enum ClientEffect {
    Nothing,
    /// Another map is to be loaded.
    MapChange(MapChangeEvent),
    /// The server has ended the connection.
    Disconnected { reason: DisconnectionReason },
    /// An action of the player had no effect.
    PlayerError { error: PlayerErrorMessage },
    /// A unit says something.
    Saying { entity: Entity, msg: String },
}

/// What a message of the server asks of the client, as contracts see it.
pub enum ClientEffectView {
    Nothing,
    MapChange { map_name: Seq<char> },
    Disconnected { reason: DisconnectionReason },
    PlayerError { error: PlayerErrorMessage },
    Saying { entity: Entity, msg: Seq<char> },
}

impl View for ClientEffect {
    type V = ClientEffectView;

    open spec fn view(&self) -> ClientEffectView {
        match *self {
            ClientEffect::Nothing => ClientEffectView::Nothing,
            ClientEffect::MapChange(event) => ClientEffectView::MapChange {
                map_name: event.map_name@,
            },
            ClientEffect::Disconnected { reason } => ClientEffectView::Disconnected { reason },
            ClientEffect::PlayerError { error } => ClientEffectView::PlayerError { error },
            ClientEffect::Saying { entity, msg } => ClientEffectView::Saying { entity, msg: msg@ },
        }
    }
}

/// The picture of an entity of which nothing is known yet.
pub open spec fn spec_blank(entity: Entity) -> ClientEntityView {
    ClientEntityView {
        server: ServerSideEntity(entity),
        player: None,
        position: Position { x: 0, y: 0, z: 0 },
        details: None,
        player_entity: None,
        interactable: None,
        dead: None,
        in_combat: None,
    }
}

/// The request for the details of each of `entities`, in their order.
pub open spec fn spec_requests(entities: Seq<Entity>) -> Seq<ClientMessages> {
    Seq::new(entities.len(), |i: int| ClientMessages::RequestEntityInfo { entity: entities[i] })
}

impl ClientView {
    /// The entities of the server the client has a picture of.
    pub open spec fn ids(self) -> Seq<Entity> {
        Seq::new(self.entities.len(), |i: int| self.entities[i].server.0)
    }

    /// Whether the client has a picture of `entity`.
    pub open spec fn has(self, entity: Entity) -> bool {
        self.ids().contains(entity)
    }

    /// The index of the picture of `entity`, where there is one.
    pub open spec fn find(self, entity: Entity) -> int {
        self.ids().index_of(entity)
    }

    /// The client has one picture of an entity at most.
    pub open spec fn wf(self) -> bool {
        self.ids().no_duplicates()
    }

    /// This state with `picture` at index `i`.
    pub open spec fn with_entity(self, i: int, picture: ClientEntityView) -> ClientView {
        ClientView { entities: self.entities.update(i, picture), ..self }
    }

    /// This state with the picture of `entity` changed by `change`, where
    /// there is one.
    pub open spec fn spec_change(
        self,
        entity: Entity,
        change: spec_fn(ClientEntityView) -> ClientEntityView,
    ) -> ClientView {
        if self.has(entity) {
            self.with_entity(self.find(entity), change(self.entities[self.find(entity)]))
        } else {
            self
        }
    }

    /// This state with `picture` for its entity: in the place of the one it
    /// had, else as the last.
    pub open spec fn spec_track(self, picture: ClientEntityView) -> ClientView {
        if self.has(picture.server.0) {
            self.with_entity(self.find(picture.server.0), picture)
        } else {
            ClientView { entities: self.entities.push(picture), ..self }
        }
    }

    /// This state with a blank picture for each of `entities`.
    pub open spec fn spec_track_all(self, entities: Seq<Entity>) -> ClientView
        decreases entities.len(),
    {
        if entities.len() == 0 {
            self
        } else {
            self.spec_track_all(entities.drop_last()).spec_track(spec_blank(entities.last()))
        }
    }

    /// This state without the picture of `entity`.
    pub open spec fn spec_forget(self, entity: Entity) -> ClientView {
        if self.has(entity) {
            ClientView { entities: self.entities.remove(self.find(entity)), ..self }
        } else {
            self
        }
    }

    /// What a client tells the server of where the player stands.
    pub open spec fn spec_sync_movement(self) -> Option<ClientMessages> {
        if self.player_entity is Some && self.has(self.player_entity.unwrap()) {
            let picture = self.entities[self.find(self.player_entity.unwrap())];
            Some(ClientMessages::Move { x: picture.position.x, y: picture.position.y })
        } else {
            None
        }
    }

    /// What a client tells the server when the player picks the picture at
    /// index `picked` as its target: the entity of the server the picture
    /// stands for.
    pub open spec fn spec_sync_target(self, picked: int) -> Option<ClientMessages> {
        if 0 <= picked < self.entities.len() {
            Some(ClientMessages::Target { target: Some(self.entities[picked].server.0) })
        } else {
            None
        }
    }

    /// The state after a message of the server:
    /// - a spawn or a list of entities gives each entity a blank picture;
    /// - a despawn takes the picture of the entity away;
    /// - the details, a move, a vital, a threat table and a combat state
    ///   change the picture of an entity the client has one of, and are
    ///   passed over for any other;
    /// - the player's own entity gets a picture that is marked as the
    ///   player's;
    /// - a change of map puts the player where the server says.
    pub open spec fn spec_apply(self, message: MessageView) -> ClientView {
        match message {
            MessageView::Despawn { entity } => self.spec_forget(entity),
            MessageView::Spawn { entity } => self.spec_track(spec_blank(entity)),
            MessageView::EntityList { entities } => self.spec_track_all(entities),
            MessageView::EntityInfo {
                entity,
                pos,
                name,
                is_player,
                friendly,
                health,
                max_health,
                mana,
                max_mana,
                unit,
                threat,
                interactable,
            } => self.spec_change(
                entity,
                |picture: ClientEntityView|
                    ClientEntityView {
                        position: pos,
                        details: Some(
                            EntityDetailsView {
                                name,
                                unit,
                                health: Health(health),
                                max_health: MaxHealth(max_health),
                                mana: Mana(mana),
                                max_mana: MaxMana(max_mana),
                                threat: match threat {
                                    Some(table) => table,
                                    None => Map::empty(),
                                },
                            },
                        ),
                        player_entity: if is_player {
                            Some(PlayerEntity)
                        } else {
                            picture.player_entity
                        },
                        interactable: if interactable {
                            Some(Interactable)
                        } else {
                            picture.interactable
                        },
                        ..picture
                    },
            ),
            MessageView::Move { entity, pos } => self.spec_change(
                entity,
                |picture: ClientEntityView| ClientEntityView { position: pos, ..picture },
            ),
            MessageView::PlayerInfo { entity, pos, img } => ClientView {
                player_entity: Some(entity),
                ..self.spec_track(
                    ClientEntityView {
                        player: Some(Player),
                        position: pos,
                        ..spec_blank(entity)
                    },
                )
            },
            MessageView::LoadMap { name, position } => if self.player_entity is Some {
                self.spec_change(
                    self.player_entity.unwrap(),
                    |picture: ClientEntityView| ClientEntityView { position, ..picture },
                )
            } else {
                self
            },
            MessageView::Vitals { entity, vital } => self.spec_change(
                entity,
                |picture: ClientEntityView|
                    match vital {
                        Vitals::Health(health) => match picture.details {
                            Some(details) => ClientEntityView {
                                details: Some(
                                    EntityDetailsView { health: Health(health), ..details },
                                ),
                                ..picture
                            },
                            None => picture,
                        },
                        Vitals::Mana(mana) => match picture.details {
                            Some(details) => ClientEntityView {
                                details: Some(EntityDetailsView { mana: Mana(mana), ..details }),
                                ..picture
                            },
                            None => picture,
                        },
                        Vitals::Dead(is_dead) => ClientEntityView {
                            dead: if is_dead {
                                Some(Dead)
                            } else {
                                None
                            },
                            ..picture
                        },
                    },
            ),
            MessageView::Threat { entity, threat } => self.spec_change(
                entity,
                |picture: ClientEntityView|
                    match picture.details {
                        Some(details) => ClientEntityView {
                            details: Some(EntityDetailsView { threat, ..details }),
                            ..picture
                        },
                        None => picture,
                    },
            ),
            MessageView::CombatState { entity, in_combat } => self.spec_change(
                entity,
                |picture: ClientEntityView|
                    ClientEntityView {
                        in_combat: if in_combat {
                            Some(InCombat)
                        } else {
                            None
                        },
                        ..picture
                    },
            ),
            _ => self,
        }
    }
}

/// What the client asks the server after a message: the details of each
/// entity that has just got a blank picture.
pub open spec fn spec_replies(message: MessageView) -> Seq<ClientMessages> {
    match message {
        MessageView::Spawn { entity } => seq![ClientMessages::RequestEntityInfo { entity }],
        MessageView::EntityList { entities } => spec_requests(entities),
        _ => Seq::empty(),
    }
}

/// What a message of the server asks of the client beyond its picture of
/// the world.
pub open spec fn spec_effect(message: MessageView) -> ClientEffectView {
    match message {
        MessageView::LoadMap { name, position } => ClientEffectView::MapChange { map_name: name },
        MessageView::Disconnect { reason } => ClientEffectView::Disconnected { reason },
        MessageView::PlayerError { error } => ClientEffectView::PlayerError { error },
        MessageView::Saying { entity, msg } => ClientEffectView::Saying { entity, msg },
        _ => ClientEffectView::Nothing,
    }
}

/// In a well-formed state an entity finds its one picture.
pub proof fn lemma_find_entity(c: ClientView, i: int)
    requires
        c.wf(),
        0 <= i < c.entities.len(),
    ensures
        c.has(c.entities[i].server.0),
        c.find(c.entities[i].server.0) == i,
{
    assert(c.ids()[i] == c.entities[i].server.0);
}

/// What came of a message of the server.
#[derive(Clone, Debug, PartialEq, Eq)]
pub struct ClientReaction {
    /// What to send to the server.
    pub replies: Vec<ClientMessages>,
    pub effect: ClientEffect,
}

impl ClientState {
    /// A client that knows nothing yet.
    pub fn new() -> (client: ClientState)
        ensures
            client@.wf(),
            client@ == (ClientView { player_entity: None, entities: Seq::empty() }),
    {
        let client = ClientState { player_entity: None, entities: Vec::new() };
        assert(client@.entities =~= Seq::empty());
        client
    }

    /// Whether this state is well-formed.  Every state that the functions
    /// of this crate make is; this is for a state whose fields were set by
    /// hand.
    pub fn is_well_formed(&self) -> (ok: bool)
        ensures
            ok == self@.wf(),
    {
        let mut ids: Vec<u64> = Vec::new();
        let mut i: usize = 0;
        while i < self.entities.len()
            invariant
                i <= self.entities.len(),
                ids@.len() == i,
                forall|k: int|
                    0 <= k < i ==> Entity(ids@[k]) == (#[trigger] self.entities@[k]).server.0,
            decreases self.entities.len() - i,
        {
            let entity: Entity = self.entities[i].server.0;
            ids.push(entity.0);
            i += 1;
        }
        let distinct = all_distinct(&ids);
        proof {
            let c = self@;
            if ids@.no_duplicates() {
                assert forall|a: int, b: int|
                    0 <= a < c.ids().len() && 0 <= b < c.ids().len() && a != b implies c.ids()[a]
                    != c.ids()[b] by {
                    assert(ids@[a] != ids@[b]);
                }
            }
            if c.ids().no_duplicates() {
                assert forall|a: int, b: int|
                    0 <= a < ids@.len() && 0 <= b < ids@.len() && a != b implies ids@[a]
                    != ids@[b] by {
                    assert(c.ids()[a] != c.ids()[b]);
                }
            }
        }
        distinct
    }

    /// The index of the picture of `entity`.
    pub fn index_of(&self, entity: Entity) -> (index: Option<usize>)
        requires
            self@.wf(),
        ensures
            index is Some <==> self@.has(entity),
            index is Some ==> index.unwrap() == self@.find(entity) && index.unwrap()
                < self.entities@.len() && self.entities@[index.unwrap() as int].server.0 == entity,
    {
        let mut i: usize = 0;
        while i < self.entities.len()
            invariant
                i <= self.entities.len(),
                self@.wf(),
                forall|k: int| 0 <= k < i ==> (#[trigger] self.entities@[k]).server.0 != entity,
            decreases self.entities.len() - i,
        {
            if self.entities[i].server.0 == entity {
                proof {
                    lemma_find_entity(self@, i as int);
                }
                return Some(i);
            }
            i += 1;
        }
        proof {
            if self@.has(entity) {
                let k = choose|k: int| 0 <= k < self@.ids().len() && self@.ids()[k] == entity;
                assert(self.entities@[k].server.0 == entity);
            }
        }
        None
    }

    /// Puts `picture` in the place of the one its entity had, else at the
    /// end.
    pub fn track(&mut self, picture: ClientEntity)
        requires
            old(self)@.wf(),
        ensures
            final(self)@.wf(),
            final(self)@ =~= old(self)@.spec_track(picture@),
    {
        match self.index_of(picture.server.0) {
            Some(i) => {
                self.entities[i] = picture;
                proof {
                    assert(self@.ids() =~= old(self)@.ids());
                }
            },
            None => {
                self.entities.push(picture);
                proof {
                    assert(self@.ids() =~= old(self)@.ids().push(picture.server.0));
                }
            },
        }
    }

    /// Takes the picture of `entity` away.
    pub fn forget(&mut self, entity: Entity)
        requires
            old(self)@.wf(),
        ensures
            final(self)@.wf(),
            final(self)@ =~= old(self)@.spec_forget(entity),
    {
        if let Some(i) = self.index_of(entity) {
            self.entities.remove(i);
            proof {
                let before = old(self)@;
                assert(self@.ids() =~= before.ids().remove(i as int));
                assert forall|a: int, b: int|
                    0 <= a < self@.ids().len() && 0 <= b < self@.ids().len() && a
                        != b implies self@.ids()[a] != self@.ids()[b] by {
                    let a0 = if a < i {
                        a
                    } else {
                        a + 1
                    };
                    let b0 = if b < i {
                        b
                    } else {
                        b + 1
                    };
                    assert(self@.ids()[a] == before.ids()[a0]);
                    assert(self@.ids()[b] == before.ids()[b0]);
                }
            }
        }
    }

    /// Takes in one message of the server.  Tells what to send back, and
    /// what else the message asks for.
    pub fn apply(&mut self, message: &ServerMessages) -> (reaction: ClientReaction)
        requires
            old(self)@.wf(),
        ensures
            final(self)@.wf(),
            final(self)@ =~= old(self)@.spec_apply(message@),
            reaction.replies@ == spec_replies(message@),
            reaction.effect@ == spec_effect(message@),
    {
        let mut replies: Vec<ClientMessages> = Vec::new();
        let mut effect = ClientEffect::Nothing;
        match message {
            ServerMessages::Despawn { entity } => {
                self.forget(*entity);
            },
            ServerMessages::Spawn { entity } => {
                self.track(blank(*entity));
                replies.push(ClientMessages::RequestEntityInfo { entity: *entity });
            },
            ServerMessages::EntityList { entities } => {
                let mut i: usize = 0;
                while i < entities.len()
                    invariant
                        i <= entities.len(),
                        self@.wf(),
                        self@ == old(self)@.spec_track_all(entities@.take(i as int)),
                        replies@ == spec_requests(entities@.take(i as int)),
                    decreases entities.len() - i,
                {
                    proof {
                        assert(entities@.take(i + 1).drop_last() == entities@.take(i as int));
                    }
                    self.track(blank(entities[i]));
                    replies.push(ClientMessages::RequestEntityInfo { entity: entities[i] });
                    proof {
                        assert(replies@ =~= spec_requests(entities@.take(i + 1)));
                    }
                    i += 1;
                }
                proof {
                    assert(entities@.take(i as int) == entities@);
                }
            },
            ServerMessages::EntityInfo {
                entity,
                pos,
                name,
                is_player,
                friendly,
                health,
                max_health,
                mana,
                max_mana,
                unit,
                threat,
                interactable,
            } => {
                if let Some(i) = self.index_of(*entity) {
                    self.entities[i].position = *pos;
                    self.entities[i].details = Some(
                        EntityDetails {
                            name: name.clone(),
                            unit: unit.clone(),
                            health: Health(*health),
                            max_health: MaxHealth(*max_health),
                            mana: Mana(*mana),
                            max_mana: MaxMana(*max_mana),
                            threat: match threat {
                                Some(table) => table.clone(),
                                None => ThreatMap::new(),
                            },
                        },
                    );
                    if *is_player {
                        self.entities[i].player_entity = Some(PlayerEntity);
                    }
                    if *interactable {
                        self.entities[i].interactable = Some(Interactable);
                    }
                    proof {
                        assert(self@.ids() =~= old(self)@.ids());
                    }
                }
            },
            ServerMessages::Move { entity, pos } => {
                if let Some(i) = self.index_of(*entity) {
                    self.entities[i].position = *pos;
                    proof {
                        assert(self@.ids() =~= old(self)@.ids());
                    }
                }
            },
            ServerMessages::PlayerInfo { entity, pos, img } => {
                let mut picture = blank(*entity);
                picture.player = Some(Player);
                picture.position = *pos;
                self.track(picture);
                self.player_entity = Some(*entity);
                proof {
                    assert(self@.ids() =~= old(self)@.spec_track(picture@).ids());
                }
            },
            ServerMessages::LoadMap { name, position } => {
                effect = ClientEffect::MapChange(MapChangeEvent { map_name: name.clone() });
                if let Some(player) = self.player_entity {
                    if let Some(i) = self.index_of(player) {
                        self.entities[i].position = *position;
                        proof {
                            assert(self@.ids() =~= old(self)@.ids());
                        }
                    }
                }
            },
            ServerMessages::Vitals { entity, vital } => {
                if let Some(i) = self.index_of(*entity) {
                    match vital {
                        Vitals::Health(health) => {
                            match &mut self.entities[i].details {
                                Some(details) => {
                                    details.health = Health(*health);
                                },
                                None => {},
                            }
                        },
                        Vitals::Mana(mana) => {
                            match &mut self.entities[i].details {
                                Some(details) => {
                                    details.mana = Mana(*mana);
                                },
                                None => {},
                            }
                        },
                        Vitals::Dead(is_dead) => {
                            if *is_dead {
                                self.entities[i].dead = Some(Dead);
                            } else {
                                self.entities[i].dead = None;
                            }
                        },
                    }
                    proof {
                        assert(self@.ids() =~= old(self)@.ids());
                    }
                }
            },
            ServerMessages::Threat { entity, threat } => {
                if let Some(i) = self.index_of(*entity) {
                    match &mut self.entities[i].details {
                        Some(details) => {
                            details.threat = threat.clone();
                        },
                        None => {},
                    }
                    proof {
                        assert(self@.ids() =~= old(self)@.ids());
                    }
                }
            },
            ServerMessages::CombatState { entity, in_combat } => {
                if let Some(i) = self.index_of(*entity) {
                    if *in_combat {
                        self.entities[i].in_combat = Some(InCombat);
                    } else {
                        self.entities[i].in_combat = None;
                    }
                    proof {
                        assert(self@.ids() =~= old(self)@.ids());
                    }
                }
            },
            ServerMessages::Disconnect { reason } => {
                effect = ClientEffect::Disconnected { reason: *reason };
            },
            ServerMessages::PlayerError { error } => {
                effect = ClientEffect::PlayerError { error: *error };
            },
            ServerMessages::Saying { entity, msg } => {
                effect = ClientEffect::Saying { entity: *entity, msg: msg.clone() };
            },
        }
        ClientReaction { replies, effect }
    }

    /// What to tell the server of where the player stands: its place on
    /// the ground, once the client has a picture of its player.
    pub fn sync_movement(&self) -> (message: Option<ClientMessages>)
        requires
            self@.wf(),
        ensures
            message == self@.spec_sync_movement(),
    {
        match self.player_entity {
            Some(player) => match self.index_of(player) {
                Some(i) => Some(
                    ClientMessages::Move {
                        x: self.entities[i].position.x,
                        y: self.entities[i].position.y,
                    },
                ),
                None => None,
            },
            None => None,
        }
    }

    /// What to tell the server when the player picks the picture at index
    /// `picked` as its target.
    pub fn sync_target(&self, picked: usize) -> (message: Option<ClientMessages>)
        ensures
            message == self@.spec_sync_target(picked as int),
    {
        if picked < self.entities.len() {
            Some(ClientMessages::Target { target: Some(self.entities[picked].server.0) })
        } else {
            None
        }
    }

    /// Takes in the messages of the server, one after the other.  Tells
    /// what to send back, and what else each message asks for.
    pub fn handle_server_messages(&mut self, messages: &Vec<ServerMessages>) -> (reactions: Vec<
        ClientReaction,
    >)
        requires
            old(self)@.wf(),
        ensures
            final(self)@.wf(),
            final(self)@ == spec_handle_server_messages(old(self)@, messages@),
            reactions@.len() == messages@.len(),
            forall|i: int|
                0 <= i < messages@.len() ==> (#[trigger] reactions@[i]).replies@ == spec_replies(
                    messages@[i]@,
                ) && reactions@[i].effect@ == spec_effect(messages@[i]@),
    {
        let mut reactions: Vec<ClientReaction> = Vec::new();
        let mut i: usize = 0;
        while i < messages.len()
            invariant
                i <= messages.len(),
                self@.wf(),
                self@ == spec_handle_server_messages(old(self)@, messages@.take(i as int)),
                reactions@.len() == i,
                forall|k: int|
                    0 <= k < i ==> (#[trigger] reactions@[k]).replies@ == spec_replies(
                        messages@[k]@,
                    ) && reactions@[k].effect@ == spec_effect(messages@[k]@),
            decreases messages.len() - i,
        {
            proof {
                assert(messages@.take(i + 1).drop_last() == messages@.take(i as int));
            }
            let reaction = self.apply(&messages[i]);
            reactions.push(reaction);
            i += 1;
        }
        proof {
            assert(messages@.take(i as int) == messages@);
        }
        reactions
    }
}

/// The state of a client after the messages of the server, one after the
/// other.
pub open spec fn spec_handle_server_messages(client: ClientView, messages: Seq<ServerMessages>) -> ClientView
    decreases messages.len(),
{
    if messages.len() == 0 {
        client
    } else {
        spec_handle_server_messages(client, messages.drop_last()).spec_apply(messages.last()@)
    }
}

/// The picture of an entity of which nothing is known yet.
pub fn blank(entity: Entity) -> (picture: ClientEntity)
    ensures
        picture@ == spec_blank(entity),
        picture.server.0 == entity,
{
    ClientEntity {
        server: ServerSideEntity(entity),
        player: None,
        position: Position::new(0, 0, 0),
        details: None,
        player_entity: None,
        interactable: None,
        dead: None,
        in_combat: None,
    }
}

/// The answer to a request for details puts the client in step with the
/// server: a client that has a picture of a unit and takes in the server's
/// answer holds the name, the kind, the vitals, the threat table and the
/// position that the unit has on the server.
pub proof fn lemma_entity_info_mirrors(w: WorldView, c: ClientView, evt: SendEntityInfoEvent)
    requires
        w.wf(),
        c.wf(),
        w.has(evt.entity),
        c.has(evt.entity),
    ensures
        ({
            let unit = w.units[w.find(evt.entity)];
            let table = w.threats[w.find(evt.entity)];
            let answer = w.entity_info_message(evt).unwrap().message;
            let picture = c.spec_apply(answer).entities[c.find(evt.entity)];
            &&& picture.server.0 == evt.entity
            &&& picture.position == unit.position
            &&& picture.details == Some(
                EntityDetailsView {
                    name: unit.name.0@,
                    unit: unit.class@,
                    health: unit.health,
                    max_health: unit.max_health,
                    mana: unit.mana,
                    max_mana: unit.max_mana,
                    threat: match table {
                        Some(scores) => scores,
                        None => Map::empty(),
                    },
                },
            )
            &&& unit.player is Some ==> picture.player_entity is Some
            &&& unit.interactable is Some ==> picture.interactable is Some
        }),
{
    let i = c.find(evt.entity);
    assert(0 <= i < c.entities.len() && c.entities[i].server.0 == evt.entity) by {
        assert(c.ids()[i] == evt.entity);
    }
}

/// A client that is told of a spawn and then of the despawn of the same
/// entity is where it was, as far as that entity goes: it has no picture of
/// it.
pub proof fn lemma_despawn_undoes_spawn(c: ClientView, entity: Entity)
    requires
        c.wf(),
    ensures
        !c.spec_apply(MessageView::Spawn { entity }).spec_apply(
            MessageView::Despawn { entity },
        ).has(entity),
        !c.has(entity) ==> c.spec_apply(MessageView::Spawn { entity }).spec_apply(
            MessageView::Despawn { entity },
        ) == c,
{
    let spawned = c.spec_apply(MessageView::Spawn { entity });
    if c.has(entity) {
        let i = c.find(entity);
        assert(c.ids()[i] == entity);
        assert(spawned.ids() =~= c.ids());
        let after = spawned.spec_forget(entity);
        assert(after.ids() =~= c.ids().remove(i));
        if after.has(entity) {
            let k = choose|k: int| 0 <= k < after.ids().len() && after.ids()[k] == entity;
            let k0 = if k < i {
                k
            } else {
                k + 1
            };
            assert(c.ids()[k0] == entity);
        }
    } else {
        let n = c.entities.len() as int;
        assert(spawned.ids() =~= c.ids().push(entity));
        assert(spawned.ids()[n] == entity);
        assert(spawned.has(entity));
        let i = spawned.find(entity);
        assert(i == n) by {
            if i != n {
                assert(c.ids()[i] == entity);
            }
        }
        let after = spawned.spec_forget(entity);
        assert(after.entities =~= c.entities);
        assert(after.ids() =~= c.ids());
    }
}

/// What to tell the server when the player lets go of its target.
pub fn sync_target_deselect() -> (message: ClientMessages)
    ensures
        message == (ClientMessages::Target { target: None }),
{
    ClientMessages::Target { target: None }
}

} // verus!
