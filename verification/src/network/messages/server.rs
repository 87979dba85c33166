//! What the server tells its clients.

use vstd::prelude::*;
use crate::components::{Entity, ThreatMap};
use crate::math::Position;

verus! {

/// One of the vital signs of a unit.
#[derive(Clone, Copy, Debug, PartialEq, Eq, Structural)]
pub enum Vitals {
    Health(i32),
    Mana(i32),
    Dead(bool),
}

/// Why the server ends a connection.
#[derive(Clone, Copy, Debug, PartialEq, Eq, Structural)]
pub enum DisconnectionReason {
    ServerShutdown,
    ServerRestart,
    Kicked,
    Banned,
}

/// Why an action of a player had no effect.
#[derive(Clone, Copy, Debug, PartialEq, Eq, Structural)]
pub enum PlayerErrorMessage {
    TooFarAway,
    ManaTooLow,
    Unusable,
}

/// A message to a client.
#[derive(Clone, Debug, PartialEq, Eq)]
pub enum ServerMessages {
    Disconnect { reason: DisconnectionReason },
    /// Makes the client load a map and stand at `position`.
    LoadMap { name: String, position: Position },
    /// An entity has left the client's map instance.
    Despawn { entity: Entity },
    /// An entity has entered the client's map instance.
    Spawn { entity: Entity },
    /// The entities of the map instance the client has just entered.  The
    /// client asks for the details of those it does not know.
    EntityList { entities: Vec<Entity> },
    /// Everything a client shows of a unit.
    EntityInfo {
        entity: Entity,
        pos: Position,
        name: String,
        is_player: bool,
        friendly: bool,
        health: i32,
        max_health: i32,
        mana: i32,
        max_mana: i32,
        unit: String,
        threat: Option<ThreatMap>,
        interactable: bool,
    },
    Move { entity: Entity, pos: Position },
    Vitals { entity: Entity, vital: Vitals },
    /// Tells a client which entity it plays.
    PlayerInfo { entity: Entity, pos: Position, img: String },
    Threat { entity: Entity, threat: ThreatMap },
    CombatState { entity: Entity, in_combat: bool },
    PlayerError { error: PlayerErrorMessage },
    Saying { entity: Entity, msg: String },
}

/// A message to a client as contracts see it: strings by their characters,
/// lists and tables by what they hold.
pub enum MessageView {
    Disconnect { reason: DisconnectionReason },
    LoadMap { name: Seq<char>, position: Position },
    Despawn { entity: Entity },
    Spawn { entity: Entity },
    EntityList { entities: Seq<Entity> },
    EntityInfo {
        entity: Entity,
        pos: Position,
        name: Seq<char>,
        is_player: bool,
        friendly: bool,
        health: i32,
        max_health: i32,
        mana: i32,
        max_mana: i32,
        unit: Seq<char>,
        threat: Option<Map<Entity, i32>>,
        interactable: bool,
    },
    Move { entity: Entity, pos: Position },
    Vitals { entity: Entity, vital: Vitals },
    PlayerInfo { entity: Entity, pos: Position, img: Seq<char> },
    Threat { entity: Entity, threat: Map<Entity, i32> },
    CombatState { entity: Entity, in_combat: bool },
    PlayerError { error: PlayerErrorMessage },
    Saying { entity: Entity, msg: Seq<char> },
}

impl View for ServerMessages {
    type V = MessageView;

    open spec fn view(&self) -> MessageView {
        match *self {
            ServerMessages::Disconnect { reason } => MessageView::Disconnect { reason },
            ServerMessages::LoadMap { name, position } => MessageView::LoadMap { name: name@, position },
            ServerMessages::Despawn { entity } => MessageView::Despawn { entity },
            ServerMessages::Spawn { entity } => MessageView::Spawn { entity },
            ServerMessages::EntityList { entities } => MessageView::EntityList {
                entities: entities@,
            },
            ServerMessages::EntityInfo {
                entity,
                pos,
                name,
                is_player,
                friendly,
                health,
                max_health,
                mana,
                max_mana,
                unit,
                threat,
                interactable,
            } => MessageView::EntityInfo {
                entity,
                pos,
                name: name@,
                is_player,
                friendly,
                health,
                max_health,
                mana,
                max_mana,
                unit: unit@,
                threat: match threat {
                    Some(table) => Some(table@),
                    None => None,
                },
                interactable,
            },
            ServerMessages::Move { entity, pos } => MessageView::Move { entity, pos },
            ServerMessages::Vitals { entity, vital } => MessageView::Vitals { entity, vital },
            ServerMessages::PlayerInfo { entity, pos, img } => MessageView::PlayerInfo {
                entity,
                pos,
                img: img@,
            },
            ServerMessages::Threat { entity, threat } => MessageView::Threat {
                entity,
                threat: threat@,
            },
            ServerMessages::CombatState { entity, in_combat } => MessageView::CombatState {
                entity,
                in_combat,
            },
            ServerMessages::PlayerError { error } => MessageView::PlayerError { error },
            ServerMessages::Saying { entity, msg } => MessageView::Saying { entity, msg: msg@ },
        }
    }
}

} // verus!
