use tiled_game::client::{
    blank, ClientEffect, ClientEntity, ClientState, EntityDetails, MapChangeEvent, PlayerEntity,
    ServerSideEntity,
};
use tiled_game::components::{
    Dead, Entity, Health, InCombat, Interactable, Mana, MaxHealth, MaxMana, Threat, ThreatMap,
};
use tiled_game::game::combat::DoDamageEvent;
use tiled_game::game::map::{MapObject, ObjectShape, TileMapData};
use tiled_game::game::player::PlayerProfile;
use tiled_game::game::world::World;
use tiled_game::math::Position;
use tiled_game::network::messages::client::ClientMessages;
use tiled_game::network::messages::server::{
    DisconnectionReason, PlayerErrorMessage, ServerMessages, Vitals,
};
use tiled_game::network::server::{ClientMessage, ServerEvent};
use tiled_game::shared_components::Player;

const A: Entity = Entity(10);
const B: Entity = Entity(11);
const C: Entity = Entity(12);

fn info(entity: Entity, health: i32, threat: Option<ThreatMap>) -> ServerMessages {
    ServerMessages::EntityInfo {
        entity,
        pos: Position::new(1, 2, 3),
        name: "Wolf".to_string(),
        is_player: false,
        friendly: true,
        health,
        max_health: 5,
        mana: 4,
        max_mana: 6,
        unit: "wolf".to_string(),
        threat,
        interactable: true,
    }
}

fn ids(client: &ClientState) -> Vec<Entity> {
    client.entities.iter().map(|picture| picture.server.0).collect()
}

#[test]
fn a_new_client_knows_nothing() {
    let client = ClientState::new();
    assert_eq!(client.player_entity, None);
    assert!(client.entities.is_empty());
    assert_eq!(client.index_of(A), None);
}

#[test]
fn a_blank_picture() {
    assert_eq!(
        blank(A),
        ClientEntity {
            server: ServerSideEntity(A),
            player: None,
            position: Position::new(0, 0, 0),
            details: None,
            player_entity: None,
            interactable: None,
            dead: None,
            in_combat: None,
        }
    );
}

#[test]
fn a_spawn_is_pictured_and_asked_about() {
    let mut client = ClientState::new();
    let reaction = client.apply(&ServerMessages::Spawn { entity: A });
    assert_eq!(reaction.replies, vec![ClientMessages::RequestEntityInfo { entity: A }]);
    assert_eq!(reaction.effect, ClientEffect::Nothing);
    assert_eq!(client.entities, vec![blank(A)]);
    // A second spawn of the same entity starts its picture over.
    client.apply(&info(A, 5, None));
    let reaction = client.apply(&ServerMessages::Spawn { entity: A });
    assert_eq!(reaction.replies.len(), 1);
    assert_eq!(client.entities, vec![blank(A)]);
}

#[test]
fn an_entity_list_is_pictured_and_asked_about_in_order() {
    let mut client = ClientState::new();
    client.apply(&ServerMessages::Spawn { entity: B });
    let reaction = client.apply(&ServerMessages::EntityList { entities: vec![C, B, A] });
    assert_eq!(
        reaction.replies,
        vec![
            ClientMessages::RequestEntityInfo { entity: C },
            ClientMessages::RequestEntityInfo { entity: B },
            ClientMessages::RequestEntityInfo { entity: A },
        ]
    );
    assert_eq!(ids(&client), vec![B, C, A]);
}

#[test]
fn a_despawn_takes_the_picture_away() {
    let mut client = ClientState::new();
    client.apply(&ServerMessages::EntityList { entities: vec![A, B, C] });
    let reaction = client.apply(&ServerMessages::Despawn { entity: B });
    assert!(reaction.replies.is_empty());
    assert_eq!(ids(&client), vec![A, C]);
    client.apply(&ServerMessages::Despawn { entity: B });
    assert_eq!(ids(&client), vec![A, C]);
}

#[test]
fn details_fill_the_picture_of_a_known_entity() {
    let mut client = ClientState::new();
    client.apply(&ServerMessages::Spawn { entity: A });
    let mut threat = Threat::new();
    threat.add(B, 102);
    let reaction = client.apply(&info(A, 3, Some(threat.0.clone())));
    assert!(reaction.replies.is_empty());
    assert_eq!(
        client.entities,
        vec![ClientEntity {
            server: ServerSideEntity(A),
            player: None,
            position: Position::new(1, 2, 3),
            details: Some(EntityDetails {
                name: "Wolf".to_string(),
                unit: "wolf".to_string(),
                health: Health(3),
                max_health: MaxHealth(5),
                mana: Mana(4),
                max_mana: MaxMana(6),
                threat: threat.0,
            }),
            player_entity: None,
            interactable: Some(Interactable),
            dead: None,
            in_combat: None,
        }]
    );
}

#[test]
fn details_without_a_table_give_an_empty_one() {
    let mut client = ClientState::new();
    client.apply(&ServerMessages::Spawn { entity: A });
    client.apply(&info(A, 3, None));
    assert_eq!(client.entities[0].details.as_ref().unwrap().threat, ThreatMap::new());
}

#[test]
fn details_of_another_player_mark_the_picture() {
    let mut client = ClientState::new();
    client.apply(&ServerMessages::Spawn { entity: A });
    client.apply(&ServerMessages::EntityInfo {
        entity: A,
        pos: Position::new(0, 0, 0),
        name: "Ann".to_string(),
        is_player: true,
        friendly: false,
        health: 5,
        max_health: 5,
        mana: 5,
        max_mana: 5,
        unit: "knight".to_string(),
        threat: None,
        interactable: false,
    });
    assert_eq!(client.entities[0].player_entity, Some(PlayerEntity));
    assert_eq!(client.entities[0].interactable, None);
}

#[test]
fn news_of_an_unknown_entity_is_passed_over() {
    let mut client = ClientState::new();
    client.apply(&ServerMessages::Spawn { entity: A });
    for message in [
        info(B, 3, None),
        ServerMessages::Move { entity: B, pos: Position::new(9, 9, 9) },
        ServerMessages::Vitals { entity: B, vital: Vitals::Dead(true) },
        ServerMessages::Threat { entity: B, threat: ThreatMap::new() },
        ServerMessages::CombatState { entity: B, in_combat: true },
    ] {
        let reaction = client.apply(&message);
        assert!(reaction.replies.is_empty());
        assert_eq!(reaction.effect, ClientEffect::Nothing);
        assert_eq!(client.entities, vec![blank(A)]);
    }
}

#[test]
fn a_move_changes_the_position() {
    let mut client = ClientState::new();
    client.apply(&ServerMessages::EntityList { entities: vec![A, B] });
    client.apply(&ServerMessages::Move { entity: B, pos: Position::new(7, 8, 9) });
    assert_eq!(client.entities[0].position, Position::new(0, 0, 0));
    assert_eq!(client.entities[1].position, Position::new(7, 8, 9));
}

#[test]
fn vitals_change_the_picture() {
    let mut client = ClientState::new();
    client.apply(&ServerMessages::Spawn { entity: A });
    client.apply(&info(A, 5, None));
    client.apply(&ServerMessages::Vitals { entity: A, vital: Vitals::Health(-2) });
    client.apply(&ServerMessages::Vitals { entity: A, vital: Vitals::Mana(1) });
    client.apply(&ServerMessages::Vitals { entity: A, vital: Vitals::Dead(true) });
    let details = client.entities[0].details.as_ref().unwrap();
    assert_eq!(details.health, Health(-2));
    assert_eq!(details.mana, Mana(1));
    assert_eq!(details.max_health, MaxHealth(5));
    assert_eq!(client.entities[0].dead, Some(Dead));
    client.apply(&ServerMessages::Vitals { entity: A, vital: Vitals::Dead(false) });
    assert_eq!(client.entities[0].dead, None);
}

#[test]
fn death_is_pictured_before_the_details_are_known() {
    let mut client = ClientState::new();
    client.apply(&ServerMessages::Spawn { entity: A });
    client.apply(&ServerMessages::Vitals { entity: A, vital: Vitals::Health(1) });
    client.apply(&ServerMessages::Vitals { entity: A, vital: Vitals::Dead(true) });
    assert_eq!(client.entities[0].details, None);
    assert_eq!(client.entities[0].dead, Some(Dead));
}

#[test]
fn threat_and_combat_state_change_the_picture() {
    let mut client = ClientState::new();
    client.apply(&ServerMessages::Spawn { entity: A });
    client.apply(&info(A, 5, None));
    let mut threat = Threat::new();
    threat.add(C, 100);
    client.apply(&ServerMessages::Threat { entity: A, threat: threat.0.clone() });
    client.apply(&ServerMessages::CombatState { entity: A, in_combat: true });
    assert_eq!(client.entities[0].details.as_ref().unwrap().threat, threat.0);
    assert_eq!(client.entities[0].in_combat, Some(InCombat));
    client.apply(&ServerMessages::CombatState { entity: A, in_combat: false });
    assert_eq!(client.entities[0].in_combat, None);
}

#[test]
fn the_own_player_is_pictured_and_remembered() {
    let mut client = ClientState::new();
    let reaction = client.apply(&ServerMessages::PlayerInfo {
        entity: A,
        pos: Position::new(5, 6, 7),
        img: "hero".to_string(),
    });
    assert!(reaction.replies.is_empty());
    assert_eq!(client.player_entity, Some(A));
    assert_eq!(client.entities.len(), 1);
    assert_eq!(client.entities[0].player, Some(Player));
    assert_eq!(client.entities[0].position, Position::new(5, 6, 7));
}

#[test]
fn a_change_of_map_moves_the_player_and_asks_for_the_map() {
    let mut client = ClientState::new();
    let change = ServerMessages::LoadMap {
        name: "field.tmx".to_string(),
        position: Position::new(1, 1, 1),
    };
    let reaction = client.apply(&change);
    assert_eq!(
        reaction.effect,
        ClientEffect::MapChange(MapChangeEvent { map_name: "field.tmx".to_string() })
    );
    assert!(client.entities.is_empty());
    client.apply(&ServerMessages::PlayerInfo {
        entity: A,
        pos: Position::new(0, 0, 0),
        img: "hero".to_string(),
    });
    client.apply(&ServerMessages::Spawn { entity: B });
    client.apply(&change);
    assert_eq!(client.entities[0].position, Position::new(1, 1, 1));
    assert_eq!(client.entities[1].position, Position::new(0, 0, 0));
}

#[test]
fn the_rest_is_handed_to_the_caller() {
    let mut client = ClientState::new();
    assert_eq!(
        client
            .apply(&ServerMessages::Disconnect { reason: DisconnectionReason::Kicked })
            .effect,
        ClientEffect::Disconnected { reason: DisconnectionReason::Kicked }
    );
    assert_eq!(
        client
            .apply(&ServerMessages::PlayerError { error: PlayerErrorMessage::ManaTooLow })
            .effect,
        ClientEffect::PlayerError { error: PlayerErrorMessage::ManaTooLow }
    );
    assert_eq!(
        client.apply(&ServerMessages::Saying { entity: A, msg: "Hi".to_string() }).effect,
        ClientEffect::Saying { entity: A, msg: "Hi".to_string() }
    );
    assert!(client.entities.is_empty());
}

#[test]
fn messages_are_taken_in_one_after_the_other() {
    let mut client = ClientState::new();
    let reactions = client.handle_server_messages(&vec![
        ServerMessages::Spawn { entity: A },
        info(A, 2, None),
        ServerMessages::Despawn { entity: A },
        ServerMessages::Move { entity: A, pos: Position::new(1, 1, 1) },
        ServerMessages::Spawn { entity: B },
    ]);
    assert_eq!(reactions.len(), 5);
    assert_eq!(reactions[0].replies, vec![ClientMessages::RequestEntityInfo { entity: A }]);
    assert!(reactions[1].replies.is_empty());
    assert_eq!(reactions[4].replies, vec![ClientMessages::RequestEntityInfo { entity: B }]);
    assert_eq!(client.entities, vec![blank(B)]);
}

#[test]
fn a_client_that_follows_the_protocol_mirrors_the_server() {
    let atlas = vec![TileMapData {
        name: "start.tmx".to_string(),
        pixel_height: 0,
        properties: vec![],
        objects: vec![MapObject {
            name: "Wolf".to_string(),
            user_type: "wolf".to_string(),
            shape: ObjectShape::Point,
            x: 40_000,
            y: 0,
            properties: vec![],
        }],
    }];
    let mut world = World::startup(atlas, PlayerProfile::new()).unwrap();
    let mut client = ClientState::new();
    let mut inbound: Vec<ClientMessage> = vec![];
    let mut connections = vec![ServerEvent::ClientConnected { client_id: 1 }];
    let mut damage: Vec<DoDamageEvent> = vec![];
    for round in 0..4 {
        if round == 2 {
            let wolf = world.units.iter().find(|unit| unit.npc.is_some()).unwrap().entity;
            damage.push(DoDamageEvent::new(client.player_entity.unwrap(), wolf, 2));
        }
        let out = world.tick(16_000_000, &connections, &inbound, &damage, &vec![]);
        connections.clear();
        inbound.clear();
        damage.clear();
        for event in out {
            if world.recipients(&event.scope).contains(&1) {
                for reply in client.apply(&event.message).replies {
                    inbound.push(ClientMessage { client_id: 1, message: reply });
                }
            }
        }
    }
    let wolf = world.units.iter().find(|unit| unit.npc.is_some()).unwrap();
    let picture = &client.entities[client.index_of(wolf.entity).unwrap()];
    let details = picture.details.as_ref().unwrap();
    assert_eq!(details.name, wolf.name.0);
    assert_eq!(details.health, Health(3));
    assert_eq!(details.health, wolf.health);
    assert_eq!(picture.in_combat, wolf.in_combat);
    assert_eq!(picture.in_combat, Some(InCombat));
    assert_eq!(picture.position, wolf.position);
    assert_eq!(details.threat, world.threat(wolf.entity).unwrap().0);
}
