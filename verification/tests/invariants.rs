use tiled_game::client::{sync_target_deselect, ClientState};
use tiled_game::components::{Entity, InCombat, Threat};
use tiled_game::game::combat::{DoDamageEvent, AGGRO_THREAT, COMBAT_RANGE, MAX_DISTANCE};
use tiled_game::game::map::{
    MapObject, ObjectShape, Property, PropertyValue, Teleport, TileMapData,
};
use tiled_game::game::player::PlayerProfile;
use tiled_game::game::world::{all_distinct, World};
use tiled_game::math::Position;
use tiled_game::network::messages::client::ClientMessages;
use tiled_game::network::messages::server::ServerMessages;
use tiled_game::network::server::{ClientMessage, ServerEvent};
use tiled_game::network::{
    client_connection_config, server_connection_config, ChannelConfig, ClientChannel,
    ServerChannel,
};

/// A small generator of numbers that look random and are the same on every
/// run.
struct Dice(u64);

impl Dice {
    fn roll(&mut self, sides: u64) -> u64 {
        self.0 = self.0.wrapping_mul(6364136223846793005).wrapping_add(1442695040888963407);
        (self.0 >> 33) % sides
    }
}

fn creature(name: &str, x: i32, y: i32, enemy: bool) -> MapObject {
    MapObject {
        name: name.to_string(),
        user_type: "wolf".to_string(),
        shape: ObjectShape::Point,
        x,
        y,
        properties: vec![Property {
            name: "enemy".to_string(),
            value: PropertyValue::BoolValue(enemy),
        }],
    }
}

fn atlas() -> Vec<TileMapData> {
    vec![
        TileMapData {
            name: "start.tmx".to_string(),
            pixel_height: 0,
            properties: vec![Property {
                name: "global_instance".to_string(),
                value: PropertyValue::BoolValue(true),
            }],
            objects: vec![
                creature("Wolf", 50_000, 0, true),
                creature("Bear", -80_000, 0, true),
                creature("Deer", 0, -40_000, false),
            ],
        },
        TileMapData {
            name: "cave.tmx".to_string(),
            pixel_height: 0,
            properties: vec![],
            objects: vec![creature("Bat", 10_000, -10_000, true)],
        },
    ]
}

fn combat_consistent(world: &World) -> bool {
    world.units.len() == world.threats.len()
        && world.units.iter().zip(world.threats.iter()).all(|(unit, threat)| {
            unit.in_combat.is_some() == threat.as_ref().map_or(false, |table| !table.is_empty())
        })
}

#[test]
fn constants_of_combat() {
    assert_eq!(COMBAT_RANGE, 20);
    assert_eq!(MAX_DISTANCE, 300);
    assert_eq!(AGGRO_THREAT, 100);
}

#[test]
fn the_threat_invariant_holds_under_many_events() {
    let mut dice = Dice(7);
    let mut world = World::startup(atlas(), PlayerProfile::new()).unwrap();
    let mut connected: Vec<u64> = vec![];
    for round in 0..400u64 {
        let mut connections = vec![];
        let mut messages = vec![];
        let mut damage = vec![];
        let mut teleports = vec![];
        match dice.roll(10) {
            0 if connected.len() < 6 => {
                connected.push(round);
                connections.push(ServerEvent::ClientConnected { client_id: round });
            }
            1 if !connected.is_empty() => {
                let gone = connected.remove(dice.roll(connected.len() as u64) as usize);
                connections.push(ServerEvent::ClientDisconnected { client_id: gone });
            }
            _ => {}
        }
        let ids: Vec<Entity> = world.units.iter().map(|unit| unit.entity).collect();
        if !ids.is_empty() {
            for _ in 0..dice.roll(4) {
                let origin = ids[dice.roll(ids.len() as u64) as usize];
                let receiver = ids[dice.roll(ids.len() as u64) as usize];
                damage.push(DoDamageEvent::new(origin, receiver, dice.roll(4) as i32));
            }
            if dice.roll(6) == 0 {
                let map = if dice.roll(2) == 0 { "start.tmx" } else { "cave.tmx" };
                teleports.push(Teleport {
                    entity: ids[dice.roll(ids.len() as u64) as usize],
                    map: map.to_string(),
                    map_instance: None,
                    prev_map_instance: None,
                    position: Position::new(0, 0, 0),
                });
            }
        }
        for client_id in connected.iter() {
            if dice.roll(3) == 0 {
                let x = dice.roll(800_000) as i32 - 400_000;
                let y = dice.roll(800_000) as i32 - 400_000;
                messages.push(ClientMessage {
                    client_id: *client_id,
                    message: ClientMessages::Move { x, y },
                });
            }
        }
        let delta = 16_000_000 + dice.roll(3) * 500_000_000;
        world.tick(delta, &connections, &messages, &damage, &teleports);
        assert!(world.is_well_formed(), "round {}", round);
        assert!(combat_consistent(&world), "round {}", round);
        for unit in world.units.iter() {
            assert!(!(unit.dead.is_some() && unit.in_combat.is_some()), "round {}", round);
        }
    }
    // The run was long enough to see fights and deaths.
    assert!(world.units.iter().any(|unit| unit.dead.is_some()));
}

#[test]
fn worlds_made_by_the_crate_are_well_formed() {
    let mut world = World::new(vec![], PlayerProfile::new());
    assert!(world.is_well_formed());
    world = World::startup(atlas(), PlayerProfile::new()).unwrap();
    assert!(world.is_well_formed());
    world.intake(
        &vec![
            ServerEvent::ClientConnected { client_id: 1 },
            ServerEvent::ClientConnected { client_id: 2 },
        ],
        &vec![],
        &vec![],
    );
    assert!(world.is_well_formed());
}

#[test]
fn worlds_out_of_order_are_found_out() {
    let fresh = || {
        let mut world = World::startup(atlas(), PlayerProfile::new()).unwrap();
        world.intake(
            &vec![
                ServerEvent::ClientConnected { client_id: 1 },
                ServerEvent::ClientConnected { client_id: 2 },
            ],
            &vec![],
            &vec![],
        );
        world
    };
    let mut world = fresh();
    world.threats.pop();
    assert!(!world.is_well_formed());
    let mut world = fresh();
    world.units[1].entity = world.units[0].entity;
    assert!(!world.is_well_formed());
    let mut world = fresh();
    world.units[0].entity = world.maps.instances[0].entity;
    assert!(!world.is_well_formed());
    let mut world = fresh();
    world.units[0].entity = Entity(world.next_entity);
    assert!(!world.is_well_formed());
    let mut world = fresh();
    world.units[0].in_combat = Some(InCombat);
    assert!(!world.is_well_formed());
    world.threats[0] = Some(Threat::new());
    assert!(world.is_well_formed());
    let mut world = fresh();
    world.network.player_entity_map.insert(77, Entity(world.next_entity));
    assert!(!world.is_well_formed());
    world.network.player_entity_map.insert(77, Entity(0));
    assert!(world.is_well_formed());
    let mut world = fresh();
    let copy = world.maps.instances[0].clone();
    world.maps.instances.push(copy);
    assert!(!world.is_well_formed());
}

#[test]
fn distinct_numbers() {
    assert!(all_distinct(&vec![]));
    assert!(all_distinct(&vec![5]));
    assert!(all_distinct(&vec![3, 1, 2]));
    assert!(!all_distinct(&vec![3, 1, 3]));
    assert!(!all_distinct(&vec![1, 1]));
}

#[test]
fn channels_are_set_up_as_designed() {
    let client = ChannelConfig { channel_id: 0, message_resend_time: 0 };
    let server = ChannelConfig { channel_id: 0, message_resend_time: 200 };
    assert_eq!(ClientChannel::channels_config(), vec![client]);
    assert_eq!(ServerChannel::channels_config(), vec![server]);
    let config = client_connection_config();
    assert_eq!(config.send_channels_config, vec![client]);
    assert_eq!(config.receive_channels_config, vec![server]);
    let config = server_connection_config();
    assert_eq!(config.send_channels_config, vec![server]);
    assert_eq!(config.receive_channels_config, vec![client]);
}

#[test]
fn a_client_tells_the_server_of_its_moves_and_targets() {
    let mut client = ClientState::new();
    assert_eq!(client.sync_movement(), None);
    assert_eq!(client.sync_target(0), None);
    client.apply(&ServerMessages::PlayerInfo {
        entity: Entity(4),
        pos: Position::new(7, 8, 9),
        img: "hero".to_string(),
    });
    client.apply(&ServerMessages::Spawn { entity: Entity(9) });
    assert_eq!(client.sync_movement(), Some(ClientMessages::Move { x: 7, y: 8 }));
    assert_eq!(
        client.sync_target(1),
        Some(ClientMessages::Target { target: Some(Entity(9)) })
    );
    assert_eq!(client.sync_target(2), None);
    assert_eq!(sync_target_deselect(), ClientMessages::Target { target: None });
    client.apply(&ServerMessages::Despawn { entity: Entity(4) });
    assert_eq!(client.sync_movement(), None);
}
