use tiled_game::components::{Entity, Interactable};
use tiled_game::game::interactions::{EntityInteractionEvent, Portal};
use tiled_game::game::map::{
    find_template, flag, map_pixel_height, number, portal_of, property, text, validate,
    ConfigError, DespawnEvent,
    GlobalMap, MapInstanceEntity, MapName, MapObject, ObjectShape, Property, PropertyValue,
    Teleport, TileMapData, CLEANUP_PERIOD,
};
use tiled_game::game::npc::{Enemy, Home};
use tiled_game::game::player::PlayerProfile;
use tiled_game::game::thinkers::Thinker;
use tiled_game::game::world::World;
use tiled_game::math::Position;
use tiled_game::network::messages::server::{PlayerErrorMessage, ServerMessages};
use tiled_game::network::server::ServerEvent;
use tiled_game::network::{BroadcastScope, SendServerMessageEvent};

fn prop(name: &str, value: PropertyValue) -> Property {
    Property { name: name.to_string(), value }
}

fn point(name: &str, kind: &str, x: i32, y: i32, properties: Vec<Property>) -> MapObject {
    MapObject {
        name: name.to_string(),
        user_type: kind.to_string(),
        shape: ObjectShape::Point,
        x,
        y,
        properties,
    }
}

fn atlas() -> Vec<TileMapData> {
    vec![
        TileMapData {
            name: "town.tmx".to_string(),
            pixel_height: 160_000,
            properties: vec![prop("global_instance", PropertyValue::BoolValue(true))],
            objects: vec![
                point(
                    "Guard",
                    "guard",
                    10_000,
                    20_000,
                    vec![prop("interactable", PropertyValue::BoolValue(true))],
                ),
                MapObject {
                    name: "Wall".to_string(),
                    user_type: "".to_string(),
                    shape: ObjectShape::Rect { width: 32_000, height: 16_000 },
                    x: 0,
                    y: 0,
                    properties: vec![],
                },
                point(
                    "Gate",
                    "Portal",
                    30_000,
                    160_000,
                    vec![
                        prop("map", PropertyValue::StringValue("field.tmx".to_string())),
                        prop("x", PropertyValue::FloatValue(5000)),
                        prop("y", PropertyValue::FloatValue(6000)),
                        prop("interactable", PropertyValue::BoolValue(true)),
                    ],
                ),
                point(
                    "Sage",
                    "sage",
                    0,
                    0,
                    vec![prop("thinker", PropertyValue::StringValue("Talker".to_string()))],
                ),
                point(
                    "Odd",
                    "odd",
                    0,
                    0,
                    vec![prop("thinker", PropertyValue::StringValue("Nobody".to_string()))],
                ),
            ],
        },
        TileMapData {
            name: "field.tmx".to_string(),
            pixel_height: 0,
            properties: vec![prop("global_instance", PropertyValue::BoolValue(false))],
            objects: vec![point(
                "Wolf",
                "wolf",
                500_000,
                0,
                vec![prop("enemy", PropertyValue::BoolValue(true))],
            )],
        },
        TileMapData {
            name: "void.tmx".to_string(),
            pixel_height: 0,
            properties: vec![],
            objects: vec![],
        },
    ]
}

fn profile() -> PlayerProfile {
    let mut profile = PlayerProfile::new();
    profile.map = "town.tmx".to_string();
    profile
}

/// The town with one player in it: the town is entity 0, the player
/// entity 1, the creatures of the town the entities 2 to 5.
fn town() -> World {
    let mut world = World::startup(atlas(), profile()).unwrap();
    world.intake(&vec![ServerEvent::ClientConnected { client_id: 7 }], &vec![], &vec![]);
    world.clear_changes();
    world
}

const TOWN: Entity = Entity(0);
const PLAYER: Entity = Entity(1);

fn named(world: &World, name: &str) -> Entity {
    world
        .units
        .iter()
        .find(|unit| unit.name.0 == name)
        .unwrap()
        .entity
}

fn go(map: &str, map_instance: Option<Entity>) -> Teleport {
    Teleport {
        entity: PLAYER,
        map: map.to_string(),
        map_instance,
        prev_map_instance: None,
        position: Position::new(1, 2, 3),
    }
}

fn leave(from: Entity, map: &str) -> Teleport {
    Teleport { prev_map_instance: Some(from), ..go(map, None) }
}

fn instance_of(world: &World, entity: Entity) -> Option<Entity> {
    world.unit(entity).unwrap().map_instance.map(|instance| instance.0)
}

#[test]
fn startup_makes_the_shared_instances() {
    let world = World::startup(atlas(), profile()).unwrap();
    assert_eq!(world.maps.instances.len(), 1);
    let shared = &world.maps.instances[0];
    assert_eq!(shared.entity, TOWN);
    assert_eq!(shared.name, MapName("town.tmx".to_string()));
    assert_eq!(shared.global, Some(GlobalMap));
    assert!(!shared.populated);
    assert!(world.units.is_empty());
    assert_eq!(world.next_entity, 1);
    assert_eq!(world.maps.cleanup_timer.duration, CLEANUP_PERIOD);
    assert_eq!(CLEANUP_PERIOD, 300_000_000_000);
}

#[test]
fn startup_needs_the_start_map() {
    let mut profile = profile();
    profile.map = "nowhere.tmx".to_string();
    assert_eq!(validate(&atlas(), &profile), Err(ConfigError::UnknownStartMap));
    assert_eq!(
        World::startup(atlas(), profile).err(),
        Some(ConfigError::UnknownStartMap)
    );
    assert_eq!(
        validate(&vec![], &PlayerProfile::new()),
        Err(ConfigError::UnknownStartMap)
    );
}

#[test]
fn startup_needs_every_destination_of_a_portal() {
    let mut broken = atlas();
    broken[1].objects.push(point(
        "Hole",
        "Portal",
        0,
        0,
        vec![
            prop("map", PropertyValue::StringValue("abyss.tmx".to_string())),
            prop("x", PropertyValue::FloatValue(0)),
            prop("y", PropertyValue::FloatValue(0)),
        ],
    ));
    broken[2].objects.push(point(
        "Pit",
        "Portal",
        0,
        0,
        vec![
            prop("map", PropertyValue::StringValue("deep.tmx".to_string())),
            prop("x", PropertyValue::FloatValue(0)),
            prop("y", PropertyValue::FloatValue(0)),
        ],
    ));
    assert_eq!(
        validate(&broken, &profile()),
        Err(ConfigError::UnknownDestinationMap { template: 1, object: 1 })
    );
    assert_eq!(validate(&atlas(), &profile()), Ok(()));
}

#[test]
fn a_portal_without_a_point_leads_nowhere_and_is_no_portal() {
    let mut loose = atlas();
    loose[2].objects.push(point(
        "Crack",
        "Portal",
        0,
        0,
        vec![prop("map", PropertyValue::StringValue("abyss.tmx".to_string()))],
    ));
    assert_eq!(portal_of(&loose[2].objects[0]), None);
    assert_eq!(validate(&loose, &profile()), Ok(()));
}

#[test]
fn properties_are_found_by_name_and_type() {
    let properties = vec![
        prop("enemy", PropertyValue::BoolValue(true)),
        prop("enemy", PropertyValue::BoolValue(false)),
        prop("x", PropertyValue::FloatValue(7)),
        prop("count", PropertyValue::IntValue(7)),
        prop("map", PropertyValue::StringValue("a".to_string())),
        prop("shy", PropertyValue::BoolValue(false)),
    ];
    assert_eq!(property(&properties, "enemy"), Some(&PropertyValue::BoolValue(true)));
    assert_eq!(property(&properties, "missing"), None);
    assert!(flag(&properties, "enemy"));
    assert!(!flag(&properties, "shy"));
    assert!(!flag(&properties, "x"));
    assert!(!flag(&properties, "missing"));
    assert_eq!(number(&properties, "x"), Some(7));
    assert_eq!(number(&properties, "count"), None);
    assert_eq!(number(&properties, "map"), None);
    assert_eq!(text(&properties, "map"), Some(&"a".to_string()));
    assert_eq!(text(&properties, "x"), None);
}

#[test]
fn templates_are_found_by_name() {
    let atlas = atlas();
    assert_eq!(find_template(&atlas, &"town.tmx".to_string()), Some(0));
    assert_eq!(find_template(&atlas, &"void.tmx".to_string()), Some(2));
    assert_eq!(find_template(&atlas, &"town".to_string()), None);
    let world = World::new(atlas, profile());
    assert_eq!(world.template_index(&"field.tmx".to_string()), Some(1));
}

#[test]
fn a_player_who_joins_lands_in_the_shared_instance() {
    let world = town();
    assert_eq!(instance_of(&world, PLAYER), Some(TOWN));
    assert_eq!(world.maps.instances.len(), 1);
    assert_eq!(
        world.unit(PLAYER).unwrap().position,
        Position::new(30_000, 30_000, 0)
    );
}

#[test]
fn spawn_points_become_creatures_in_template_order() {
    let world = town();
    let names: Vec<&str> = world.units.iter().map(|unit| unit.name.0.as_str()).collect();
    assert_eq!(names, vec!["John Doe", "Guard", "Gate", "Sage", "Odd"]);
    let ids: Vec<u64> = world.units.iter().map(|unit| unit.entity.0).collect();
    assert_eq!(ids, vec![1, 2, 3, 4, 5]);
    assert!(world.maps.instances[0].populated);
    assert_eq!(world.threats.len(), 5);
}

#[test]
fn spawn_points_are_turned_upside_down() {
    let world = town();
    let guard = world.unit(named(&world, "Guard")).unwrap();
    // y' = -y + height of the map; creatures stand one unit above ground.
    assert_eq!(guard.position, Position::new(10_000, 140_000, 1000));
    assert_eq!(guard.home, Some(Home(Position::new(10_000, 140_000, 1000))));
    assert_eq!(guard.map_instance, Some(MapInstanceEntity(TOWN)));
    assert_eq!(guard.class, "guard");
    assert!(guard.npc.is_some());
    assert_eq!(guard.speed.0, 900);
    let gate = world.unit(named(&world, "Gate")).unwrap();
    assert_eq!(gate.position, Position::new(30_000, 0, 1000));
}

#[test]
fn properties_become_components() {
    let world = town();
    let guard = world.unit(named(&world, "Guard")).unwrap();
    assert_eq!(guard.interactable, Some(Interactable));
    assert_eq!(guard.enemy, None);
    assert_eq!(guard.portal, None);
    assert_eq!(guard.thinker, None);
    let gate = world.unit(named(&world, "Gate")).unwrap();
    assert_eq!(
        gate.portal,
        Some(Portal { map: "field.tmx".to_string(), position: Position::new(5000, 6000, 0) })
    );
    assert_eq!(world.unit(named(&world, "Sage")).unwrap().thinker, Some(Thinker::Talker));
    assert_eq!(world.unit(named(&world, "Odd")).unwrap().thinker, None);
}

#[test]
fn an_instance_is_populated_once() {
    let mut world = town();
    world.spawn_units();
    world.spawn_units();
    assert_eq!(world.units.len(), 5);
}

#[test]
fn teleport_to_a_map_without_shared_instance_makes_a_new_one() {
    let mut world = town();
    let (despawns, messages) = world.handle_teleport(&vec![leave(TOWN, "field.tmx")]);
    assert_eq!(world.maps.instances.len(), 2);
    let field = world.maps.instances[1].entity;
    assert_eq!(field, Entity(6));
    assert_eq!(world.maps.instances[1].name, MapName("field.tmx".to_string()));
    assert_eq!(world.maps.instances[1].global, None);
    assert_eq!(instance_of(&world, PLAYER), Some(field));
    assert_eq!(world.unit(PLAYER).unwrap().position, Position::new(1, 2, 3));
    assert_eq!(despawns, vec![DespawnEvent { entity: PLAYER, map: TOWN }]);
    assert_eq!(
        messages,
        vec![SendServerMessageEvent::directly_to(
            7,
            ServerMessages::LoadMap {
                name: "field.tmx".to_string(),
                position: Position::new(1, 2, 3),
            },
        )]
    );
    world.spawn_units();
    let wolf = world.unit(named(&world, "Wolf")).unwrap();
    assert_eq!(wolf.entity, Entity(7));
    assert_eq!(wolf.map_instance, Some(MapInstanceEntity(field)));
    assert_eq!(wolf.enemy, Some(Enemy));
    assert_eq!(wolf.position, Position::new(500_000, 0, 1000));
}

#[test]
fn each_teleport_without_an_instance_to_go_to_makes_its_own() {
    let mut world = town();
    world.handle_teleport(&vec![go("field.tmx", None), go("field.tmx", None)]);
    assert_eq!(world.maps.instances.len(), 3);
    assert_eq!(instance_of(&world, PLAYER), Some(world.maps.instances[2].entity));
}

#[test]
fn teleport_to_the_instance_asked_for_comes_first() {
    let mut world = town();
    world.handle_teleport(&vec![go("field.tmx", None)]);
    let field = world.maps.instances[1].entity;
    world.handle_teleport(&vec![go("town.tmx", None)]);
    assert_eq!(instance_of(&world, PLAYER), Some(TOWN));
    // The instance asked for wins over the shared instance of the map.
    world.handle_teleport(&vec![go("town.tmx", Some(field))]);
    assert_eq!(instance_of(&world, PLAYER), Some(field));
    assert_eq!(world.maps.instances.len(), 2);
}

#[test]
fn teleport_to_an_instance_that_is_gone_falls_back() {
    let mut world = town();
    world.handle_teleport(&vec![go("town.tmx", Some(Entity(999)))]);
    assert_eq!(instance_of(&world, PLAYER), Some(TOWN));
    assert_eq!(world.maps.instances.len(), 1);
    world.handle_teleport(&vec![go("void.tmx", Some(Entity(999)))]);
    assert_eq!(world.maps.instances.len(), 2);
    assert_eq!(instance_of(&world, PLAYER), Some(world.maps.instances[1].entity));
}

#[test]
fn teleport_of_a_unit_without_a_client_does_nothing() {
    let mut world = town();
    let guard = named(&world, "Guard");
    let mut request = go("field.tmx", None);
    request.entity = guard;
    let (despawns, messages) = world.handle_teleport(&vec![request]);
    assert!(despawns.is_empty());
    assert!(messages.is_empty());
    assert_eq!(instance_of(&world, guard), Some(TOWN));
    assert_eq!(world.maps.instances.len(), 1);
    let mut request = go("field.tmx", None);
    request.entity = Entity(999);
    let (despawns, messages) = world.handle_teleport(&vec![request]);
    assert!(despawns.is_empty() && messages.is_empty());
    assert_eq!(world.maps.instances.len(), 1);
}

#[test]
fn the_despawn_of_a_teleport_follows_the_request() {
    // A request that names a previous instance tells those in it, once.
    let mut world = town();
    let (despawns, _) = world.handle_teleport(&vec![leave(TOWN, "void.tmx")]);
    assert_eq!(despawns, vec![DespawnEvent { entity: PLAYER, map: TOWN }]);
    // It is the request that counts, not where the unit is.
    let (despawns, _) = world.handle_teleport(&vec![leave(Entity(42), "town.tmx")]);
    assert_eq!(despawns, vec![DespawnEvent { entity: PLAYER, map: Entity(42) }]);
    assert_eq!(instance_of(&world, PLAYER), Some(TOWN));
    // A request that names none tells nobody, though the unit moves on.
    let (despawns, messages) = world.handle_teleport(&vec![go("void.tmx", None)]);
    assert!(despawns.is_empty());
    assert_eq!(messages.len(), 1);
    assert_ne!(instance_of(&world, PLAYER), Some(TOWN));
    // A teleport that does not take place tells nobody.
    let mut request = leave(TOWN, "void.tmx");
    request.entity = Entity(999);
    let (despawns, messages) = world.handle_teleport(&vec![request]);
    assert!(despawns.is_empty() && messages.is_empty());
}

#[test]
fn several_teleports_tell_in_the_order_of_the_requests() {
    let mut world = town();
    let (despawns, _) = world.handle_teleport(&vec![
        leave(TOWN, "void.tmx"),
        go("town.tmx", None),
        leave(TOWN, "field.tmx"),
    ]);
    assert_eq!(
        despawns,
        vec![
            DespawnEvent { entity: PLAYER, map: TOWN },
            DespawnEvent { entity: PLAYER, map: TOWN },
        ]
    );
}

#[test]
fn teleport_round_trip_leaves_one_membership() {
    let mut world = town();
    world.handle_teleport(&vec![leave(TOWN, "void.tmx")]);
    let a = instance_of(&world, PLAYER).unwrap();
    world.clear_changes();
    let before = world.maps.instances.len();

    let (despawns, _) = world.handle_teleport(&vec![leave(a, "field.tmx")]);
    let b = instance_of(&world, PLAYER).unwrap();
    assert_ne!(a, b);
    assert_eq!(despawns, vec![DespawnEvent { entity: PLAYER, map: a }]);
    assert_eq!(
        world.send_spawn(),
        vec![SendServerMessageEvent::to_map(
            b,
            Some(PLAYER),
            ServerMessages::Spawn { entity: PLAYER },
        )]
    );
    world.clear_changes();

    let (despawns, _) = world.handle_teleport(&vec![leave(b, "void.tmx")]);
    let fresh = instance_of(&world, PLAYER).unwrap();
    assert!(fresh != a && fresh != b);
    assert_eq!(despawns, vec![DespawnEvent { entity: PLAYER, map: b }]);
    // The two new instances are the instances gained.
    let gained: Vec<Entity> =
        world.maps.instances[before..].iter().map(|instance| instance.entity).collect();
    assert_eq!(gained, vec![b, fresh]);
    // One membership: the player is an occupant of the fresh instance and
    // of no other.
    for instance in world.maps.instances.iter() {
        let inside = world.occupants(instance.entity, Entity(u64::MAX)).contains(&PLAYER);
        assert_eq!(inside, instance.entity == fresh);
    }
    assert!(!world.is_occupied(a));
    assert!(!world.is_occupied(b));
    assert!(world.is_occupied(fresh));
}

#[test]
fn cleanup_waits_for_the_interval() {
    let mut world = town();
    world.handle_teleport(&vec![go("void.tmx", None)]);
    world.handle_teleport(&vec![go("town.tmx", None)]);
    assert_eq!(world.maps.instances.len(), 2);
    world.map_instance_cleanup(CLEANUP_PERIOD - 1);
    assert_eq!(world.maps.instances.len(), 2);
    world.map_instance_cleanup(1);
    assert_eq!(world.maps.instances.len(), 1);
    assert_eq!(world.maps.instances[0].entity, TOWN);
}

#[test]
fn cleanup_spares_the_occupied_and_the_shared() {
    let mut world = town();
    world.handle_teleport(&vec![go("void.tmx", None)]);
    let empty_one = instance_of(&world, PLAYER).unwrap();
    world.handle_teleport(&vec![go("field.tmx", None)]);
    let with_wolf = instance_of(&world, PLAYER).unwrap();
    world.spawn_units();
    world.handle_teleport(&vec![go("void.tmx", None)]);
    let with_player = instance_of(&world, PLAYER).unwrap();
    let in_use = world.instances_in_use();
    assert!(in_use.contains(&with_wolf.0) && in_use.contains(&with_player.0));
    assert!(!in_use.contains(&empty_one.0));
    for instance in world.maps.instances.iter() {
        assert_eq!(in_use.contains(&instance.entity.0), world.is_occupied(instance.entity));
    }
    // The shared town holds only creatures now.
    world.map_instance_cleanup(CLEANUP_PERIOD);
    let left: Vec<Entity> = world.maps.instances.iter().map(|instance| instance.entity).collect();
    assert_eq!(left, vec![TOWN, with_wolf, with_player]);
    assert!(!left.contains(&empty_one));
}

#[test]
fn cleanup_spares_a_shared_instance_that_is_empty() {
    let mut world = World::startup(atlas(), profile()).unwrap();
    world.map_instance_cleanup(CLEANUP_PERIOD);
    assert_eq!(world.maps.instances.len(), 1);
    assert!(!world.is_occupied(TOWN));
    assert!(world.instances_in_use().is_empty());
}

#[test]
fn using_a_portal_within_reach_asks_for_a_teleport() {
    let mut world = town();
    let gate = named(&world, "Gate");
    // Thirty-two world units from the portal is within reach.
    world.units[0].position = Position::new(62_000, 0, 1000);
    let uses = vec![EntityInteractionEvent { target: gate, source: PLAYER }];
    let (teleports, errors) = world.portal_interaction(&uses);
    assert!(errors.is_empty());
    assert_eq!(
        teleports,
        vec![Teleport {
            entity: PLAYER,
            map: "field.tmx".to_string(),
            map_instance: None,
            prev_map_instance: Some(TOWN),
            position: Position::new(5000, 6000, 0),
        }]
    );
    // Carried out, the request tells those who stay in the town.
    let (despawns, _) = world.handle_teleport(&teleports);
    assert_eq!(despawns, vec![DespawnEvent { entity: PLAYER, map: TOWN }]);
    // A player that is a child of no instance leaves none.
    let mut world = town();
    world.units[0].position = Position::new(62_000, 0, 1000);
    world.units[0].map_instance = None;
    let (teleports, _) = world.portal_interaction(&uses);
    assert_eq!(teleports[0].prev_map_instance, None);
}

#[test]
fn using_a_portal_from_too_far_tells_the_player() {
    let mut world = town();
    let gate = named(&world, "Gate");
    world.units[0].position = Position::new(62_001, 0, 1000);
    let uses = vec![EntityInteractionEvent { target: gate, source: PLAYER }];
    let (teleports, errors) = world.portal_interaction(&uses);
    assert!(teleports.is_empty());
    assert_eq!(
        errors,
        vec![SendServerMessageEvent {
            scope: BroadcastScope::Direct { client_id: 7 },
            message: ServerMessages::PlayerError { error: PlayerErrorMessage::TooFarAway },
        }]
    );
}

#[test]
fn using_what_is_no_portal_does_nothing() {
    let mut world = town();
    let guard = named(&world, "Guard");
    let gate = named(&world, "Gate");
    world.units[0].position = world.unit(gate).unwrap().position;
    let uses = vec![
        EntityInteractionEvent { target: guard, source: PLAYER },
        EntityInteractionEvent { target: gate, source: guard },
        EntityInteractionEvent { target: Entity(999), source: PLAYER },
        EntityInteractionEvent { target: gate, source: Entity(999) },
    ];
    let (teleports, errors) = world.portal_interaction(&uses);
    assert!(teleports.is_empty());
    assert!(errors.is_empty());
    // A portal that cannot be used is no way through either.
    let index = world.index_of(gate).unwrap();
    world.units[index].interactable = None;
    let uses = vec![EntityInteractionEvent { target: gate, source: PLAYER }];
    assert!(world.portal_interaction(&uses).0.is_empty());
}

#[test]
fn the_height_of_a_map_is_rows_by_tile_height_in_sub_units() {
    assert_eq!(map_pixel_height(10, 16), 160_000);
    assert_eq!(map_pixel_height(0, 16), 0);
    assert_eq!(map_pixel_height(7, 0), 0);
    assert_eq!(map_pixel_height(1, 1), 1000);
    // The greatest height that fits, and the least that does not.
    assert_eq!(map_pixel_height(2_147_483, 1), 2_147_483_000);
    assert_eq!(map_pixel_height(2_147_484, 1), i32::MAX);
    assert_eq!(map_pixel_height(u32::MAX, u32::MAX), i32::MAX);
}

#[test]
fn a_tick_tells_the_town_of_a_player_who_went_through_the_portal() {
    let mut world = town();
    world.intake(&vec![ServerEvent::ClientConnected { client_id: 8 }], &vec![], &vec![]);
    world.clear_changes();
    let gate = named(&world, "Gate");
    world.units[0].position = world.unit(gate).unwrap().position;
    let out = world.tick(
        16_000_000,
        &vec![],
        &vec![tiled_game::network::server::ClientMessage {
            client_id: 7,
            message: tiled_game::network::messages::client::ClientMessages::Interact {
                entity: gate,
            },
        }],
        &vec![],
        &vec![],
    );
    assert_ne!(instance_of(&world, PLAYER), Some(TOWN));
    let told = SendServerMessageEvent::to_map(
        TOWN,
        Some(PLAYER),
        ServerMessages::Despawn { entity: PLAYER },
    );
    assert_eq!(out.iter().filter(|event| **event == told).count(), 1);
    assert_eq!(world.recipients(&told.scope), vec![8]);
}
