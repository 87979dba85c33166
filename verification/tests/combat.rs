use tiled_game::components::{Dead, Entity, Health, InCombat, Target};
use tiled_game::game::combat::{DoDamageEvent, LeaveCombatEvent};
use tiled_game::game::map::{MapObject, ObjectShape, Property, PropertyValue, TileMapData};
use tiled_game::game::npc::{Evading, Home};
use tiled_game::game::player::PlayerProfile;
use tiled_game::game::unit::{DeathEvent, Follow, MoveDestination};
use tiled_game::game::world::World;
use tiled_game::math::Position;
use tiled_game::network::messages::client::ClientMessages;
use tiled_game::network::server::{ClientMessage, ServerEvent};

const TICK: u64 = 16_000_000;

fn creature(name: &str, x: i32, y: i32, enemy: bool) -> MapObject {
    MapObject {
        name: name.to_string(),
        user_type: "wolf".to_string(),
        shape: ObjectShape::Point,
        x,
        y,
        properties: vec![Property {
            name: "enemy".to_string(),
            value: PropertyValue::BoolValue(enemy),
        }],
    }
}

/// A world with one map of one creature, and one player in it.  The player
/// is entity 0, the map instance entity 1, the creature entity 2.
fn arena(x: i32, y: i32, enemy: bool) -> World {
    let atlas = vec![TileMapData {
        name: "start.tmx".to_string(),
        pixel_height: 0,
        properties: vec![],
        objects: vec![creature("Wolf", x, y, enemy)],
    }];
    let mut world = World::new(atlas, PlayerProfile::new());
    world.setup_map_manager();
    let connections = vec![ServerEvent::ClientConnected { client_id: 7 }];
    world.intake(&connections, &vec![], &vec![]);
    world.clear_changes();
    world
}

const PLAYER: Entity = Entity(0);
const INSTANCE: Entity = Entity(1);
const WOLF: Entity = Entity(2);

#[test]
fn arena_holds_player_and_creature() {
    let world = arena(0, 0, false);
    assert_eq!(world.units.len(), 2);
    let player = world.unit(PLAYER).unwrap();
    assert!(player.player.is_some());
    assert_eq!(player.position, Position { x: 30_000, y: 30_000, z: 0 });
    let wolf = world.unit(WOLF).unwrap();
    assert!(wolf.npc.is_some());
    assert_eq!(wolf.health, Health(5));
    assert_eq!(wolf.home, Some(Home(Position { x: 0, y: 0, z: 1000 })));
    assert_eq!(wolf.map_instance.unwrap().0, INSTANCE);
    assert_eq!(player.map_instance.unwrap().0, INSTANCE);
}

#[test]
fn damage_triggers_combat() {
    let mut world = arena(0, 0, false);
    world.do_damage_system(&vec![DoDamageEvent::new(PLAYER, WOLF, 2)]);
    let wolf = world.unit(WOLF).unwrap();
    assert_eq!(wolf.health, Health(3));
    assert_eq!(wolf.in_combat, Some(InCombat));
    assert_eq!(wolf.target, Some(Target(PLAYER)));
    assert_eq!(wolf.follow, Some(Follow(PLAYER)));
    let threat = world.threat(WOLF).unwrap();
    assert_eq!(threat.get(PLAYER), Some(&102));
    assert_eq!(threat.entries(), vec![(PLAYER, 102)]);
}

#[test]
fn damage_in_combat_adds_raw_damage() {
    let mut world = arena(0, 0, false);
    world.do_damage_system(&vec![
        DoDamageEvent::new(PLAYER, WOLF, 2),
        DoDamageEvent::new(PLAYER, WOLF, 1),
    ]);
    let wolf = world.unit(WOLF).unwrap();
    assert_eq!(wolf.health, Health(2));
    assert_eq!(world.threat(WOLF).unwrap().get(PLAYER), Some(&103));
}

#[test]
fn leash_removal() {
    // The creature's home is (0, 0); the player is dragged to a distance of
    // 301 world units from it.
    let mut world = arena(0, 0, false);
    world.do_damage_system(&vec![DoDamageEvent::new(PLAYER, WOLF, 1)]);
    world.handle_client_messages(&vec![ClientMessage {
        client_id: 7,
        message: ClientMessages::Move { x: 301_000, y: 0 },
    }]);
    world.remove_unreachable_targets_from_threat();
    assert!(world.threat(WOLF).unwrap().is_empty());
    let events = world.leave_combat();
    assert_eq!(events, vec![LeaveCombatEvent { entity: WOLF }]);
    world.return_to_home_system(&events);
    let wolf = world.unit(WOLF).unwrap();
    assert_eq!(wolf.in_combat, None);
    assert!(world.threat(WOLF).is_none());
    assert_eq!(wolf.evading, Some(Evading));
    assert_eq!(wolf.target, None);
    assert_eq!(wolf.follow, None);
    assert_eq!(
        wolf.destination,
        Some(MoveDestination(Position { x: 0, y: 0, z: 1000 }))
    );
}

#[test]
fn leash_holds_at_the_boundary() {
    // At 300 world units exactly the attacker stays in the table.
    let mut world = arena(0, 0, false);
    world.do_damage_system(&vec![DoDamageEvent::new(PLAYER, WOLF, 1)]);
    world.handle_client_messages(&vec![ClientMessage {
        client_id: 7,
        message: ClientMessages::Move { x: 300_000, y: 0 },
    }]);
    // The creature's home is one world unit above the ground the player
    // walks on, so level the two first.
    world.units[1].home = Some(Home(Position { x: 0, y: 0, z: 0 }));
    world.remove_unreachable_targets_from_threat();
    assert_eq!(world.threat(WOLF).unwrap().get(PLAYER), Some(&101));
    assert!(world.leave_combat().is_empty());
}

#[test]
fn leaving_combat_twice_emits_once() {
    let mut world = arena(0, 0, false);
    world.do_damage_system(&vec![DoDamageEvent::new(PLAYER, WOLF, 1)]);
    world.handle_client_messages(&vec![ClientMessage {
        client_id: 7,
        message: ClientMessages::Move { x: 400_000, y: 0 },
    }]);
    world.remove_unreachable_targets_from_threat();
    assert_eq!(world.leave_combat().len(), 1);
    world.remove_unreachable_targets_from_threat();
    assert_eq!(world.leave_combat().len(), 0);
    assert_eq!(world.unit(WOLF).unwrap().in_combat, None);
}

#[test]
fn death_in_combat() {
    let mut world = arena(0, 0, false);
    // The wolf fights the player; the player is at health 1.
    world.do_damage_system(&vec![DoDamageEvent::new(PLAYER, WOLF, 1)]);
    world.units[0].health = Health(1);
    world.do_damage_system(&vec![DoDamageEvent::new(WOLF, PLAYER, 1)]);
    assert_eq!(world.unit(PLAYER).unwrap().health, Health(0));
    let deaths = world.death_system();
    assert_eq!(deaths, vec![DeathEvent { entity: PLAYER }]);
    assert_eq!(world.unit(PLAYER).unwrap().dead, Some(Dead));
    // Marked once.
    assert!(world.death_system().is_empty());
    // Removed from every threat table.
    world.remove_unreachable_targets_from_threat();
    assert_eq!(world.threat(WOLF).unwrap().get(PLAYER), None);
    // The dead do not auto-attack, however long the tick.
    world.units[0].in_combat = Some(InCombat);
    world.threats[0] = Some(tiled_game::components::Threat::new());
    world.units[0].target = Some(Target(WOLF));
    assert!(world.auto_attack_system(10_000_000_000).is_empty());
}

#[test]
fn tick_keeps_the_threat_invariant() {
    let mut world = arena(0, 0, false);
    let damage = vec![DoDamageEvent::new(PLAYER, WOLF, 2)];
    world.tick(TICK, &vec![], &vec![], &damage, &vec![]);
    for (unit, threat) in world.units.iter().zip(world.threats.iter()) {
        assert_eq!(
            unit.in_combat.is_some(),
            threat.as_ref().map_or(false, |table| !table.is_empty())
        );
    }
    assert_eq!(world.unit(WOLF).unwrap().in_combat, Some(InCombat));
    let moves = vec![ClientMessage {
        client_id: 7,
        message: ClientMessages::Move { x: 500_000, y: 0 },
    }];
    world.tick(TICK, &vec![], &moves, &vec![], &vec![]);
    for (unit, threat) in world.units.iter().zip(world.threats.iter()) {
        assert_eq!(
            unit.in_combat.is_some(),
            threat.as_ref().map_or(false, |table| !table.is_empty())
        );
    }
    assert_eq!(world.unit(WOLF).unwrap().in_combat, None);
}

#[test]
fn the_dead_leave_the_tables_and_nothing_else_does() {
    let mut world = arena(0, 0, false);
    world.do_damage_system(&vec![
        DoDamageEvent::new(PLAYER, WOLF, 1),
        DoDamageEvent::new(Entity(77), WOLF, 3),
        DoDamageEvent::new(Entity(78), WOLF, 4),
    ]);
    world.clear_changes();
    world.remove_dead_from_threat(&vec![
        DeathEvent { entity: Entity(77) },
        DeathEvent { entity: Entity(5) },
        DeathEvent { entity: Entity(77) },
    ]);
    let threat = world.threat(WOLF).unwrap();
    assert_eq!(threat.get(Entity(77)), None);
    // The others stay with their scores, reachable or not.
    assert_eq!(threat.get(PLAYER), Some(&101));
    assert_eq!(threat.get(Entity(78)), Some(&4));
    assert_eq!(threat.entries().len(), 2);
    assert!(world.unit(WOLF).unwrap().changes.threat);
    assert!(!world.unit(PLAYER).unwrap().changes.threat);
    // Nobody died: nothing changes.
    world.clear_changes();
    world.remove_dead_from_threat(&vec![]);
    world.remove_dead_from_threat(&vec![DeathEvent { entity: Entity(5) }]);
    assert_eq!(world.threat(WOLF).unwrap().entries().len(), 2);
    assert!(!world.unit(WOLF).unwrap().changes.threat);
}

#[test]
fn forgetting_the_dead_tells_whether_there_was_one() {
    let mut threat = tiled_game::components::Threat::new();
    threat.add(Entity(1), 5);
    threat.add(Entity(2), 6);
    let gone = vec![DeathEvent { entity: Entity(3) }];
    assert!(!tiled_game::game::combat::forget_dead(&mut threat, &gone));
    assert_eq!(threat.entries().len(), 2);
    let gone = vec![DeathEvent { entity: Entity(3) }, DeathEvent { entity: Entity(2) }];
    assert!(tiled_game::game::combat::forget_dead(&mut threat, &gone));
    assert_eq!(threat.entries(), vec![(Entity(1), 5)]);
}
