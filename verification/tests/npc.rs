use tiled_game::components::{Dead, Entity, InCombat, Target};
use tiled_game::game::combat::DoDamageEvent;
use tiled_game::game::map::{MapObject, ObjectShape, Property, PropertyValue, TileMapData};
use tiled_game::game::npc::{Evading, Home, NPCBundle, AGGRO_RANGE, HOME_RANGE, NPC_SPEED};
use tiled_game::game::player::PlayerProfile;
use tiled_game::game::unit::{Follow, Speed};
use tiled_game::game::world::World;
use tiled_game::math::Position;
use tiled_game::network::server::ServerEvent;
use tiled_game::shared_components::NPC;

fn hostile(name: &str, x: i32, y: i32) -> MapObject {
    MapObject {
        name: name.to_string(),
        user_type: "wolf".to_string(),
        shape: ObjectShape::Point,
        x,
        y,
        properties: vec![Property {
            name: "enemy".to_string(),
            value: PropertyValue::BoolValue(true),
        }],
    }
}

/// One shared map with one hostile creature at `(x, 0)`, and `players`
/// players in it, all at the origin of the ground.  The map instance is
/// entity 0, the players are the entities `1 ..= players`, the creature
/// comes last.
fn lair(x: i32, players: u64) -> World {
    let atlas = vec![TileMapData {
        name: "start.tmx".to_string(),
        pixel_height: 0,
        properties: vec![Property {
            name: "global_instance".to_string(),
            value: PropertyValue::BoolValue(true),
        }],
        objects: vec![hostile("Wolf", x, 0)],
    }];
    let mut profile = PlayerProfile::new();
    profile.position = Position::new(0, 0, 0);
    let mut world = World::startup(atlas, profile).unwrap();
    let connections: Vec<ServerEvent> = (0..players)
        .map(|client_id| ServerEvent::ClientConnected { client_id })
        .collect();
    world.intake(&connections, &vec![], &vec![]);
    world
}

fn wolf(world: &World) -> Entity {
    world
        .units
        .iter()
        .find(|unit| unit.npc.is_some())
        .unwrap()
        .entity
}

#[test]
fn creature_bundle_is_slower_and_at_home() {
    let position = Position::new(1, 2, 3);
    let bundle = NPCBundle::new("Wolf".to_string(), "wolf".to_string(), position);
    assert_eq!(bundle.npc, NPC);
    assert_eq!(bundle.home, Home(position));
    assert_eq!(bundle.unit.speed, Speed(900));
    assert_eq!(NPC_SPEED, 900);
    assert_eq!(bundle.unit.position, position);
    assert_eq!(bundle.unit.name.0, "Wolf");
    assert_eq!(bundle.unit.class, "wolf");
}

#[test]
fn ranges_are_as_designed() {
    assert_eq!(AGGRO_RANGE, 100);
    assert_eq!(HOME_RANGE, 1);
}

#[test]
fn no_aggro_at_the_range_exactly() {
    let mut world = lair(100_000, 1);
    world.aggro_by_range_system();
    let creature = world.unit(wolf(&world)).unwrap();
    assert_eq!(creature.in_combat, None);
    assert_eq!(creature.target, None);
    assert!(world.threat(wolf(&world)).is_none());
}

#[test]
fn aggro_a_hundredth_of_a_unit_inside_the_range() {
    let mut world = lair(99_990, 1);
    world.aggro_by_range_system();
    let creature = world.unit(wolf(&world)).unwrap();
    assert_eq!(creature.in_combat, Some(InCombat));
    assert_eq!(creature.target, Some(Target(Entity(1))));
    assert_eq!(creature.follow, Some(Follow(Entity(1))));
    assert_eq!(world.threat(wolf(&world)).unwrap().entries(), vec![(Entity(1), 100)]);
    assert!(creature.changes.entered_combat);
    assert!(creature.changes.threat);
}

#[test]
fn aggro_takes_the_first_player_in_store_order() {
    let mut world = lair(50_000, 3);
    // The second player stands closest; the first in store order is still
    // taken.
    world.units[1].position = Position::new(49_000, 0, 0);
    world.aggro_by_range_system();
    let creature = world.unit(wolf(&world)).unwrap();
    assert_eq!(creature.target, Some(Target(Entity(1))));
    assert_eq!(world.threat(wolf(&world)).unwrap().entries(), vec![(Entity(1), 100)]);
}

#[test]
fn aggro_passes_over_the_dead_and_the_far() {
    let mut world = lair(50_000, 3);
    world.units[0].dead = Some(Dead);
    world.units[1].position = Position::new(-50_000, 0, 0);
    world.aggro_by_range_system();
    let creature = world.unit(wolf(&world)).unwrap();
    assert_eq!(creature.target, Some(Target(Entity(3))));
}

#[test]
fn aggro_stays_within_the_map_instance() {
    let mut world = lair(50_000, 1);
    world.units[0].map_instance = None;
    world.aggro_by_range_system();
    assert_eq!(world.unit(wolf(&world)).unwrap().in_combat, None);
}

#[test]
fn aggro_goes_by_the_ground() {
    let mut world = lair(50_000, 1);
    world.units[0].position = Position::new(0, 0, 900_000);
    world.aggro_by_range_system();
    assert_eq!(world.unit(wolf(&world)).unwrap().in_combat, Some(InCombat));
}

#[test]
fn friendly_evading_and_dead_creatures_do_not_aggro() {
    for case in 0..3 {
        let mut world = lair(50_000, 1);
        let index = world.index_of(wolf(&world)).unwrap();
        match case {
            0 => world.units[index].enemy = None,
            1 => world.units[index].evading = Some(Evading),
            _ => world.units[index].dead = Some(Dead),
        }
        world.aggro_by_range_system();
        assert_eq!(world.units[index].in_combat, None, "case {}", case);
    }
}

#[test]
fn creature_in_combat_keeps_its_table() {
    let mut world = lair(50_000, 2);
    let creature = wolf(&world);
    world.do_damage_system(&vec![DoDamageEvent::new(Entity(2), creature, 4)]);
    world.aggro_by_range_system();
    assert_eq!(world.threat(creature).unwrap().entries(), vec![(Entity(2), 104)]);
    assert_eq!(world.unit(creature).unwrap().target, Some(Target(Entity(2))));
}

#[test]
fn evasion_ends_within_a_unit_of_home() {
    let mut world = lair(50_000, 0);
    let creature = wolf(&world);
    let index = world.index_of(creature).unwrap();
    let home = world.units[index].home.unwrap().0;
    world.units[index].evading = Some(Evading);
    world.units[index].position = Position::new(home.x + 1000, home.y, home.z);
    world.npc_evaded_system();
    assert_eq!(world.units[index].evading, Some(Evading));
    world.units[index].position = Position::new(home.x + 999, home.y, home.z);
    world.npc_evaded_system();
    assert_eq!(world.units[index].evading, None);
}

#[test]
fn evading_creature_takes_no_damage_and_no_threat() {
    let mut world = lair(50_000, 1);
    let creature = wolf(&world);
    let index = world.index_of(creature).unwrap();
    world.units[index].evading = Some(Evading);
    world.do_damage_system(&vec![DoDamageEvent::new(Entity(1), creature, 3)]);
    assert_eq!(world.units[index].health.0, 5);
    assert_eq!(world.units[index].in_combat, None);
    assert!(world.threat(creature).is_none());
    // The attacker still becomes the target of a unit that had none.
    assert_eq!(world.units[index].target, Some(Target(Entity(1))));
}
