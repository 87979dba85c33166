use tiled_game::components::{Dead, Entity, Health, InCombat, Mana, MaxHealth, MaxMana, Threat};
use tiled_game::game::map::TileMapData;
use tiled_game::game::player::PlayerProfile;
use tiled_game::game::unit::{
    AttackSpeed, Changes, Follow, MoveDestination, Speed, Unit, UnitBundle, ARRIVAL_RANGE,
    ATTACK_PERIOD, DEFAULT_SPEED, RECOVERY_PERIOD,
};
use tiled_game::game::world::World;
use tiled_game::math::Position;
use tiled_game::network::server::ServerEvent;
use tiled_game::time::{Timer, TimerMode};

/// A world with `players` players, the entities `0 .. players`, all in
/// no map, at the origin.
fn field(players: u64) -> World {
    let atlas: Vec<TileMapData> = vec![];
    let mut profile = PlayerProfile::new();
    profile.position = Position::new(0, 0, 0);
    let mut world = World::new(atlas, profile);
    let connections: Vec<ServerEvent> = (0..players)
        .map(|client_id| ServerEvent::ClientConnected { client_id })
        .collect();
    world.handle_connection_events(&connections);
    world
}

#[test]
fn unit_bundle_starts_with_full_vitals() {
    let position = Position::new(4, 5, 6);
    let bundle = UnitBundle::new("Ann".to_string(), "knight".to_string(), position);
    assert_eq!(bundle.name.0, "Ann");
    assert_eq!(bundle.class, "knight");
    assert_eq!(bundle.speed, Speed(1000));
    assert_eq!(bundle.health, Health(5));
    assert_eq!(bundle.max_health, MaxHealth(5));
    assert_eq!(bundle.mana, Mana(5));
    assert_eq!(bundle.max_mana, MaxMana(5));
    assert_eq!(
        bundle.attack_speed,
        AttackSpeed(Timer::new(1_000_000_000, TimerMode::Repeating))
    );
    assert_eq!(bundle.position, position);
    assert_eq!(ATTACK_PERIOD, 1_000_000_000);
    assert_eq!(RECOVERY_PERIOD, 2_000_000_000);
}

#[test]
fn default_speed_is_one_unit_per_tick() {
    assert_eq!(Speed::default(), Speed(1000));
    assert_eq!(DEFAULT_SPEED, 1000);
}

#[test]
fn a_unit_from_a_bundle_carries_nothing_else() {
    let bundle = UnitBundle::new("Ann".to_string(), "knight".to_string(), Position::new(0, 0, 0));
    let unit = Unit::from_bundle(Entity(9), bundle.clone());
    assert_eq!(unit.entity, Entity(9));
    assert_eq!(unit.name, bundle.name);
    assert_eq!(unit.health, Health(5));
    assert!(unit.map_instance.is_none() && unit.target.is_none() && unit.follow.is_none());
    assert!(unit.in_combat.is_none() && unit.dead.is_none() && unit.evading.is_none());
    assert!(unit.npc.is_none() && unit.player.is_none() && unit.client.is_none());
    assert_eq!(unit.changes, Changes::none());
}

#[test]
fn follow_points_the_follower_at_the_leader() {
    let mut world = field(2);
    world.units[1].position = Position::new(7000, 8000, 9000);
    world.units[0].follow = Some(Follow(Entity(1)));
    world.follow_system();
    assert_eq!(
        world.units[0].destination,
        Some(MoveDestination(Position::new(7000, 8000, 9000)))
    );
    assert_eq!(world.units[0].follow, Some(Follow(Entity(1))));
    assert_eq!(world.units[1].destination, None);
}

#[test]
fn follow_is_dropped_when_the_leader_is_gone() {
    let mut world = field(1);
    world.units[0].follow = Some(Follow(Entity(99)));
    world.units[0].destination = Some(MoveDestination(Position::new(1, 1, 1)));
    world.follow_system();
    assert_eq!(world.units[0].follow, None);
    // The destination is left as it was.
    assert_eq!(
        world.units[0].destination,
        Some(MoveDestination(Position::new(1, 1, 1)))
    );
}

#[test]
fn movement_takes_one_step_at_the_speed_of_the_unit() {
    let mut world = field(1);
    world.units[0].destination = Some(MoveDestination(Position::new(3000, 4000, 0)));
    world.movement_system();
    assert_eq!(world.units[0].position, Position::new(600, 800, 0));
    assert!(world.units[0].changes.position);
    assert!(world.units[0].destination.is_some());
    world.units[0].speed = Speed(900);
    world.units[0].position = Position::new(0, 0, 0);
    world.movement_system();
    assert_eq!(world.units[0].position, Position::new(540, 720, 0));
}

#[test]
fn movement_ends_below_one_unit_from_the_destination() {
    assert_eq!(ARRIVAL_RANGE, 1);
    let mut world = field(1);
    world.clear_changes();
    world.units[0].destination = Some(MoveDestination(Position::new(999, 0, 0)));
    world.movement_system();
    assert_eq!(world.units[0].destination, None);
    assert_eq!(world.units[0].position, Position::new(0, 0, 0));
    assert!(!world.units[0].changes.position);
}

#[test]
fn movement_goes_on_at_one_unit_from_the_destination() {
    let mut world = field(1);
    world.units[0].destination = Some(MoveDestination(Position::new(1000, 0, 0)));
    world.movement_system();
    assert_eq!(world.units[0].position, Position::new(1000, 0, 0));
    assert!(world.units[0].destination.is_some());
    world.movement_system();
    assert_eq!(world.units[0].destination, None);
}

#[test]
fn units_without_destination_stay() {
    let mut world = field(1);
    world.clear_changes();
    world.movement_system();
    assert_eq!(world.units[0].position, Position::new(0, 0, 0));
    assert!(!world.units[0].changes.position);
}

#[test]
fn health_recovers_every_two_seconds_out_of_combat() {
    let mut world = field(1);
    world.clear_changes();
    world.units[0].health = Health(2);
    world.health_recovery_system(1_999_999_999);
    assert_eq!(world.units[0].health, Health(2));
    world.health_recovery_system(1);
    assert_eq!(world.units[0].health, Health(3));
    assert!(world.units[0].changes.health);
    world.health_recovery_system(2_000_000_000);
    world.health_recovery_system(2_000_000_000);
    assert_eq!(world.units[0].health, Health(5));
    world.health_recovery_system(2_000_000_000);
    assert_eq!(world.units[0].health, Health(5));
}

#[test]
fn health_does_not_recover_in_combat_or_death() {
    let mut world = field(2);
    world.units[0].health = Health(1);
    world.units[0].in_combat = Some(InCombat);
    world.threats[0] = Some(Threat::new());
    world.units[1].health = Health(-3);
    world.units[1].dead = Some(Dead);
    world.health_recovery_system(2_000_000_000);
    assert_eq!(world.units[0].health, Health(1));
    assert_eq!(world.units[1].health, Health(-3));
}

#[test]
fn clear_changes_resets_every_mark() {
    let mut world = field(2);
    world.units[0].changes = Changes {
        position: true,
        health: true,
        mana: true,
        threat: true,
        map_instance: true,
        entered_combat: true,
    };
    world.clear_changes();
    assert_eq!(world.units[0].changes, Changes::none());
    assert_eq!(world.units[1].changes, Changes::none());
}
