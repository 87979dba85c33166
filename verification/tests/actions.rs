use tiled_game::components::{Entity, Saying, Target};
use tiled_game::game::actions::chat::{say_duration, Chat, ChatType};
use tiled_game::game::actions::spell::{
    CastSpell, Casting, SpellCastType, SpellEffect, SpellStep,
};
use tiled_game::game::actions::ActionState;
use tiled_game::game::combat::DoDamageEvent;
use tiled_game::game::map::Teleport;
use tiled_game::game::player::PlayerProfile;
use tiled_game::game::scorers::interaction::{interaction_scorer_system, InteractEvent};
use tiled_game::game::scorers::timer::{timer_scorer_system, TimePassed};
use tiled_game::game::scripts::follower::DRIFT;
use tiled_game::game::scripts::{handle_add_script, ScriptsPlugin};
use tiled_game::game::thinkers::{get_talker_thinker, get_thinker, is_text, Thinker};
use tiled_game::game::world::World;
use tiled_game::math::Position;
use tiled_game::network::server::ServerEvent;
use tiled_game::time::{Timer, TimerMode};

const ACTOR: Entity = Entity(0);

fn stage() -> World {
    let mut world = World::new(vec![], PlayerProfile::new());
    world.handle_connection_events(&vec![ServerEvent::ClientConnected { client_id: 1 }]);
    world
}

#[test]
fn a_message_stays_up_three_seconds_and_a_tenth_per_byte() {
    assert_eq!(say_duration(0), 3_000_000_000);
    assert_eq!(say_duration(11), 4_100_000_000);
    assert_eq!(say_duration(usize::MAX), u64::MAX);
    let chat = Chat::say("Hello there".to_string());
    assert_eq!(
        chat,
        Chat {
            chat_type: ChatType::Say,
            message: "Hello there".to_string(),
            uptime: Timer::new(4_100_000_000, TimerMode::Once),
        }
    );
    // Length is in bytes: this greeting has four letters and five bytes.
    assert_eq!(Chat::say("Grüß".to_string()).uptime.duration, 3_600_000_000);
}

#[test]
fn a_chat_that_is_asked_for_starts() {
    let mut world = stage();
    let mut chat = Chat::say("Hi".to_string());
    let next = world.chat_action_system(ACTOR, ActionState::Requested, &mut chat, 500);
    assert_eq!(next, ActionState::Executing);
    assert_eq!(world.unit(ACTOR).unwrap().saying, Some(Saying("Hi".to_string())));
    assert_eq!(chat.uptime.elapsed, 0);
}

#[test]
fn a_chat_goes_on_until_its_time_is_up() {
    let mut world = stage();
    let mut chat = Chat::say("Hi".to_string());
    world.chat_action_system(ACTOR, ActionState::Requested, &mut chat, 0);
    let next = world.chat_action_system(ACTOR, ActionState::Executing, &mut chat, 3_199_999_999);
    assert_eq!(next, ActionState::Executing);
    assert!(world.unit(ACTOR).unwrap().saying.is_some());
    let next = world.chat_action_system(ACTOR, ActionState::Executing, &mut chat, 1);
    assert_eq!(next, ActionState::Success);
    assert_eq!(world.unit(ACTOR).unwrap().saying, None);
}

#[test]
fn a_chat_that_is_called_off_fails_and_starts_over() {
    let mut world = stage();
    let mut chat = Chat::say("Hi".to_string());
    world.chat_action_system(ACTOR, ActionState::Requested, &mut chat, 0);
    world.chat_action_system(ACTOR, ActionState::Executing, &mut chat, 1_000);
    let next = world.chat_action_system(ACTOR, ActionState::Cancelled, &mut chat, 1_000);
    assert_eq!(next, ActionState::Failure);
    assert_eq!(world.unit(ACTOR).unwrap().saying, None);
    assert_eq!(chat.uptime.elapsed, 0);
}

#[test]
fn a_chat_at_rest_stays_at_rest() {
    let mut world = stage();
    let mut chat = Chat::say("Hi".to_string());
    for state in [ActionState::Init, ActionState::Success, ActionState::Failure] {
        assert_eq!(world.chat_action_system(ACTOR, state, &mut chat, 1_000), state);
    }
    assert_eq!(world.unit(ACTOR).unwrap().saying, None);
    assert_eq!(chat, Chat::say("Hi".to_string()));
}

#[test]
fn a_chat_of_nobody_still_runs_its_course() {
    let mut world = stage();
    let mut chat = Chat::say("Hi".to_string());
    let ghost = Entity(99);
    assert_eq!(
        world.chat_action_system(ghost, ActionState::Requested, &mut chat, 0),
        ActionState::Executing
    );
    assert_eq!(
        world.chat_action_system(ghost, ActionState::Executing, &mut chat, u64::MAX),
        ActionState::Success
    );
}

#[test]
fn the_default_spell_does_no_damage_at_once() {
    assert_eq!(
        CastSpell::default(),
        CastSpell {
            cast_type: SpellCastType::Damage { amount: 0, mana: 0 },
            cast_duration: Timer::new(0, TimerMode::Once),
            channeling: false,
            force_self_target: false,
        }
    );
}

#[test]
fn a_damage_spell_hits_the_target_of_the_caster() {
    let mut world = stage();
    let mut spell = CastSpell {
        cast_type: SpellCastType::Damage { amount: 4, mana: 1 },
        cast_duration: Timer::new(1_000, TimerMode::Once),
        channeling: false,
        force_self_target: false,
    };
    let step = world.spell_action_system(ACTOR, ActionState::Requested, &mut spell, 1_000);
    assert_eq!(step, SpellStep { state: ActionState::Executing, effect: SpellEffect::Nothing });
    assert_eq!(world.unit(ACTOR).unwrap().casting, Some(Casting));
    assert_eq!(spell.cast_duration.elapsed, 0);
    let step = world.spell_action_system(ACTOR, ActionState::Executing, &mut spell, 999);
    assert_eq!(step, SpellStep { state: ActionState::Executing, effect: SpellEffect::Nothing });
    world.units[0].target = Some(Target(Entity(5)));
    let step = world.spell_action_system(ACTOR, ActionState::Executing, &mut spell, 1);
    assert_eq!(
        step,
        SpellStep {
            state: ActionState::Success,
            effect: SpellEffect::Damage(DoDamageEvent::new(ACTOR, Entity(5), 4)),
        }
    );
}

#[test]
fn a_damage_spell_without_target_hits_the_caster() {
    let mut world = stage();
    let mut spell = CastSpell::default();
    spell.cast_type = SpellCastType::Damage { amount: 2, mana: 0 };
    let step = world.spell_action_system(ACTOR, ActionState::Executing, &mut spell, 0);
    assert_eq!(step.effect, SpellEffect::Damage(DoDamageEvent::new(ACTOR, ACTOR, 2)));
}

#[test]
fn a_teleport_spell_takes_the_caster_away() {
    let mut world = stage();
    let mut spell = CastSpell::default();
    spell.cast_type = SpellCastType::Teleport {
        map: "field.tmx".to_string(),
        coordinates: Position::new(1, 2, 3),
    };
    let step = world.spell_action_system(ACTOR, ActionState::Executing, &mut spell, 0);
    assert_eq!(
        step,
        SpellStep {
            state: ActionState::Success,
            effect: SpellEffect::Teleport(Teleport {
                entity: ACTOR,
                map: "field.tmx".to_string(),
                map_instance: None,
                prev_map_instance: None,
                position: Position::new(1, 2, 3),
            }),
        }
    );
}

#[test]
fn a_spell_that_is_called_off_fails() {
    let mut world = stage();
    let mut spell = CastSpell::default();
    let step = world.spell_action_system(ACTOR, ActionState::Cancelled, &mut spell, 0);
    assert_eq!(step, SpellStep { state: ActionState::Failure, effect: SpellEffect::Nothing });
    let step = world.spell_action_system(ACTOR, ActionState::Success, &mut spell, 0);
    assert_eq!(step, SpellStep { state: ActionState::Success, effect: SpellEffect::Nothing });
}

#[test]
fn a_spell_of_nobody_stays_as_it_is() {
    let mut world = stage();
    let mut spell = CastSpell::default();
    for state in [ActionState::Requested, ActionState::Executing, ActionState::Cancelled] {
        let step = world.spell_action_system(Entity(99), state, &mut spell, 5);
        assert_eq!(step, SpellStep { state, effect: SpellEffect::Nothing });
    }
    assert_eq!(spell, CastSpell::default());
}

#[test]
fn the_interaction_score() {
    let uses = vec![
        InteractEvent { target: Entity(3), source: Entity(1) },
        InteractEvent { target: Entity(4), source: Entity(1) },
    ];
    // Nobody used anything: the score goes down.
    assert!(!interaction_scorer_system(&vec![], Entity(3), true));
    // Somebody used the actor: the score goes up.
    assert!(interaction_scorer_system(&uses, Entity(4), false));
    // Somebody used something else: the score stays.
    assert!(interaction_scorer_system(&uses, Entity(5), true));
    assert!(!interaction_scorer_system(&uses, Entity(5), false));
}

#[test]
fn the_timer_score() {
    let mut timer = TimePassed(Timer::new(10, TimerMode::Repeating));
    assert!(!timer_scorer_system(&mut timer, 9));
    assert!(timer_scorer_system(&mut timer, 1));
    assert!(!timer_scorer_system(&mut timer, 1));
    assert_eq!(timer.0.elapsed, 1);
}

#[test]
fn behaviors_are_found_by_name() {
    assert_eq!(get_thinker(&"Talker".to_string()), Ok(Thinker::Talker));
    assert_eq!(get_talker_thinker(), Thinker::Talker);
    assert_eq!(
        get_thinker(&"Walker".to_string()),
        Err("Script Walker not implemented".to_string())
    );
    assert_eq!(get_thinker(&"".to_string()), Err("Script  not implemented".to_string()));
    assert_eq!(get_thinker(&"talker".to_string()).is_err(), true);
}

#[test]
fn text_is_compared_as_a_whole() {
    assert!(is_text(&"Portal".to_string(), "Portal"));
    assert!(!is_text(&"Portal".to_string(), "portal"));
    assert!(!is_text(&"Portal".to_string(), "Port"));
}

#[test]
fn scripts_are_found_by_name_and_run() {
    let mut world = stage();
    assert_eq!(DRIFT, 100);
    assert!(!handle_add_script("leader".to_string(), &mut world.units[0]));
    assert!(world.units[0].script.is_none());
    ScriptsPlugin.build(&mut world);
    assert_eq!(world.units[0].position, Position::new(30_000, 30_000, 0));
    assert!(handle_add_script("follower".to_string(), &mut world.units[0]));
    assert!(world.units[0].script.is_some());
    world.clear_changes();
    world.follower_script();
    assert_eq!(world.units[0].position, Position::new(30_100, 30_000, 0));
    assert!(world.units[0].changes.position);
    world.units[0].position.x = i32::MAX - 5;
    world.follower_script();
    assert_eq!(world.units[0].position.x, i32::MAX);
}

#[test]
fn a_teleport_spell_names_the_instance_the_caster_leaves() {
    let mut world = stage();
    world.units[0].map_instance =
        Some(tiled_game::game::map::MapInstanceEntity(Entity(40)));
    let mut spell = CastSpell::default();
    spell.cast_type = SpellCastType::Teleport {
        map: "field.tmx".to_string(),
        coordinates: Position::new(1, 2, 3),
    };
    let step = world.spell_action_system(ACTOR, ActionState::Executing, &mut spell, 0);
    assert_eq!(
        step.effect,
        SpellEffect::Teleport(Teleport {
            entity: ACTOR,
            map: "field.tmx".to_string(),
            map_instance: None,
            prev_map_instance: Some(Entity(40)),
            position: Position::new(1, 2, 3),
        })
    );
}
