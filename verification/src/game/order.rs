//! The order every rule keeps: a well-formed world stays well-formed, and a
//! tick ends with the threat invariant in force.
//!
//! These are statements about the rules as such, whatever world they are
//! applied to.

use vstd::prelude::*;
use crate::components::Entity;
use crate::game::combat::{
    DoDamageEvent, lemma_leave_combat_consistent, lemma_return_to_home_keeps_combat,
    lemma_same_combat, same_combat,
};
use crate::game::map::{MapInstance, MapObject, spec_fresh_instance, spec_npc_from_object, Teleport};
use crate::game::npc::lemma_aggro_by_range_keeps_combat;
use crate::game::player::{spec_player_unit, stays_fn};
use crate::game::unit::{DeathEvent, Unit};
use crate::game::world::{lemma_find, lemma_same_population, WorldView};
use crate::network::server::{ClientMessage, ServerEvent};

verus! {

/// Picking from a sequence whose elements differ by `key` gives a sequence
/// whose elements differ by `key`, and each of them is one of the first.
pub proof fn lemma_filter_keeps_distinct<T, K>(
    s: Seq<T>,
    keep: spec_fn(T) -> bool,
    key: spec_fn(T) -> K,
)
    requires
        forall|i: int, j: int| 0 <= i < j < s.len() ==> key(s[i]) != key(s[j]),
    ensures
        forall|i: int, j: int|
            0 <= i < j < s.filter(keep).len() ==> key(s.filter(keep)[i]) != key(
                s.filter(keep)[j],
            ),
        forall|k: int|
            0 <= k < s.filter(keep).len() ==> exists|j: int|
                0 <= j < s.len() && s[j] == #[trigger] s.filter(keep)[k],
    decreases s.len(),
{
    reveal(Seq::filter);
    if s.len() > 0 {
        let front = s.drop_last();
        assert forall|i: int, j: int| 0 <= i < j < front.len() implies key(front[i]) != key(
            front[j],
        ) by {
            assert(front[i] == s[i] && front[j] == s[j]);
        }
        lemma_filter_keeps_distinct(front, keep, key);
        let picked = s.filter(keep);
        assert forall|k: int| 0 <= k < picked.len() implies exists|j: int|
            0 <= j < s.len() && s[j] == #[trigger] picked[k] by {
            if k < front.filter(keep).len() {
                let j = choose|j: int| 0 <= j < front.len() && front[j] == front.filter(keep)[k];
                assert(s[j] == picked[k]);
            } else {
                assert(s[s.len() - 1] == picked[k]);
            }
        }
        assert forall|i: int, j: int| 0 <= i < j < picked.len() implies key(picked[i]) != key(
            picked[j],
        ) by {
            if j < front.filter(keep).len() {
                assert(picked[i] == front.filter(keep)[i] && picked[j] == front.filter(keep)[j]);
            } else {
                let m = choose|m: int| 0 <= m < front.len() && front[m] == front.filter(keep)[i];
                assert(picked[i] == s[m]);
                assert(picked[j] == s[s.len() - 1]);
            }
        }
    }
}

/// A new unit that bears the next identifier and carries no combat mark
/// keeps the world well-formed.
pub proof fn lemma_new_unit_wf(w: WorldView, unit: Unit)
    requires
        w.wf(),
        w.can_spawn(),
        unit.entity == Entity(w.next_entity),
        unit.in_combat is None,
    ensures
        w.with_new_unit(unit).wf(),
{
    let after = w.with_new_unit(unit);
    assert(after.instance_ids() =~= w.instance_ids());
    assert(after.ids() =~= w.ids().push(unit.entity));
    assert forall|i: int, j: int|
        0 <= i < after.ids().len() && 0 <= j < after.ids().len() && i != j implies after.ids()[i]
        != after.ids()[j] by {
        if i < w.units.len() {
            assert(w.units[i].entity.0 < w.next_entity);
        }
        if j < w.units.len() {
            assert(w.units[j].entity.0 < w.next_entity);
        }
    }
    assert forall|i: int, j: int|
        0 <= i < after.units.len() && 0 <= j < after.instances.len() implies (
    #[trigger] after.units[i]).entity != (#[trigger] after.instances[j]).entity by {
        assert(w.instances[j].entity.0 < w.next_entity);
    }
}

/// A new map instance that bears the next identifier keeps the world
/// well-formed.
pub proof fn lemma_new_instance_wf(w: WorldView, instance: MapInstance)
    requires
        w.wf(),
        w.can_spawn(),
        instance.entity == Entity(w.next_entity),
    ensures
        w.with_new_instance(instance).wf(),
{
    let after = w.with_new_instance(instance);
    assert(after.ids() =~= w.ids());
    assert(after.instance_ids() =~= w.instance_ids().push(instance.entity));
    assert forall|i: int, j: int|
        0 <= i < after.instance_ids().len() && 0 <= j < after.instance_ids().len() && i
            != j implies after.instance_ids()[i] != after.instance_ids()[j] by {
        if i < w.instances.len() {
            assert(w.instances[i].entity.0 < w.next_entity);
        }
        if j < w.instances.len() {
            assert(w.instances[j].entity.0 < w.next_entity);
        }
    }
    assert forall|i: int, j: int|
        0 <= i < after.units.len() && 0 <= j < after.instances.len() implies (
    #[trigger] after.units[i]).entity != (#[trigger] after.instances[j]).entity by {
        assert(w.units[i].entity.0 < w.next_entity);
    }
}

/// Join keeps the world well-formed.
pub proof fn lemma_player_join_wf(w: WorldView, client_id: u64)
    requires
        w.wf(),
    ensures
        w.spec_player_join(client_id).wf(),
{
    if w.joins(client_id) {
        let unit = spec_player_unit(Entity(w.next_entity), client_id, w.profile);
        let placed = w.with_new_unit(unit);
        lemma_new_unit_wf(w, unit);
        let after = w.spec_player_join(client_id);
        assert(after.ids() =~= placed.ids());
        assert(after.instance_ids() =~= placed.instance_ids());
    }
}

/// The end of a session keeps the world well-formed.
pub proof fn lemma_disconnect_wf(w: WorldView, client_id: u64)
    requires
        w.wf(),
    ensures
        w.spec_disconnect(client_id).wf(),
{
    if w.has_session(client_id) {
        let entity = w.sessions[client_id];
        let closed = WorldView { sessions: w.sessions.remove(client_id), ..w };
        assert(closed.ids() =~= w.ids());
        assert(closed.instance_ids() =~= w.instance_ids());
        assert(closed.wf());
        let after = w.spec_disconnect(client_id);
        if w.has(entity) {
            let i = w.find(entity);
            assert(0 <= i < w.units.len()) by {
                assert(w.ids()[i] == entity);
            }
            lemma_same_population(closed, after);
        }
    }
}

/// Taking in the reports of the transport keeps the world well-formed.
pub proof fn lemma_handle_connection_events_wf(w: WorldView, events: Seq<ServerEvent>)
    requires
        w.wf(),
    ensures
        w.spec_handle_connection_events(events).wf(),
    decreases events.len(),
{
    if events.len() > 0 {
        lemma_handle_connection_events_wf(w, events.drop_last());
        let before = w.spec_handle_connection_events(events.drop_last());
        match events.last() {
            ServerEvent::ClientConnected { client_id } => lemma_player_join_wf(before, client_id),
            ServerEvent::ClientDisconnected { client_id } => lemma_disconnect_wf(
                before,
                client_id,
            ),
        }
    }
}

/// An index that an identifier finds is an index of a unit.
pub proof fn lemma_found(w: WorldView, entity: Entity)
    requires
        w.has(entity),
    ensures
        0 <= w.find(entity) < w.units.len(),
        w.units[w.find(entity)].entity == entity,
{
    assert(w.ids()[w.find(entity)] == entity);
}

/// Taking in the messages of the clients keeps the world well-formed.
pub proof fn lemma_handle_client_messages_wf(w: WorldView, messages: Seq<ClientMessage>)
    requires
        w.wf(),
    ensures
        w.spec_handle_client_messages(messages).wf(),
    decreases messages.len(),
{
    if messages.len() > 0 {
        lemma_handle_client_messages_wf(w, messages.drop_last());
        let before = w.spec_handle_client_messages(messages.drop_last());
        let m = messages.last();
        if before.sender(m.client_id) is Some && before.has(before.sender(m.client_id).unwrap()) {
            lemma_found(before, before.sender(m.client_id).unwrap());
            lemma_same_population(before, before.spec_client_message(m));
        }
    }
}

/// Logout keeps the world well-formed.
pub proof fn lemma_player_logout_wf(w: WorldView)
    requires
        w.wf(),
    ensures
        w.spec_player_logout().wf(),
{
    let after = w.spec_player_logout();
    let key = |unit: Unit| unit.entity;
    assert forall|i: int, j: int| 0 <= i < j < w.units.len() implies key(w.units[i]) != key(
        w.units[j],
    ) by {
        assert(w.ids()[i] != w.ids()[j]);
    }
    lemma_filter_keeps_distinct(w.units, stays_fn(), key);
    assert(after.instance_ids() =~= w.instance_ids());
    assert forall|i: int, j: int|
        0 <= i < after.ids().len() && 0 <= j < after.ids().len() && i != j implies after.ids()[i]
        != after.ids()[j] by {
        if i < j {
            assert(key(after.units[i]) != key(after.units[j]));
        } else {
            assert(key(after.units[j]) != key(after.units[i]));
        }
    }
    assert forall|k: int| 0 <= k < after.units.len() implies (#[trigger] after.units[k]).entity.0
        < after.next_entity && (after.units[k].in_combat is Some <==> after.threats[k] is Some) by {
        let j = choose|j: int| 0 <= j < w.units.len() && w.units[j] == after.units[k];
        lemma_find(w, j);
    }
    assert forall|a: int, b: int|
        0 <= a < after.units.len() && 0 <= b < after.instances.len() implies (
    #[trigger] after.units[a]).entity != (#[trigger] after.instances[b]).entity by {
        let j = choose|j: int| 0 <= j < w.units.len() && w.units[j] == after.units[a];
        assert(w.units[j].entity != w.instances[b].entity);
    }
}

/// A teleport keeps the world well-formed.
pub proof fn lemma_teleport_wf(w: WorldView, t: Teleport)
    requires
        w.wf(),
    ensures
        w.spec_teleport(t).wf(),
{
    if w.teleports(t) {
        lemma_found(w, t.entity);
        match w.teleport_target(t) {
            Some(instance) => {
                lemma_same_population(w, w.spec_teleport(t));
            },
            None => {
                let fresh = spec_fresh_instance(Entity(w.next_entity), t.map, false);
                lemma_new_instance_wf(w, fresh);
                lemma_same_population(w.with_new_instance(fresh), w.spec_teleport(t));
            },
        }
    }
}

/// The teleports of a tick keep the world well-formed.
pub proof fn lemma_handle_teleport_wf(w: WorldView, teleports: Seq<Teleport>)
    requires
        w.wf(),
    ensures
        w.spec_handle_teleport(teleports).wf(),
    decreases teleports.len(),
{
    if teleports.len() > 0 {
        lemma_handle_teleport_wf(w, teleports.drop_last());
        lemma_teleport_wf(w.spec_handle_teleport(teleports.drop_last()), teleports.last());
    }
}

/// Spawning for the objects of a template keeps the world well-formed and
/// leaves the map instances and the atlas as they are.
pub proof fn lemma_spawn_objects_wf(
    w: WorldView,
    instance: Entity,
    pixel_height: i32,
    objects: Seq<MapObject>,
)
    requires
        w.wf(),
    ensures
        w.spec_spawn_objects(instance, pixel_height, objects).wf(),
        w.spec_spawn_objects(instance, pixel_height, objects).instances == w.instances,
        w.spec_spawn_objects(instance, pixel_height, objects).atlas == w.atlas,
    decreases objects.len(),
{
    if objects.len() > 0 {
        lemma_spawn_objects_wf(w, instance, pixel_height, objects.drop_last());
        let before = w.spec_spawn_objects(instance, pixel_height, objects.drop_last());
        if objects.last().shape is Point && before.can_spawn() {
            lemma_new_unit_wf(
                before,
                spec_npc_from_object(
                    Entity(before.next_entity),
                    instance,
                    pixel_height,
                    objects.last(),
                ),
            );
        }
    }
}

/// Spawning keeps the world well-formed and the number of map instances.
pub proof fn lemma_spawn_units_wf(w: WorldView, n: int)
    requires
        w.wf(),
        n <= w.instances.len(),
    ensures
        w.spec_spawn_units_upto(n).wf(),
        w.spec_spawn_units_upto(n).instances.len() == w.instances.len(),
    decreases n,
{
    if n > 0 {
        lemma_spawn_units_wf(w, n - 1);
        let before = w.spec_spawn_units_upto(n - 1);
        let k = n - 1;
        if !before.instances[k].populated {
            let marked = before.with_populated(k);
            lemma_same_population(before, marked);
            match crate::game::map::spec_template(before.atlas, before.instances[k].name.0@) {
                Some(t) => {
                    lemma_spawn_objects_wf(
                        marked,
                        before.instances[k].entity,
                        before.atlas[t].pixel_height,
                        before.atlas[t].objects@,
                    );
                },
                None => {},
            }
        }
    }
}

/// Damage application keeps the world well-formed.
pub proof fn lemma_do_damage_wf(w: WorldView, evt: DoDamageEvent)
    requires
        w.wf(),
    ensures
        w.spec_do_damage(evt).wf(),
{
    if w.has(evt.receiver) {
        lemma_found(w, evt.receiver);
    }
    lemma_same_population(w, w.spec_do_damage(evt));
}

/// Threat accumulation keeps the world well-formed.
pub proof fn lemma_increase_threat_wf(w: WorldView, evt: DoDamageEvent)
    requires
        w.wf(),
    ensures
        w.spec_increase_threat_on_damage(evt).wf(),
{
    if w.has(evt.receiver) {
        lemma_found(w, evt.receiver);
    }
    lemma_same_population(w, w.spec_increase_threat_on_damage(evt));
}

/// Combat entry by damage keeps the world well-formed.
pub proof fn lemma_aggro_by_damage_wf(w: WorldView, evt: DoDamageEvent)
    requires
        w.wf(),
    ensures
        w.spec_aggro_by_damage(evt).wf(),
{
    if w.has(evt.receiver) {
        lemma_found(w, evt.receiver);
    }
    lemma_same_population(w, w.spec_aggro_by_damage(evt));
}

/// Targeting on damage keeps the world well-formed.
pub proof fn lemma_target_on_damage_wf(w: WorldView, evt: DoDamageEvent)
    requires
        w.wf(),
    ensures
        w.spec_target_on_damage(evt).wf(),
{
    if w.has(evt.receiver) {
        lemma_found(w, evt.receiver);
    }
    lemma_same_population(w, w.spec_target_on_damage(evt));
}

/// Everything one damage event does keeps the world well-formed.
pub proof fn lemma_on_damage_wf(w: WorldView, evt: DoDamageEvent)
    requires
        w.wf(),
    ensures
        w.spec_on_damage(evt).wf(),
{
    lemma_do_damage_wf(w, evt);
    let hurt = w.spec_do_damage(evt);
    lemma_increase_threat_wf(hurt, evt);
    let held = hurt.spec_increase_threat_on_damage(evt);
    lemma_aggro_by_damage_wf(held, evt);
    lemma_target_on_damage_wf(held.spec_aggro_by_damage(evt), evt);
}

/// Resolving the damage events of a tick keeps the world well-formed.
pub proof fn lemma_damage_system_wf(w: WorldView, events: Seq<DoDamageEvent>)
    requires
        w.wf(),
    ensures
        w.spec_damage_system(events).wf(),
    decreases events.len(),
{
    if events.len() > 0 {
        lemma_damage_system_wf(w, events.drop_last());
        lemma_on_damage_wf(w.spec_damage_system(events.drop_last()), events.last());
    }
}

/// Cleanup keeps the world well-formed.
pub proof fn lemma_cleanup_wf(w: WorldView, delta: u64)
    requires
        w.wf(),
    ensures
        w.spec_map_instance_cleanup(delta).wf(),
{
    let after = w.spec_map_instance_cleanup(delta);
    if w.cleanup_timer.spec_tick(delta).finished {
        let key = |instance: MapInstance| instance.entity;
        assert forall|i: int, j: int| 0 <= i < j < w.instances.len() implies key(w.instances[i])
            != key(w.instances[j]) by {
            assert(w.instance_ids()[i] != w.instance_ids()[j]);
        }
        lemma_filter_keeps_distinct(w.instances, w.survives_fn(), key);
        assert(after.ids() =~= w.ids());
        assert forall|i: int, j: int|
            0 <= i < after.instance_ids().len() && 0 <= j < after.instance_ids().len() && i
                != j implies after.instance_ids()[i] != after.instance_ids()[j] by {
            if i < j {
                assert(key(after.instances[i]) != key(after.instances[j]));
            } else {
                assert(key(after.instances[j]) != key(after.instances[i]));
            }
        }
        assert forall|k: int| 0 <= k < after.instances.len() implies (
        #[trigger] after.instances[k]).entity.0 < after.next_entity by {
            let j = choose|j: int| 0 <= j < w.instances.len() && w.instances[j] == after.instances[k];
            assert(w.instances[j].entity.0 < w.next_entity);
        }
        assert forall|a: int, b: int|
            0 <= a < after.units.len() && 0 <= b < after.instances.len() implies (
        #[trigger] after.units[a]).entity != (#[trigger] after.instances[b]).entity by {
            let j = choose|j: int| 0 <= j < w.instances.len() && w.instances[j] == after.instances[b];
            assert(w.units[a].entity != w.instances[j].entity);
        }
    } else {
        lemma_same_population(w, after);
    }
}

/// The first part of a tick keeps the world well-formed.
pub proof fn lemma_intake_wf(
    w: WorldView,
    connections: Seq<ServerEvent>,
    messages: Seq<ClientMessage>,
    teleports: Seq<Teleport>,
)
    requires
        w.wf(),
    ensures
        w.spec_intake(connections, messages, teleports).world.wf(),
{
    lemma_handle_connection_events_wf(w, connections);
    let connected = w.spec_handle_connection_events(connections);
    lemma_handle_client_messages_wf(connected, messages);
    let heard = connected.spec_handle_client_messages(messages);
    lemma_player_logout_wf(heard);
    let cleared = heard.spec_player_logout();
    let joined = w.spec_handle_connection_teleports(connections);
    lemma_handle_teleport_wf(cleared, joined);
    let first = cleared.spec_handle_teleport(joined);
    lemma_handle_teleport_wf(first, teleports);
    let second = first.spec_handle_teleport(teleports);
    let interactions = messages.filter_map(
        crate::network::server::interaction_fn(connected.sessions),
    );
    let through = interactions.filter_map(cleared.portal_teleport_fn());
    lemma_handle_teleport_wf(second, through);
    let third = second.spec_handle_teleport(through);
    lemma_spawn_units_wf(third, third.instances.len() as int);
}

/// Auto-attacks keep the world well-formed.
pub proof fn lemma_auto_attack_wf(w: WorldView, delta: u64)
    requires
        w.wf(),
    ensures
        w.spec_auto_attack_system(delta).wf(),
{
    lemma_same_population(w, w.spec_auto_attack_system(delta));
}

/// Death detection keeps the world well-formed.
pub proof fn lemma_death_wf(w: WorldView)
    requires
        w.wf(),
    ensures
        w.spec_death_system().wf(),
{
    lemma_same_population(w, w.spec_death_system());
}

/// Taking the dead out of the threat tables keeps the world well-formed.
pub proof fn lemma_remove_dead_wf(w: WorldView, events: Seq<DeathEvent>)
    requires
        w.wf(),
    ensures
        w.spec_remove_dead_from_threat(events).wf(),
{
    lemma_same_population(w, w.spec_remove_dead_from_threat(events));
}

/// Threat removal keeps the world well-formed.
pub proof fn lemma_threat_removal_wf(w: WorldView)
    requires
        w.wf(),
    ensures
        w.spec_remove_unreachable_targets_from_threat().wf(),
{
    lemma_same_population(w, w.spec_remove_unreachable_targets_from_threat());
}

/// Target selection keeps the world well-formed.
pub proof fn lemma_target_selection_wf(w: WorldView)
    requires
        w.wf(),
    ensures
        w.spec_target_and_follow_highest_threat().wf(),
{
    lemma_same_population(w, w.spec_target_and_follow_highest_threat());
}

/// Combat exit keeps the world well-formed.
pub proof fn lemma_leave_combat_wf(w: WorldView)
    requires
        w.wf(),
    ensures
        w.spec_leave_combat().wf(),
{
    lemma_same_population(w, w.spec_leave_combat());
}

/// Combat keeps the world well-formed and ends with the threat invariant in
/// force.
pub proof fn lemma_fight_keeps_order(w: WorldView, delta: u64, damage: Seq<DoDamageEvent>)
    requires
        w.wf(),
    ensures
        w.spec_fight(delta, damage).world.wf(),
        w.spec_fight(delta, damage).world.combat_consistent(),
{
    lemma_auto_attack_wf(w, delta);
    let struck = w.spec_auto_attack_system(delta);
    let attacks = w.spec_auto_attack_events(delta);
    lemma_damage_system_wf(struck, attacks);
    let once = struck.spec_damage_system(attacks);
    lemma_damage_system_wf(once, damage);
    let hurt = once.spec_damage_system(damage);
    lemma_death_wf(hurt);
    let dead = hurt.spec_death_system();
    lemma_remove_dead_wf(dead, hurt.spec_death_events());
    let mourned = dead.spec_remove_dead_from_threat(hurt.spec_death_events());
    lemma_threat_removal_wf(mourned);
    let decayed = mourned.spec_remove_unreachable_targets_from_threat();
    lemma_target_selection_wf(decayed);
    let judged = decayed.spec_target_and_follow_highest_threat();
    lemma_leave_combat_consistent(judged);
    lemma_leave_combat_wf(judged);
    let left = judged.spec_leave_combat();
    lemma_return_to_home_keeps_combat(left, judged.spec_leave_combat_events());
}

/// The end of evasion keeps the world well-formed and the threat invariant.
pub proof fn lemma_npc_evaded_keeps_order(w: WorldView)
    requires
        w.wf(),
        w.combat_consistent(),
    ensures
        w.spec_npc_evaded_system().wf(),
        w.spec_npc_evaded_system().combat_consistent(),
{
    let after = w.spec_npc_evaded_system();
    lemma_same_population(w, after);
    assert(same_combat(w, after));
    lemma_same_combat(w, after);
}

/// Combat entry by range keeps the world well-formed and the threat
/// invariant.
pub proof fn lemma_aggro_by_range_keeps_order(w: WorldView)
    requires
        w.wf(),
        w.combat_consistent(),
    ensures
        w.spec_aggro_by_range_system().wf(),
        w.spec_aggro_by_range_system().combat_consistent(),
{
    lemma_same_population(w, w.spec_aggro_by_range_system());
    lemma_aggro_by_range_keeps_combat(w);
}

/// The follow rule keeps the world well-formed and the threat invariant.
pub proof fn lemma_follow_keeps_order(w: WorldView)
    requires
        w.wf(),
        w.combat_consistent(),
    ensures
        w.spec_follow_system().wf(),
        w.spec_follow_system().combat_consistent(),
{
    let after = w.spec_follow_system();
    lemma_same_population(w, after);
    assert(same_combat(w, after));
    lemma_same_combat(w, after);
}

/// The movement rule keeps the world well-formed and the threat invariant.
pub proof fn lemma_movement_keeps_order(w: WorldView)
    requires
        w.wf(),
        w.combat_consistent(),
    ensures
        w.spec_movement_system().wf(),
        w.spec_movement_system().combat_consistent(),
{
    let after = w.spec_movement_system();
    lemma_same_population(w, after);
    assert(same_combat(w, after));
    lemma_same_combat(w, after);
}

/// Recovery of health keeps the world well-formed and the threat
/// invariant.
pub proof fn lemma_health_recovery_keeps_order(w: WorldView, delta: u64)
    requires
        w.wf(),
        w.combat_consistent(),
    ensures
        w.spec_health_recovery_system(delta).wf(),
        w.spec_health_recovery_system(delta).combat_consistent(),
{
    let after = w.spec_health_recovery_system(delta);
    lemma_same_population(w, after);
    assert(same_combat(w, after));
    lemma_same_combat(w, after);
}

/// Cleanup keeps the threat invariant.
pub proof fn lemma_cleanup_keeps_order(w: WorldView, delta: u64)
    requires
        w.wf(),
        w.combat_consistent(),
    ensures
        w.spec_map_instance_cleanup(delta).wf(),
        w.spec_map_instance_cleanup(delta).combat_consistent(),
{
    let after = w.spec_map_instance_cleanup(delta);
    lemma_cleanup_wf(w, delta);
    assert(same_combat(w, after));
    lemma_same_combat(w, after);
}

/// The end of a replication pass keeps the world well-formed and the threat
/// invariant.
pub proof fn lemma_clear_changes_keeps_order(w: WorldView)
    requires
        w.wf(),
        w.combat_consistent(),
    ensures
        w.spec_clear_changes().wf(),
        w.spec_clear_changes().combat_consistent(),
{
    let after = w.spec_clear_changes();
    lemma_same_population(w, after);
    assert(same_combat(w, after));
    lemma_same_combat(w, after);
}

/// The third part of a tick keeps the world well-formed and the threat
/// invariant.
pub proof fn lemma_settle_keeps_order(w: WorldView, delta: u64)
    requires
        w.wf(),
        w.combat_consistent(),
    ensures
        w.spec_settle(delta).wf(),
        w.spec_settle(delta).combat_consistent(),
{
    lemma_npc_evaded_keeps_order(w);
    let rested = w.spec_npc_evaded_system();
    lemma_aggro_by_range_keeps_order(rested);
    let roused = rested.spec_aggro_by_range_system();
    lemma_follow_keeps_order(roused);
    let led = roused.spec_follow_system();
    lemma_movement_keeps_order(led);
    let moved = led.spec_movement_system();
    lemma_health_recovery_keeps_order(moved, delta);
    let healed = moved.spec_health_recovery_system(delta);
    lemma_cleanup_keeps_order(healed, delta);
}

/// The threat invariant holds after every tick: whatever comes in, a tick
/// takes a well-formed world to a well-formed world in which a unit is in
/// combat exactly when it carries a threat table that is not empty.
pub proof fn lemma_tick_keeps_order(
    w: WorldView,
    delta: u64,
    connections: Seq<ServerEvent>,
    messages: Seq<ClientMessage>,
    damage: Seq<DoDamageEvent>,
    teleports: Seq<Teleport>,
)
    requires
        w.wf(),
    ensures
        w.spec_tick(delta, connections, messages, damage, teleports).world.wf(),
        w.spec_tick(delta, connections, messages, damage, teleports).world.combat_consistent(),
{
    lemma_intake_wf(w, connections, messages, teleports);
    let taken = w.spec_intake(connections, messages, teleports).world;
    lemma_fight_keeps_order(taken, delta, damage);
    let fought = taken.spec_fight(delta, damage).world;
    lemma_settle_keeps_order(fought, delta);
    lemma_clear_changes_keeps_order(fought.spec_settle(delta));
}

} // verus!
