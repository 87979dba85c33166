//! One tick of the simulation: what comes in is taken in, the rules run in
//! a fixed order, and what the clients have to hear comes out.

use vstd::prelude::*;
use crate::game::combat::{DoDamageEvent, indices};
use crate::game::map::{DespawnEvent, Teleport};
use crate::game::order::{
    lemma_fight_keeps_order, lemma_settle_keeps_order, lemma_tick_keeps_order,
};
use crate::game::world::{World, WorldView};
use crate::network::{outbound, OutboundView, queue, SendServerMessageEvent};
use crate::network::server::{ClientMessage, info_request_fn, interaction_fn, ServerEvent};
use crate::network::sync_systems::{
    chat_message_fn, death_message_fn, despawn_message_fn, entered_combat_message_fn,
    movement_message_fn, send_death_events, send_despawn, spawn_message_fn,
    spec_send_vitals_changed,
};

verus! {

/// A world in the course of a tick, with what the clients are to hear of
/// the tick so far.
pub struct Progress {
    pub world: WorldView,
    pub messages: Seq<OutboundView>,
}

impl WorldView {
    /// The first part of a tick: the reports of the transport and the
    /// messages of the clients are taken in, those who log out are taken
    /// away, and every request to place a unit in a map is carried out:
    /// first those of the players who joined, then `teleports`, then those
    /// of the players who used a portal.  New map instances get their
    /// creatures.
    pub open spec fn spec_intake(
        self,
        connections: Seq<ServerEvent>,
        messages: Seq<ClientMessage>,
        teleports: Seq<Teleport>,
    ) -> Progress {
        let connected = self.spec_handle_connection_events(connections);
        let joined = self.spec_handle_connection_teleports(connections);
        let heard = connected.spec_handle_client_messages(messages);
        let requests = messages.filter_map(info_request_fn(connected.sessions));
        let interactions = messages.filter_map(interaction_fn(connected.sessions));
        let cleared = heard.spec_player_logout();
        let through = interactions.filter_map(cleared.portal_teleport_fn());
        let first = cleared.spec_handle_teleport(joined);
        let second = first.spec_handle_teleport(teleports);
        let third = second.spec_handle_teleport(through);
        let despawns = heard.spec_player_logout_events() + cleared.spec_handle_teleport_despawns(
            joined,
        ) + first.spec_handle_teleport_despawns(teleports) + second.spec_handle_teleport_despawns(
            through,
        );
        let placed = third.spec_spawn_units();
        Progress {
            world: placed,
            messages: self.spec_handle_connection_messages(connections) + interactions.filter_map(
                cleared.portal_error_fn(),
            ) + cleared.spec_handle_teleport_messages(joined) + first.spec_handle_teleport_messages(
                teleports,
            ) + second.spec_handle_teleport_messages(through) + despawns.filter_map(
                despawn_message_fn(),
            ) + requests.filter_map(placed.entity_info_message_fn()),
        }
    }

    /// The second part of a tick, combat: auto-attacks, then the damage of
    /// the auto-attacks and of `damage`, then death, then the removal of
    /// the dead and of the unreachable from the threat tables, target
    /// selection, and combat exit with the way home.
    pub open spec fn spec_fight(self, delta: u64, damage: Seq<DoDamageEvent>) -> Progress {
        let attacks = self.spec_auto_attack_events(delta);
        let hurt = self.spec_auto_attack_system(delta).spec_damage_system(
            attacks,
        ).spec_damage_system(damage);
        let deaths = hurt.spec_death_events();
        let judged = hurt.spec_death_system().spec_remove_dead_from_threat(
            deaths,
        ).spec_remove_unreachable_targets_from_threat().spec_target_and_follow_highest_threat();
        let leaves = judged.spec_leave_combat_events();
        let calmed = judged.spec_leave_combat().spec_return_to_home_system(leaves);
        Progress {
            world: calmed,
            messages: deaths.filter_map(death_message_fn()) + leaves.filter_map(
                calmed.exit_combat_message_fn(),
            ),
        }
    }

    /// The third part of a tick: evasion ends for those who are home,
    /// creatures on the lookout aggro, followers are pointed at their
    /// leaders, units move, health recovers, and empty map instances are
    /// swept.
    pub open spec fn spec_settle(self, delta: u64) -> WorldView {
        self.spec_npc_evaded_system().spec_aggro_by_range_system().spec_follow_system().spec_movement_system().spec_health_recovery_system(
            delta,
        ).spec_map_instance_cleanup(delta)
    }

    /// The last part of a tick: what the clients hear of the state as it is
    /// now.
    pub open spec fn spec_replicate(self) -> Seq<OutboundView> {
        self.units.filter_map(self.entity_list_message_fn()) + self.units.filter_map(
            spawn_message_fn(),
        ) + self.units.filter_map(movement_message_fn()) + spec_send_vitals_changed(self.units)
            + indices(self.units.len()).filter_map(self.threat_message_fn())
            + self.units.filter_map(entered_combat_message_fn()) + self.units.filter_map(
            chat_message_fn(),
        )
    }

    /// One tick of `delta` nanoseconds.
    pub open spec fn spec_tick(
        self,
        delta: u64,
        connections: Seq<ServerEvent>,
        messages: Seq<ClientMessage>,
        damage: Seq<DoDamageEvent>,
        teleports: Seq<Teleport>,
    ) -> Progress {
        let taken = self.spec_intake(connections, messages, teleports);
        let fought = taken.world.spec_fight(delta, damage);
        let settled = fought.world.spec_settle(delta);
        Progress {
            world: settled.spec_clear_changes(),
            messages: taken.messages + fought.messages + settled.spec_replicate(),
        }
    }
}

impl World {
    /// The first part of a tick.
    pub fn intake(
        &mut self,
        connections: &Vec<ServerEvent>,
        messages: &Vec<ClientMessage>,
        teleports: &Vec<Teleport>,
    ) -> (out: Vec<SendServerMessageEvent>)
        requires
            old(self)@.wf(),
        ensures
            final(self)@.wf(),
            final(self)@ == old(self)@.spec_intake(connections@, messages@, teleports@).world,
            outbound(out@) == old(self)@.spec_intake(connections@, messages@, teleports@).messages,
    {
        let (mut out, joined) = self.handle_connection_events(connections);
        let (requests, interactions) = self.handle_client_messages(messages);
        let mut despawns: Vec<DespawnEvent> = self.player_logout();
        let (through, errors) = self.portal_interaction(&interactions);
        queue(&mut out, errors);
        let (mut left, told) = self.handle_teleport(&joined);
        despawns.append(&mut left);
        queue(&mut out, told);
        let (mut left, told) = self.handle_teleport(teleports);
        despawns.append(&mut left);
        queue(&mut out, told);
        let (mut left, told) = self.handle_teleport(&through);
        despawns.append(&mut left);
        queue(&mut out, told);
        self.spawn_units();
        queue(&mut out, send_despawn(&despawns));
        queue(&mut out, self.send_entity_info(&requests));
        out
    }

    /// The second part of a tick: combat.
    pub fn fight(&mut self, delta: u64, damage: &Vec<DoDamageEvent>) -> (out: Vec<
        SendServerMessageEvent,
    >)
        requires
            old(self)@.wf(),
        ensures
            final(self)@.wf(),
            final(self)@.combat_consistent(),
            final(self)@ == old(self)@.spec_fight(delta, damage@).world,
            outbound(out@) == old(self)@.spec_fight(delta, damage@).messages,
    {
        let attacks = self.auto_attack_system(delta);
        self.do_damage_system(&attacks);
        self.do_damage_system(damage);
        let deaths = self.death_system();
        self.remove_dead_from_threat(&deaths);
        self.remove_unreachable_targets_from_threat();
        self.target_and_follow_highest_threat();
        let leaves = self.leave_combat();
        self.return_to_home_system(&leaves);
        proof {
            lemma_fight_keeps_order(old(self)@, delta, damage@);
        }
        let mut out = send_death_events(&deaths);
        queue(&mut out, self.send_exit_combat(&leaves));
        out
    }

    /// The third part of a tick.
    pub fn settle(&mut self, delta: u64)
        requires
            old(self)@.wf(),
        ensures
            final(self)@.wf(),
            final(self)@ == old(self)@.spec_settle(delta),
            old(self)@.combat_consistent() ==> final(self)@.combat_consistent(),
    {
        self.npc_evaded_system();
        self.aggro_by_range_system();
        self.follow_system();
        self.movement_system();
        self.health_recovery_system(delta);
        self.map_instance_cleanup(delta);
        proof {
            if old(self)@.combat_consistent() {
                lemma_settle_keeps_order(old(self)@, delta);
            }
        }
    }

    /// The last part of a tick: what the clients hear of the state as it is
    /// now.
    pub fn replicate(&self) -> (out: Vec<SendServerMessageEvent>)
        requires
            self@.wf(),
        ensures
            outbound(out@) == self@.spec_replicate(),
    {
        let mut out = self.send_map_instance_entities();
        queue(&mut out, self.send_spawn());
        queue(&mut out, self.send_movement());
        queue(&mut out, self.send_vitals_changed());
        queue(&mut out, self.send_threat());
        queue(&mut out, self.send_entered_combat());
        queue(&mut out, self.send_chat());
        out
    }

    /// Runs one tick of `delta` nanoseconds on what came in since the last
    /// one: the reports of the transport, the messages of the clients, and
    /// the damage and the teleports that scripted behaviors ask for.  Gives
    /// the messages to send.
    pub fn tick(
        &mut self,
        delta: u64,
        connections: &Vec<ServerEvent>,
        messages: &Vec<ClientMessage>,
        damage: &Vec<DoDamageEvent>,
        teleports: &Vec<Teleport>,
    ) -> (out: Vec<SendServerMessageEvent>)
        requires
            old(self)@.wf(),
        ensures
            final(self)@.wf(),
            final(self)@.combat_consistent(),
            final(self)@ == old(self)@.spec_tick(
                delta,
                connections@,
                messages@,
                damage@,
                teleports@,
            ).world,
            outbound(out@) == old(self)@.spec_tick(
                delta,
                connections@,
                messages@,
                damage@,
                teleports@,
            ).messages,
    {
        let mut out = self.intake(connections, messages, teleports);
        queue(&mut out, self.fight(delta, damage));
        self.settle(delta);
        queue(&mut out, self.replicate());
        self.clear_changes();
        proof {
            lemma_tick_keeps_order(old(self)@, delta, connections@, messages@, damage@, teleports@);
        }
        out
    }
}

} // verus!
