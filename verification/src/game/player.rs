//! Everything that is particular to players.

use vstd::prelude::*;
use crate::components::Entity;
use crate::game::map::{DespawnEvent, Teleport};
use crate::game::unit::{Unit, UnitBundle};
use crate::game::world::{lemma_find, World, WorldView};
use crate::math::Position;
use crate::network::NetworkClientId;
use crate::shared_components::Player;

verus! {

/// Marks a player whose session is over and whose unit is to be taken out.
#[derive(Clone, Copy, Debug, PartialEq, Eq, Structural)]
pub struct LoggingOut;

/// Marks a player whose position the server dictates.
#[derive(Clone, Copy, Debug, PartialEq, Eq, Structural)]
pub struct Charmed;

/// Sub-units from each axis at which a new player stands.
pub const START_OFFSET: i32 = 30_000;

/// What a player who joins starts with.
#[derive(Clone, Debug, PartialEq, Eq)]
pub struct PlayerProfile {
    pub name: String,
    /// The kind of unit, which also names its looks.
    pub class: String,
    /// The map the player is sent to.
    pub map: String,
    pub position: Position,
}

impl PlayerProfile {
    /// The profile of a newcomer of whom nothing is known.
    pub fn new() -> (profile: PlayerProfile)
        ensures
            profile.name@ == "John Doe"@,
            profile.class@ == "Fantasy Dreamland/Characters/Character_001"@,
            profile.map@ == "start.tmx"@,
            profile.position == (Position { x: START_OFFSET, y: START_OFFSET, z: 0 }),
    {
        PlayerProfile {
            name: "John Doe".to_owned(),
            class: "Fantasy Dreamland/Characters/Character_001".to_owned(),
            map: "start.tmx".to_owned(),
            position: Position::new(START_OFFSET, START_OFFSET, 0),
        }
    }
}

/// The unit of a player who joins as `client_id` with `profile`, under the
/// identifier `entity`.
pub open spec fn spec_player_unit(entity: Entity, client_id: u64, profile: PlayerProfile) -> Unit {
    Unit {
        player: Some(Player),
        client: Some(NetworkClientId(client_id)),
        ..Unit::spec_from_bundle(
            entity,
            UnitBundle::spec_new(profile.name, profile.class, profile.position),
        )
    }
}

/// Whether logout leaves `unit` in place.
pub open spec fn stays(unit: Unit) -> bool {
    unit.logging_out is None
}

/// `stays` as a function value.
pub open spec fn stays_fn() -> spec_fn(Unit) -> bool {
    |unit: Unit| stays(unit)
}

/// What the logout of `unit` tells those who stay behind, where it goes and
/// was a child of a map instance.
pub open spec fn logout_event(unit: Unit) -> Option<DespawnEvent> {
    if unit.logging_out is Some && unit.map_instance is Some {
        Some(DespawnEvent { entity: unit.entity, map: unit.map_instance.unwrap().0 })
    } else {
        None
    }
}

/// `logout_event` as a function value.
pub open spec fn logout_event_fn() -> spec_fn(Unit) -> Option<DespawnEvent> {
    |unit: Unit| logout_event(unit)
}

impl WorldView {
    /// Whether `client_id` can join: it has no session yet and an identifier
    /// is left for its unit.
    pub open spec fn joins(self, client_id: u64) -> bool {
        !self.has_session(client_id) && self.can_spawn()
    }

    /// Join: the client gets a session and a unit that starts with the
    /// profile of this world.
    pub open spec fn spec_player_join(self, client_id: u64) -> WorldView {
        if self.joins(client_id) {
            WorldView {
                sessions: self.sessions.insert(client_id, Entity(self.next_entity)),
                ..self.with_new_unit(
                    spec_player_unit(Entity(self.next_entity), client_id, self.profile),
                )
            }
        } else {
            self
        }
    }

    /// The request that takes a player who joins to its first map.
    pub open spec fn spec_join_teleport(self, client_id: u64) -> Option<Teleport> {
        if self.joins(client_id) {
            Some(
                Teleport {
                    entity: Entity(self.next_entity),
                    map: self.profile.map,
                    map_instance: None,
                    prev_map_instance: None,
                    position: self.profile.position,
                },
            )
        } else {
            None
        }
    }

    /// This world without the unit at index `i`.
    pub open spec fn without_unit(self, i: int) -> WorldView {
        WorldView { units: self.units.remove(i), threats: self.threats.remove(i), ..self }
    }

    /// Logout: every unit that is logging out is taken away, with its threat
    /// table; those that stay keep theirs.
    pub open spec fn spec_player_logout(self) -> WorldView {
        let units = self.units.filter(stays_fn());
        WorldView {
            units,
            threats: Seq::new(units.len(), |k: int| self.threats[self.find(units[k].entity)]),
            ..self
        }
    }

    /// What logout tells those who stay behind: one event for each unit that
    /// goes and was a child of a map instance, in store order.
    pub open spec fn spec_player_logout_events(self) -> Seq<DespawnEvent> {
        self.units.filter_map(logout_event_fn())
    }
}

/// A world stays well-formed when a unit is taken away.
pub proof fn lemma_remove_unit(w: WorldView, i: int)
    requires
        w.wf(),
        0 <= i < w.units.len(),
    ensures
        w.without_unit(i).wf(),
{
    let after = w.without_unit(i);
    assert(after.instance_ids() =~= w.instance_ids());
    assert forall|a: int, b: int|
        0 <= a < after.ids().len() && 0 <= b < after.ids().len() && a != b implies after.ids()[a]
        != after.ids()[b] by {
        let a0 = if a < i {
            a
        } else {
            a + 1
        };
        let b0 = if b < i {
            b
        } else {
            b + 1
        };
        assert(after.ids()[a] == w.ids()[a0]);
        assert(after.ids()[b] == w.ids()[b0]);
    }
    assert forall|k: int| 0 <= k < after.units.len() implies (#[trigger] after.units[k]).entity.0
        < after.next_entity && (after.units[k].in_combat is Some <==> after.threats[k] is Some) by {
        let k0 = if k < i {
            k
        } else {
            k + 1
        };
        assert(after.units[k] == w.units[k0]);
        assert(after.threats[k] == w.threats[k0]);
    }
    assert forall|a: int, b: int|
        0 <= a < after.units.len() && 0 <= b < after.instances.len() implies (
    #[trigger] after.units[a]).entity != (#[trigger] after.instances[b]).entity by {
        let a0 = if a < i {
            a
        } else {
            a + 1
        };
        assert(after.units[a] == w.units[a0]);
    }
}

impl World {
    /// Gives `client_id` a session and a unit, and tells where the unit is
    /// to be taken.
    pub fn player_join(&mut self, client_id: u64) -> (teleport: Option<Teleport>)
        requires
            old(self)@.wf(),
        ensures
            final(self)@.wf(),
            final(self)@ =~= old(self)@.spec_player_join(client_id),
            teleport == old(self)@.spec_join_teleport(client_id),
    {
        if self.session_of(client_id).is_some() || self.next_entity == u64::MAX {
            return None;
        }
        let entity = Entity(self.next_entity);
        let mut unit = Unit::from_bundle(
            entity,
            UnitBundle::new(
                self.profile.name.clone(),
                self.profile.class.clone(),
                self.profile.position,
            ),
        );
        unit.player = Some(Player);
        unit.client = Some(NetworkClientId(client_id));
        self.place(unit);
        self.network.player_entity_map.insert(client_id, entity);
        proof {
            let w = old(self)@;
            assert(self@.ids() =~= w.with_new_unit(unit).ids());
            assert(self@.instance_ids() =~= w.instance_ids());
        }
        Some(
            Teleport {
                entity,
                map: self.profile.map.clone(),
                map_instance: None,
                prev_map_instance: None,
                position: self.profile.position,
            },
        )
    }

    /// Takes away every unit that is logging out, and tells what to say to
    /// those it leaves behind.
    pub fn player_logout(&mut self) -> (events: Vec<DespawnEvent>)
        requires
            old(self)@.wf(),
        ensures
            final(self)@.wf(),
            final(self)@ =~= old(self)@.spec_player_logout(),
            events@ == old(self)@.spec_player_logout_events(),
    {
        let mut events: Vec<DespawnEvent> = Vec::new();
        let ghost start = self@;
        let ghost keep = stays_fn();
        let mut i: usize = 0;
        let mut done: Ghost<int> = Ghost(0);
        proof {
            assert(start.units.take(0).filter(keep) =~= Seq::empty()) by {
                reveal(Seq::filter);
            }
            assert(start.units.skip(0) =~= start.units);
        }
        while i < self.units.len()
            invariant
                0 <= done@ <= start.units.len(),
                start == old(self)@,
                start.wf(),
                self@.wf(),
                keep == stays_fn(),
                self.maps == old(self).maps,
                self.network == old(self).network,
                self.recovery == old(self).recovery,
                self.next_entity == old(self).next_entity,
                self.profile == old(self).profile,
                i == start.units.take(done@).filter(keep).len(),
                self.units@ == start.units.take(done@).filter(keep) + start.units.skip(done@),
                self.threats@.len() == self.units@.len(),
                forall|k: int|
                    0 <= k < i ==> 0 <= start.find((#[trigger] self.units@[k]).entity)
                        < start.units.len(),
                forall|k: int|
                    0 <= k < i ==> #[trigger] self.threats@[k] == old(self).threats@[start.find(
                        self.units@[k].entity,
                    )],
                forall|k: int|
                    i <= k < self.units@.len() ==> #[trigger] self.threats@[k] == old(
                        self,
                    ).threats@[done@ + k - i],
                events@ == start.units.take(done@).filter_map(logout_event_fn()),
            decreases start.units.len() - done@,
        {
            proof {
                let kept = start.units.take(done@).filter(keep);
                let next = start.units[done@];
                assert(start.units.take(done@ + 1) =~= start.units.take(done@).push(next));
                start.units.take(done@).lemma_filter_push(next, keep);
                assert(start.units.skip(done@) =~= seq![next] + start.units.skip(done@ + 1));
                start.units.lemma_filter_map_take_succ(logout_event_fn(), done@);
                assert(self.units@[i as int] == next);
                lemma_find(start, done@);
            }
            if self.units[i].logging_out.is_some() {
                if let Some(map_instance_entity) = self.units[i].map_instance {
                    events.push(
                        DespawnEvent { entity: self.units[i].entity, map: map_instance_entity.0 },
                    );
                }
                let ghost before = self@;
                self.units.remove(i);
                self.threats.remove(i);
                proof {
                    lemma_remove_unit(before, i as int);
                    assert(self@.threats =~= before.threats.remove(i as int));
                    assert(self@ =~= before.without_unit(i as int));
                    assert(self.units@ =~= start.units.take(done@ + 1).filter(keep)
                        + start.units.skip(done@ + 1));
                }
            } else {
                proof {
                    assert(self.units@ =~= start.units.take(done@ + 1).filter(keep)
                        + start.units.skip(done@ + 1));
                }
                i += 1;
            }
            proof {
                done@ = done@ + 1;
            }
        }
        proof {
            assert(start.units.skip(done@).len() == 0);
            assert(done@ == start.units.len());
            assert(start.units.take(done@) == start.units);
            assert(self.units@ =~= start.units.filter(keep));
            assert forall|k: int| 0 <= k < self.units@.len() implies self@.threats[k]
                == start.spec_player_logout().threats[k] by {
                assert(0 <= start.find(self.units@[k].entity) < start.units.len());
                assert(self.threats@[k] == old(self).threats@[start.find(self.units@[k].entity)]);
            }
            assert(self@.threats =~= start.spec_player_logout().threats);
        }
        events
    }
}

} // verus!
