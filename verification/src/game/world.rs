//! The store of all gameplay state, and its mathematical view.

use vstd::prelude::*;
use vstd::std_specs::iter::IteratorSpec;
use crate::components::{Entity, Threat};
use crate::game::map::{CLEANUP_PERIOD, MapInstance, MapManager, TileMapData};
use crate::game::player::PlayerProfile;
use crate::game::unit::{HealthRecoveryTimer, RECOVERY_PERIOD, Unit};
use crate::network::NetworkResource;
use crate::time::{Timer, TimerMode};

verus! {

/// The whole state of the simulation.
///
/// Units are kept in the order in which they were created; the threat table
/// of the unit at an index is at the same index of `threats`.
pub struct World {
    pub units: Vec<Unit>,
    pub threats: Vec<Option<Threat>>,
    pub maps: MapManager,
    pub network: NetworkResource,
    pub recovery: HealthRecoveryTimer,
    /// What a player who joins starts with.
    pub profile: PlayerProfile,
    /// The identifier the next new entity gets.
    pub next_entity: u64,
}

/// A world as contracts see it.
#[verifier::ext_equal]
pub struct WorldView {
    pub units: Seq<Unit>,
    pub threats: Seq<Option<Map<Entity, i32>>>,
    pub instances: Seq<MapInstance>,
    pub atlas: Seq<TileMapData>,
    pub cleanup_timer: Timer,
    pub recovery_timer: Timer,
    /// The unit each connected client plays.
    pub sessions: Map<u64, Entity>,
    pub profile: PlayerProfile,
    pub next_entity: u64,
}

/// The scores of a threat table that may be absent.
pub open spec fn table_view(table: Option<Threat>) -> Option<Map<Entity, i32>> {
    match table {
        Some(t) => Some(t@),
        None => None,
    }
}

impl View for World {
    type V = WorldView;

    open spec fn view(&self) -> WorldView {
        WorldView {
            units: self.units@,
            threats: Seq::new(self.threats@.len(), |i: int| table_view(self.threats@[i])),
            instances: self.maps.instances@,
            atlas: self.maps.atlas@,
            cleanup_timer: self.maps.cleanup_timer,
            recovery_timer: self.recovery.0,
            sessions: self.network.player_entity_map@,
            profile: self.profile,
            next_entity: self.next_entity,
        }
    }
}

impl WorldView {
    /// The empty world over the templates of `atlas`, in which players
    /// start with `profile`: no unit, no map instance, no session, both
    /// timers at their start.
    pub open spec fn spec_new(atlas: Seq<TileMapData>, profile: PlayerProfile) -> WorldView {
        WorldView {
            units: Seq::empty(),
            threats: Seq::empty(),
            instances: Seq::empty(),
            atlas,
            cleanup_timer: Timer {
                elapsed: 0,
                duration: CLEANUP_PERIOD,
                mode: TimerMode::Repeating,
                finished: false,
                just_finished: false,
            },
            recovery_timer: Timer {
                elapsed: 0,
                duration: RECOVERY_PERIOD,
                mode: TimerMode::Repeating,
                finished: false,
                just_finished: false,
            },
            sessions: Map::empty(),
            profile,
            next_entity: 0,
        }
    }

    /// The identifiers of the units, in store order.
    pub open spec fn ids(self) -> Seq<Entity> {
        Seq::new(self.units.len(), |i: int| self.units[i].entity)
    }

    /// The identifiers of the map instances, in store order.
    pub open spec fn instance_ids(self) -> Seq<Entity> {
        Seq::new(self.instances.len(), |i: int| self.instances[i].entity)
    }

    /// Whether `entity` is a unit.
    pub open spec fn has(self, entity: Entity) -> bool {
        self.ids().contains(entity)
    }

    /// The index of the unit `entity`, where it is one.
    pub open spec fn find(self, entity: Entity) -> int {
        self.ids().index_of(entity)
    }

    /// Whether `entity` is a live map instance.
    pub open spec fn has_instance(self, entity: Entity) -> bool {
        self.instance_ids().contains(entity)
    }

    /// The index of the map instance `entity`, where it is one.
    pub open spec fn find_instance(self, entity: Entity) -> int {
        self.instance_ids().index_of(entity)
    }

    /// Whether `client_id` has a session.
    pub open spec fn has_session(self, client_id: u64) -> bool {
        self.sessions.contains_key(client_id)
    }

    /// Whether `clients` are the clients that have a session, each once.
    pub open spec fn all_clients(self, clients: Seq<u64>) -> bool {
        &&& clients.no_duplicates()
        &&& forall|client_id: u64| clients.contains(client_id) <==> self.has_session(client_id)
    }

    /// This world with `unit` at index `i`.
    pub open spec fn with_unit(self, i: int, unit: Unit) -> WorldView {
        WorldView { units: self.units.update(i, unit), ..self }
    }

    /// This world with `table` as the threat table at index `i`.
    pub open spec fn with_threat(self, i: int, table: Option<Map<Entity, i32>>) -> WorldView {
        WorldView { threats: self.threats.update(i, table), ..self }
    }

    /// `other` holds the same units, map instances and sessions under the
    /// same identifiers, whatever their components are.
    pub open spec fn same_population(self, other: WorldView) -> bool {
        &&& other.units.len() == self.units.len()
        &&& other.threats.len() == self.threats.len()
        &&& other.instances.len() == self.instances.len()
        &&& other.sessions == self.sessions
        &&& other.next_entity == self.next_entity
        &&& other.profile == self.profile
        &&& other.atlas == self.atlas
        &&& forall|i: int|
            0 <= i < self.units.len() ==> (#[trigger] other.units[i]).entity
                == self.units[i].entity
        &&& forall|i: int|
            0 <= i < self.instances.len() ==> (#[trigger] other.instances[i]).entity
                == self.instances[i].entity
    }

    /// Every unit is in combat exactly when its slot for a threat table is
    /// filled.
    pub open spec fn tables_match(self) -> bool {
        forall|i: int|
            0 <= i < self.units.len() ==> ((#[trigger] self.units[i]).in_combat is Some
                <==> self.threats[i] is Some)
    }

    /// What holds of every world at any time: each unit has its slot for a
    /// threat table and is in combat exactly when the slot is filled; no
    /// identifier is in use twice, and none is at or above the next one to be
    /// given out.
    pub open spec fn wf(self) -> bool {
        &&& self.threats.len() == self.units.len()
        &&& self.ids().no_duplicates()
        &&& self.instance_ids().no_duplicates()
        &&& forall|i: int|
            0 <= i < self.units.len() ==> (#[trigger] self.units[i]).entity.0 < self.next_entity
        &&& forall|i: int|
            0 <= i < self.instances.len() ==> (#[trigger] self.instances[i]).entity.0
                < self.next_entity
        &&& forall|client_id: u64|
            self.sessions.contains_key(client_id) ==> (#[trigger] self.sessions[client_id]).0
                < self.next_entity
        &&& forall|i: int, j: int|
            0 <= i < self.units.len() && 0 <= j < self.instances.len() ==> (
            #[trigger] self.units[i]).entity != (#[trigger] self.instances[j]).entity
        &&& forall|i: int|
            0 <= i < self.units.len() ==> ((#[trigger] self.units[i]).in_combat is Some
                <==> self.threats[i] is Some)
    }

    /// The threat invariant: a unit is in combat exactly when it carries a
    /// threat table that is not empty.
    pub open spec fn combat_consistent(self) -> bool {
        forall|i: int|
            0 <= i < self.units.len() && 0 <= i < self.threats.len() ==> ((
            #[trigger] self.units[i]).in_combat is Some <==> self.threats[i] is Some
                && self.threats[i].unwrap() != Map::<Entity, i32>::empty())
    }
}

/// A world stays well-formed when components change and the population does
/// not.
pub proof fn lemma_same_population(a: WorldView, b: WorldView)
    requires
        a.wf(),
        a.same_population(b),
        b.tables_match(),
    ensures
        b.wf(),
        b.ids() == a.ids(),
        b.instance_ids() == a.instance_ids(),
{
    assert(b.ids() =~= a.ids());
    assert(b.instance_ids() =~= a.instance_ids());
}

/// In a well-formed world an identifier finds the one unit that bears it.
pub proof fn lemma_find(w: WorldView, i: int)
    requires
        w.ids().no_duplicates(),
        0 <= i < w.units.len(),
    ensures
        w.has(w.units[i].entity),
        w.find(w.units[i].entity) == i,
{
    assert(w.ids()[i] == w.units[i].entity);
}

/// In a well-formed world an identifier finds the one map instance that bears
/// it.
pub proof fn lemma_find_instance(w: WorldView, i: int)
    requires
        w.instance_ids().no_duplicates(),
        0 <= i < w.instances.len(),
    ensures
        w.has_instance(w.instances[i].entity),
        w.find_instance(w.instances[i].entity) == i,
{
    assert(w.instance_ids()[i] == w.instances[i].entity);
}

impl World {
    /// An empty world over the templates of `atlas`, in which players start
    /// with `profile`.
    pub fn new(atlas: Vec<TileMapData>, profile: PlayerProfile) -> (world: World)
        ensures
            world@.wf(),
            world@ == WorldView::spec_new(atlas@, profile),
    {
        let world = World {
            units: Vec::new(),
            threats: Vec::new(),
            maps: MapManager {
                atlas,
                instances: Vec::new(),
                cleanup_timer: Timer::new(CLEANUP_PERIOD, TimerMode::Repeating),
            },
            network: NetworkResource { player_entity_map: std::collections::HashMap::new() },
            recovery: HealthRecoveryTimer(Timer::new(RECOVERY_PERIOD, TimerMode::Repeating)),
            profile,
            next_entity: 0,
        };
        assert(world@.threats =~= Seq::empty());
        world
    }

    /// The index of the unit `entity`.
    pub fn index_of(&self, entity: Entity) -> (index: Option<usize>)
        requires
            self@.wf(),
        ensures
            index is Some <==> self@.has(entity),
            index is Some ==> index.unwrap() == self@.find(entity) && index.unwrap()
                < self.units@.len() && self.units@[index.unwrap() as int].entity == entity,
    {
        let mut i: usize = 0;
        while i < self.units.len()
            invariant
                i <= self.units.len(),
                self@.wf(),
                forall|k: int| 0 <= k < i ==> (#[trigger] self.units@[k]).entity != entity,
            decreases self.units.len() - i,
        {
            if self.units[i].entity == entity {
                proof {
                    lemma_find(self@, i as int);
                }
                return Some(i);
            }
            i += 1;
        }
        proof {
            if self@.has(entity) {
                let k = choose|k: int| 0 <= k < self@.ids().len() && self@.ids()[k] == entity;
                assert(self.units@[k].entity == entity);
            }
        }
        None
    }

    /// The index of the map instance `entity`.
    pub fn instance_index_of(&self, entity: Entity) -> (index: Option<usize>)
        requires
            self@.wf(),
        ensures
            index is Some <==> self@.has_instance(entity),
            index is Some ==> index.unwrap() == self@.find_instance(entity) && index.unwrap()
                < self.maps.instances@.len() && self.maps.instances@[index.unwrap() as int].entity
                == entity,
    {
        let mut i: usize = 0;
        while i < self.maps.instances.len()
            invariant
                i <= self.maps.instances.len(),
                self@.wf(),
                forall|k: int|
                    0 <= k < i ==> (#[trigger] self.maps.instances@[k]).entity != entity,
            decreases self.maps.instances.len() - i,
        {
            if self.maps.instances[i].entity == entity {
                proof {
                    lemma_find_instance(self@, i as int);
                }
                return Some(i);
            }
            i += 1;
        }
        proof {
            if self@.has_instance(entity) {
                let k = choose|k: int|
                    0 <= k < self@.instance_ids().len() && self@.instance_ids()[k] == entity;
                assert(self.maps.instances@[k].entity == entity);
            }
        }
        None
    }

    /// The unit `client_id` plays, as its session has it.
    pub fn session_of(&self, client_id: u64) -> (entity: Option<Entity>)
        ensures
            entity is Some <==> self@.has_session(client_id),
            entity is Some ==> entity.unwrap() == self@.sessions[client_id],
    {
        match self.network.player_entity_map.get(&client_id) {
            Some(entity) => Some(*entity),
            None => None,
        }
    }

    /// The clients that have a session, each once, in the order in which
    /// the sessions are walked.
    pub fn connected_clients(&self) -> (clients: Vec<u64>)
        ensures
            self@.all_clients(clients@),
    {
        let mut clients: Vec<u64> = Vec::new();
        let ghost all = vstd::std_specs::hash::spec_keys_iter(
            &self.network.player_entity_map,
        ).remaining();
        for client_id in walk: self.network.player_entity_map.keys()
            invariant
                walk.seq() == all,
                clients@.len() == walk.index(),
                forall|k: int| 0 <= k < clients@.len() ==> clients@[k] == *walk.seq()[k],
        {
            clients.push(*client_id);
        }
        proof {
            assert(all.unref().to_set() == self.network.player_entity_map@.dom());
            assert(clients@ =~= all.unref());
        }
        clients
    }

    /// The unit `entity`, if there is one.
    pub fn unit(&self, entity: Entity) -> (unit: Option<&Unit>)
        requires
            self@.wf(),
        ensures
            unit is Some <==> self@.has(entity),
            unit is Some ==> *unit.unwrap() == self@.units[self@.find(entity)],
    {
        match self.index_of(entity) {
            Some(i) => Some(&self.units[i]),
            None => None,
        }
    }

    /// The threat table of the unit `entity`, if it carries one.
    pub fn threat(&self, entity: Entity) -> (table: Option<&Threat>)
        requires
            self@.wf(),
        ensures
            table is Some <==> self@.has(entity) && self@.threats[self@.find(entity)] is Some,
            table is Some ==> table.unwrap()@ == self@.threats[self@.find(entity)].unwrap(),
    {
        match self.index_of(entity) {
            Some(i) => self.threats[i].as_ref(),
            None => None,
        }
    }
}

/// Whether no number occurs twice in `numbers`.
pub fn all_distinct(numbers: &Vec<u64>) -> (distinct: bool)
    ensures
        distinct == numbers@.no_duplicates(),
{
    let mut i: usize = 0;
    while i < numbers.len()
        invariant
            i <= numbers.len(),
            forall|a: int, b: int| 0 <= a < b < i ==> numbers@[a] != numbers@[b],
        decreases numbers.len() - i,
    {
        let mut j: usize = 0;
        while j < i
            invariant
                j <= i < numbers.len(),
                forall|a: int, b: int| 0 <= a < b < i ==> numbers@[a] != numbers@[b],
                forall|a: int| 0 <= a < j ==> numbers@[a] != numbers@[i as int],
            decreases i - j,
        {
            if numbers[j] == numbers[i] {
                return false;
            }
            j += 1;
        }
        i += 1;
    }
    true
}

impl World {
    /// Whether this world is well-formed.  Every world that the functions
    /// of this crate make is; this is for a world whose fields were set by
    /// hand.
    pub fn is_well_formed(&self) -> (ok: bool)
        ensures
            ok == self@.wf(),
    {
        if self.threats.len() != self.units.len() {
            return false;
        }
        let mut unit_ids: Vec<u64> = Vec::new();
        let mut i: usize = 0;
        while i < self.units.len()
            invariant
                i <= self.units.len(),
                self.threats@.len() == self.units@.len(),
                unit_ids@.len() == i,
                forall|k: int| 0 <= k < i ==> unit_ids@[k] == (#[trigger] self.units@[k]).entity.0,
                forall|k: int|
                    0 <= k < i ==> (#[trigger] self.units@[k]).entity.0 < self.next_entity,
                forall|k: int|
                    0 <= k < i ==> ((#[trigger] self.units@[k]).in_combat is Some
                        <==> self.threats@[k] is Some),
                forall|k: int, m: int|
                    0 <= k < i && 0 <= m < self.maps.instances@.len() ==> (
                    #[trigger] self.units@[k]).entity != (
                    #[trigger] self.maps.instances@[m]).entity,
            decreases self.units.len() - i,
        {
            if self.units[i].entity.0 >= self.next_entity {
                return false;
            }
            if self.units[i].in_combat.is_some() != self.threats[i].is_some() {
                return false;
            }
            let mut m: usize = 0;
            while m < self.maps.instances.len()
                invariant
                    i < self.units.len(),
                    m <= self.maps.instances.len(),
                    forall|n: int|
                        0 <= n < m ==> self.units@[i as int].entity != (
                        #[trigger] self.maps.instances@[n]).entity,
                decreases self.maps.instances.len() - m,
            {
                if self.maps.instances[m].entity == self.units[i].entity {
                    return false;
                }
                m += 1;
            }
            unit_ids.push(self.units[i].entity.0);
            i += 1;
        }
        let mut instance_ids: Vec<u64> = Vec::new();
        let mut m: usize = 0;
        while m < self.maps.instances.len()
            invariant
                m <= self.maps.instances.len(),
                instance_ids@.len() == m,
                forall|k: int|
                    0 <= k < m ==> instance_ids@[k] == (
                    #[trigger] self.maps.instances@[k]).entity.0,
                forall|k: int|
                    0 <= k < m ==> (#[trigger] self.maps.instances@[k]).entity.0
                        < self.next_entity,
            decreases self.maps.instances.len() - m,
        {
            if self.maps.instances[m].entity.0 >= self.next_entity {
                return false;
            }
            instance_ids.push(self.maps.instances[m].entity.0);
            m += 1;
        }
        let clients = self.connected_clients();
        let mut s: usize = 0;
        while s < clients.len()
            invariant
                s <= clients.len(),
                self@.all_clients(clients@),
                forall|k: int|
                    0 <= k < s ==> self@.sessions[#[trigger] clients@[k]].0 < self.next_entity,
            decreases clients.len() - s,
        {
            proof {
                assert(clients@.contains(clients@[s as int]));
                assert(self@.has_session(clients@[s as int]));
            }
            match self.session_of(clients[s]) {
                Some(entity) => {
                    if entity.0 >= self.next_entity {
                        return false;
                    }
                },
                None => {},
            }
            s += 1;
        }
        let distinct = all_distinct(&unit_ids) && all_distinct(&instance_ids);
        proof {
            let w = self@;
            assert forall|client_id: u64| w.sessions.contains_key(client_id) implies (
            #[trigger] w.sessions[client_id]).0 < w.next_entity by {
                assert(w.has_session(client_id));
                assert(clients@.contains(client_id));
                let k = choose|k: int| 0 <= k < clients@.len() && clients@[k] == client_id;
                assert(w.sessions[clients@[k]].0 < w.next_entity);
            }
            assert(unit_ids@.no_duplicates() <==> w.ids().no_duplicates()) by {
                if unit_ids@.no_duplicates() {
                    assert forall|a: int, b: int|
                        0 <= a < w.ids().len() && 0 <= b < w.ids().len() && a
                            != b implies w.ids()[a] != w.ids()[b] by {
                        assert(unit_ids@[a] != unit_ids@[b]);
                    }
                }
                if w.ids().no_duplicates() {
                    assert forall|a: int, b: int|
                        0 <= a < unit_ids@.len() && 0 <= b < unit_ids@.len() && a
                            != b implies unit_ids@[a] != unit_ids@[b] by {
                        assert(w.ids()[a] != w.ids()[b]);
                    }
                }
            }
            assert(instance_ids@.no_duplicates() <==> w.instance_ids().no_duplicates()) by {
                if instance_ids@.no_duplicates() {
                    assert forall|a: int, b: int|
                        0 <= a < w.instance_ids().len() && 0 <= b < w.instance_ids().len() && a
                            != b implies w.instance_ids()[a] != w.instance_ids()[b] by {
                        assert(instance_ids@[a] != instance_ids@[b]);
                    }
                }
                if w.instance_ids().no_duplicates() {
                    assert forall|a: int, b: int|
                        0 <= a < instance_ids@.len() && 0 <= b < instance_ids@.len() && a
                            != b implies instance_ids@[a] != instance_ids@[b] by {
                        assert(w.instance_ids()[a] != w.instance_ids()[b]);
                    }
                }
            }
        }
        distinct
    }
}

} // verus!
