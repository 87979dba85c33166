//! Components shared by every unit of the simulation.

use vstd::prelude::*;
use crate::math::{saturating_sum, spec_saturating_sum};

verus! {

/// Identifier of a unit or a map instance, unique for the life of a world.
#[derive(Clone, Copy, Debug, PartialEq, Eq, Structural, Hash)]
pub struct Entity(pub u64);

impl Entity {
    /// Whether this entity was created before `other`.
    pub fn is_older_than(&self, other: Entity) -> (r: bool)
        ensures
            r == older(*self, other),
    {
        self.0 < other.0
    }
}

/// Hit points a unit currently has; a lethal hit may take it below zero.
#[derive(Clone, Copy, Debug, PartialEq, Eq, Structural)]
pub struct Health(pub i32);

/// Mana a unit currently has.
#[derive(Clone, Copy, Debug, PartialEq, Eq, Structural)]
pub struct Mana(pub i32);

/// The mana of a unit that is rested.
#[derive(Clone, Copy, Debug, PartialEq, Eq, Structural)]
pub struct MaxMana(pub i32);

/// The health of a unit that is unhurt; recovery stops here.
#[derive(Clone, Copy, Debug, PartialEq, Eq, Structural)]
pub struct MaxHealth(pub i32);

/// The single entity a unit is focused on.
#[derive(Clone, Copy, Debug, PartialEq, Eq, Structural)]
pub struct Target(pub Entity);

/// Marks a unit whose health was found at or below zero.
#[derive(Clone, Copy, Debug, PartialEq, Eq, Structural)]
pub struct Dead;

/// Marks a unit that carries a threat table.
#[derive(Clone, Copy, Debug, PartialEq, Eq, Structural)]
pub struct InCombat;

/// Marks a unit that players can use.
#[derive(Clone, Copy, Debug, PartialEq, Eq, Structural)]
pub struct Interactable;

/// What a unit is saying right now.
#[derive(Clone, Debug, PartialEq, Eq)]
pub struct Saying(pub String);

/// Threat scores by attacker, kept in a hash map of `bevy::utils`.
#[verifier::external_body]
#[derive(Debug, PartialEq, Eq)]
pub struct ThreatMap {
    scores: bevy::utils::HashMap<u64, i32>,
}

/// What a threat map holds: the score stored under each attacker's id.
pub uninterp spec fn threat_entries(map: ThreatMap) -> Map<u64, i32>;

/// No key occurs twice in `pairs`.
pub open spec fn distinct_keys(pairs: Seq<(u64, i32)>) -> bool {
    forall|i: int, j: int| 0 <= i < j < pairs.len() ==> pairs[i].0 != pairs[j].0
}

/// `pairs` lists exactly the entries of `entries`, each once.
pub open spec fn lists_entries(pairs: Seq<(u64, i32)>, entries: Map<u64, i32>) -> bool {
    &&& distinct_keys(pairs)
    &&& forall|i: int|
        0 <= i < pairs.len() ==> entries.contains_key(#[trigger] pairs[i].0) && entries[pairs[i].0]
            == pairs[i].1
    &&& forall|key: u64| #[trigger]
        entries.contains_key(key) ==> exists|i: int| 0 <= i < pairs.len() && pairs[i].0 == key
}

/// `HashMap::default`: the new map holds nothing.
#[verifier::external_body]
fn map_new() -> (map: ThreatMap)
    ensures
        threat_entries(map).dom() == Set::<u64>::empty(),
{
    ThreatMap { scores: bevy::utils::HashMap::default() }
}

/// `HashMap::insert`: afterwards `key` maps to `value`, every other entry is
/// as before.
#[verifier::external_body]
fn map_insert(map: &mut ThreatMap, key: u64, value: i32)
    ensures
        threat_entries(*final(map)) == threat_entries(*old(map)).insert(key, value),
{
    map.scores.insert(key, value);
}

/// `HashMap::remove`: afterwards `key` is absent, every other entry is as
/// before.
#[verifier::external_body]
fn map_remove(map: &mut ThreatMap, key: u64)
    ensures
        threat_entries(*final(map)) == threat_entries(*old(map)).remove(key),
{
    map.scores.remove(&key);
}

/// `HashMap::get`: the value stored under `key`, if there is one.
#[verifier::external_body]
fn map_get(map: &ThreatMap, key: u64) -> (value: Option<&i32>)
    ensures
        value.is_some() == threat_entries(*map).contains_key(key),
        value.is_some() ==> *value.unwrap() == threat_entries(*map)[key],
{
    map.scores.get(&key)
}

/// `HashMap::is_empty`: whether the map holds no entry.
#[verifier::external_body]
fn map_is_empty(map: &ThreatMap) -> (empty: bool)
    ensures
        empty == (threat_entries(*map).dom() == Set::<u64>::empty()),
{
    map.scores.is_empty()
}

/// `HashMap::iter`: every entry once, in the order in which the map walks
/// them, which is left open.
#[verifier::external_body]
fn map_pairs(map: &ThreatMap) -> (pairs: Vec<(u64, i32)>)
    ensures
        lists_entries(pairs@, threat_entries(*map)),
{
    map.scores.iter().map(|(key, value)| (*key, *value)).collect()
}

/// `HashMap::clone`: the copy holds the same entries.
#[verifier::external_body]
fn map_clone(map: &ThreatMap) -> (copy: ThreatMap)
    ensures
        threat_entries(copy) == threat_entries(*map),
{
    ThreatMap { scores: map.scores.clone() }
}

impl View for ThreatMap {
    type V = Map<Entity, i32>;

    /// The scores by attacker.
    open spec fn view(&self) -> Map<Entity, i32> {
        Map::new(
            |e: Entity| threat_entries(*self).contains_key(e.0),
            |e: Entity| threat_entries(*self)[e.0],
        )
    }
}

impl ThreatMap {
    /// A map that holds nothing.
    pub fn new() -> (map: Self)
        ensures
            map@ == Map::<Entity, i32>::empty(),
    {
        let map = map_new();
        assert(map@ =~= Map::<Entity, i32>::empty());
        map
    }
}

impl Clone for ThreatMap {
    fn clone(&self) -> (copy: Self)
        ensures
            copy@ == self@,
    {
        map_clone(self)
    }
}

/// The threat table of a unit: who attacked it, and how much each weighs.
///
/// The attacker with the highest score is the one the unit goes after.
#[derive(Debug, PartialEq, Eq)]
pub struct Threat(pub ThreatMap);

impl View for Threat {
    type V = Map<Entity, i32>;

    open spec fn view(&self) -> Map<Entity, i32> {
        self.0@
    }
}

impl Clone for Threat {
    fn clone(&self) -> (copy: Self)
        ensures
            copy@ == self@,
    {
        Threat(self.0.clone())
    }
}

/// The score `table` holds for `entity`, zero where it holds none.
pub open spec fn spec_score(table: Map<Entity, i32>, entity: Entity) -> i32 {
    if table.contains_key(entity) {
        table[entity]
    } else {
        0
    }
}

/// `a` was created before `b`.
pub open spec fn older(a: Entity, b: Entity) -> bool {
    a.0 < b.0
}

/// Target selection prefers `a` to `b`: the higher score first; between equal
/// scores the incumbent; else the older entity.
pub open spec fn prefers(
    a: (Entity, i32),
    b: (Entity, i32),
    incumbent: Option<Entity>,
) -> bool {
    ||| a.1 > b.1
    ||| a.1 == b.1 && incumbent == Some(a.0)
    ||| a.1 == b.1 && incumbent != Some(b.0) && older(a.0, b.0)
}

/// `entity` wins target selection in `table`: its score is above zero and it
/// is preferred to every other attacker.
pub open spec fn wins(table: Map<Entity, i32>, entity: Entity, incumbent: Option<Entity>) -> bool {
    &&& table.contains_key(entity)
    &&& table[entity] > 0
    &&& forall|other: Entity| #[trigger]
        table.contains_key(other) && other != entity ==> prefers(
            (entity, table[entity]),
            (other, table[other]),
            incumbent,
        )
}

/// The attacker a unit goes after, given the one it is after now: the winner
/// of `table`, none where no score is above zero.
pub open spec fn spec_highest(table: Map<Entity, i32>, incumbent: Option<Entity>) -> Option<
    Entity,
> {
    if exists|entity: Entity| wins(table, entity, incumbent) {
        Some(choose|entity: Entity| wins(table, entity, incumbent))
    } else {
        None
    }
}

/// A table has at most one winner.
pub proof fn lemma_winner_unique(
    table: Map<Entity, i32>,
    a: Entity,
    b: Entity,
    incumbent: Option<Entity>,
)
    requires
        wins(table, a, incumbent),
        wins(table, b, incumbent),
    ensures
        a == b,
{
    if a != b {
        assert(prefers((a, table[a]), (b, table[b]), incumbent));
        assert(prefers((b, table[b]), (a, table[a]), incumbent));
    }
}

impl Threat {
    /// An empty table.
    pub fn new() -> (table: Self)
        ensures
            table@ == Map::<Entity, i32>::empty(),
    {
        Threat(ThreatMap::new())
    }

    /// Raises the score of `entity` by `threat`, starting from zero for a new
    /// attacker.  The score stops at the bounds of `i32`.
    pub fn add(&mut self, entity: Entity, threat: i32)
        ensures
            final(self)@ == old(self)@.insert(
                entity,
                spec_saturating_sum(spec_score(old(self)@, entity), threat),
            ),
    {
        let current_threat: i32 = match map_get(&self.0, entity.0) {
            Some(score) => *score,
            None => 0,
        };
        map_insert(&mut self.0, entity.0, saturating_sum(current_threat, threat));
        assert(self@ =~= old(self)@.insert(
            entity,
            spec_saturating_sum(spec_score(old(self)@, entity), threat),
        ));
    }

    /// The score of `entity`, if the table holds one.
    pub fn get(&self, entity: Entity) -> (score: Option<&i32>)
        ensures
            score.is_some() == self@.contains_key(entity),
            score.is_some() ==> *score.unwrap() == self@[entity],
    {
        map_get(&self.0, entity.0)
    }

    /// Whether `entity` has a score in the table.
    pub fn contains(&self, entity: Entity) -> (found: bool)
        ensures
            found == self@.contains_key(entity),
    {
        map_get(&self.0, entity.0).is_some()
    }

    /// Forgets `entity`.
    pub fn remove(&mut self, entity: Entity)
        ensures
            final(self)@ == old(self)@.remove(entity),
    {
        map_remove(&mut self.0, entity.0);
        assert(self@ =~= old(self)@.remove(entity));
    }

    /// Whether nobody is left in the table.
    pub fn is_empty(&self) -> (empty: bool)
        ensures
            empty == (self@ == Map::<Entity, i32>::empty()),
    {
        let empty = map_is_empty(&self.0);
        proof {
            if empty {
                assert(self@ =~= Map::<Entity, i32>::empty());
            } else {
                let key = choose|key: u64| threat_entries(self.0).dom().contains(key);
                assert(threat_entries(self.0).dom() !~= Set::<u64>::empty());
                assert(threat_entries(self.0).dom().contains(key));
                assert(self@.contains_key(Entity(key)));
            }
        }
        empty
    }

    /// Every entry once, in the order in which the table walks them.
    pub fn entries(&self) -> (pairs: Vec<(Entity, i32)>)
        ensures
            forall|i: int, j: int| 0 <= i < j < pairs@.len() ==> pairs@[i].0 != pairs@[j].0,
            forall|i: int|
                0 <= i < pairs@.len() ==> self@.contains_key(#[trigger] pairs@[i].0) && self@[pairs@[i].0]
                    == pairs@[i].1,
            forall|entity: Entity| #[trigger]
                self@.contains_key(entity) ==> exists|i: int|
                    0 <= i < pairs@.len() && pairs@[i].0 == entity,
    {
        let raw = map_pairs(&self.0);
        let mut pairs: Vec<(Entity, i32)> = Vec::new();
        let mut i: usize = 0;
        while i < raw.len()
            invariant
                i <= raw.len(),
                pairs@.len() == i,
                forall|k: int|
                    0 <= k < i ==> (#[trigger] pairs@[k]).0 == Entity(raw@[k].0) && pairs@[k].1
                        == raw@[k].1,
            decreases raw.len() - i,
        {
            pairs.push((Entity(raw[i].0), raw[i].1));
            i += 1;
        }
        proof {
            assert forall|entity: Entity| #[trigger] self@.contains_key(entity) implies exists|
                i: int,
            |
                0 <= i < pairs@.len() && pairs@[i].0 == entity by {
                assert(threat_entries(self.0).contains_key(entity.0));
                let i = choose|i: int| 0 <= i < raw@.len() && raw@[i].0 == entity.0;
                assert(pairs@[i].0 == entity);
            }
            assert forall|i: int| 0 <= i < pairs@.len() implies self@.contains_key(
                #[trigger] pairs@[i].0,
            ) && self@[pairs@[i].0] == pairs@[i].1 by {
                assert(threat_entries(self.0).contains_key(raw@[i].0));
            }
        }
        pairs
    }

    /// The attacker to go after, for a unit that is after `incumbent` now.
    pub fn highest(&self, incumbent: Option<Entity>) -> (chosen: Option<Entity>)
        ensures
            chosen == spec_highest(self@, incumbent),
    {
        let pairs = self.entries();
        let mut best: Option<(Entity, i32)> = None;
        let mut i: usize = 0;
        while i < pairs.len()
            invariant
                i <= pairs.len(),
                forall|a: int, b: int| 0 <= a < b < pairs@.len() ==> pairs@[a].0 != pairs@[b].0,
                best is None ==> forall|k: int| 0 <= k < i ==> (#[trigger] pairs@[k]).1 <= 0,
                best is Some ==> best.unwrap().1 > 0 && exists|b: int|
                    0 <= b < i && #[trigger] pairs@[b] == best.unwrap(),
                best is Some ==> forall|k: int|
                    0 <= k < i && (#[trigger] pairs@[k]).0 != best.unwrap().0 ==> prefers(
                        best.unwrap(),
                        pairs@[k],
                        incumbent,
                    ),
            decreases pairs.len() - i,
        {
            let candidate: (Entity, i32) = pairs[i];
            let better: bool = candidate.1 > 0 && match best {
                None => true,
                Some(current) => candidate.1 > current.1 || (candidate.1 == current.1 && (
                incumbent == Some(candidate.0) || (incumbent != Some(current.0)
                    && candidate.0.is_older_than(current.0)))),
            };
            if better {
                proof {
                    assert forall|k: int|
                        0 <= k < i + 1 && (#[trigger] pairs@[k]).0 != candidate.0 implies prefers(
                        candidate,
                        pairs@[k],
                        incumbent,
                    ) by {
                        if best is Some && pairs@[k].0 != best.unwrap().0 {
                            assert(prefers(best.unwrap(), pairs@[k], incumbent));
                        }
                    }
                    assert(pairs@[i as int] == candidate);
                }
                best = Some(candidate);
            } else {
                proof {
                    if best is Some {
                        let b = choose|b: int| 0 <= b < i && #[trigger] pairs@[b] == best.unwrap();
                        assert(pairs@[b] == best.unwrap());
                    }
                }
            }
            i += 1;
        }
        match best {
            None => {
                proof {
                    assert forall|entity: Entity| !wins(self@, entity, incumbent) by {
                        if self@.contains_key(entity) {
                            let k = choose|k: int| 0 <= k < pairs@.len() && pairs@[k].0 == entity;
                            assert(pairs@[k].1 <= 0);
                        }
                    }
                }
                None
            },
            Some(winner) => {
                proof {
                    let b = choose|b: int| 0 <= b < pairs@.len() && #[trigger] pairs@[b] == winner;
                    assert(self@.contains_key(pairs@[b].0));
                    assert forall|other: Entity| #[trigger]
                        self@.contains_key(other) && other != winner.0 implies prefers(
                        (winner.0, self@[winner.0]),
                        (other, self@[other]),
                        incumbent,
                    ) by {
                        let k = choose|k: int| 0 <= k < pairs@.len() && pairs@[k].0 == other;
                        assert(prefers(winner, pairs@[k], incumbent));
                    }
                    assert(wins(self@, winner.0, incumbent));
                    lemma_winner_unique(
                        self@,
                        winner.0,
                        choose|entity: Entity| wins(self@, entity, incumbent),
                        incumbent,
                    );
                }
                Some(winner.0)
            },
        }
    }
}

} // verus!
