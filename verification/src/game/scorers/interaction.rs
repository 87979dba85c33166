//! Scoring by whether somebody used the actor.

use vstd::prelude::*;
use crate::components::Entity;

verus! {

/// Scores when the actor was used.
#[derive(Clone, Copy, Debug, PartialEq, Eq, Structural)]
pub struct InteractedWith;

/// A player used an entity.
#[derive(Clone, Copy, Debug, PartialEq, Eq, Structural)]
pub struct InteractEvent {
    pub target: Entity,
    pub source: Entity,
}

/// Whether one of `interactions` was a use of `actor`.
pub open spec fn used(interactions: Seq<InteractEvent>, actor: Entity) -> bool {
    exists|i: int| 0 <= i < interactions.len() && (#[trigger] interactions[i]).target == actor
}

/// The score of `actor` after a tick with `interactions`: nothing where
/// nobody used anything; all where somebody used the actor; else what it
/// was.
pub open spec fn spec_interaction_score(
    interactions: Seq<InteractEvent>,
    actor: Entity,
    score: bool,
) -> bool {
    if interactions.len() == 0 {
        false
    } else if used(interactions, actor) {
        true
    } else {
        score
    }
}

/// The score of `actor` after a tick with `interactions`.
pub fn interaction_scorer_system(interactions: &Vec<InteractEvent>, actor: Entity, score: bool) -> (next:
    bool)
    ensures
        next == spec_interaction_score(interactions@, actor, score),
{
    if interactions.len() == 0 {
        return false;
    }
    let mut i: usize = 0;
    while i < interactions.len()
        invariant
            i <= interactions.len(),
            forall|k: int| 0 <= k < i ==> (#[trigger] interactions@[k]).target != actor,
        decreases interactions.len() - i,
    {
        if interactions[i].target == actor {
            return true;
        }
        i += 1;
    }
    score
}

} // verus!
