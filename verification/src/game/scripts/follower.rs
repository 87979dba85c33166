//! A script that makes a unit drift east.

use vstd::prelude::*;
use crate::game::unit::{Changes, Unit};
use crate::game::world::{lemma_same_population, World, WorldView};
use crate::math::{Position, saturating_sum, spec_saturating_sum};

verus! {

/// Sub-units a unit under the script drifts each time the script runs.
pub const DRIFT: i32 = 100;

/// The script of one who drifts east.
#[derive(Clone, Copy, Debug, PartialEq, Eq, Structural)]
pub struct Follower;

/// `unit` after a run of the script: farther east where it is under the
/// script.
pub open spec fn spec_drifted(unit: Unit) -> Unit {
    if unit.script is Some {
        Unit {
            position: Position { x: spec_saturating_sum(unit.position.x, DRIFT), ..unit.position },
            changes: Changes { position: true, ..unit.changes },
            ..unit
        }
    } else {
        unit
    }
}

impl WorldView {
    /// The world after a run of the script on every unit.
    pub open spec fn spec_follower_script(self) -> WorldView {
        WorldView {
            units: Seq::new(self.units.len(), |i: int| spec_drifted(self.units[i])),
            ..self
        }
    }
}

impl World {
    /// Runs the script on every unit that is under it.
    pub fn follower_script(&mut self)
        requires
            old(self)@.wf(),
        ensures
            final(self)@.wf(),
            final(self)@ =~= old(self)@.spec_follower_script(),
    {
        let mut i: usize = 0;
        while i < self.units.len()
            invariant
                i <= self.units.len(),
                old(self)@.wf(),
                self.units@.len() == old(self).units@.len(),
                self.threats == old(self).threats,
                self.maps == old(self).maps,
                self.network == old(self).network,
                self.recovery == old(self).recovery,
                self.next_entity == old(self).next_entity,
                self.profile == old(self).profile,
                forall|k: int|
                    0 <= k < i ==> #[trigger] self.units@[k] == spec_drifted(old(self).units@[k]),
                forall|k: int|
                    i <= k < self.units@.len() ==> #[trigger] self.units@[k] == old(self).units@[k],
            decreases self.units.len() - i,
        {
            if self.units[i].script.is_some() {
                let x: i32 = self.units[i].position.x;
                self.units[i].position.x = saturating_sum(x, DRIFT);
                self.units[i].changes.position = true;
            }
            i += 1;
        }
        proof {
            lemma_same_population(old(self)@, self@);
        }
    }
}

} // verus!
