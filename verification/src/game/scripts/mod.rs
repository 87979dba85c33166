//! Scripts that move units about, by name.

pub mod follower;

use vstd::prelude::*;
use crate::game::scripts::follower::Follower;
use crate::game::thinkers::is_text;
use crate::game::unit::Unit;
use crate::game::world::World;

verus! {

/// Marks a unit that runs the script `T`.
#[derive(Debug)]
pub struct Script<T> {
    pub script: core::marker::PhantomData<T>,
}

/// Runs the scripts of the units.
#[derive(Clone, Copy, Debug, PartialEq, Eq, Structural)]
pub struct ScriptsPlugin;

impl ScriptsPlugin {
    /// Runs every script once.
    pub fn build(&self, world: &mut World)
        requires
            old(world)@.wf(),
        ensures
            final(world)@.wf(),
            final(world)@ =~= old(world)@.spec_follower_script(),
    {
        world.follower_script();
    }
}

/// `unit` with the script called `script_name`, where there is one of that
/// name.
pub open spec fn spec_handle_add_script(script_name: Seq<char>, unit: Unit) -> Unit {
    if script_name == "follower"@ {
        Unit { script: Some(Script { script: core::marker::PhantomData }), ..unit }
    } else {
        unit
    }
}

/// Gives `unit` the script called `script_name`, and tells whether there is
/// one of that name.
pub fn handle_add_script(script_name: String, unit: &mut Unit) -> (known: bool)
    ensures
        known == (script_name@ == "follower"@),
        *final(unit) == spec_handle_add_script(script_name@, *old(unit)),
{
    if is_text(&script_name, "follower") {
        unit.script = Some(Script::<Follower> { script: core::marker::PhantomData });
        true
    } else {
        false
    }
}

} // verus!
