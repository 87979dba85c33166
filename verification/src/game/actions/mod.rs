//! What scripted behaviors do, one step at a time.
//!
//! A behavior engine decides when an action is asked for and when it is
//! called off; the steps here say what the action does to the world.

pub mod chat;

pub mod spell;

use vstd::prelude::*;

verus! {

/// Where an action stands.
#[derive(Clone, Copy, Debug, PartialEq, Eq, Structural)]
pub enum ActionState {
    /// Nothing asked for yet.
    Init,
    /// Asked for: the next step starts it.
    Requested,
    /// Under way.
    Executing,
    /// Called off: the next step winds it up.
    Cancelled,
    Success,
    Failure,
}

} // verus!
