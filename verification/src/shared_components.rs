//! Markers that tell the two kinds of unit apart, and the name both carry.

use vstd::prelude::*;

verus! {

/// Marks a unit driven by a connected client.
#[derive(Clone, Copy, Debug, PartialEq, Eq, Structural)]
pub struct Player;

/// Marks a unit driven by the server.
#[derive(Clone, Copy, Debug, PartialEq, Eq, Structural)]
pub struct NPC;

/// What a unit is called.
#[derive(Clone, Debug, PartialEq, Eq)]
pub struct Name(pub String);

} // verus!
