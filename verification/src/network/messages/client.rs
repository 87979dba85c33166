//! What a client tells the server.

use vstd::prelude::*;
use crate::components::Entity;

verus! {

/// A message from a client.  Coordinates are in sub-units.
#[derive(Clone, Copy, Debug, PartialEq, Eq, Structural)]
pub enum ClientMessages {
    /// The client has loaded the assets of its map.
    Ready,
    Disconnect,
    /// The player picked a target, or let go of the one it had.
    Target { target: Option<Entity> },
    /// The player moved to this point.
    Move { x: i32, y: i32 },
    RequestEntityInfo { entity: Entity },
    Interact { entity: Entity },
}

} // verus!
