//! Authoritative simulation core of a tile-based multiplayer world.
//!
//! The crate owns all gameplay state: units and their optional components,
//! live map instances, threat tables and the outbound message stream.  Every
//! rule is a function with a contract over a mathematical view of the world,
//! so that combat, map placement and replication can be reasoned about
//! without running a server.
//!
//! - [`game::world`] holds the store of all state and its view.
//! - [`game::tick`] runs the rules of one tick in their fixed order.
//! - [`game::combat`], [`game::npc`], [`game::unit`], [`game::map`],
//!   [`game::player`] and [`game::interactions`] hold the rules.
//! - [`network`] holds the wire protocol, the taking in of what clients
//!   send and the replication of state to them.
//! - [`client`] holds the picture a client keeps of the world.
//!
//! Positions are in thousandths of a world unit, times in nanoseconds, so
//! that no rule depends on rounding.

pub mod math;

pub mod time;

pub mod components;

pub mod shared_components;

pub mod network;

pub mod game;

pub mod client;
