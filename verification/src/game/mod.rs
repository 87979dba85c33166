//! The gameplay rules of the server: units, combat, behavior and maps.

pub mod unit;

pub mod npc;

pub mod player;

pub mod interactions;

pub mod thinkers;

pub mod map;

pub mod world;

pub mod combat;

pub mod tick;

pub mod order;

pub mod actions;

pub mod scorers;

pub mod scripts;
