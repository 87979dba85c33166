//! The messages of the wire protocol.

pub mod client;

pub mod server;
