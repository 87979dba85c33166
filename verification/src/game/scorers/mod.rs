//! What scripted behaviors go by when they choose what to do.
//!
//! A score is all or nothing here: the behavior engine takes `true` for
//! one and `false` for zero.

pub mod interaction;

pub mod timer;
