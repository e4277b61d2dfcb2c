//! Snapshot identity, lifecycle states and the registry that tracks them.

pub mod applier;
pub mod checksum;
pub mod error;
pub mod fault;
pub mod gc;
pub mod generator;
pub mod key;
pub mod meta;
pub mod receiver;
pub mod registry;
pub mod registry_laws;
pub mod sender;
pub mod state;
