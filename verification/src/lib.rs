//! Synchronization of an ordered transaction history between a local fact
//! store and a remote transaction log.

pub mod derive;
pub mod entity;
pub mod errors;
pub mod facts;
pub mod ids;
pub mod json;
pub mod log;
pub mod memory_log;
pub mod read;
pub mod remap;
pub mod remote_client;
pub mod store;
pub mod sync;
pub mod text;
pub mod view;
pub mod wire;
