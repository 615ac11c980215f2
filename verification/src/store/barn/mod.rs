//! The Barn: swini's raft-replicated key/value store.

pub mod events;
pub mod laws;
pub mod log;
pub mod reads;
pub mod routing;
pub mod storage;
pub mod types;
