//! Swini: the verified core of a workload orchestrator whose cluster state
//! lives in a raft-replicated key/value store (the Barn).

pub mod text;
pub mod cli;
pub mod clock;
pub mod ids;
pub mod store;
pub mod croft;
pub mod plot;
pub mod regent;
pub mod node;
