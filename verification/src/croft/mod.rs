//! Crofts: the machines of the ranch.

pub mod clerk;
pub mod config;
pub mod resources;
pub mod types;
pub mod proto;
pub mod laws;
