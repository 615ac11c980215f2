//! The store abstractions and the Barn, swini's replicated key/value store.

pub mod keys;
pub mod kv;
pub mod table;
pub mod barn;
pub mod events;
