//! The events stores emit.

use vstd::prelude::*;

verus! {

/// An event any store can emit: `Initialized` once it is ready, and events
/// of its own kind after that.
#[derive(Clone, Debug, PartialEq)]
pub enum StoreEvent<E> {
    /// Emitted once the store's initialization is complete.
    Initialized,
    /// An event of the store's own kind.
    Custom(E),
}

/// Emitted by item stores when an item is created, changed or removed.
#[derive(Clone, Debug, PartialEq, Eq)]
pub enum ItemStoreEvent<K, I> {
    /// A new item was stored.
    ItemCreated(K, I),
    /// An existing item was updated or replaced.
    ItemPatched(K, I),
    /// An item was removed.
    ItemRemoved(K),
}

/// Emitted by replicated stores when their membership changes.
#[derive(Clone, Debug, PartialEq)]
pub enum SpreadStoreEvent<N> {
    NodeAdded(N),
    NodeRemoved(N),
    NodeChanged(N),
}

} // verus!
