//! The events the Barn emits, uniting item changes and membership changes
//! in one stream, and how they are derived.

use vstd::prelude::*;
use crate::store::barn::types::{Node, NodeView};
use crate::store::events::{ItemStoreEvent, SpreadStoreEvent};
use crate::store::table::copy_bytes;

verus! {

/// An event of the Barn.
#[derive(Clone, Debug, PartialEq)]
pub enum Event {
    ItemCreated(String, Vec<u8>),
    ItemPatched(String, Vec<u8>),
    ItemRemoved(String),
    NodeAdded(Node),
    NodeRemoved(Node),
    NodeChanged(Node),
}

/// An event as plain values.
pub enum EventView {
    ItemCreated(Seq<char>, Seq<u8>),
    ItemPatched(Seq<char>, Seq<u8>),
    ItemRemoved(Seq<char>),
    NodeAdded(NodeView),
    NodeRemoved(NodeView),
    NodeChanged(NodeView),
}

impl View for Event {
    type V = EventView;

    open spec fn view(&self) -> EventView {
        match self {
            Event::ItemCreated(k, v) => EventView::ItemCreated(k@, v@),
            Event::ItemPatched(k, v) => EventView::ItemPatched(k@, v@),
            Event::ItemRemoved(k) => EventView::ItemRemoved(k@),
            Event::NodeAdded(n) => EventView::NodeAdded(n@),
            Event::NodeRemoved(n) => EventView::NodeRemoved(n@),
            Event::NodeChanged(n) => EventView::NodeChanged(n@),
        }
    }
}

impl Event {
    /// The item-store event this is, or `Err(())` for a membership event.
    pub fn into_item_event(self) -> (r: Result<ItemStoreEvent<String, Vec<u8>>, ()>)
        ensures
            match self {
                Event::ItemCreated(k, v) => r == Ok::<ItemStoreEvent<String, Vec<u8>>, ()>(ItemStoreEvent::ItemCreated(k, v)),
                Event::ItemPatched(k, v) => r == Ok::<ItemStoreEvent<String, Vec<u8>>, ()>(ItemStoreEvent::ItemPatched(k, v)),
                Event::ItemRemoved(k) => r == Ok::<ItemStoreEvent<String, Vec<u8>>, ()>(ItemStoreEvent::ItemRemoved(k)),
                _ => r is Err,
            },
    {
        match self {
            Event::ItemCreated(k, v) => Ok(ItemStoreEvent::ItemCreated(k, v)),
            Event::ItemPatched(k, v) => Ok(ItemStoreEvent::ItemPatched(k, v)),
            Event::ItemRemoved(k) => Ok(ItemStoreEvent::ItemRemoved(k)),
            _ => Err(()),
        }
    }

    /// The spread-store event this is, or `Err(())` for an item event.
    pub fn into_spread_event(self) -> (r: Result<SpreadStoreEvent<Node>, ()>)
        ensures
            match self {
                Event::NodeAdded(n) => r == Ok::<SpreadStoreEvent<Node>, ()>(SpreadStoreEvent::NodeAdded(n)),
                Event::NodeRemoved(n) => r == Ok::<SpreadStoreEvent<Node>, ()>(SpreadStoreEvent::NodeRemoved(n)),
                Event::NodeChanged(n) => r == Ok::<SpreadStoreEvent<Node>, ()>(SpreadStoreEvent::NodeChanged(n)),
                _ => r is Err,
            },
    {
        match self {
            Event::NodeAdded(n) => Ok(SpreadStoreEvent::NodeAdded(n)),
            Event::NodeRemoved(n) => Ok(SpreadStoreEvent::NodeRemoved(n)),
            Event::NodeChanged(n) => Ok(SpreadStoreEvent::NodeChanged(n)),
            _ => Err(()),
        }
    }

    /// The Barn event reporting an item change of the state machine.
    pub fn from_item_event(e: ItemStoreEvent<String, Vec<u8>>) -> (r: Event)
        ensures
            match e {
                ItemStoreEvent::ItemCreated(k, v) => r == Event::ItemCreated(k, v),
                ItemStoreEvent::ItemPatched(k, v) => r == Event::ItemPatched(k, v),
                ItemStoreEvent::ItemRemoved(k) => r == Event::ItemRemoved(k),
            },
    {
        match e {
            ItemStoreEvent::ItemCreated(k, v) => Event::ItemCreated(k, v),
            ItemStoreEvent::ItemPatched(k, v) => Event::ItemPatched(k, v),
            ItemStoreEvent::ItemRemoved(k) => Event::ItemRemoved(k),
        }
    }
}

/// Node lists as plain values.
pub open spec fn nodes_view(ns: Seq<Node>) -> Seq<NodeView> {
    ns.map_values(|n: Node| n@)
}

/// Events as plain values.
pub open spec fn events_view(es: Seq<Event>) -> Seq<EventView> {
    es.map_values(|e: Event| e@)
}

/// No two nodes of `ns` share an id.
pub open spec fn unique_ids(ns: Seq<NodeView>) -> bool {
    forall|i: int, j: int| #![trigger ns[i], ns[j]] 0 <= i < ns.len() && 0 <= j < ns.len() && i != j ==> ns[i].id != ns[j].id
}

/// Some node of `ns` has id `id`.
pub open spec fn has_id(ns: Seq<NodeView>, id: u64) -> bool {
    exists|i: int| 0 <= i < ns.len() && ns[i].id == id
}

/// The node of `ns` with id `id`, where there is one.
pub open spec fn node_with_id(ns: Seq<NodeView>, id: u64) -> NodeView {
    ns[choose|i: int| 0 <= i < ns.len() && ns[i].id == id]
}

/// The event (if any) that node `n` of the new membership gives rise to,
/// against the previous node list `last`: added when its id is new, changed
/// when it differs from the node with its id.
pub open spec fn change_event(last: Seq<NodeView>, n: NodeView) -> Option<EventView> {
    if !has_id(last, n.id) {
        Some(EventView::NodeAdded(n))
    } else if node_with_id(last, n.id) != n {
        Some(EventView::NodeChanged(n))
    } else {
        None
    }
}

/// The added and changed events of the nodes of `cur`, in their order.
pub open spec fn change_events(last: Seq<NodeView>, cur: Seq<NodeView>) -> Seq<EventView>
    decreases cur.len(),
{
    if cur.len() == 0 {
        Seq::empty()
    } else {
        let init = change_events(last, cur.drop_last());
        match change_event(last, cur.last()) {
            Some(e) => init.push(e),
            None => init,
        }
    }
}

/// The removed events of the nodes of `last` that `cur` no longer has, in
/// their order.
pub open spec fn removal_events(last: Seq<NodeView>, cur: Seq<NodeView>) -> Seq<EventView>
    decreases last.len(),
{
    if last.len() == 0 {
        Seq::empty()
    } else {
        let init = removal_events(last.drop_last(), cur);
        if has_id(cur, last.last().id) {
            init
        } else {
            init.push(EventView::NodeRemoved(last.last()))
        }
    }
}

fn find_id(ns: &Vec<Node>, id: u64) -> (r: Option<usize>)
    ensures
        match r {
            Some(i) => i < ns@.len() && ns@[i as int].id == id && has_id(nodes_view(ns@), id) && (unique_ids(nodes_view(ns@)) ==> node_with_id(nodes_view(ns@), id) == ns@[i as int]@),
            None => !has_id(nodes_view(ns@), id),
        },
{
    let mut i: usize = 0;
    while i < ns.len()
        invariant
            i <= ns.len(),
            forall|j: int| 0 <= j < i ==> (#[trigger] ns@[j]).id != id,
        decreases ns.len() - i,
    {
        if ns[i].id == id {
            proof {
                let v = nodes_view(ns@);
                assert(v[i as int].id == id);
                assert(has_id(v, id));
                let k = choose|k: int| 0 <= k < v.len() && v[k].id == id;
                if unique_ids(v) && k != i {
                    assert(v[k].id != v[i as int].id);
                }
            }
            return Some(i);
        }
        i = i + 1;
    }
    proof {
        let v = nodes_view(ns@);
        if has_id(v, id) {
            let k = choose|k: int| 0 <= k < v.len() && v[k].id == id;
            assert(ns@[k].id == id);
        }
    }
    None
}

/// The membership events between the node list `last` and the new one
/// `cur`: an added event for each node with a new id, a changed event for
/// each node that differs from the one with its id, in `cur`'s order; then a
/// removed event for each node of `last` whose id is gone, in `last`'s order.
pub fn node_events(last: &Vec<Node>, cur: &Vec<Node>) -> (r: Vec<Event>)
    requires
        unique_ids(nodes_view(last@)),
    ensures
        events_view(r@) == change_events(nodes_view(last@), nodes_view(cur@)) + removal_events(
            nodes_view(last@),
            nodes_view(cur@),
        ),
{
    let ghost lv = nodes_view(last@);
    let ghost cv = nodes_view(cur@);
    let mut r: Vec<Event> = Vec::new();
    let mut i: usize = 0;
    proof {
        assert(events_view(r@) =~= Seq::<EventView>::empty());
        assert(cv.take(0) =~= Seq::<NodeView>::empty());
    }
    while i < cur.len()
        invariant
            i <= cur.len(),
            lv == nodes_view(last@),
            cv == nodes_view(cur@),
            unique_ids(lv),
            events_view(r@) == change_events(lv, cv.take(i as int)),
        decreases cur.len() - i,
    {
        let n = &cur[i];
        let ghost before = events_view(r@);
        proof {
            assert(cv.take(i + 1).drop_last() =~= cv.take(i as int));
            assert(cv.take(i + 1).last() == n@);
        }
        match find_id(last, n.id) {
            None => {
                r.push(Event::NodeAdded(n.copy()));
                assert(events_view(r@) =~= before.push(EventView::NodeAdded(n@)));
            },
            Some(j) => {
                if !last[j].same_as(n) {
                    r.push(Event::NodeChanged(n.copy()));
                    assert(events_view(r@) =~= before.push(EventView::NodeChanged(n@)));
                } else {
                    assert(change_event(lv, n@) is None);
                }
            },
        }
        proof {
            assert(events_view(r@) == change_events(lv, cv.take(i + 1)));
        }
        i = i + 1;
    }
    proof {
        assert(cv.take(i as int) =~= cv);
    }
    let ghost changes = events_view(r@);
    let mut k: usize = 0;
    proof {
        assert(lv.take(0) =~= Seq::<NodeView>::empty());
        assert(events_view(r@) =~= changes + removal_events(lv.take(0), cv));
    }
    while k < last.len()
        invariant
            k <= last.len(),
            lv == nodes_view(last@),
            cv == nodes_view(cur@),
            events_view(r@) == changes + removal_events(lv.take(k as int), cv),
        decreases last.len() - k,
    {
        let n = &last[k];
        let ghost before = events_view(r@);
        proof {
            assert(lv.take(k + 1).drop_last() =~= lv.take(k as int));
            assert(lv.take(k + 1).last() == n@);
        }
        if find_id(cur, n.id).is_none() {
            r.push(Event::NodeRemoved(n.copy()));
            assert(events_view(r@) =~= before.push(EventView::NodeRemoved(n@)));
            assert(events_view(r@) =~= changes + removal_events(lv.take(k + 1), cv));
        } else {
            assert(removal_events(lv.take(k + 1), cv) == removal_events(lv.take(k as int), cv));
        }
        k = k + 1;
    }
    proof {
        assert(lv.take(k as int) =~= lv);
    }
    r
}

} // verus!
