//! Properties of the Barn's state machine and log storage that hold across
//! operations.

use vstd::prelude::*;
use crate::store::barn::log::{in_range, index_sorted, select, with_entries, with_entry};
use crate::store::barn::storage::{action_effect, apply_entries, apply_responses, entry_effect, patch_missing_message, StorageView};
use crate::store::barn::events::{change_event, change_events, has_id, node_with_id, removal_events, unique_ids, EventView};
use crate::store::barn::routing::membership_nodes;
use crate::store::barn::types::MembershipView;
use crate::text::plain_text;
use crate::store::barn::types::{ActionResultView, ActionView, EntryPayloadView, EntryView, NodeView, StoredMembershipView};

verus! {

/// Applying a batch of entries ends in the same state as applying its first
/// part and then its second part: how entries are batched does not matter.
pub proof fn law_apply_in_parts(s: StorageView, a: Seq<EntryView>, b: Seq<EntryView>)
    ensures
        apply_entries(s, a + b) == apply_entries(apply_entries(s, a), b),
    decreases b.len(),
{
    if b.len() == 0 {
        assert(a + b =~= a);
    } else {
        assert((a + b).drop_last() =~= a + b.drop_last());
        assert((a + b).last() == b.last());
        law_apply_in_parts(s, a, b.drop_last());
    }
}

/// A batch answers once per entry, and its watermark is the id of its last
/// entry (an empty batch leaves the watermark where it was).
pub proof fn law_apply_watermark(s: StorageView, es: Seq<EntryView>)
    ensures
        apply_responses(s, es).len() == es.len(),
        es.len() > 0 ==> apply_entries(s, es).last_applied == Some(es.last().log_id),
        es.len() == 0 ==> apply_entries(s, es) == s,
{
}

/// No entry of `es` after position `i` carries a membership.
pub open spec fn no_membership_after(es: Seq<EntryView>, i: int) -> bool {
    forall|j: int| i < j < es.len() ==> !((#[trigger] es[j]).payload is Membership)
}

/// The membership after a batch is that of the batch's last membership
/// entry, recorded with that entry's log id; a batch without a membership
/// entry leaves the membership as it was.
pub proof fn law_apply_membership(s: StorageView, es: Seq<EntryView>)
    ensures
        no_membership_after(es, -1) ==> apply_entries(s, es).membership == s.membership,
        forall|i: int|
            0 <= i < es.len() && no_membership_after(es, i) ==> match (#[trigger] es[i]).payload {
                EntryPayloadView::Membership(m) => apply_entries(s, es).membership == (StoredMembershipView {
                    log_id: Some(es[i].log_id),
                    membership: m,
                }),
                _ => true,
            },
    decreases es.len(),
{
    if es.len() > 0 {
        let p = es.drop_last();
        let n = es.len() - 1;
        law_apply_membership(s, p);
        if es[n].payload is Membership {
            assert forall|i: int| 0 <= i < es.len() && no_membership_after(es, i) implies i == n by {
                if i < n {
                    assert(!(es[n].payload is Membership));
                }
            }
            assert(!no_membership_after(es, -1)) by {
                assert(es[n].payload is Membership);
            }
        } else {
            assert(es.last() == es[n]);
            assert(apply_entries(s, es).membership == apply_entries(s, p).membership);
            if no_membership_after(es, -1) {
                assert forall|j: int| -1 < j < p.len() implies !((#[trigger] p[j]).payload is Membership) by {
                    assert(p[j] == es[j]);
                }
            }
            assert forall|i: int| 0 <= i < es.len() && no_membership_after(es, i) implies match (#[trigger] es[i]).payload {
                EntryPayloadView::Membership(m) => apply_entries(s, es).membership == (StoredMembershipView {
                    log_id: Some(es[i].log_id),
                    membership: m,
                }),
                _ => true,
            } by {
                if i < n {
                    assert(p[i] == es[i]);
                    assert forall|j: int| i < j < p.len() implies !((#[trigger] p[j]).payload is Membership) by {
                        assert(p[j] == es[j]);
                    }
                    assert(no_membership_after(p, i));
                }
            }
        }
    }
}

/// Each entry of a batch is answered by what its own effect answers on the
/// state left by the entries before it: an action by its action's answer
/// on the data as it then stands, a blank or membership entry by success.
pub proof fn law_apply_answers(s: StorageView, es: Seq<EntryView>)
    ensures
        apply_responses(s, es).len() == es.len(),
        forall|i: int|
            0 <= i < es.len() ==> #[trigger] apply_responses(s, es)[i] == match es[i].payload {
                EntryPayloadView::Normal(a) => action_effect(apply_entries(s, es.take(i)).data, a).1,
                _ => ActionResultView::Success,
            },
{
}

/// Applying entries never touches the current snapshot.
pub proof fn law_apply_keeps_snapshot(s: StorageView, es: Seq<EntryView>)
    ensures
        apply_entries(s, es).snapshot == s.snapshot,
    decreases es.len(),
{
    if es.len() > 0 {
        law_apply_keeps_snapshot(s, es.drop_last());
    }
}

/// After putting a value under a key, the key holds that value, and the put
/// succeeds whether or not the key existed.
pub proof fn law_put_then_get(data: Map<Seq<char>, Seq<u8>>, key: Seq<char>, value: Seq<u8>)
    ensures
        action_effect(data, ActionView::Put { key, value }).0.contains_key(key),
        action_effect(data, ActionView::Put { key, value }).0[key] == value,
        action_effect(data, ActionView::Put { key, value }).1 == ActionResultView::Success,
{
}

/// Deleting a key twice is the same as deleting it once, and both succeed.
pub proof fn law_delete_idempotent(data: Map<Seq<char>, Seq<u8>>, key: Seq<char>)
    ensures
        action_effect(action_effect(data, ActionView::Delete { key }).0, ActionView::Delete { key }).0
            == action_effect(data, ActionView::Delete { key }).0,
        action_effect(action_effect(data, ActionView::Delete { key }).0, ActionView::Delete { key }).1
            == ActionResultView::Success,
        !action_effect(data, ActionView::Delete { key }).0.contains_key(key),
{
    assert(data.remove(key).remove(key) =~= data.remove(key));
}

/// Patching a key that does not exist fails, naming the key, and does not
/// create it; patching one that exists behaves as a put.
pub proof fn law_patch_requires_existing(data: Map<Seq<char>, Seq<u8>>, key: Seq<char>, value: Seq<u8>)
    ensures
        !data.contains_key(key) ==> action_effect(data, ActionView::Patch { key, value }) == (
            data,
            ActionResultView::Error(patch_missing_message(key)),
        ),
        data.contains_key(key) ==> action_effect(data, ActionView::Patch { key, value }) == action_effect(
            data,
            ActionView::Put { key, value },
        ),
{
}

/// Once a committed put is applied, the key holds the value put, and no
/// other key changes; after a committed delete the key is gone.
pub proof fn law_read_after_write(s: StorageView, e: EntryView, other: Seq<char>)
    ensures
        e.payload matches EntryPayloadView::Normal(ActionView::Put { key, value }) ==> {
            &&& apply_entries(s, seq![e]).data.contains_key(key)
            &&& apply_entries(s, seq![e]).data[key] == value
            &&& other != key ==> (apply_entries(s, seq![e]).data.contains_key(other) == s.data.contains_key(other)
                && apply_entries(s, seq![e]).data.get(other) == s.data.get(other))
        },
        e.payload matches EntryPayloadView::Normal(ActionView::Delete { key }) ==> !apply_entries(s, seq![e]).data.contains_key(key),
{
    assert(seq![e].drop_last() =~= Seq::<EntryView>::empty());
    assert(seq![e].last() == e);
    assert(apply_entries(s, Seq::<EntryView>::empty()) == s);
    assert(apply_entries(s, seq![e]) == entry_effect(s, e).0);
}

/// Entries that carry no action leave the data as it was.
pub proof fn law_only_actions_change_data(s: StorageView, es: Seq<EntryView>)
    requires
        forall|i: int| 0 <= i < es.len() ==> !((#[trigger] es[i]).payload is Normal),
    ensures
        apply_entries(s, es).data == s.data,
    decreases es.len(),
{
    if es.len() > 0 {
        assert(!(es[es.len() - 1].payload is Normal));
        law_only_actions_change_data(s, es.drop_last());
    }
}

/// Replicas that hold the same data and apply the same committed entries
/// end with the same data and give the same answers, whatever else their
/// states hold: the data depends only on the data and the entries.
pub proof fn law_replicas_agree(s1: StorageView, s2: StorageView, es: Seq<EntryView>)
    requires
        s1.data == s2.data,
    ensures
        apply_entries(s1, es).data == apply_entries(s2, es).data,
        apply_responses(s1, es) == apply_responses(s2, es),
    decreases es.len(),
{
    if es.len() > 0 {
        law_replicas_agree(s1, s2, es.drop_last());
    }
    assert forall|i: int| 0 <= i < es.len() implies #[trigger] apply_responses(s1, es)[i] == apply_responses(s2, es)[i] by {
        law_replicas_agree(s1, s2, es.take(i));
    }
    assert(apply_responses(s1, es) =~= apply_responses(s2, es));
}

/// The key an action is about.
pub open spec fn action_key(a: ActionView) -> Seq<char> {
    match a {
        ActionView::Put { key, .. } => key,
        ActionView::Delete { key } => key,
        ActionView::Patch { key, .. } => key,
    }
}

/// What each action does to the data: a put creates or replaces its key
/// and succeeds; a delete removes its key and succeeds whether or not the
/// key was there; a patch replaces an existing key and succeeds, and on a
/// missing key changes nothing and fails with a message naming the key.
/// No other key is touched.
pub proof fn law_action_effect(data: Map<Seq<char>, Seq<u8>>, a: ActionView, other: Seq<char>)
    ensures
        match a {
            ActionView::Put { key, value } => action_effect(data, a) == (data.insert(key, value), ActionResultView::Success),
            ActionView::Delete { key } => action_effect(data, a) == (data.remove(key), ActionResultView::Success),
            ActionView::Patch { key, value } => action_effect(data, a) == (if data.contains_key(key) {
                (data.insert(key, value), ActionResultView::Success)
            } else {
                (data, ActionResultView::Error(patch_missing_message(key)))
            }),
        },
        other != action_key(a) ==> action_effect(data, a).0.contains_key(other) == data.contains_key(other),
        other != action_key(a) && data.contains_key(other) ==> action_effect(data, a).0[other] == data[other],
{
}

/// Applying one committed action does to the data what the action does
/// (see `law_action_effect`), moves the watermark to the entry, touches
/// nothing else, and answers with the action's answer.
pub proof fn law_apply_action(s: StorageView, e: EntryView, a: ActionView)
    requires
        e.payload == EntryPayloadView::Normal(a),
    ensures
        apply_entries(s, seq![e]) == (StorageView {
            data: action_effect(s.data, a).0,
            last_applied: Some(e.log_id),
            ..s
        }),
        apply_responses(s, seq![e]) == seq![action_effect(s.data, a).1],
{
    assert(seq![e].drop_last() =~= Seq::<EntryView>::empty());
    assert(seq![e].last() == e);
    assert(apply_entries(s, Seq::<EntryView>::empty()) == s);
    assert(seq![e].take(0) =~= Seq::<EntryView>::empty());
    assert(apply_responses(s, seq![e]) =~= seq![action_effect(s.data, a).1]);
}

/// The error of a patch on a missing key names the key: a key of plain
/// text appears in it between double quotes.
pub proof fn law_patch_error_names_key(key: Seq<char>)
    requires
        plain_text(key),
    ensures
        patch_missing_message(key) == "cannot patch key \""@ + key + "\": it does not exist"@,
{
    reveal_strlit("cannot patch key ");
    reveal_strlit("cannot patch key \"");
    reveal_strlit(": it does not exist");
    reveal_strlit("\": it does not exist");
    reveal_strlit("\"");
    assert(patch_missing_message(key) =~= "cannot patch key \""@ + key + "\": it does not exist"@);
}

/// A blank entry changes nothing but the watermark.
pub proof fn law_blank_entry(s: StorageView, e: EntryView)
    requires
        e.payload is Blank,
    ensures
        entry_effect(s, e).0 == (StorageView { last_applied: Some(e.log_id), ..s }),
        entry_effect(s, e).1 == ActionResultView::Success,
{
}

proof fn lemma_select_all_in_range(log: Seq<EntryView>, lo: int, hi: Option<int>)
    requires
        forall|i: int| 0 <= i < log.len() ==> in_range(#[trigger] log[i], lo, hi),
    ensures
        select(log, lo, hi) == log,
    decreases log.len(),
{
    if log.len() > 0 {
        assert(in_range(log[log.len() - 1], lo, hi));
        lemma_select_all_in_range(log.drop_last(), lo, hi);
        assert(log.drop_last().push(log.last()) =~= log);
    }
}

proof fn lemma_select_none_in_range(log: Seq<EntryView>, lo: int, hi: Option<int>)
    requires
        forall|i: int| 0 <= i < log.len() ==> !in_range(#[trigger] log[i], lo, hi),
    ensures
        select(log, lo, hi) == Seq::<EntryView>::empty(),
    decreases log.len(),
{
    if log.len() > 0 {
        assert(!in_range(log[log.len() - 1], lo, hi));
        lemma_select_none_in_range(log.drop_last(), lo, hi);
    }
}

/// Appending entries whose indexes continue the log's in increasing order
/// stores them after it, contiguously.
pub proof fn law_append_contiguous(log: Seq<EntryView>, es: Seq<EntryView>)
    requires
        index_sorted(log + es),
    ensures
        with_entries(log, es) == log + es,
    decreases es.len(),
{
    if es.len() == 0 {
        assert(log + es =~= log);
    } else {
        let init = es.drop_last();
        let e = es.last();
        let w = log + init;
        assert((log + es).drop_last() =~= w);
        assert(index_sorted(w)) by {
            assert forall|i: int, j: int| #![trigger w[i], w[j]] 0 <= i < j < w.len() implies w[i].log_id.index < w[j].log_id.index by {
                assert(w[i] == (log + es)[i] && w[j] == (log + es)[j]);
            }
        }
        law_append_contiguous(log, init);
        assert forall|i: int| 0 <= i < w.len() implies in_range(#[trigger] w[i], 0, Some(e.log_id.index as int)) by {
            assert(w[i] == (log + es)[i]);
            assert((log + es)[(log + es).len() - 1] == e);
        }
        assert forall|i: int| 0 <= i < w.len() implies !in_range(#[trigger] w[i], e.log_id.index + 1, None) by {
            assert(w[i] == (log + es)[i]);
            assert((log + es)[(log + es).len() - 1] == e);
        }
        lemma_select_all_in_range(w, 0, Some(e.log_id.index as int));
        lemma_select_none_in_range(w, e.log_id.index + 1, None);
        assert(with_entry(w, e) =~= log + es);
    }
}

/// Truncating at an index keeps exactly the entries below it, and purging
/// up to an index keeps exactly the entries above it, in order.
pub proof fn law_truncate_and_purge(log: Seq<EntryView>, index: int)
    requires
        index_sorted(log),
    ensures
        forall|i: int| 0 <= i < log.len() && log[i].log_id.index < index ==> #[trigger] select(log, 0, Some(index)).contains(log[i]),
        forall|t: int| 0 <= t < select(log, 0, Some(index)).len() ==> (#[trigger] select(log, 0, Some(index))[t]).log_id.index < index,
        forall|i: int| 0 <= i < log.len() && log[i].log_id.index > index ==> #[trigger] select(log, index + 1, None).contains(log[i]),
        forall|t: int| 0 <= t < select(log, index + 1, None).len() ==> (#[trigger] select(log, index + 1, None)[t]).log_id.index > index,
{
    crate::store::barn::log::lemma_select(log, 0, Some(index));
    crate::store::barn::log::lemma_select(log, index + 1, None);
    assert forall|i: int| 0 <= i < log.len() && log[i].log_id.index < index implies #[trigger] select(log, 0, Some(index)).contains(log[i]) by {
        assert(in_range(log[i], 0, Some(index)));
    }
    assert forall|t: int| 0 <= t < select(log, 0, Some(index)).len() implies (#[trigger] select(log, 0, Some(index))[t]).log_id.index < index by {
        assert(in_range(select(log, 0, Some(index))[t], 0, Some(index)));
    }
    assert forall|i: int| 0 <= i < log.len() && log[i].log_id.index > index implies #[trigger] select(log, index + 1, None).contains(log[i]) by {
        assert(in_range(log[i], index + 1, None));
    }
    assert forall|t: int| 0 <= t < select(log, index + 1, None).len() implies (#[trigger] select(log, index + 1, None)[t]).log_id.index > index by {
        assert(in_range(select(log, index + 1, None)[t], index + 1, None));
    }
}

/// A node list keyed by id.
pub open spec fn nodes_by_id(ns: Seq<NodeView>) -> Map<u64, NodeView> {
    Map::new(|id: u64| has_id(ns, id), |id: u64| node_with_id(ns, id))
}

/// The nodes that membership events leave when replayed, in order, over
/// the nodes `m`: an added or changed node takes its id's place, a removed
/// one leaves it.
pub open spec fn replay_events(m: Map<u64, NodeView>, es: Seq<EventView>) -> Map<u64, NodeView>
    decreases es.len(),
{
    if es.len() == 0 {
        m
    } else {
        let m0 = replay_events(m, es.drop_last());
        match es.last() {
            EventView::NodeAdded(n) => m0.insert(n.id, n),
            EventView::NodeChanged(n) => m0.insert(n.id, n),
            EventView::NodeRemoved(n) => m0.remove(n.id),
            _ => m0,
        }
    }
}

proof fn lemma_replay_concat(m: Map<u64, NodeView>, a: Seq<EventView>, b: Seq<EventView>)
    ensures
        replay_events(m, a + b) == replay_events(replay_events(m, a), b),
    decreases b.len(),
{
    if b.len() == 0 {
        assert(a + b =~= a);
    } else {
        assert((a + b).drop_last() =~= a + b.drop_last());
        assert((a + b).last() == b.last());
        lemma_replay_concat(m, a, b.drop_last());
    }
}

proof fn lemma_unique_prefix(ns: Seq<NodeView>)
    requires
        unique_ids(ns),
        ns.len() > 0,
    ensures
        unique_ids(ns.drop_last()),
        !has_id(ns.drop_last(), ns.last().id),
{
    let p = ns.drop_last();
    assert forall|i: int, j: int| 0 <= i < p.len() && 0 <= j < p.len() && i != j implies #[trigger] p[i].id != #[trigger] p[j].id by {
        assert(p[i] == ns[i] && p[j] == ns[j]);
    }
    if has_id(p, ns.last().id) {
        let k = choose|k: int| 0 <= k < p.len() && p[k].id == ns.last().id;
        assert(ns[k].id != ns[ns.len() - 1].id);
    }
}

proof fn lemma_node_with_id(ns: Seq<NodeView>, k: int)
    requires
        unique_ids(ns),
        0 <= k < ns.len(),
    ensures
        has_id(ns, ns[k].id),
        node_with_id(ns, ns[k].id) == ns[k],
{
    let id = ns[k].id;
    assert(has_id(ns, id));
    let c = choose|i: int| 0 <= i < ns.len() && ns[i].id == id;
    if c != k {
        assert(ns[c].id != ns[k].id);
    }
}

proof fn lemma_by_id_push(ns: Seq<NodeView>)
    requires
        unique_ids(ns),
        ns.len() > 0,
    ensures
        nodes_by_id(ns) == nodes_by_id(ns.drop_last()).insert(ns.last().id, ns.last()),
{
    let p = ns.drop_last();
    let n = ns.last();
    lemma_unique_prefix(ns);
    assert forall|id: u64| #[trigger] has_id(ns, id) == (has_id(p, id) || id == n.id) by {
        if has_id(ns, id) {
            let k = choose|k: int| 0 <= k < ns.len() && ns[k].id == id;
            if k < p.len() {
                assert(p[k] == ns[k]);
            }
        }
        if has_id(p, id) {
            let k = choose|k: int| 0 <= k < p.len() && p[k].id == id;
            assert(ns[k] == p[k]);
        }
        if id == n.id {
            assert(ns[ns.len() - 1].id == id);
        }
    }
    assert forall|id: u64| has_id(p, id) implies #[trigger] node_with_id(ns, id) == node_with_id(p, id) by {
        let k = choose|k: int| 0 <= k < p.len() && p[k].id == id;
        assert(ns[k] == p[k]);
        lemma_node_with_id(p, k);
        lemma_node_with_id(ns, k);
    }
    lemma_node_with_id(ns, ns.len() - 1);
    assert(nodes_by_id(ns) =~= nodes_by_id(p).insert(n.id, n));
}

proof fn lemma_replay_changes(last: Seq<NodeView>, cur: Seq<NodeView>)
    requires
        unique_ids(last),
        unique_ids(cur),
    ensures
        replay_events(nodes_by_id(last), change_events(last, cur)) == nodes_by_id(last).union_prefer_right(
            nodes_by_id(cur),
        ),
    decreases cur.len(),
{
    let l = nodes_by_id(last);
    if cur.len() == 0 {
        assert(nodes_by_id(cur) =~= Map::<u64, NodeView>::empty());
        assert(l.union_prefer_right(nodes_by_id(cur)) =~= l);
    } else {
        let p = cur.drop_last();
        let n = cur.last();
        lemma_unique_prefix(cur);
        lemma_replay_changes(last, p);
        lemma_by_id_push(cur);
        let before = l.union_prefer_right(nodes_by_id(p));
        match change_event(last, n) {
            Some(e) => {
                lemma_replay_concat(l, change_events(last, p), seq![e]);
                assert(change_events(last, p).push(e) =~= change_events(last, p) + seq![e]);
                assert(seq![e].drop_last() =~= Seq::<EventView>::empty());
                assert(seq![e].last() == e);
                assert(replay_events(before, Seq::<EventView>::empty()) == before);
                assert(replay_events(before, seq![e]) == before.insert(n.id, n));
                assert(before.insert(n.id, n) =~= l.union_prefer_right(nodes_by_id(cur)));
            },
            None => {
                assert(has_id(last, n.id) && node_with_id(last, n.id) == n);
                assert(before =~= l.union_prefer_right(nodes_by_id(cur)));
            },
        }
    }
}

/// The ids of the nodes of `l` that `cur` no longer has.
pub open spec fn gone_ids(l: Seq<NodeView>, cur: Seq<NodeView>) -> Set<u64> {
    Set::new(|id: u64| has_id(l, id) && !has_id(cur, id))
}

proof fn lemma_replay_removals(x: Map<u64, NodeView>, l: Seq<NodeView>, cur: Seq<NodeView>)
    ensures
        replay_events(x, removal_events(l, cur)) == x.remove_keys(gone_ids(l, cur)),
    decreases l.len(),
{
    if l.len() == 0 {
        assert(gone_ids(l, cur) =~= Set::<u64>::empty());
        assert(x.remove_keys(gone_ids(l, cur)) =~= x);
    } else {
        let p = l.drop_last();
        let n = l.last();
        lemma_replay_removals(x, p, cur);
        assert forall|id: u64| #[trigger] has_id(l, id) == (has_id(p, id) || id == n.id) by {
            if has_id(l, id) {
                let k = choose|k: int| 0 <= k < l.len() && l[k].id == id;
                if k < p.len() {
                    assert(p[k] == l[k]);
                }
            }
            if has_id(p, id) {
                let k = choose|k: int| 0 <= k < p.len() && p[k].id == id;
                assert(l[k] == p[k]);
            }
            if id == n.id {
                assert(l[l.len() - 1].id == id);
            }
        }
        if has_id(cur, n.id) {
            assert(gone_ids(l, cur) =~= gone_ids(p, cur));
        } else {
            let e = EventView::NodeRemoved(n);
            lemma_replay_concat(x, removal_events(p, cur), seq![e]);
            assert(removal_events(p, cur).push(e) =~= removal_events(p, cur) + seq![e]);
            assert(seq![e].drop_last() =~= Seq::<EventView>::empty());
            assert(seq![e].last() == e);
            let y = replay_events(x, removal_events(p, cur));
            assert(replay_events(y, Seq::<EventView>::empty()) == y);
            assert(replay_events(y, seq![e]) == y.remove(n.id));
            assert(gone_ids(l, cur) =~= gone_ids(p, cur).insert(n.id));
            assert(x.remove_keys(gone_ids(p, cur)).remove(n.id) =~= x.remove_keys(gone_ids(l, cur)));
        }
    }
}

/// Replaying the membership events between two node lists over the first
/// gives the second: the events say exactly what changed.
pub proof fn law_node_events_replay(last: Seq<NodeView>, cur: Seq<NodeView>)
    requires
        unique_ids(last),
        unique_ids(cur),
    ensures
        replay_events(nodes_by_id(last), change_events(last, cur) + removal_events(last, cur)) == nodes_by_id(cur),
{
    let l = nodes_by_id(last);
    let c = nodes_by_id(cur);
    lemma_replay_concat(l, change_events(last, cur), removal_events(last, cur));
    lemma_replay_changes(last, cur);
    lemma_replay_removals(l.union_prefer_right(c), last, cur);
    assert(l.union_prefer_right(c).remove_keys(gone_ids(last, cur)) =~= c);
}

proof fn lemma_change_events_members(last: Seq<NodeView>, cur: Seq<NodeView>)
    ensures
        forall|i: int| 0 <= i < change_events(last, cur).len() ==> exists|k: int|
            0 <= k < cur.len() && change_event(last, cur[k]) == Some(#[trigger] change_events(last, cur)[i]),
    decreases cur.len(),
{
    if cur.len() > 0 {
        let p = cur.drop_last();
        lemma_change_events_members(last, p);
        let ce = change_events(last, cur);
        assert forall|i: int| 0 <= i < ce.len() implies exists|k: int|
            0 <= k < cur.len() && change_event(last, cur[k]) == Some(#[trigger] ce[i]) by {
            if i < change_events(last, p).len() {
                assert(ce[i] == change_events(last, p)[i]);
                let k = choose|k: int| 0 <= k < p.len() && change_event(last, p[k]) == Some(change_events(last, p)[i]);
                assert(p[k] == cur[k]);
            } else {
                assert(change_event(last, cur[cur.len() - 1]) == Some(ce[i]));
            }
        }
    }
}

proof fn lemma_removal_events_members(last: Seq<NodeView>, cur: Seq<NodeView>)
    ensures
        forall|i: int| 0 <= i < removal_events(last, cur).len() ==> exists|k: int|
            0 <= k < last.len() && #[trigger] removal_events(last, cur)[i] == EventView::NodeRemoved(last[k])
                && !has_id(cur, last[k].id),
    decreases last.len(),
{
    if last.len() > 0 {
        let p = last.drop_last();
        lemma_removal_events_members(p, cur);
        let re = removal_events(last, cur);
        assert forall|i: int| 0 <= i < re.len() implies exists|k: int|
            0 <= k < last.len() && #[trigger] re[i] == EventView::NodeRemoved(last[k]) && !has_id(cur, last[k].id) by {
            if i < removal_events(p, cur).len() {
                assert(re[i] == removal_events(p, cur)[i]);
                let k = choose|k: int| 0 <= k < p.len() && removal_events(p, cur)[i] == EventView::NodeRemoved(p[k])
                    && !has_id(cur, p[k].id);
                assert(p[k] == last[k]);
            } else {
                assert(re[i] == EventView::NodeRemoved(last[last.len() - 1]));
            }
        }
    }
}

/// Every membership event between two node lists is about a real change:
/// an added node is in the new list under an id the old one lacks, a
/// changed node is in the new list and differs from the old node with its
/// id, a removed node is in the old list under an id the new one lacks. So
/// a node that stays the same gives no event.
pub proof fn law_node_events_exact(last: Seq<NodeView>, cur: Seq<NodeView>)
    ensures
        forall|i: int|
            0 <= i < (change_events(last, cur) + removal_events(last, cur)).len() ==> match #[trigger] (change_events(
                last,
                cur,
            ) + removal_events(last, cur))[i] {
                EventView::NodeAdded(n) => !has_id(last, n.id) && cur.contains(n),
                EventView::NodeChanged(n) => has_id(last, n.id) && node_with_id(last, n.id) != n && cur.contains(n),
                EventView::NodeRemoved(n) => last.contains(n) && !has_id(cur, n.id),
                _ => false,
            },
{
    let ce = change_events(last, cur);
    let re = removal_events(last, cur);
    lemma_change_events_members(last, cur);
    lemma_removal_events_members(last, cur);
    assert forall|i: int| 0 <= i < (ce + re).len() implies match #[trigger] (ce + re)[i] {
        EventView::NodeAdded(n) => !has_id(last, n.id) && cur.contains(n),
        EventView::NodeChanged(n) => has_id(last, n.id) && node_with_id(last, n.id) != n && cur.contains(n),
        EventView::NodeRemoved(n) => last.contains(n) && !has_id(cur, n.id),
        _ => false,
    } by {
        if i < ce.len() {
            assert((ce + re)[i] == ce[i]);
            let k = choose|k: int| 0 <= k < cur.len() && change_event(last, cur[k]) == Some(#[trigger] ce[i]);
            assert(cur[k] == cur[k]);
        } else {
            assert((ce + re)[i] == re[i - ce.len()]);
            let k = choose|k: int| 0 <= k < last.len() && #[trigger] re[i - ce.len()] == EventView::NodeRemoved(last[k])
                && !has_id(cur, last[k].id);
            assert(last[k] == last[k]);
        }
    }
}

/// After a refresh of the node cache, replaying the events it emitted over
/// the nodes last seen, keyed by id, gives exactly the refreshed cache keyed
/// by id, and no event is emitted for a node that stayed the same.
pub proof fn law_refresh_nodes(last: Seq<NodeView>, m: MembershipView, current_leader: Option<u64>)
    requires
        unique_ids(last),
        unique_ids(membership_nodes(m, current_leader)),
    ensures
        replay_events(
            nodes_by_id(last),
            change_events(last, membership_nodes(m, current_leader)) + removal_events(
                last,
                membership_nodes(m, current_leader),
            ),
        ) == nodes_by_id(membership_nodes(m, current_leader)),
        forall|k: int|
            0 <= k < membership_nodes(m, current_leader).len() && has_id(last, membership_nodes(m, current_leader)[k].id)
                && node_with_id(last, membership_nodes(m, current_leader)[k].id) == membership_nodes(m, current_leader)[k]
                ==> !(change_events(last, membership_nodes(m, current_leader)) + removal_events(
                last,
                membership_nodes(m, current_leader),
            )).contains(EventView::NodeChanged(#[trigger] membership_nodes(m, current_leader)[k]))
                && !(change_events(last, membership_nodes(m, current_leader)) + removal_events(
                last,
                membership_nodes(m, current_leader),
            )).contains(EventView::NodeAdded(membership_nodes(m, current_leader)[k])),
{
    let cur = membership_nodes(m, current_leader);
    law_node_events_replay(last, cur);
    law_node_events_exact(last, cur);
    let evs = change_events(last, cur) + removal_events(last, cur);
    assert forall|k: int|
        0 <= k < cur.len() && has_id(last, cur[k].id) && node_with_id(last, cur[k].id) == cur[k]
            implies !evs.contains(EventView::NodeChanged(#[trigger] cur[k])) && !evs.contains(EventView::NodeAdded(cur[k])) by {
        if evs.contains(EventView::NodeChanged(cur[k])) {
            let i = choose|i: int| 0 <= i < evs.len() && evs[i] == EventView::NodeChanged(cur[k]);
            assert(evs[i] == EventView::NodeChanged(cur[k]));
        }
        if evs.contains(EventView::NodeAdded(cur[k])) {
            let i = choose|i: int| 0 <= i < evs.len() && evs[i] == EventView::NodeAdded(cur[k]);
            assert(evs[i] == EventView::NodeAdded(cur[k]));
        }
    }
}

/// The members of `m` are listed as the map they stand for keeps them: by
/// strictly increasing id, each under its own id.
pub open spec fn members_by_id(m: MembershipView) -> bool {
    &&& forall|i: int, j: int| 0 <= i < j < m.nodes.len() ==> #[trigger] m.nodes[i].0 < #[trigger] m.nodes[j].0
    &&& forall|i: int| 0 <= i < m.nodes.len() ==> (#[trigger] m.nodes[i]).1.id == m.nodes[i].0
}

/// A membership that lists its members by id gives a node cache in which no
/// two nodes share an id, whoever leads.
pub proof fn law_members_by_id_unique(m: MembershipView, current_leader: Option<u64>)
    requires
        members_by_id(m),
    ensures
        unique_ids(membership_nodes(m, current_leader)),
{
    let ns = membership_nodes(m, current_leader);
    assert forall|i: int, j: int| 0 <= i < ns.len() && 0 <= j < ns.len() && i != j implies #[trigger] ns[i].id
        != #[trigger] ns[j].id by {
        assert(ns[i].id == m.nodes[i].1.id);
        assert(ns[j].id == m.nodes[j].1.id);
        assert(m.nodes[i].1.id == m.nodes[i].0);
        assert(m.nodes[j].1.id == m.nodes[j].0);
        if i < j {
            assert(m.nodes[i].0 < m.nodes[j].0);
        } else {
            assert(m.nodes[j].0 < m.nodes[i].0);
        }
    }
}

} // verus!
