//! The Barn's state machine: the application data built up by applying
//! committed raft log entries, how far the log has been applied, the last
//! applied membership, and the current snapshot.

use vstd::prelude::*;
use crate::store::barn::types::{
    ActionResult, ActionResultView, ActionView, Action, Entry, EntryPayload, EntryPayloadView,
    EntryView, LogId, ReadAction, ReadResult, Snapshot, SnapshotMeta, SnapshotMetaView,
    StoredMembership, StoredMembershipView, default_stored_membership,
};
use crate::store::kv::{
    inserted_all, lemma_inserted_all_sorted, lemma_map_of_at, lemma_with_empty_prefix, map_of, sorted_keys,
    with_prefix, KvSeq, lemma_sorted_unique,
};
use crate::store::table::{copy_bytes, pairs_view, DataTable};
use crate::store::barn::routing::KeyScope;
use crate::clock::unix_time_nanos;
use crate::text::{chars_of, debug_text, debug_string, decimal, push_decimal, push_str, string_from_chars};

verus! {

/// The state machine as plain values.
pub struct StorageView {
    pub data: Map<Seq<char>, Seq<u8>>,
    pub last_applied: Option<LogId>,
    pub membership: StoredMembershipView,
    pub snapshot: Option<(SnapshotMetaView, Seq<u8>)>,
}

/// The message of a patch on a key that does not exist.
pub open spec fn patch_missing_message(key: Seq<char>) -> Seq<char> {
    "cannot patch key "@ + debug_text(key) + ": it does not exist"@
}

/// What an action does to the data, and what it answers.
pub open spec fn action_effect(data: Map<Seq<char>, Seq<u8>>, a: ActionView) -> (Map<Seq<char>, Seq<u8>>, ActionResultView) {
    match a {
        ActionView::Put { key, value } => (data.insert(key, value), ActionResultView::Success),
        ActionView::Delete { key } => (data.remove(key), ActionResultView::Success),
        ActionView::Patch { key, value } => if data.contains_key(key) {
            (data.insert(key, value), ActionResultView::Success)
        } else {
            (data, ActionResultView::Error(patch_missing_message(key)))
        },
    }
}

/// What applying one committed entry does to the state, and what it answers.
pub open spec fn entry_effect(s: StorageView, e: EntryView) -> (StorageView, ActionResultView) {
    match e.payload {
        EntryPayloadView::Blank => (StorageView { last_applied: Some(e.log_id), ..s }, ActionResultView::Success),
        EntryPayloadView::Normal(a) => (
            StorageView { data: action_effect(s.data, a).0, last_applied: Some(e.log_id), ..s },
            action_effect(s.data, a).1,
        ),
        EntryPayloadView::Membership(m) => (
            StorageView {
                last_applied: Some(e.log_id),
                membership: StoredMembershipView { log_id: Some(e.log_id), membership: m },
                ..s
            },
            ActionResultView::Success,
        ),
    }
}

/// The state after applying `es` in order.
pub open spec fn apply_entries(s: StorageView, es: Seq<EntryView>) -> StorageView
    decreases es.len(),
{
    if es.len() == 0 {
        s
    } else {
        entry_effect(apply_entries(s, es.drop_last()), es.last()).0
    }
}

/// The answers to applying `es` in order: one per entry, in their order.
pub open spec fn apply_responses(s: StorageView, es: Seq<EntryView>) -> Seq<ActionResultView> {
    Seq::new(es.len(), |i: int| entry_effect(apply_entries(s, es.take(i)), es[i]).1)
}

/// Entries as plain values.
pub open spec fn entries_view(es: Seq<Entry>) -> Seq<EntryView> {
    es.map_values(|e: Entry| e@)
}

/// Answers as plain values.
pub open spec fn results_view(rs: Seq<ActionResult>) -> Seq<ActionResultView> {
    rs.map_values(|r: ActionResult| r@)
}

/// `ps` with `pre` put back in front of each key.
pub open spec fn rescoped(ps: KvSeq, pre: Seq<char>) -> KvSeq {
    ps.map_values(|e: (Seq<char>, Seq<u8>)| (pre + e.0, e.1))
}

/// The key-ordered pairs of `m`.
pub open spec fn ordered_pairs(m: Map<Seq<char>, Seq<u8>>) -> KvSeq {
    choose|ps: KvSeq| sorted_keys(ps) && map_of(ps) == m
}

/// The JSON text of a list of key/value pairs, as bytes.
pub uninterp spec fn json_of_pairs(ps: KvSeq) -> Seq<u8>;

/// The key/value pairs that the JSON text `bytes` holds, if it holds a
/// list of them.
pub uninterp spec fn pairs_of_json(bytes: Seq<u8>) -> Option<KvSeq>;

/// Encodes key/value pairs as JSON (`serde_json::to_vec`). Claimed: the
/// bytes are the JSON text of the pairs, and decoding them gives the pairs
/// back (serde's data model carries strings and byte lists unchanged; a
/// list of string/byte-list pairs never fails to encode).
#[verifier::external_body]
fn encode_pairs(pairs: &Vec<(String, Vec<u8>)>) -> (r: Vec<u8>)
    ensures
        r@ == json_of_pairs(pairs_view(pairs@)),
        pairs_of_json(r@) == Some(pairs_view(pairs@)),
{
    match serde_json::to_vec(pairs) {
        Ok(bytes) => bytes,
        Err(_) => Vec::new(),
    }
}

/// Decodes a JSON list of key/value pairs (`serde_json::from_slice`).
/// Claimed: it succeeds exactly when the bytes hold such a list, and then
/// gives the pairs the name `pairs_of_json` gives the bytes.
#[verifier::external_body]
fn decode_pairs(bytes: &Vec<u8>) -> (r: Result<Vec<(String, Vec<u8>)>, String>)
    ensures
        match r {
            Ok(ps) => pairs_of_json(bytes@) == Some(pairs_view(ps@)),
            Err(_) => pairs_of_json(bytes@).is_none(),
        },
{
    match serde_json::from_slice::<Vec<(String, Vec<u8>)>>(bytes) {
        Ok(ps) => Ok(ps),
        Err(e) => Err(e.to_string()),
    }
}

/// How a log id prints: `T<term>-N<node>-<index>`.
pub open spec fn log_id_text(l: LogId) -> Seq<char> {
    "T"@ + decimal(l.term as nat) + "-N"@ + decimal(l.node_id as nat) + "-"@ + decimal(l.index as nat)
}

/// The id of a snapshot taken at `nanos` whose last entry is `last`.
pub open spec fn snapshot_id_text(last: Option<LogId>, nanos: nat) -> Seq<char> {
    match last {
        Some(l) => log_id_text(l) + "-"@ + decimal(nanos),
        None => "none-"@ + decimal(nanos),
    }
}

/// The id of a snapshot taken at `nanos` nanoseconds past the epoch whose
/// last entry is `last`: `T<term>-N<node>-<index>-<nanos>`, or
/// `none-<nanos>` for a snapshot of an empty log.
pub fn snapshot_id(last: Option<LogId>, nanos: u128) -> (r: String)
    ensures
        r@ == snapshot_id_text(last, nanos as nat),
{
    let mut id: Vec<char> = Vec::new();
    match last {
        Some(l) => {
            push_str(&mut id, "T");
            push_decimal(&mut id, l.term as u128);
            push_str(&mut id, "-N");
            push_decimal(&mut id, l.node_id as u128);
            push_str(&mut id, "-");
            push_decimal(&mut id, l.index as u128);
            push_str(&mut id, "-");
        },
        None => {
            push_str(&mut id, "none-");
        },
    }
    push_decimal(&mut id, nanos);
    proof {
        assert(id@ =~= snapshot_id_text(last, nanos as nat));
    }
    string_from_chars(id.as_slice())
}

/// The state after installing a snapshot described by `meta`, encoded as
/// `bytes`, whose pairs are `ps`: the data is replaced wholesale, the
/// watermark moves to the snapshot's (when it has one), the membership
/// becomes the snapshot's, and the snapshot becomes the current one.
pub open spec fn installed(s: StorageView, meta: SnapshotMetaView, ps: KvSeq, bytes: Seq<u8>) -> StorageView {
    StorageView {
        data: inserted_all(ps),
        last_applied: match meta.last_log_id {
            Some(l) => Some(l),
            None => s.last_applied,
        },
        membership: meta.last_membership,
        snapshot: Some((meta, bytes)),
    }
}

/// The Barn's state machine.
pub struct Storage {
    data: DataTable,
    last_applied: Option<LogId>,
    membership: StoredMembership,
    current: Option<(SnapshotMeta, Vec<u8>)>,
}

impl View for Storage {
    type V = StorageView;

    closed spec fn view(&self) -> StorageView {
        StorageView {
            data: self.data@,
            last_applied: self.last_applied,
            membership: self.membership@,
            snapshot: match self.current {
                Some((m, d)) => Some((m@, d@)),
                None => None,
            },
        }
    }
}

impl Storage {
    /// The data table keeps its entries in key order.
    pub closed spec fn wf(&self) -> bool {
        self.data.wf()
    }

    /// A state machine that has applied nothing.
    pub fn new() -> (s: Self)
        ensures
            s.wf(),
            s@ == (StorageView {
                data: Map::empty(),
                last_applied: None,
                membership: default_stored_membership(),
                snapshot: None,
            }),
    {
        Storage {
            data: DataTable::new(),
            last_applied: None,
            membership: StoredMembership::empty(),
            current: None,
        }
    }

    /// How far the log has been applied, and the membership in effect as
    /// of then (the empty default before any membership was applied).
    pub fn applied_state(&self) -> (r: (Option<LogId>, StoredMembership))
        ensures
            r.0 == self@.last_applied,
            r.1@ == self@.membership,
    {
        (self.last_applied, self.membership.copy())
    }

    fn apply_action(&mut self, action: &Action) -> (r: ActionResult)
        requires
            old(self).wf(),
        ensures
            final(self).wf(),
            final(self)@ == (StorageView { data: action_effect(old(self)@.data, action@).0, ..old(self)@ }),
            r@ == action_effect(old(self)@.data, action@).1,
    {
        match action {
            Action::Put { key, value } => {
                self.data.insert(chars_of(key.as_str()), copy_bytes(value));
                ActionResult::Success
            },
            Action::Delete { key } => {
                let k = chars_of(key.as_str());
                self.data.remove(&k);
                ActionResult::Success
            },
            Action::Patch { key, value } => {
                let k = chars_of(key.as_str());
                if !self.data.contains(&k) {
                    let mut msg = String::from_str("cannot patch key ");
                    let quoted = debug_string(key.as_str());
                    msg.append(quoted.as_str());
                    msg.append(": it does not exist");
                    return ActionResult::Error(msg);
                }
                self.data.insert(k, copy_bytes(value));
                ActionResult::Success
            },
        }
    }

    /// Applies committed entries in order: a blank entry only moves the
    /// watermark, an action changes the data, a membership entry records
    /// the new membership. Returns one answer per entry, in order.
    pub fn apply(&mut self, entries: Vec<Entry>) -> (r: Vec<ActionResult>)
        requires
            old(self).wf(),
        ensures
            final(self).wf(),
            final(self)@ == apply_entries(old(self)@, entries_view(entries@)),
            results_view(r@) == apply_responses(old(self)@, entries_view(entries@)),
    {
        let ghost s0 = self@;
        let ghost es = entries_view(entries@);
        let mut responses: Vec<ActionResult> = Vec::new();
        let mut i: usize = 0;
        proof {
            assert(es.take(0) =~= Seq::<EntryView>::empty());
        }
        while i < entries.len()
            invariant
                i <= entries.len(),
                es == entries_view(entries@),
                self.wf(),
                self@ == apply_entries(s0, es.take(i as int)),
                responses@.len() == i,
                forall|j: int| 0 <= j < i ==> (#[trigger] responses@[j])@ == entry_effect(apply_entries(s0, es.take(j)), es[j]).1,
            decreases entries.len() - i,
        {
            let entry = &entries[i];
            let ghost before = self@;
            assert(es[i as int] == entry@);
            let response = match &entry.payload {
                EntryPayload::Blank => ActionResult::Success,
                EntryPayload::Normal(action) => self.apply_action(action),
                EntryPayload::Membership(m) => {
                    self.membership = StoredMembership::new(Some(entry.log_id), m.copy());
                    ActionResult::Success
                },
            };
            self.last_applied = Some(entry.log_id);
            responses.push(response);
            proof {
                assert(es.take(i + 1).drop_last() =~= es.take(i as int));
                assert(es.take(i + 1).last() == es[i as int]);
                assert(self@ == entry_effect(before, es[i as int]).0);
            }
            i = i + 1;
        }
        proof {
            assert(es.take(i as int) =~= es);
            assert(results_view(responses@) =~= apply_responses(s0, es));
        }
        responses
    }

    /// Answers a read from the local data: a `Get` with the value of its
    /// key, a `List` with every entry whose key starts with its prefix (all
    /// entries when it has none), in key order.
    pub fn read(&self, action: &ReadAction) -> (r: ReadResult)
        requires
            self.wf(),
        ensures
            match action {
                ReadAction::Get { key, .. } => match r {
                    ReadResult::GetResult(Some(v)) => self@.data.contains_key(key@) && v@ == self@.data[key@],
                    ReadResult::GetResult(None) => !self@.data.contains_key(key@),
                    _ => false,
                },
                ReadAction::List { prefix } => match r {
                    ReadResult::ListResult(ps) => sorted_keys(pairs_view(ps@)) && map_of(pairs_view(ps@))
                        == with_prefix(self@.data, match prefix {
                        Some(p) => p@,
                        None => Seq::empty(),
                    }),
                    _ => false,
                },
            },
    {
        match action {
            ReadAction::Get { key, .. } => {
                let k = chars_of(key.as_str());
                ReadResult::GetResult(self.data.get(&k))
            },
            ReadAction::List { prefix } => {
                let p = match prefix {
                    Some(p) => chars_of(p.as_str()),
                    None => Vec::new(),
                };
                ReadResult::ListResult(self.data.list(&p))
            },
        }
    }

    /// Every entry, in key order.
    fn all_pairs(&self) -> (r: Vec<(String, Vec<u8>)>)
        requires
            self.wf(),
        ensures
            pairs_view(r@) == ordered_pairs(self@.data),
    {
        let empty: Vec<char> = Vec::new();
        let r = self.data.list(&empty);
        proof {
            assert(empty@ =~= Seq::<char>::empty());
            lemma_with_empty_prefix(self@.data);
            let ps = pairs_view(r@);
            let qs = ordered_pairs(self@.data);
            assert(sorted_keys(qs) && map_of(qs) == self@.data);
            lemma_sorted_unique(ps, qs);
        }
        r
    }

    /// The value of `key` in the slice of the store that `scope` names, read
    /// here: the value of the key with the scope's prefix, if any.
    pub fn scoped_get(&self, scope: &KeyScope, key: &str) -> (r: Option<Vec<u8>>)
        requires
            self.wf(),
        ensures
            match r {
                Some(v) => self@.data.contains_key(scope.prefix@ + key@) && v@ == self@.data[scope.prefix@ + key@],
                None => !self@.data.contains_key(scope.prefix@ + key@),
            },
    {
        let request = scope.get_request(key);
        match self.read(&request) {
            ReadResult::GetResult(v) => v,
            _ => None,
        }
    }

    /// The entries of the slice of the store that `scope` names whose keys,
    /// within the slice, start with `prefix` (all of them when `None`), read
    /// here, in key order, each key without the scope's prefix.
    pub fn scoped_list(&self, scope: &KeyScope, prefix: Option<&str>) -> (r: Vec<(String, Vec<u8>)>)
        requires
            self.wf(),
        ensures
            sorted_keys(rescoped(pairs_view(r@), scope.prefix@)),
            map_of(rescoped(pairs_view(r@), scope.prefix@)) == with_prefix(self@.data, scope.prefix@ + match prefix {
                Some(q) => q@,
                None => Seq::empty(),
            }),
    {
        let ghost full = scope.prefix@ + match prefix {
            Some(q) => q@,
            None => Seq::<char>::empty(),
        };
        let request = scope.list_request(prefix);
        match self.read(&request) {
            ReadResult::ListResult(ps) => {
                proof {
                    let v = pairs_view(ps@);
                    assert forall|i: int| 0 <= i < ps@.len() implies scope.prefix@.is_prefix_of(#[trigger] ps@[i].0@) by {
                        lemma_map_of_at(v, i);
                        assert(v[i].0 == ps@[i].0@);
                        let k = ps@[i].0@;
                        assert(full.is_prefix_of(k));
                        assert(k.subrange(0, scope.prefix@.len() as int) =~= scope.prefix@) by {
                            assert forall|j: int| 0 <= j < scope.prefix@.len() implies k[j] == scope.prefix@[j] by {
                                assert(k.subrange(0, full.len() as int)[j] == full[j]);
                            }
                        }
                    }
                }
                let r = scope.unscoped(ps);
                proof {
                    assert(rescoped(pairs_view(r@), scope.prefix@) =~= pairs_view(ps@));
                }
                r
            },
            _ => Vec::new(),
        }
    }

    /// Packs the data into a snapshot, in key order and JSON-encoded, with
    /// the watermark and membership it reflects, and makes it the current
    /// snapshot.
    pub fn build_snapshot(&mut self) -> (r: Snapshot)
        requires
            old(self).wf(),
        ensures
            final(self).wf(),
            r.meta.last_log_id == old(self)@.last_applied,
            r.meta.last_membership@ == old(self)@.membership,
            exists|nanos: nat| r.meta.snapshot_id@ == snapshot_id_text(old(self)@.last_applied, nanos),
            r.data@ == json_of_pairs(ordered_pairs(old(self)@.data)),
            pairs_of_json(r.data@) == Some(ordered_pairs(old(self)@.data)),
            final(self)@ == (StorageView { snapshot: Some((r.meta@, r.data@)), ..old(self)@ }),
    {
        let pairs = self.all_pairs();
        let data = encode_pairs(&pairs);
        let nanos = unix_time_nanos();
        let id = snapshot_id(self.last_applied, nanos);
        let meta = SnapshotMeta {
            last_log_id: self.last_applied,
            last_membership: self.membership.copy(),
            snapshot_id: id,
        };
        self.current = Some((meta.copy(), copy_bytes(&data)));
        Snapshot { meta, data }
    }

    /// The most recently built or installed snapshot, if there is one.
    pub fn get_current_snapshot(&self) -> (r: Option<Snapshot>)
        ensures
            match r {
                Some(s) => self@.snapshot == Some((s.meta@, s.data@)),
                None => self@.snapshot.is_none(),
            },
    {
        match &self.current {
            Some((meta, data)) => Some(Snapshot { meta: meta.copy(), data: copy_bytes(data) }),
            None => None,
        }
    }

    /// The buffer an incoming snapshot is received into: empty.
    pub fn begin_receiving_snapshot(&self) -> (r: Vec<u8>)
        ensures
            r@.len() == 0,
    {
        Vec::new()
    }

    /// Replaces the whole state with a received snapshot: the data becomes
    /// exactly the pairs `data` encodes, the watermark moves to the
    /// snapshot's (when it has one), the membership becomes the snapshot's,
    /// and the snapshot becomes the current one. Fails, changing nothing,
    /// when `data` is not a JSON list of key/value pairs.
    pub fn install_snapshot(&mut self, meta: &SnapshotMeta, data: Vec<u8>) -> (r: Result<(), String>)
        requires
            old(self).wf(),
        ensures
            final(self).wf(),
            match r {
                Ok(()) => pairs_of_json(data@) is Some && final(self)@ == installed(
                    old(self)@,
                    meta@,
                    pairs_of_json(data@)->0,
                    data@,
                ),
                Err(_) => pairs_of_json(data@) is None && final(self)@ == old(self)@,
            },
    {
        let pairs = match decode_pairs(&data) {
            Ok(ps) => ps,
            Err(e) => return Err(e),
        };
        let ghost ps = pairs_view(pairs@);
        let mut table = DataTable::new();
        let mut i: usize = 0;
        while i < pairs.len()
            invariant
                i <= pairs.len(),
                ps == pairs_view(pairs@),
                table.wf(),
                table@ == inserted_all(ps.take(i as int)),
            decreases pairs.len() - i,
        {
            let k = chars_of(pairs[i].0.as_str());
            let v = copy_bytes(&pairs[i].1);
            table.insert(k, v);
            proof {
                assert(ps.take(i + 1).drop_last() =~= ps.take(i as int));
                assert(ps.take(i + 1).last() == ps[i as int]);
            }
            i = i + 1;
        }
        proof {
            assert(ps.take(i as int) =~= ps);
        }
        self.data = table;
        if let Some(l) = meta.last_log_id {
            self.last_applied = Some(l);
        }
        self.membership = meta.last_membership.copy();
        self.current = Some((meta.copy(), data));
        Ok(())
    }
}

/// A snapshot built from one state machine and installed into another
/// makes the second hold exactly the data of the first, and the first's
/// watermark when it had one: a snapshot carries the whole state.
pub proof fn law_snapshot_transfers_state(source: Storage, target: StorageView, meta: SnapshotMetaView, bytes: Seq<u8>)
    requires
        source.wf(),
        pairs_of_json(bytes) == Some(ordered_pairs(source@.data)),
        meta.last_log_id == source@.last_applied,
    ensures
        installed(target, meta, pairs_of_json(bytes)->0, bytes).data == source@.data,
        source@.last_applied is Some ==> installed(target, meta, pairs_of_json(bytes)->0, bytes).last_applied
            == source@.last_applied,
{
    source.data.lemma_listable();
    let ps = ordered_pairs(source@.data);
    assert(sorted_keys(ps) && map_of(ps) == source@.data);
    lemma_inserted_all_sorted(ps);
}

} // verus!
