use swini::store::barn::events::{node_events, Event};
use swini::store::barn::log::LogStore;
use swini::store::barn::routing::{
    cache_is_leader, cache_leader, must_bootstrap, no_leader_error, nodes_from_membership, read_value, route,
    stale_read_target, write_outcome, KeyScope, Route,
};
use swini::store::barn::storage::{snapshot_id, Storage};
use swini::store::barn::types::{
    Action, ActionResult, Entry, EntryPayload, LogId, Membership, Node, NodeRole, ReadAction, ReadResult,
    SnapshotMeta, SpreadNode, StoredMembership, Vote,
};
use swini::store::events::{ItemStoreEvent, SpreadStoreEvent, StoreEvent};
use swini::store::table::DataTable;

fn log_id(term: u64, node_id: u64, index: u64) -> LogId {
    LogId::new(term, node_id, index)
}

fn entry(index: u64, payload: EntryPayload) -> Entry {
    Entry { log_id: log_id(1, 1, index), payload }
}

fn set_entry(index: u64, key: &str, value: &[u8]) -> Entry {
    entry(
        index,
        EntryPayload::Normal(Action::Put {
            key: key.to_string(),
            value: value.to_vec(),
        }),
    )
}

fn delete_entry(index: u64, key: &str) -> Entry {
    entry(index, EntryPayload::Normal(Action::Delete { key: key.to_string() }))
}

fn patch_entry(index: u64, key: &str, value: &[u8]) -> Entry {
    entry(
        index,
        EntryPayload::Normal(Action::Patch {
            key: key.to_string(),
            value: value.to_vec(),
        }),
    )
}

fn stored_pairs(store: &Storage) -> Vec<(String, Vec<u8>)> {
    match store.read(&ReadAction::List { prefix: None }) {
        ReadResult::ListResult(pairs) => pairs,
        other => panic!("unexpected read result {:?}", other),
    }
}

fn new_store() -> Storage {
    Storage::new()
}

fn raft_node(id: u64, addr: &str, role: NodeRole, is_leader: bool) -> Node {
    Node {
        id,
        name: String::new(),
        api_addr: addr.to_string(),
        role,
        is_leader,
    }
}

#[test]
fn item_store_event_variants() {
    let created = ItemStoreEvent::ItemCreated("croft/1".to_string(), vec![1, 2, 3]);
    assert_eq!(created, ItemStoreEvent::ItemCreated("croft/1".to_string(), vec![1, 2, 3]));

    let patched = ItemStoreEvent::ItemPatched("croft/1".to_string(), vec![4, 5, 6]);
    assert_eq!(patched, ItemStoreEvent::ItemPatched("croft/1".to_string(), vec![4, 5, 6]));

    let removed: ItemStoreEvent<String, Vec<u8>> = ItemStoreEvent::ItemRemoved("croft/1".to_string());
    assert_eq!(removed, ItemStoreEvent::ItemRemoved("croft/1".to_string()));
}

#[test]
fn store_event_variants() {
    let init: StoreEvent<u8> = StoreEvent::Initialized;
    assert_eq!(init, StoreEvent::Initialized);
    assert_ne!(StoreEvent::Custom(1u8), StoreEvent::Custom(2u8));
}

fn node() -> Node {
    Node {
        id: 1,
        name: String::new(),
        api_addr: "127.0.0.1:0".to_string(),
        role: NodeRole::Voter,
        is_leader: false,
    }
}

#[test]
fn item_events_convert_to_item_store_event_and_fail_as_spread_event() {
    let created = Event::ItemCreated("k".to_string(), b"v".to_vec());
    assert_eq!(
        created.clone().into_item_event(),
        Ok(ItemStoreEvent::ItemCreated("k".to_string(), b"v".to_vec()))
    );
    assert_eq!(created.into_spread_event(), Err(()));

    let patched = Event::ItemPatched("k".to_string(), b"v2".to_vec());
    assert_eq!(
        patched.into_item_event(),
        Ok(ItemStoreEvent::ItemPatched("k".to_string(), b"v2".to_vec()))
    );

    let removed = Event::ItemRemoved("k".to_string());
    assert_eq!(removed.into_item_event(), Ok(ItemStoreEvent::ItemRemoved("k".to_string())));
}

#[test]
fn node_events_convert_to_spread_store_event_and_fail_as_item_event() {
    let added = Event::NodeAdded(node());
    assert_eq!(added.clone().into_spread_event(), Ok(SpreadStoreEvent::NodeAdded(node())));
    assert_eq!(added.into_item_event(), Err(()));

    let removed = Event::NodeRemoved(node());
    assert_eq!(removed.into_spread_event(), Ok(SpreadStoreEvent::NodeRemoved(node())));

    let changed = Event::NodeChanged(node());
    assert_eq!(changed.into_spread_event(), Ok(SpreadStoreEvent::NodeChanged(node())));
}

#[test]
fn item_events_round_trip() {
    let e = ItemStoreEvent::ItemPatched("a".to_string(), vec![9]);
    assert_eq!(Event::from_item_event(e.clone()).into_item_event(), Ok(e));
}

#[test]
fn membership_changes_become_node_events() {
    let a = raft_node(1, "a", NodeRole::Voter, true);
    let b = raft_node(2, "b", NodeRole::Learner, false);
    let b_promoted = raft_node(2, "b", NodeRole::Voter, false);
    let c = raft_node(3, "c", NodeRole::Learner, false);
    let events = node_events(&vec![a.clone(), b.clone()], &vec![a.clone(), b_promoted.clone(), c.clone()]);
    assert_eq!(events, vec![Event::NodeChanged(b_promoted.clone()), Event::NodeAdded(c.clone())]);
    let events = node_events(&vec![a.clone(), b_promoted.clone(), c.clone()], &vec![c.clone()]);
    assert_eq!(events, vec![Event::NodeRemoved(a.clone()), Event::NodeRemoved(b_promoted)]);
    assert!(node_events(&vec![a.clone()], &vec![a]).is_empty());
}

#[test]
fn nodes_from_metrics_marks_voters_and_the_current_leader() {
    let membership = Membership {
        configs: vec![vec![1]],
        nodes: vec![
            (1, raft_node(1, "a", NodeRole::Learner, false)),
            (2, raft_node(2, "b", NodeRole::Learner, false)),
        ],
    };

    let mut nodes = nodes_from_membership(&membership, Some(1));
    nodes.sort_by_key(|n| n.id);

    assert_eq!(nodes.len(), 2);
    assert_eq!(nodes[0].role, NodeRole::Voter);
    assert!(nodes[0].is_leader);
    assert_eq!(nodes[1].role, NodeRole::Learner);
    assert!(!nodes[1].is_leader);
}

#[test]
fn routing_follows_the_node_cache() {
    let me = raft_node(1, "a", NodeRole::Voter, false);
    let leader = raft_node(2, "b", NodeRole::Voter, true);
    let cache = vec![me.clone(), leader.clone()];
    assert!(!cache_is_leader(&cache, 1));
    assert!(cache_is_leader(&cache, 2));
    assert_eq!(cache_leader(&cache), Some(leader.clone()));
    assert_eq!(route(&cache, 1), Route::Forward(leader.clone()));
    assert_eq!(route(&cache, 2), Route::Local);
    assert_eq!(route(&vec![me.clone()], 1), Route::NoLeader);
    assert_eq!(no_leader_error(), "no known raft leader");
    assert_eq!(stale_read_target(&vec![], &me), me);
    let target = stale_read_target(&cache, &me);
    assert!(cache.contains(&target));
    assert_eq!(read_value(ReadResult::GetResult(Some(vec![1]))), Ok(Some(vec![1])));
    assert_eq!(read_value(ReadResult::Error("x".to_string())), Err("x".to_string()));
    assert_eq!(write_outcome(ActionResult::Success), Ok(()));
    assert_eq!(write_outcome(ActionResult::Error("no".to_string())), Err("no".to_string()));
    let empty = Membership { configs: vec![], nodes: vec![] };
    assert!(must_bootstrap(&empty));
    let one = Membership {
        configs: vec![vec![1]],
        nodes: vec![(1, me.clone())],
    };
    assert!(!must_bootstrap(&one));
    let n = <Node as SpreadNode>::new(9, "nine".to_string(), "x:1".to_string());
    assert_eq!(n.role, NodeRole::Voter);
    assert!(!n.is_leader);
    assert_eq!(n.id(), 9);
    assert_eq!(n.name(), "nine");
    assert_eq!(n.api_addr(), "x:1");
}

#[test]
fn key_scopes_prefix_and_strip_keys() {
    let root = KeyScope::root();
    let nodes = root.slice("node/");
    assert_eq!(nodes.scoped_key("7"), "node/7");
    let deeper = nodes.slice("a/");
    assert_eq!(deeper.scoped_key("b"), "node/a/b");
    assert_eq!(
        nodes.get_request("7"),
        ReadAction::Get {
            key: "node/7".to_string(),
            allow_stale: false
        }
    );
    assert_eq!(
        nodes.stale_get_request("7"),
        ReadAction::Get {
            key: "node/7".to_string(),
            allow_stale: true
        }
    );
    assert_eq!(
        nodes.list_request(None),
        ReadAction::List {
            prefix: Some("node/".to_string())
        }
    );
    assert_eq!(
        nodes.list_request(Some("1")),
        ReadAction::List {
            prefix: Some("node/1".to_string())
        }
    );
    assert_eq!(
        nodes.unscoped(vec![("node/1".to_string(), vec![1]), ("node/2".to_string(), vec![2])]),
        vec![("1".to_string(), vec![1]), ("2".to_string(), vec![2])]
    );
}

#[test]
fn data_table_is_a_sorted_map() {
    let mut t = DataTable::new();
    let k = |s: &str| s.chars().collect::<Vec<char>>();
    t.insert(k("b"), vec![2]);
    t.insert(k("a"), vec![1]);
    t.insert(k("ab"), vec![3]);
    t.insert(k("b"), vec![4]);
    assert_eq!(t.len(), 3);
    assert_eq!(t.get(&k("b")), Some(vec![4]));
    assert!(t.contains(&k("ab")));
    assert_eq!(
        t.list(&k("a")),
        vec![("a".to_string(), vec![1]), ("ab".to_string(), vec![3])]
    );
    t.remove(&k("a"));
    t.remove(&k("zzz"));
    assert_eq!(t.get(&k("a")), None);
    assert_eq!(t.list(&k("")), vec![("ab".to_string(), vec![3]), ("b".to_string(), vec![4])]);
}

#[test]
fn applied_state_on_empty_store_returns_none_and_default() {
    let store = new_store();

    let (applied_log_id, membership) = store.applied_state();

    assert_eq!(applied_log_id, None);
    assert_eq!(membership, StoredMembership::empty());
}

#[test]
fn apply_blank_entry_updates_watermark_without_touching_data() {
    let mut store = new_store();

    let responses = store.apply(vec![entry(1, EntryPayload::Blank)]);

    assert_eq!(responses, vec![ActionResult::Success]);
    let (applied_log_id, _) = store.applied_state();
    assert_eq!(applied_log_id, Some(log_id(1, 1, 1)));
    assert!(stored_pairs(&store).is_empty());
}

#[test]
fn apply_set_writes_data_and_returns_success() {
    let mut store = new_store();

    let responses = store.apply(vec![set_entry(1, "foo", b"bar")]);

    assert_eq!(responses, vec![ActionResult::Success]);
    assert_eq!(stored_pairs(&store), vec![("foo".to_string(), b"bar".to_vec())]);
}

#[test]
fn apply_delete_removes_existing_key() {
    let mut store = new_store();
    store.apply(vec![set_entry(1, "foo", b"bar")]);

    let responses = store.apply(vec![delete_entry(2, "foo")]);

    assert_eq!(responses, vec![ActionResult::Success]);
    assert!(stored_pairs(&store).is_empty());
}

#[test]
fn apply_delete_on_missing_key_still_succeeds() {
    let mut store = new_store();

    let responses = store.apply(vec![delete_entry(1, "missing")]);

    assert_eq!(responses, vec![ActionResult::Success]);
}

#[test]
fn apply_patch_updates_existing_key() {
    let mut store = new_store();
    store.apply(vec![set_entry(1, "foo", b"bar")]);

    let responses = store.apply(vec![patch_entry(2, "foo", b"baz")]);

    assert_eq!(responses, vec![ActionResult::Success]);
    assert_eq!(stored_pairs(&store), vec![("foo".to_string(), b"baz".to_vec())]);
}

#[test]
fn apply_patch_on_missing_key_fails_without_creating_it() {
    let mut store = new_store();

    let responses = store.apply(vec![patch_entry(1, "missing", b"baz")]);

    assert!(matches!(
      &responses[..],
      [ActionResult::Error(msg)] if msg.contains("missing")
    ));
    assert_eq!(
        responses,
        vec![ActionResult::Error("cannot patch key \"missing\": it does not exist".to_string())]
    );
    assert!(stored_pairs(&store).is_empty());
}

#[test]
fn apply_membership_entry_updates_membership_and_watermark() {
    let mut store = new_store();
    let config = Membership {
        configs: vec![vec![1]],
        nodes: vec![],
    };

    let responses = store.apply(vec![Entry {
        log_id: log_id(1, 1, 1),
        payload: EntryPayload::Membership(config.clone()),
    }]);

    assert_eq!(responses, vec![ActionResult::Success]);
    let (applied_log_id, membership) = store.applied_state();
    assert_eq!(applied_log_id, Some(log_id(1, 1, 1)));
    assert_eq!(membership.log_id, Some(log_id(1, 1, 1)));
    assert_eq!(membership.membership.configs, vec![vec![1]]);
}

#[test]
fn apply_batch_returns_responses_in_order_and_final_watermark_only() {
    let mut store = new_store();
    let batch = vec![set_entry(1, "a", b"1"), set_entry(2, "b", b"2"), set_entry(3, "c", b"3")];

    let responses = store.apply(batch);

    assert_eq!(responses, vec![ActionResult::Success; 3]);
    let (applied_log_id, _) = store.applied_state();
    assert_eq!(applied_log_id, Some(log_id(1, 1, 3)));
    let mut pairs = stored_pairs(&store);
    pairs.sort();
    assert_eq!(
        pairs,
        vec![
            ("a".to_string(), b"1".to_vec()),
            ("b".to_string(), b"2".to_vec()),
            ("c".to_string(), b"3".to_vec()),
        ]
    );
}

#[test]
fn reads_see_the_applied_writes() {
    let mut store = new_store();
    store.apply(vec![set_entry(1, "croft/1", b"x"), set_entry(2, "plot/1", b"y")]);
    assert_eq!(
        store.read(&ReadAction::Get {
            key: "croft/1".to_string(),
            allow_stale: false
        }),
        ReadResult::GetResult(Some(b"x".to_vec()))
    );
    assert_eq!(
        store.read(&ReadAction::Get {
            key: "croft/2".to_string(),
            allow_stale: true
        }),
        ReadResult::GetResult(None)
    );
    assert_eq!(
        store.read(&ReadAction::List {
            prefix: Some("croft/".to_string())
        }),
        ReadResult::ListResult(vec![("croft/1".to_string(), b"x".to_vec())])
    );
}

#[test]
fn build_snapshot_on_empty_store_has_no_data_and_no_log_id() {
    let mut store = new_store();

    let snapshot = store.build_snapshot();

    assert_eq!(snapshot.meta.last_log_id, None);
    assert_eq!(snapshot.meta.last_membership, StoredMembership::empty());
    let pairs: Vec<(String, Vec<u8>)> = serde_json::from_slice(&snapshot.data).expect("decode snapshot data");
    assert!(pairs.is_empty());
    assert!(snapshot.meta.snapshot_id.starts_with("none-"));
}

#[test]
fn build_snapshot_captures_applied_data_and_becomes_current() {
    let mut store = new_store();
    store.apply(vec![set_entry(1, "foo", b"bar")]);

    let snapshot = store.build_snapshot();

    assert_eq!(snapshot.meta.last_log_id, Some(log_id(1, 1, 1)));
    let pairs: Vec<(String, Vec<u8>)> = serde_json::from_slice(&snapshot.data).expect("decode snapshot data");
    assert_eq!(pairs, vec![("foo".to_string(), b"bar".to_vec())]);
    assert!(snapshot.meta.snapshot_id.starts_with("T1-N1-1-"));

    let current = store.get_current_snapshot().expect("snapshot exists");
    assert_eq!(current.meta, snapshot.meta);
    assert_eq!(current.data, snapshot.data);
}

#[test]
fn get_current_snapshot_on_fresh_store_is_none() {
    let store = new_store();

    let current = store.get_current_snapshot();

    assert!(current.is_none());
}

#[test]
fn begin_receiving_snapshot_returns_empty_buffer() {
    let store = new_store();

    let buffer = store.begin_receiving_snapshot();

    assert!(buffer.is_empty());
}

#[test]
fn install_snapshot_replaces_data_wholesale_and_updates_watermark() {
    let mut store = new_store();
    store.apply(vec![set_entry(1, "stale", b"old")]);

    let pairs = vec![("fresh".to_string(), b"new".to_vec())];
    let data = serde_json::to_vec(&pairs).expect("encode snapshot data");
    let meta = SnapshotMeta {
        last_log_id: Some(log_id(2, 1, 5)),
        last_membership: StoredMembership::empty(),
        snapshot_id: "test-snapshot".to_string(),
    };

    store.install_snapshot(&meta, data.clone()).expect("install snapshot");

    assert_eq!(stored_pairs(&store), vec![("fresh".to_string(), b"new".to_vec())]);
    let (applied_log_id, _) = store.applied_state();
    assert_eq!(applied_log_id, Some(log_id(2, 1, 5)));

    let current = store.get_current_snapshot().expect("snapshot exists");
    assert_eq!(current.meta, meta);
    assert_eq!(current.data, data);
}

#[test]
fn install_snapshot_refuses_bytes_that_are_no_snapshot() {
    let mut store = new_store();
    store.apply(vec![set_entry(1, "keep", b"me")]);
    let meta = SnapshotMeta {
        last_log_id: Some(log_id(2, 1, 5)),
        last_membership: StoredMembership::empty(),
        snapshot_id: "bad".to_string(),
    };
    assert!(store.install_snapshot(&meta, b"not json".to_vec()).is_err());
    assert_eq!(stored_pairs(&store), vec![("keep".to_string(), b"me".to_vec())]);
    assert_eq!(store.applied_state().0, Some(log_id(1, 1, 1)));
}

#[test]
fn snapshot_transfers_state_between_two_stores() {
    let mut source = new_store();
    source.apply(vec![set_entry(1, "a", b"1"), set_entry(2, "b", b"2")]);

    let snapshot = source.build_snapshot();
    let meta = snapshot.meta.clone();

    let mut target = new_store();
    target.install_snapshot(&meta, snapshot.data).expect("install into target");

    let mut target_pairs = stored_pairs(&target);
    target_pairs.sort();
    assert_eq!(
        target_pairs,
        vec![("a".to_string(), b"1".to_vec()), ("b".to_string(), b"2".to_vec()),]
    );
    let (applied_log_id, _) = target.applied_state();
    assert_eq!(applied_log_id, Some(log_id(1, 1, 2)));
}

fn blank_entries(indexes: std::ops::RangeInclusive<u64>) -> Vec<Entry> {
    indexes.map(|index| Entry::blank(log_id(1, 1, index))).collect()
}

#[test]
fn get_log_state_on_empty_store_returns_none() {
    let store = LogStore::new();

    let state = store.get_log_state();

    assert_eq!(state.last_purged_log_id, None);
    assert_eq!(state.last_log_id, None);
}

#[test]
fn get_log_state_reflects_last_appended_entry() {
    let mut store = LogStore::new();

    store.append(blank_entries(1..=3));
    let state = store.get_log_state();

    assert_eq!(state.last_purged_log_id, None);
    assert_eq!(state.last_log_id, Some(log_id(1, 1, 3)));
}

#[test]
fn get_log_state_falls_back_to_last_purged_when_log_empty() {
    let mut store = LogStore::new();
    store.append(blank_entries(1..=2));

    store.purge(log_id(1, 1, 2));
    let state = store.get_log_state();

    assert_eq!(state.last_purged_log_id, Some(log_id(1, 1, 2)));
    assert_eq!(state.last_log_id, Some(log_id(1, 1, 2)));
}

#[test]
fn read_vote_on_empty_store_returns_none() {
    let store = LogStore::new();

    let vote = store.read_vote();

    assert_eq!(vote, None);
}

#[test]
fn save_vote_then_read_vote_round_trips() {
    let mut store = LogStore::new();
    let vote = Vote::new(1, 1);

    store.save_vote(vote);
    let read = store.read_vote();

    assert_eq!(read, Some(vote));
}

#[test]
fn save_vote_overwrites_previous_vote() {
    let mut store = LogStore::new();
    store.save_vote(Vote::new(1, 1));

    let second = Vote::new(2, 1);
    store.save_vote(second);
    let read = store.read_vote();

    assert_eq!(read, Some(second));
}

#[test]
fn append_persists_entries_contiguously() {
    let mut store = LogStore::new();

    store.append(blank_entries(1..=5));

    assert_eq!(store.stored_indexes(), vec![1, 2, 3, 4, 5]);
}

#[test]
fn append_replaces_entries_at_the_same_index() {
    let mut store = LogStore::new();
    store.append(blank_entries(1..=3));
    store.append(vec![Entry::blank(log_id(2, 1, 2))]);
    assert_eq!(store.stored_indexes(), vec![1, 2, 3]);
    assert_eq!(store.try_get_log_entries(2, Some(3)), vec![Entry::blank(log_id(2, 1, 2))]);
}

#[test]
fn truncate_removes_entries_at_and_after_log_id() {
    let mut store = LogStore::new();
    store.append(blank_entries(1..=5));

    store.truncate(log_id(1, 1, 3));

    assert_eq!(store.stored_indexes(), vec![1, 2]);
}

#[test]
fn truncate_from_first_index_empties_the_log() {
    let mut store = LogStore::new();
    store.append(blank_entries(1..=3));

    store.truncate(log_id(1, 1, 1));

    assert!(store.stored_indexes().is_empty());
}

#[test]
fn truncate_does_not_touch_last_purged_log_id() {
    let mut store = LogStore::new();
    store.append(blank_entries(1..=5));
    store.purge(log_id(1, 1, 2));

    store.truncate(log_id(1, 1, 4));
    let state = store.get_log_state();

    assert_eq!(state.last_purged_log_id, Some(log_id(1, 1, 2)));
}

#[test]
fn purge_removes_entries_up_to_and_including_log_id() {
    let mut store = LogStore::new();
    store.append(blank_entries(1..=5));

    store.purge(log_id(1, 1, 3));

    assert_eq!(store.stored_indexes(), vec![4, 5]);
}

#[test]
fn purge_updates_last_purged_log_id() {
    let mut store = LogStore::new();
    store.append(blank_entries(1..=5));

    store.purge(log_id(1, 1, 3));
    let state = store.get_log_state();

    assert_eq!(state.last_purged_log_id, Some(log_id(1, 1, 3)));
}

#[test]
fn log_entries_in_a_range() {
    let mut store = LogStore::new();
    store.append(blank_entries(1..=5));
    assert_eq!(store.try_get_log_entries(2, Some(4)), blank_entries(2..=3));
    assert_eq!(store.try_get_log_entries(4, None), blank_entries(4..=5));
    assert!(store.try_get_log_entries(6, None).is_empty());
}

#[test]
fn full_lifecycle_scenario() {
    let mut store = LogStore::new();

    store.save_vote(Vote::new(1, 1));
    store.append(blank_entries(1..=5));

    store.purge(log_id(1, 1, 2));
    store.truncate(log_id(1, 1, 4));

    assert_eq!(store.stored_indexes(), vec![3]);

    let state = store.get_log_state();
    assert_eq!(state.last_purged_log_id, Some(log_id(1, 1, 2)));
    assert_eq!(state.last_log_id, Some(log_id(1, 1, 3)));

    let vote = store.read_vote();
    assert_eq!(vote, Some(Vote::new(1, 1)));
}

#[test]
fn snapshot_ids() {
    assert_eq!(snapshot_id(Some(log_id(2, 3, 17)), 123), "T2-N3-17-123");
    assert_eq!(snapshot_id(None, 9), "none-9");
}

#[test]
fn scoped_reads_of_the_store() {
    let mut store = new_store();
    store.apply(vec![
        set_entry(1, "node/1", b"a"),
        set_entry(2, "node/12", b"b"),
        set_entry(3, "croft/1", b"c"),
    ]);
    let nodes = KeyScope::root().slice("node/");
    assert_eq!(store.scoped_get(&nodes, "1"), Some(b"a".to_vec()));
    assert_eq!(store.scoped_get(&nodes, "3"), None);
    assert_eq!(
        store.scoped_list(&nodes, None),
        vec![("1".to_string(), b"a".to_vec()), ("12".to_string(), b"b".to_vec())]
    );
    assert_eq!(store.scoped_list(&nodes, Some("12")), vec![("12".to_string(), b"b".to_vec())]);
    assert!(store.scoped_list(&KeyScope::root().slice("plot/"), None).is_empty());
}

#[test]
fn patch_errors_quote_their_key() {
    let mut store = new_store();
    let responses = store.apply(vec![patch_entry(1, "a \"b\"", b"x")]);
    assert_eq!(
        responses,
        vec![ActionResult::Error("cannot patch key \"a \\\"b\\\"\": it does not exist".to_string())]
    );
}
