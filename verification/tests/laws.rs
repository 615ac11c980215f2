use std::collections::BTreeMap;
use swini::store::barn::events::{node_events, Event};
use swini::store::barn::storage::Storage;
use swini::store::barn::types::{
    Action, ActionResult, Entry, EntryPayload, LogId, Membership, Node, NodeRole, ReadAction, ReadResult,
};

fn put(index: u64, key: &str, value: &[u8]) -> Entry {
    Entry {
        log_id: LogId::new(1, 1, index),
        payload: EntryPayload::Normal(Action::Put {
            key: key.to_string(),
            value: value.to_vec(),
        }),
    }
}

fn delete(index: u64, key: &str) -> Entry {
    Entry {
        log_id: LogId::new(1, 1, index),
        payload: EntryPayload::Normal(Action::Delete { key: key.to_string() }),
    }
}

fn everything(s: &Storage) -> ReadResult {
    s.read(&ReadAction::List { prefix: None })
}

#[test]
fn batching_does_not_change_the_outcome() {
    let batch = vec![put(1, "a", b"1"), delete(2, "a"), put(3, "b", b"2"), put(4, "a", b"3")];
    let mut whole = Storage::new();
    let answers = whole.apply(batch.clone());
    let mut parts = Storage::new();
    let mut split_answers = parts.apply(batch[..2].to_vec());
    split_answers.extend(parts.apply(batch[2..].to_vec()));
    assert_eq!(answers, split_answers);
    assert_eq!(everything(&whole), everything(&parts));
    assert_eq!(whole.applied_state().0, parts.applied_state().0);
}

#[test]
fn applying_entries_keeps_the_current_snapshot() {
    let mut s = Storage::new();
    s.apply(vec![put(1, "a", b"1")]);
    let snap = s.build_snapshot();
    s.apply(vec![put(2, "b", b"2")]);
    assert_eq!(s.get_current_snapshot(), Some(snap));
}

#[test]
fn deleting_twice_is_deleting_once() {
    let mut s = Storage::new();
    s.apply(vec![put(1, "a", b"1"), put(2, "b", b"2")]);
    let answers = s.apply(vec![delete(3, "a"), delete(4, "a")]);
    assert_eq!(answers, vec![ActionResult::Success, ActionResult::Success]);
    assert_eq!(everything(&s), ReadResult::ListResult(vec![("b".to_string(), b"2".to_vec())]));
}

#[test]
fn only_actions_change_data() {
    let mut s = Storage::new();
    s.apply(vec![put(1, "a", b"1")]);
    let before = everything(&s);
    s.apply(vec![
        Entry::blank(LogId::new(2, 1, 2)),
        Entry {
            log_id: LogId::new(2, 1, 3),
            payload: EntryPayload::Membership(Membership {
                configs: vec![vec![1]],
                nodes: vec![],
            }),
        },
    ]);
    assert_eq!(everything(&s), before);
    assert_eq!(s.applied_state().0, Some(LogId::new(2, 1, 3)));
}

#[test]
fn a_put_is_read_back_and_leaves_other_keys() {
    let mut s = Storage::new();
    s.apply(vec![put(1, "x", b"old"), put(2, "y", b"kept")]);
    s.apply(vec![put(3, "x", b"new")]);
    let get = |k: &str| {
        s.read(&ReadAction::Get {
            key: k.to_string(),
            allow_stale: false,
        })
    };
    assert_eq!(get("x"), ReadResult::GetResult(Some(b"new".to_vec())));
    assert_eq!(get("y"), ReadResult::GetResult(Some(b"kept".to_vec())));
}

#[test]
fn membership_events_replay_to_the_new_node_list() {
    let node = |id: u64, role: NodeRole, leader: bool| Node {
        id,
        name: format!("n{id}"),
        api_addr: format!("10.0.0.{id}:7440"),
        role,
        is_leader: leader,
    };
    let last = vec![node(1, NodeRole::Voter, true), node(2, NodeRole::Learner, false), node(3, NodeRole::Voter, false)];
    let cur = vec![node(4, NodeRole::Learner, false), node(2, NodeRole::Voter, false), node(1, NodeRole::Voter, false)];
    let mut replayed: BTreeMap<u64, Node> = last.iter().map(|n| (n.id, n.clone())).collect();
    for e in node_events(&last, &cur) {
        match e {
            Event::NodeAdded(n) | Event::NodeChanged(n) => {
                replayed.insert(n.id, n);
            }
            Event::NodeRemoved(n) => {
                replayed.remove(&n.id);
            }
            other => panic!("not a membership event: {:?}", other),
        }
    }
    let expected: BTreeMap<u64, Node> = cur.iter().map(|n| (n.id, n.clone())).collect();
    assert_eq!(replayed, expected);
}

#[test]
fn replicas_with_the_same_data_stay_in_step() {
    // one replica got its data entry by entry, the other from a snapshot
    let mut first = Storage::new();
    first.apply(vec![put(1, "a", b"1"), put(2, "b", b"2")]);
    let snap = first.build_snapshot();
    let mut second = Storage::new();
    second.install_snapshot(&snap.meta, snap.data).unwrap();
    let next = vec![delete(3, "a"), put(4, "c", b"3")];
    assert_eq!(first.apply(next.clone()), second.apply(next));
    assert_eq!(everything(&first), everything(&second));
}

#[test]
fn the_last_membership_entry_of_a_batch_wins() {
    let membership = |voters: Vec<u64>| Membership { configs: vec![voters], nodes: vec![] };
    let mut s = Storage::new();
    s.apply(vec![
        Entry { log_id: LogId::new(1, 1, 1), payload: EntryPayload::Membership(membership(vec![1])) },
        put(2, "a", b"1"),
        Entry { log_id: LogId::new(1, 1, 3), payload: EntryPayload::Membership(membership(vec![1, 2])) },
        put(4, "b", b"2"),
    ]);
    let (applied, stored) = s.applied_state();
    assert_eq!(applied, Some(LogId::new(1, 1, 4)));
    assert_eq!(stored.log_id, Some(LogId::new(1, 1, 3)));
    assert_eq!(stored.membership.configs, vec![vec![1, 2]]);
    // a batch without a membership entry keeps it
    s.apply(vec![put(5, "c", b"3"), Entry::blank(LogId::new(1, 1, 6))]);
    let (applied, kept) = s.applied_state();
    assert_eq!(applied, Some(LogId::new(1, 1, 6)));
    assert_eq!(kept, stored);
}

#[test]
fn each_entry_is_answered_by_its_own_effect() {
    let mut s = Storage::new();
    let answers = s.apply(vec![
        Entry::blank(LogId::new(1, 1, 1)),
        Entry {
            log_id: LogId::new(1, 1, 2),
            payload: EntryPayload::Normal(Action::Patch { key: "a".to_string(), value: b"1".to_vec() }),
        },
        put(3, "a", b"1"),
        Entry {
            log_id: LogId::new(1, 1, 4),
            payload: EntryPayload::Normal(Action::Patch { key: "a".to_string(), value: b"2".to_vec() }),
        },
    ]);
    assert_eq!(
        answers,
        vec![
            ActionResult::Success,
            ActionResult::Error("cannot patch key \"a\": it does not exist".to_string()),
            ActionResult::Success,
            ActionResult::Success,
        ]
    );
}

#[test]
fn node_events_only_report_real_changes() {
    let node = |id: u64, role: NodeRole| Node {
        id,
        name: format!("n{id}"),
        api_addr: format!("10.0.0.{id}:7440"),
        role,
        is_leader: false,
    };
    let last = vec![node(1, NodeRole::Voter), node(2, NodeRole::Learner), node(3, NodeRole::Voter)];
    let cur = vec![node(1, NodeRole::Voter), node(2, NodeRole::Voter), node(4, NodeRole::Learner)];
    let events = node_events(&last, &cur);
    assert_eq!(
        events,
        vec![
            Event::NodeChanged(node(2, NodeRole::Voter)),
            Event::NodeAdded(node(4, NodeRole::Learner)),
            Event::NodeRemoved(node(3, NodeRole::Voter)),
        ]
    );
    assert!(!events.iter().any(|e| matches!(e, Event::NodeChanged(n) | Event::NodeAdded(n) if n.id == 1)));
}
