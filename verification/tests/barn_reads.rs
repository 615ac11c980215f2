use swini::store::barn::events::Event;
use swini::store::barn::reads::{barn_list, list_reply, ListOutcome};
use swini::store::barn::routing::{refresh_nodes, KeyScope};
use swini::store::barn::storage::Storage;
use swini::store::barn::types::{Action, Entry, EntryPayload, LogId, Membership, Node, NodeRole, ReadAction, ReadResult};

fn member(id: u64) -> Node {
    Node {
        id,
        name: format!("n{id}"),
        api_addr: format!("10.0.0.{id}:7440"),
        role: NodeRole::Learner,
        is_leader: false,
    }
}

fn with_role(id: u64, role: NodeRole, is_leader: bool) -> Node {
    Node { role, is_leader, ..member(id) }
}

fn filled_store() -> Storage {
    let mut s = Storage::new();
    let put = |i: u64, k: &str, v: &[u8]| Entry {
        log_id: LogId::new(1, 1, i),
        payload: EntryPayload::Normal(Action::Put { key: k.to_string(), value: v.to_vec() }),
    };
    s.apply(vec![
        put(1, "app/a1", b"1"),
        put(2, "app/a2", b"2"),
        put(3, "app/b1", b"3"),
        put(4, "other/a1", b"4"),
    ]);
    s
}

#[test]
fn refreshing_the_node_cache_reports_what_changed() {
    let membership = Membership {
        configs: vec![vec![1, 2]],
        nodes: vec![(1, member(1)), (2, member(2)), (3, member(3))],
    };
    let mut last = Vec::new();
    let mut cache = Vec::new();
    let events = refresh_nodes(&mut last, &mut cache, &membership, Some(1));
    let expected = vec![
        with_role(1, NodeRole::Voter, true),
        with_role(2, NodeRole::Voter, false),
        with_role(3, NodeRole::Learner, false),
    ];
    assert_eq!(cache, expected);
    assert_eq!(last, expected);
    assert_eq!(events, expected.iter().cloned().map(Event::NodeAdded).collect::<Vec<_>>());

    // node 2 takes over and node 3 leaves
    let smaller = Membership {
        configs: vec![vec![1, 2]],
        nodes: vec![(1, member(1)), (2, member(2))],
    };
    let events = refresh_nodes(&mut last, &mut cache, &smaller, Some(2));
    assert_eq!(
        events,
        vec![
            Event::NodeChanged(with_role(1, NodeRole::Voter, false)),
            Event::NodeChanged(with_role(2, NodeRole::Voter, true)),
            Event::NodeRemoved(with_role(3, NodeRole::Learner, false)),
        ]
    );
    assert_eq!(cache, vec![with_role(1, NodeRole::Voter, false), with_role(2, NodeRole::Voter, true)]);

    // nothing changed: no event
    assert!(refresh_nodes(&mut last, &mut cache, &smaller, Some(2)).is_empty());
}

#[test]
fn a_leader_lists_its_own_data_without_the_handle_prefix() {
    let s = filled_store();
    let cache = vec![with_role(1, NodeRole::Voter, true)];
    let scope = KeyScope::root().slice("app/");
    assert_eq!(
        barn_list(&s, &cache, 1, &scope, Some("a"), Ok(())),
        ListOutcome::Listed(vec![("a1".to_string(), b"1".to_vec()), ("a2".to_string(), b"2".to_vec())])
    );
    assert_eq!(
        barn_list(&s, &cache, 1, &scope, None, Ok(())),
        ListOutcome::Listed(vec![
            ("a1".to_string(), b"1".to_vec()),
            ("a2".to_string(), b"2".to_vec()),
            ("b1".to_string(), b"3".to_vec()),
        ])
    );
    assert_eq!(
        barn_list(&s, &cache, 1, &scope, None, Err("leadership lost".to_string())),
        ListOutcome::Failed("leadership lost".to_string())
    );
}

#[test]
fn a_follower_forwards_a_listing_or_fails_without_a_leader() {
    let s = filled_store();
    let leader = with_role(2, NodeRole::Voter, true);
    let cache = vec![with_role(1, NodeRole::Voter, false), leader.clone()];
    let scope = KeyScope::root().slice("app/");
    assert_eq!(
        barn_list(&s, &cache, 1, &scope, Some("b"), Ok(())),
        ListOutcome::Forward(leader, ReadAction::List { prefix: Some("app/b".to_string()) })
    );
    let alone = vec![with_role(1, NodeRole::Voter, false)];
    assert_eq!(
        barn_list(&s, &alone, 1, &scope, None, Ok(())),
        ListOutcome::Failed("no known raft leader".to_string())
    );
}

#[test]
fn a_forwarded_listing_reply_loses_the_handle_prefix() {
    let scope = KeyScope::root().slice("app/");
    assert_eq!(
        list_reply(&scope, ReadResult::ListResult(vec![("app/b1".to_string(), b"3".to_vec())])),
        Ok(vec![("b1".to_string(), b"3".to_vec())])
    );
    assert_eq!(
        list_reply(&scope, ReadResult::Error("not leader".to_string())),
        Err("not leader".to_string())
    );
}
