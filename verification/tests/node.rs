use swini::node::{node_from_join_req, node_from_remote, node_join_request, to_proto_node, to_proto_nodes, JoinReq, Node, NodeRole, ProtoNode};

#[test]
fn join_req_try_into_valid_node() {
    let req = JoinReq {
        id: 10,
        name: "node-10".to_string(),
        api_addr: "127.0.0.1:7440".to_string(),
        roles: vec!["server".to_string(), "WORKER".to_string()],
        tags: vec!["tag1".to_string()],
    };

    let node: Node = node_from_join_req(req).expect("valid node");
    assert_eq!(node.id, 10);
    assert_eq!(node.name, "node-10");
    assert_eq!(node.api_addr, "127.0.0.1:7440");
    assert_eq!(node.roles, vec![NodeRole::Server, NodeRole::Worker]);
    assert_eq!(node.tags, vec!["tag1"]);
}

#[test]
fn join_req_invalid_id_returns_error() {
    let req = JoinReq {
        id: 0,
        name: "zero".to_string(),
        api_addr: "127.0.0.1:7440".to_string(),
        roles: vec!["server".to_string()],
        tags: vec![],
    };

    let result = node_from_join_req(req);
    assert_eq!(result.unwrap_err(), "node id must be greater than 0");
}

#[test]
fn join_req_empty_api_addr_returns_error() {
    let req = JoinReq {
        id: 1,
        name: "node".to_string(),
        api_addr: "   ".to_string(),
        roles: vec!["server".to_string()],
        tags: vec![],
    };

    let result = node_from_join_req(req);
    assert_eq!(result.unwrap_err(), "api_addr cannot be empty");
}

#[test]
fn join_req_unknown_role_returns_error() {
    let req = JoinReq {
        id: 1,
        name: "node".to_string(),
        api_addr: "127.0.0.1:7440".to_string(),
        roles: vec!["coordinator".to_string()],
        tags: vec![],
    };

    let result = node_from_join_req(req);
    assert_eq!(result.unwrap_err(), "unknown role: coordinator");
}

#[test]
fn join_req_empty_roles_returns_error() {
    let req = JoinReq {
        id: 1,
        name: "node".to_string(),
        api_addr: "127.0.0.1:7440".to_string(),
        roles: vec![],
        tags: vec![],
    };

    let result = node_from_join_req(req);
    assert_eq!(result.unwrap_err(), "node must specify at least one role");
}

#[test]
fn join_req_without_name_is_named_after_its_id() {
    let req = JoinReq {
        id: 77,
        name: String::new(),
        api_addr: "127.0.0.1:7440".to_string(),
        roles: vec!["worker".to_string()],
        tags: vec![],
    };
    let node = node_from_join_req(req).unwrap();
    assert_eq!(node.name, "node-77");
    assert_eq!(node.joined_at, "");
}

#[test]
fn to_proto_nodes_maps_primary_flag() {
    let nodes = vec![
        Node {
            id: 1,
            name: "node-1".to_string(),
            roles: vec![NodeRole::Server],
            api_addr: "127.0.0.1:7440".to_string(),
            joined_at: "2026-08-31T00:00:00Z".to_string(),
            ..Default::default()
        },
        Node {
            id: 2,
            name: "node-2".to_string(),
            roles: vec![NodeRole::Worker],
            api_addr: "127.0.0.1:7441".to_string(),
            joined_at: "2026-08-31T00:01:00Z".to_string(),
            ..Default::default()
        },
    ];

    let proto_nodes = to_proto_nodes(nodes, Some(1));
    assert_eq!(proto_nodes.len(), 2);
    assert!(proto_nodes[0].is_primary);
    assert!(!proto_nodes[1].is_primary);
}

#[test]
fn proto_node_fields() {
    let node = Node {
        id: 3,
        name: "n3".to_string(),
        roles: vec![NodeRole::Worker, NodeRole::Server],
        tags: vec!["t".to_string()],
        api_addr: "a".to_string(),
        joined_at: "j".to_string(),
        ..Default::default()
    };
    let p = to_proto_node(node, None);
    assert_eq!(p.roles, vec!["worker".to_string(), "server".to_string()]);
    assert_eq!(p.tags, vec!["t".to_string()]);
    assert!(!p.is_primary);
    assert_eq!(NodeRole::from_remote("SERVER"), NodeRole::Server);
    assert_eq!(NodeRole::from_remote("anything"), NodeRole::Worker);
}

#[test]
fn join_requests_and_reported_nodes() {
    let node = Node {
        id: 5,
        name: "n5".to_string(),
        roles: vec![NodeRole::Server, NodeRole::Worker],
        tags: vec!["x".to_string()],
        api_addr: "10.0.0.5:7440".to_string(),
        ..Default::default()
    };
    let req = node_join_request(&node);
    assert_eq!(req.roles, vec!["server".to_string(), "worker".to_string()]);
    assert_eq!(node_from_join_req(req).unwrap().roles, node.roles);

    let reported = ProtoNode {
        id: 1,
        name: "seed".to_string(),
        api_addr: "10.0.0.1:7440".to_string(),
        roles: vec!["SERVER".to_string(), "coordinator".to_string()],
        tags: vec![],
        joined_at: "2026-08-31T00:00:00Z".to_string(),
        is_primary: true,
    };
    let n = node_from_remote(reported);
    assert_eq!(n.roles, vec![NodeRole::Server, NodeRole::Worker]);
    assert_eq!(n.joined_at, "2026-08-31T00:00:00Z");
    assert_eq!(n.cpu_total, 0);
}
