use swini::plot::{plot_from_join_req, proto_plot_from_plot, JoinReq, Plot, PlotRole};

#[test]
fn plot_from_join_req_validation() {
    let valid_req = JoinReq {
        id: 42,
        name: "worker-01".to_string(),
        addr: "10.0.0.1:7440".to_string(),
        roles: vec!["server".to_string(), "worker".to_string()],
        tags: vec!["zone-a".to_string()],
    };
    let plot = plot_from_join_req(valid_req).unwrap();
    assert_eq!(plot.id, 42);
    assert_eq!(plot.name, "worker-01");
    assert_eq!(plot.addr, "10.0.0.1:7440");
    assert_eq!(plot.roles, vec![PlotRole::Server, PlotRole::Worker]);
    assert_eq!(plot.tags, vec!["zone-a"]);

    let empty_name = JoinReq {
        name: "   ".to_string(),
        ..Default::default()
    };
    assert!(plot_from_join_req(empty_name).is_err());

    let empty_roles = JoinReq {
        name: "test".to_string(),
        addr: "127.0.0.1:7440".to_string(),
        roles: vec![],
        tags: vec![],
        id: 1,
    };
    assert!(plot_from_join_req(empty_roles).is_err());

    let invalid_role = JoinReq {
        name: "test".to_string(),
        addr: "127.0.0.1:7440".to_string(),
        roles: vec!["invalid_role".to_string()],
        tags: vec![],
        id: 1,
    };
    assert!(plot_from_join_req(invalid_role).is_err());
}

#[test]
fn proto_plot_conversion() {
    let domain_plot = Plot {
        id: 99,
        name: "plot-99".to_string(),
        addr: "127.0.0.1:7440".to_string(),
        roles: vec![PlotRole::Server],
        tags: vec!["fast".to_string()],
        joined_at: "2026-09-03T12:00:00Z".to_string(),
    };

    let proto = proto_plot_from_plot(domain_plot.clone());
    assert_eq!(proto.id, 99);
    assert_eq!(proto.name, "plot-99");
    assert_eq!(proto.roles, vec!["server".to_string()]);
    assert_eq!(proto.joined_at, "2026-09-03T12:00:00Z");
}

#[test]
fn plot_role_parsing() {
    assert_eq!("server".parse::<PlotRole>().unwrap(), PlotRole::Server);
    assert_eq!("worker".parse::<PlotRole>().unwrap(), PlotRole::Worker);
    assert_eq!("SERVER".parse::<PlotRole>().unwrap(), PlotRole::Server);
    assert_eq!("Worker ".parse::<PlotRole>().unwrap(), PlotRole::Worker);
    assert!("invalid".parse::<PlotRole>().is_err());
}

#[test]
fn plot_role_errors_and_checks() {
    assert_eq!(
        PlotRole::parse("  Farmer "),
        Err("Unknown Plot role 'farmer'. Expected 'server' or 'worker'.".to_string())
    );
    let plot = Plot {
        roles: vec![PlotRole::Worker],
        ..Default::default()
    };
    assert!(plot.is_worker());
    assert!(!plot.is_server());
    assert_eq!(PlotRole::Worker.to_text(), "worker");
}
