use swini::croft::clerk::{croft_key, joins_membership, server_crofts, stamp_join, stamp_joined_at};
use swini::croft::config::{
    candidate_data_dirs, crofts_dir, default_addr, default_data_dir, default_name, default_roles, http_url, join,
};
use swini::croft::proto::{JoinReq, ProtoCroft, ProtoCroftResources};
use swini::croft::resources::{host_cpu_fits, host_cpu_total, CroftResources};
use swini::croft::types::{Croft, CroftRole};
use swini::ids::{new_id_from, provide_id};

#[test]
fn croft_from_join_req_validation() {
    let valid_req = JoinReq {
        id: 42,
        name: "worker-01".to_string(),
        addr: "10.0.0.1:7440".to_string(),
        roles: vec!["server".to_string(), "worker".to_string()],
        tags: vec!["zone-a".to_string()],
        resources: Some(ProtoCroftResources {
            cpu_total: 10_000_000_000,
            cpu_yardable: 9_000_000_000,
            cpu_reserved: 0,
            mem_total: 16_000_000_000,
            mem_yardable: 14_000_000_000,
            mem_reserved: 0,
        }),
    };
    let croft = Croft::from_join_req(valid_req).unwrap();
    assert_eq!(croft.id, 42);
    assert_eq!(croft.name, "worker-01");
    assert_eq!(croft.addr, "10.0.0.1:7440");
    assert_eq!(croft.roles, vec![CroftRole::Server, CroftRole::Worker]);
    assert_eq!(croft.tags, vec!["zone-a"]);
    assert_eq!(croft.resources.cpu_total, 10_000_000_000);

    let empty_name = JoinReq {
        name: "   ".to_string(),
        ..Default::default()
    };
    assert!(Croft::from_join_req(empty_name).is_err());

    let empty_addr = JoinReq {
        name: "test".to_string(),
        addr: "   ".to_string(),
        roles: vec!["server".to_string()],
        tags: vec![],
        id: 1,
        resources: None,
    };
    assert!(Croft::from_join_req(empty_addr).is_err());

    let empty_roles = JoinReq {
        name: "test".to_string(),
        addr: "127.0.0.1:7440".to_string(),
        roles: vec![],
        tags: vec![],
        id: 1,
        resources: None,
    };
    assert!(Croft::from_join_req(empty_roles).is_err());

    let invalid_role = JoinReq {
        name: "test".to_string(),
        addr: "127.0.0.1:7440".to_string(),
        roles: vec!["invalid_role".to_string()],
        tags: vec![],
        id: 1,
        resources: None,
    };
    assert!(Croft::from_join_req(invalid_role).is_err());
}

#[test]
fn join_req_errors_say_why() {
    let req = |name: &str, addr: &str, roles: Vec<&str>| JoinReq {
        id: 7,
        name: name.to_string(),
        addr: addr.to_string(),
        roles: roles.into_iter().map(|r| r.to_string()).collect(),
        tags: vec![],
        resources: None,
    };
    assert_eq!(
        Croft::from_join_req(req(" ", "a", vec!["server"])),
        Err("Croft name cannot be empty".to_string())
    );
    assert_eq!(
        Croft::from_join_req(req("n", "\t", vec!["server"])),
        Err("Croft addr cannot be empty".to_string())
    );
    assert_eq!(
        Croft::from_join_req(req("n", "a", vec![])),
        Err("Croft must have at least one role".to_string())
    );
    assert_eq!(
        Croft::from_join_req(req("n", "a", vec!["server", " Boss "])),
        Err("Unknown Croft role 'boss'. Expected 'server' or 'worker'.".to_string())
    );
    let trimmed = Croft::from_join_req(req("  n1 ", " 1.2.3.4:5 ", vec![" WORKER"])).unwrap();
    assert_eq!(trimmed.name, "n1");
    assert_eq!(trimmed.addr, "1.2.3.4:5");
    assert_eq!(trimmed.roles, vec![CroftRole::Worker]);
    assert_eq!(trimmed.resources, CroftResources::default());
    assert_eq!(trimmed.joined_at, "");
}

#[test]
fn proto_croft_roundtrip() {
    let domain_croft = Croft {
        id: 99,
        name: "croft-99".to_string(),
        addr: "127.0.0.1:7440".to_string(),
        roles: vec![CroftRole::Server],
        tags: vec!["fast".to_string()],
        joined_at: "2026-09-05T12:00:00Z".to_string(),
        resources: CroftResources {
            cpu_total: 25_600_000_000,
            cpu_yardable: 23_040_000_000,
            cpu_reserved: 1_000_000_000,
            mem_total: 32_000_000_000,
            mem_yardable: 28_800_000_000,
            mem_reserved: 2_000_000_000,
        },
    };

    let proto = ProtoCroft::from_croft(domain_croft.clone());
    assert_eq!(proto.id, 99);
    assert_eq!(proto.name, "croft-99");
    assert_eq!(proto.roles, vec!["server".to_string()]);
    assert_eq!(proto.joined_at, "2026-09-05T12:00:00Z");

    let restored = Croft::from_proto(proto).unwrap();
    assert_eq!(restored, domain_croft);
}

#[test]
fn croft_resources_available_calculation() {
    let resources = CroftResources {
        cpu_total: 10_000_000_000,
        cpu_yardable: 9_000_000_000,
        cpu_reserved: 3_000_000_000,
        mem_total: 16_000_000_000,
        mem_yardable: 14_000_000_000,
        mem_reserved: 4_000_000_000,
    };

    assert_eq!(resources.cpu_available(), 6_000_000_000);
    assert_eq!(resources.mem_available(), 10_000_000_000);

    let oversubscribed = CroftResources {
        cpu_total: 10_000_000_000,
        cpu_yardable: 9_000_000_000,
        cpu_reserved: 12_000_000_000,
        mem_total: 16_000_000_000,
        mem_yardable: 14_000_000_000,
        mem_reserved: 20_000_000_000,
    };
    assert_eq!(oversubscribed.cpu_available(), 0);
    assert_eq!(oversubscribed.mem_available(), 0);
}

#[test]
fn croft_role_parsing() {
    assert_eq!("server".parse::<CroftRole>().unwrap(), CroftRole::Server);
    assert_eq!("worker".parse::<CroftRole>().unwrap(), CroftRole::Worker);
    assert_eq!("SERVER".parse::<CroftRole>().unwrap(), CroftRole::Server);
    assert_eq!("Worker ".parse::<CroftRole>().unwrap(), CroftRole::Worker);
    assert!("invalid".parse::<CroftRole>().is_err());
}

#[test]
fn croft_role_names_round_trip() {
    for role in [CroftRole::Server, CroftRole::Worker] {
        assert_eq!(CroftRole::parse(role.to_text().as_str()), Ok(role));
    }
    assert_eq!(CroftRole::Server.to_text(), "server");
}

#[test]
fn croft_role_checks() {
    let mut c = Croft::default();
    c.roles = vec![CroftRole::Worker];
    assert!(c.is_worker());
    assert!(!c.is_server());
    assert!(!joins_membership(&c));
    c.roles.push(CroftRole::Server);
    assert!(c.is_server());
    assert!(joins_membership(&c));
}

#[test]
fn host_cpu_capacity() {
    // four cores at 3200 MHz
    assert_eq!(host_cpu_total(&vec![3200, 3200, 3200, 3200]), 12_800_000_000);
    // no core reported: one core at 2500 MHz
    assert_eq!(host_cpu_total(&vec![]), 2_500_000_000);
    // cores that report no rate count at 2500 MHz
    assert_eq!(host_cpu_total(&vec![0, 0]), 5_000_000_000);
    // the mean is rounded down
    assert_eq!(host_cpu_total(&vec![1000, 1001]), 2_000_000_000);
}

#[test]
fn config_defaults() {
    assert_eq!(default_name(), "main");
    assert_eq!(default_addr(), "127.0.0.1:7440");
    assert_eq!(default_roles(), vec![CroftRole::Server, CroftRole::Worker]);
    assert_eq!(http_url("127.0.0.1:7440"), "http://127.0.0.1:7440");
}

#[test]
fn data_directories() {
    assert_eq!(crofts_dir(Some("/home/ana")), "/home/ana/.swini/crofts");
    assert_eq!(crofts_dir(None), "./.swini/crofts");
    assert_eq!(default_data_dir(Some("/home/ana/"), "main"), "/home/ana/.swini/crofts/main");
    assert!(default_data_dir(Some("/root"), "main").ends_with(".swini/crofts/main"));
    // an absolute name replaces the path, as a path buffer does
    assert_eq!(default_data_dir(Some("/home/ana"), "/srv/croft"), "/srv/croft");
    assert_eq!(join("", "x"), "x");
    assert_eq!(
        candidate_data_dirs(Some("/h"), "test-instance"),
        vec![
            "/h/.swini/crofts/test-instance".to_string(),
            "sandbox/.data/test-instance".to_string(),
            ".data/test-instance".to_string()
        ]
    );
}

#[test]
fn croft_records_and_joins() {
    assert_eq!(croft_key(42), "croft/42");
    assert_eq!(croft_key(0), "croft/0");
    assert_eq!(croft_key(u64::MAX), "croft/18446744073709551615");

    let fresh = Croft {
        id: 5,
        name: "n".to_string(),
        ..Default::default()
    };
    let stamped = stamp_joined_at(fresh.clone(), "2026-01-01T00:00:00+00:00".to_string());
    assert_eq!(stamped.joined_at, "2026-01-01T00:00:00+00:00");
    assert_eq!(stamped.name, "n");
    let kept = stamp_joined_at(stamped.clone(), "later".to_string());
    assert_eq!(kept.joined_at, "2026-01-01T00:00:00+00:00");
    let now = stamp_join(fresh);
    assert!(!now.joined_at.is_empty());
    assert_eq!(stamp_join(kept.clone()), kept);

    let server = Croft {
        id: 1,
        roles: vec![CroftRole::Server],
        ..Default::default()
    };
    let worker = Croft {
        id: 2,
        roles: vec![CroftRole::Worker],
        ..Default::default()
    };
    let both = Croft {
        id: 3,
        roles: vec![CroftRole::Worker, CroftRole::Server],
        ..Default::default()
    };
    let servers = server_crofts(vec![server.clone(), worker, both.clone()]);
    assert_eq!(servers, vec![server, both]);
}

#[test]
fn identities() {
    assert_eq!(provide_id(Some(" 1234\n")), (1234, false));
    assert_eq!(provide_id(Some("+7")), (7, false));
    let (id, fresh) = provide_id(Some("not a number"));
    assert!(fresh);
    assert!(id <= 0x7FFF_FFFF_FFFF_FFFF);
    let (id, fresh) = provide_id(None);
    assert!(fresh);
    assert!(id <= 0x7FFF_FFFF_FFFF_FFFF);
}

#[test]
fn new_ids_clear_the_top_bit() {
    assert_eq!(new_id_from(u64::MAX), 0x7FFF_FFFF_FFFF_FFFF);
    assert_eq!(new_id_from(0x8000_0000_0000_0005), 5);
    assert_eq!(new_id_from(42), 42);
}

#[test]
fn host_cpu_capacity_bounds() {
    assert!(host_cpu_fits(&vec![3200, 3200]));
    assert!(host_cpu_fits(&vec![]));
    assert!(!host_cpu_fits(&vec![u64::MAX, 1]));
    assert!(!host_cpu_fits(&vec![u64::MAX / 2, u64::MAX / 2]));
}
