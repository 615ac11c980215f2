use swini::clock::{rfc3339_utc, utc_now_rfc3339};
use swini::croft::clerk::{barn_nodes_of, join_request};
use swini::regent::{join_step, JoinAction, JoinEvent, JoinPhase};
use swini::croft::proto::ProtoCroftResources;
use swini::croft::resources::CroftResources;
use swini::croft::types::{Croft, CroftRole};
use swini::regent::{
    empty_listing_message, regent_listing, start_plan, status_text, stop_step, stop_target, RegentEntry,
    RegentRecord, StartPlan, StopAction, StopEvent, StopPhase,
};
use swini::store::barn::types::NodeRole;

fn record(name: &str, pid: u32) -> RegentRecord {
    RegentRecord {
        name: name.to_string(),
        pid,
        addr: "127.0.0.1:7440".to_string(),
        alive: true,
        started_at: "2026-09-03T15:00:00Z".to_string(),
    }
}

fn entry(dir: &str, rec: Option<RegentRecord>) -> RegentEntry {
    RegentEntry {
        dir_name: dir.to_string(),
        record: rec,
    }
}

#[test]
fn regent_listing_takes_each_name_once() {
    let entries = vec![
        entry("main", Some(record("main", 10))),
        entry("empty", None),
        entry("edge", Some(record("edge", 11))),
        entry("main", Some(record("main", 99))),
        entry("empty", Some(record("empty", 12))),
    ];
    let all = regent_listing(entries.clone(), None);
    assert_eq!(all, vec![record("main", 10), record("edge", 11), record("empty", 12)]);
    let one = regent_listing(entries.clone(), Some("edge"));
    assert_eq!(one, vec![record("edge", 11)]);
    assert!(regent_listing(entries, Some("nope")).is_empty());
    assert_eq!(empty_listing_message(Some("nope")), "No matching regents found.");
    assert_eq!(empty_listing_message(None), "No regents running.");
    assert_eq!(status_text(true), "Running");
    assert_eq!(status_text(false), "Dead (Stale)");
}

#[test]
fn regent_stop_steps() {
    assert_eq!(stop_target(None), "main");
    assert_eq!(stop_target(Some("edge")), "edge");

    let (phase, action) = stop_step("ghost", StopPhase::Locating, StopEvent::NotFound);
    assert_eq!(phase, StopPhase::Finished);
    assert_eq!(action, StopAction::Fail("Regent 'ghost' is not running (no state found)".to_string()));

    let (phase, action) = stop_step("main", StopPhase::Locating, StopEvent::Found { pid: 7, alive: false });
    assert_eq!(phase, StopPhase::Finished);
    assert_eq!(
        action,
        StopAction::CleanUp("Regent 'main' was not running (cleaned up stale state).".to_string())
    );

    let (mut phase, action) = stop_step("main", StopPhase::Locating, StopEvent::Found { pid: 4242, alive: true });
    assert_eq!(action, StopAction::Signal("Stopping regent 'main' (PID 4242)...".to_string()));
    let mut waits = 0;
    loop {
        let (next, action) = stop_step("main", phase, StopEvent::Checked { alive: true });
        phase = next;
        match action {
            StopAction::Wait => waits += 1,
            StopAction::GiveUp(msg) => {
                assert_eq!(msg, "Regent 'main' did not terminate in time.");
                break;
            }
            other => panic!("unexpected {:?}", other),
        }
    }
    assert_eq!(waits, 49);
    assert_eq!(phase, StopPhase::Finished);

    let (phase, action) = stop_step("main", StopPhase::Waiting { left: 3 }, StopEvent::Checked { alive: false });
    assert_eq!(phase, StopPhase::Finished);
    assert_eq!(action, StopAction::CleanUp("Regent 'main' stopped successfully.".to_string()));
    assert_eq!(
        stop_step("main", StopPhase::Finished, StopEvent::NotFound),
        (StopPhase::Finished, StopAction::Nothing)
    );
}

#[test]
fn regent_start_plans() {
    assert_eq!(start_plan(false, true), StartPlan::Initialize);
    assert_eq!(start_plan(true, true), StartPlan::Join);
    assert_eq!(start_plan(true, false), StartPlan::Join);
    assert_eq!(start_plan(false, false), StartPlan::Nothing);
}

#[test]
fn croft_join_requests_and_server_nodes() {
    let croft = Croft {
        id: 3,
        name: "w".to_string(),
        addr: "10.0.0.3:7440".to_string(),
        roles: vec![CroftRole::Worker, CroftRole::Server],
        tags: vec!["gpu".to_string()],
        joined_at: String::new(),
        resources: CroftResources {
            cpu_total: 4,
            cpu_yardable: 3,
            cpu_reserved: 1,
            mem_total: 8,
            mem_yardable: 7,
            mem_reserved: 2,
        },
    };
    let req = join_request(&croft);
    assert_eq!(req.id, 3);
    assert_eq!(req.roles, vec!["worker".to_string(), "server".to_string()]);
    assert_eq!(
        req.resources,
        Some(ProtoCroftResources {
            cpu_total: 4,
            cpu_yardable: 3,
            cpu_reserved: 1,
            mem_total: 8,
            mem_yardable: 7,
            mem_reserved: 2,
        })
    );
    let back = Croft::from_join_req(req).unwrap();
    assert_eq!(back.roles, croft.roles);
    assert_eq!(back.resources, croft.resources);

    let nodes = barn_nodes_of(&vec![croft.clone()]);
    assert_eq!(nodes.len(), 1);
    assert_eq!(nodes[0].id, 3);
    assert_eq!(nodes[0].api_addr, "10.0.0.3:7440");
    assert_eq!(nodes[0].role, NodeRole::Voter);
    assert!(!nodes[0].is_leader);
}

#[test]
fn joining_tries_each_peer_in_order() {
    let (phase, action) = join_step(2, false, JoinPhase::Trying { next: 0 }, JoinEvent::Start);
    assert_eq!(action, JoinAction::Dial(0));
    let (phase, action) = join_step(2, false, phase, JoinEvent::Failed);
    assert_eq!(action, JoinAction::Dial(1));
    let (phase, action) = join_step(2, false, phase, JoinEvent::Failed);
    assert_eq!(phase, JoinPhase::Finished);
    assert_eq!(
        action,
        JoinAction::Fail("Failed to join ranch from any configured peer address".to_string())
    );
    assert_eq!(join_step(2, false, phase, JoinEvent::Start), (JoinPhase::Finished, JoinAction::Nothing));

    let (_, action) = join_step(3, false, JoinPhase::Trying { next: 1 }, JoinEvent::Joined);
    assert_eq!(action, JoinAction::CacheServers);
    let (_, action) = join_step(3, true, JoinPhase::Trying { next: 1 }, JoinEvent::Joined);
    assert_eq!(action, JoinAction::Done);
    let (_, action) = join_step(0, true, JoinPhase::Trying { next: 0 }, JoinEvent::Start);
    assert!(matches!(action, JoinAction::Fail(_)));
}

#[test]
fn clock_texts() {
    assert_eq!(rfc3339_utc(0, 0), "1970-01-01T00:00:00+00:00");
    assert_eq!(rfc3339_utc(1_000_000_000, 0), "2001-09-09T01:46:40+00:00");
    // beyond what chrono represents: the epoch
    assert_eq!(rfc3339_utc(u64::MAX, 5), "1970-01-01T00:00:00+00:00");
    let now = utc_now_rfc3339();
    assert!(now.ends_with("+00:00"));
    assert!(now.starts_with("20"));
}

#[test]
fn the_current_time_text_is_a_reading_of_the_clock() {
    let secs = || std::time::SystemTime::now().duration_since(std::time::UNIX_EPOCH).unwrap().as_secs();
    let before = secs();
    let now = utc_now_rfc3339();
    let after = secs();
    let seconds_of = |t: &str| t[..19].to_string();
    let candidates: Vec<String> = (before..=after).map(|s| seconds_of(&rfc3339_utc(s, 0))).collect();
    assert!(candidates.contains(&seconds_of(&now)), "{} is no reading between {} and {}", now, before, after);
}
