use swini::cli::table::{cluster_table_lines, join_texts};
use swini::croft::config::addr_override;
use swini::croft::proto::{ProtoCroft, ProtoCroftResources};

fn line(cells: [&str; 7]) -> String {
    format!(
        "{:<10} {:<15} {:<12} {:<22} {:<24} {:<24} {:<8}",
        cells[0], cells[1], cells[2], cells[3], cells[4], cells[5], cells[6]
    )
}

#[test]
fn render_cluster_table_empty_and_populated() {
    // Empty list check
    assert_eq!(cluster_table_lines(&vec![], &vec![], &vec![]), vec!["No Crofts registered in the Ranch.".to_string()]);

    // Populated list check
    let crofts = vec![ProtoCroft {
        id: 100,
        name: "node-100".to_string(),
        addr: "127.0.0.1:7440".to_string(),
        roles: vec!["server".to_string()],
        tags: vec!["zone-a".to_string()],
        joined_at: "2026-09-08T15:00:00Z".to_string(),
        is_primary: false,
        resources: Some(ProtoCroftResources {
            cpu_total: 16_000_000_000,
            cpu_yardable: 14_400_000_000,
            cpu_reserved: 0,
            mem_total: 16_000_000_000,
            mem_yardable: 14_400_000_000,
            mem_reserved: 0,
        }),
    }];
    let cpu = vec!["0 Hz / 14.40 GHz / 16.00 GHz".to_string()];
    let mem = vec!["0 B / 13.41 GiB / 14.90 GiB".to_string()];
    let lines = cluster_table_lines(&crofts, &cpu, &mem);
    assert_eq!(lines.len(), 3);
    assert_eq!(lines[0], line(["ID", "NAME", "ROLES", "ADDR", "CPU (RES/YARD/TOT)", "MEM (RES/YARD/TOT)", "STATUS"]));
    assert_eq!(lines[1], "-".repeat(117));
    assert_eq!(
        lines[2],
        line(["100", "node-100", "server", "127.0.0.1:7440", &cpu[0], &mem[0], "Active"])
    );
}

#[test]
fn table_cells_wider_than_their_column_are_kept_whole() {
    let croft = ProtoCroft {
        id: 12345678901,
        name: "a-rather-long-croft-name".to_string(),
        addr: "10.0.0.1:1".to_string(),
        roles: vec!["server".to_string(), "worker".to_string()],
        tags: vec![],
        joined_at: String::new(),
        is_primary: false,
        resources: None,
    };
    let lines = cluster_table_lines(&vec![croft], &vec!["c".to_string()], &vec!["m".to_string()]);
    assert_eq!(
        lines[2],
        line(["12345678901", "a-rather-long-croft-name", "server,worker", "10.0.0.1:1", "c", "m", "Active"])
    );
    assert!(lines[2].starts_with("12345678901 a-rather-long-croft-name server,worker "));
}

#[test]
fn texts_join_with_a_separator() {
    let parts = vec!["a".to_string(), "bc".to_string(), "".to_string(), "d".to_string()];
    assert_eq!(join_texts(&parts, ","), "a,bc,,d");
    assert_eq!(join_texts(&vec![], ", "), "");
    assert_eq!(join_texts(&vec!["x".to_string()], ", "), "x");
}

#[test]
fn swini_addr_setting_offers_its_trimmed_text() {
    assert_eq!(addr_override(Some("127.0.0.1:9999")), Some("127.0.0.1:9999".to_string()));
    assert_eq!(addr_override(Some("  10.0.0.2:7440\n")), Some("10.0.0.2:7440".to_string()));
    assert_eq!(addr_override(Some(" \t ")), None);
    assert_eq!(addr_override(Some("")), None);
    assert_eq!(addr_override(None), None);
}
