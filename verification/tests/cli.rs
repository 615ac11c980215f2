use swini::cli::croft::Command as CroftCommand;
use swini::cli::daemon::Command as DaemonCommand;
use swini::cli::grammar::CliError;
use swini::cli::regent::Command as RegentCommand;
use swini::cli::{api_url_after_lookup, api_url_plan, Cli, Command, UrlPlan};

fn args(words: &[&str]) -> Vec<String> {
    words.iter().map(|w| w.to_string()).collect()
}

#[test]
fn cli_parse_croft_status_command() {
    let parsed = CroftCommand::try_parse_from(&args(&["swini", "status", "worker-01"])).unwrap();
    assert_eq!(
        parsed,
        CroftCommand::Status {
            name: "worker-01".to_string(),
            live: false,
        }
    );

    let parsed_live =
        CroftCommand::try_parse_from(&args(&["swini", "status", "worker-01", "--live"])).unwrap();
    assert_eq!(
        parsed_live,
        CroftCommand::Status {
            name: "worker-01".to_string(),
            live: true,
        }
    );
}

#[test]
fn cli_parse_top_level_regent_command() {
    let cli = Cli::try_parse_from(&args(&["swini", "regent", "start"])).unwrap();
    assert_eq!(
        cli.command,
        Command::Regent {
            command: RegentCommand::Start {
                config: None,
                detached: false,
            }
        }
    );

    let cli = Cli::try_parse_from(&args(&["swini", "regent", "start", "-c", "custom.yml", "-d"])).unwrap();
    assert_eq!(
        cli.command,
        Command::Regent {
            command: RegentCommand::Start {
                config: Some("custom.yml".to_string()),
                detached: true,
            }
        }
    );
}

#[test]
fn cli_parse_top_level_status_and_croft_commands() {
    let cli = Cli::try_parse_from(&args(&["swini", "status"])).unwrap();
    assert_eq!(cli.command, Command::Status);

    let cli = Cli::try_parse_from(&args(&["swini", "croft", "status", "node-1", "--live"])).unwrap();
    assert_eq!(
        cli.command,
        Command::Croft {
            command: CroftCommand::Status {
                name: "node-1".to_string(),
                live: true,
            }
        }
    );
}

#[test]
fn cli_parse_start_command() {
    let cli = RegentCommand::try_parse_from(&args(&["swini", "start"])).unwrap();
    assert_eq!(
        cli,
        RegentCommand::Start {
            config: None,
            detached: false,
        }
    );

    let cli = RegentCommand::try_parse_from(&args(&["swini", "start", "-c", "custom.yml", "-d"])).unwrap();
    assert_eq!(
        cli,
        RegentCommand::Start {
            config: Some("custom.yml".to_string()),
            detached: true,
        }
    );
}

#[test]
fn cli_parse_stop_and_status() {
    let stop_cli = RegentCommand::try_parse_from(&args(&["swini", "stop", "worker-1"])).unwrap();
    assert_eq!(
        stop_cli,
        RegentCommand::Stop {
            name: Some("worker-1".to_string()),
        }
    );

    let status_cli = RegentCommand::try_parse_from(&args(&["swini", "status"])).unwrap();
    assert_eq!(status_cli, RegentCommand::Status { name: None });
}

#[test]
fn resolve_api_url_resolution() {
    // Default URL (no env, no regent name)
    assert_eq!(api_url_plan(None, None), UrlPlan::Ready("http://127.0.0.1:7440".to_string()));

    // SWINI_ADDR override without scheme
    assert_eq!(
        api_url_plan(None, Some("127.0.0.1:8888")),
        UrlPlan::Ready("http://127.0.0.1:8888".to_string())
    );

    // SWINI_ADDR with http scheme
    assert_eq!(
        api_url_plan(None, Some("http://127.0.0.1:9999")),
        UrlPlan::Ready("http://127.0.0.1:9999".to_string())
    );

    // SWINI_ADDR with https scheme
    assert_eq!(
        api_url_plan(None, Some("https://example.com:9999")),
        UrlPlan::Ready("https://example.com:9999".to_string())
    );

    // local:// URL of a regent with no state
    let plan = api_url_plan(None, Some("local://nonexistent-regent-404"));
    assert_eq!(
        plan,
        UrlPlan::Lookup {
            name: "nonexistent-regent-404".to_string(),
            required: true
        }
    );
    assert!(api_url_after_lookup("nonexistent-regent-404", true, None).is_err());

    // a named regent whose state is found
    let plan = api_url_plan(Some("test-regent"), None);
    assert_eq!(
        plan,
        UrlPlan::Lookup {
            name: "test-regent".to_string(),
            required: false
        }
    );
    let resolved = api_url_after_lookup("test-regent", false, Some("127.0.0.1:7555".to_string()));
    assert_eq!(resolved, Ok("http://127.0.0.1:7555".to_string()));
}

#[test]
fn api_url_lookup_outcomes() {
    assert_eq!(
        api_url_after_lookup("ghost", true, None),
        Err("Local regent 'ghost' is not running or has no state".to_string())
    );
    assert_eq!(
        api_url_after_lookup("ghost", false, None),
        Ok("http://127.0.0.1:7440".to_string())
    );
    // a blank setting falls through to the named regent
    assert_eq!(
        api_url_plan(Some("main"), Some("   ")),
        UrlPlan::Lookup {
            name: "main".to_string(),
            required: false
        }
    );
    // surrounding whitespace of the setting is ignored
    assert_eq!(
        api_url_plan(None, Some("  10.0.0.1:7440 ")),
        UrlPlan::Ready("http://10.0.0.1:7440".to_string())
    );
    assert_eq!(
        api_url_plan(Some("main"), Some("local://edge")),
        UrlPlan::Lookup {
            name: "edge".to_string(),
            required: true
        }
    );
}

#[test]
fn cli_options_in_every_spelling() {
    let expected = Command::Regent {
        command: RegentCommand::Start {
            config: Some("a.yml".to_string()),
            detached: true,
        },
    };
    for line in [
        vec!["swini", "regent", "start", "--config", "a.yml", "--detached"],
        vec!["swini", "regent", "start", "--config=a.yml", "-d"],
        vec!["swini", "regent", "start", "-ca.yml", "-d"],
        vec!["swini", "regent", "start", "-c=a.yml", "-d"],
        vec!["swini", "regent", "start", "-dc", "a.yml"],
        vec!["swini", "regent", "start", "-d", "-c", "a.yml"],
    ] {
        assert_eq!(Cli::try_parse_from(&args(&line)).unwrap().command, expected, "{:?}", line);
    }
    let live = Cli::try_parse_from(&args(&["swini", "croft", "status", "-l", "n1"])).unwrap();
    assert_eq!(
        live.command,
        Command::Croft {
            command: CroftCommand::Status {
                name: "n1".to_string(),
                live: true
            }
        }
    );
    let escaped = Cli::try_parse_from(&args(&["swini", "regent", "stop", "--", "-odd-name"])).unwrap();
    assert_eq!(
        escaped.command,
        Command::Regent {
            command: RegentCommand::Stop {
                name: Some("-odd-name".to_string())
            }
        }
    );
}

#[test]
fn cli_refusals() {
    let err = |line: &[&str]| Cli::try_parse_from(&args(line)).unwrap_err();
    assert_eq!(err(&["swini"]), CliError::MissingCommand);
    assert_eq!(err(&["swini", "--help"]), CliError::Help);
    assert_eq!(err(&["swini", "help"]), CliError::Help);
    assert_eq!(err(&["swini", "-V"]), CliError::Version);
    assert_eq!(err(&["swini", "--version"]), CliError::Version);
    assert_eq!(err(&["swini", "frobnicate"]), CliError::UnknownCommand);
    assert_eq!(err(&["swini", "--frob"]), CliError::UnexpectedArgument);
    assert_eq!(err(&["swini", "croft"]), CliError::MissingCommand);
    assert_eq!(err(&["swini", "croft", "status"]), CliError::MissingName);
    assert_eq!(err(&["swini", "croft", "status", "a", "b"]), CliError::UnexpectedArgument);
    assert_eq!(err(&["swini", "croft", "status", "a", "-l", "--live"]), CliError::Repeated);
    assert_eq!(err(&["swini", "regent", "start", "-c"]), CliError::MissingValue);
    assert_eq!(err(&["swini", "regent", "start", "--config=", "-d"]), CliError::MissingValue);
    assert_eq!(err(&["swini", "regent", "start", "-c", "-d"]), CliError::MissingValue);
    assert_eq!(err(&["swini", "regent", "start", "-c", "a", "-c", "b"]), CliError::Repeated);
    assert_eq!(err(&["swini", "regent", "start", "extra"]), CliError::UnexpectedArgument);
    assert_eq!(err(&["swini", "regent", "start", "-x"]), CliError::UnexpectedArgument);
    assert_eq!(err(&["swini", "regent", "stop", "--help", "-x"]), CliError::Help);
    assert_eq!(err(&["swini", "status", "now"]), CliError::UnexpectedArgument);
    assert_eq!(err(&["swini", "regent", "status", "-h"]), CliError::Help);
}

#[test]
fn daemon_start_command() {
    assert_eq!(
        DaemonCommand::try_parse_from(&args(&["swini", "start"])),
        Ok(DaemonCommand::Start { detached: false })
    );
    assert_eq!(
        DaemonCommand::try_parse_from(&args(&["swini", "start", "--detached"])),
        Ok(DaemonCommand::Start { detached: true })
    );
    assert_eq!(
        DaemonCommand::try_parse_from(&args(&["swini", "stop"])),
        Err(CliError::UnknownCommand)
    );
}

#[test]
fn only_a_detached_regent_start_leaves_the_terminal() {
    let detached = Cli::try_parse_from(&args(&["swini", "regent", "start", "-d"])).unwrap();
    assert!(detached.starts_detached());
    let foreground = Cli::try_parse_from(&args(&["swini", "regent", "start"])).unwrap();
    assert!(!foreground.starts_detached());
    let status = Cli::try_parse_from(&args(&["swini", "status"])).unwrap();
    assert!(!status.starts_detached());
}
