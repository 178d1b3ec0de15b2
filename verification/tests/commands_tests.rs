use oxidepm::check::{run_preflight_checks, CheckResult, CheckStatus, PortCheckResult};
use oxidepm::cli::{
    bind_address, default_startup_target, log_filter, log_level, request_of, Commands, LogsArgs,
    StartupTarget, WebArgs,
};
use oxidepm::commands::{
    begin_test, check_report, command_kind, configure_telegram, count_with_status, describe,
    empty_config, finish_test, grep_lines, hint_of, launchd_plist, outcome, parse_events,
    port_answer, port_plan, port_prompt, preflight_gate, recheck_report, refuse_start,
    remove_channel, set_events, setup_report, show_status, start_route, startup, systemd_unit,
    test_event, Body, Command, ConfigTally, Gate, Mark, Note, PortStep, StartRoute,
};
use oxidepm::appspec::Selector;
use oxidepm::ipc::{Request, Response};
use oxidepm::notify::{NotifyConfig, NotifyError, ProcessEvent};

fn texts(notes: &[Note]) -> Vec<(Mark, String)> {
    notes.iter().map(|n| (n.mark, n.text.clone())).collect()
}

fn one(command: Command, response: Response) -> (Vec<(Mark, String)>, Option<String>) {
    let r = outcome(command, Ok(response));
    assert!(matches!(r.body, Body::Nothing));
    (texts(&r.notes), r.failure)
}

fn ok(text: &str) -> (Vec<(Mark, String)>, Option<String>) {
    (vec![(Mark::Success, text.to_string())], None)
}

#[test]
fn outcome_of_counted_commands() {
    assert_eq!(one(Command::Stop, Response::Stopped { count: 2 }), ok("Stopped 2 process(es)"));
    assert_eq!(one(Command::Stop, Response::Stopped { count: 0 }), ok("No processes to stop"));
    assert_eq!(
        one(Command::Restart, Response::Restarted { count: 1 }),
        ok("Restarted 1 process(es)")
    );
    assert_eq!(
        one(Command::Restart, Response::Restarted { count: 0 }),
        ok("No processes to restart")
    );
    assert_eq!(one(Command::Delete, Response::Deleted { count: 3 }), ok("Deleted 3 process(es)"));
    assert_eq!(one(Command::Delete, Response::Deleted { count: 0 }), ok("No processes to delete"));
    assert_eq!(
        one(Command::Reload, Response::Reloaded { count: 12 }),
        ok("Reloaded 12 process(es)")
    );
    assert_eq!(
        one(Command::Flush, Response::Flushed { count: 2 }),
        ok("Flushed logs for 2 process(es)")
    );
    assert_eq!(
        one(Command::Flush, Response::Flushed { count: 0 }),
        (vec![(Mark::Error, "No matching processes found".to_string())], None)
    );
}

#[test]
fn outcome_of_single_answers() {
    assert_eq!(
        one(Command::Start, Response::Started { id: 7, name: "api".to_string() }),
        ok("Started api (id: 7)")
    );
    assert_eq!(one(Command::Ping, Response::Pong), ok("Daemon is alive"));
    assert_eq!(
        one(Command::Save, Response::Saved { count: 2, path: "/h/saved.json".to_string() }),
        ok("Saved 2 processes to /h/saved.json")
    );
    assert_eq!(
        one(Command::Resurrect, Response::Resurrected { count: 2 }),
        ok("Resurrected 2 processes")
    );
    assert_eq!(
        one(Command::Resurrect, Response::Resurrected { count: 0 }),
        (vec![(Mark::Info, "No saved processes to resurrect".to_string())], None)
    );
    assert_eq!(
        one(Command::Kill, Response::Success { message: "shutting down".to_string() }),
        ok("shutting down")
    );
}

#[test]
fn outcome_with_a_body() {
    let r = outcome(Command::Status, Ok(Response::Status { apps: Vec::new() }));
    assert!(r.notes.is_empty() && r.failure.is_none());
    assert!(matches!(r.body, Body::Table(ref apps) if apps.is_empty()));
    let r = outcome(Command::Logs, Ok(Response::LogLines { lines: vec!["a".to_string()] }));
    assert!(r.notes.is_empty() && r.failure.is_none());
    assert!(matches!(r.body, Body::Logs(ref l) if l == &vec!["a".to_string()]));
    let r = outcome(Command::Logs, Ok(Response::Status { apps: Vec::new() }));
    assert!(matches!(r.body, Body::Nothing));
    assert_eq!(r.failure, Some("Unexpected response".to_string()));
}

#[test]
fn outcome_of_errors() {
    let refused = (
        vec![(Mark::Error, "App not found: x".to_string())],
        Some("App not found: x".to_string()),
    );
    for command in [Command::Stop, Command::Show, Command::Kill, Command::Ping, Command::Describe] {
        assert_eq!(
            one(command, Response::Error { message: "App not found: x".to_string() }),
            refused
        );
    }
    let unexpected = (
        vec![(Mark::Error, "Unexpected response from daemon".to_string())],
        Some("Unexpected response".to_string()),
    );
    assert_eq!(one(Command::Stop, Response::Pong), unexpected);
    assert_eq!(one(Command::Stop, Response::Restarted { count: 1 }), unexpected);
    assert_eq!(one(Command::Ping, Response::Stopped { count: 1 }), unexpected);
    assert_eq!(one(Command::Kill, Response::Pong), ok("Daemon killed"));
}

#[test]
fn outcome_without_an_answer() {
    let r = outcome(Command::Stop, Err("Daemon is not running".to_string()));
    assert!(r.notes.is_empty());
    assert_eq!(r.failure, Some("Daemon is not running".to_string()));
    let r = outcome(Command::Ping, Err("refused".to_string()));
    assert_eq!(texts(&r.notes), vec![(Mark::Error, "Daemon is not running: refused".to_string())]);
    assert_eq!(r.failure, Some("Daemon not running".to_string()));
    let r = outcome(Command::Kill, Err("Connection closed".to_string()));
    assert_eq!(texts(&r.notes), vec![(Mark::Success, "Daemon killed".to_string())]);
    assert_eq!(r.failure, None);
    let r = outcome(Command::Kill, Err("Error: DaemonNotRunning".to_string()));
    assert_eq!(texts(&r.notes), vec![(Mark::Success, "Daemon is not running".to_string())]);
}

fn plain(lines: &[&str]) -> Vec<(Mark, String)> {
    lines.iter().map(|l| (Mark::Plain, l.to_string())).collect()
}

#[test]
fn description_of_an_application() {
    let env = vec![
        ("PORT".to_string(), "3000".to_string()),
        ("A.B".to_string(), "2".to_string()),
        ("A".to_string(), "1".to_string()),
    ];
    let args = vec!["server.js".to_string(), "--fast".to_string()];
    let notes = describe("api", "node", &args, "/srv", &env, "node");
    assert_eq!(
        texts(&notes),
        plain(&[
            "Process: api",
            "Mode: node",
            "Working Directory: /srv",
            "",
            "Command: node",
            "Arguments: server.js --fast",
            "",
            "Full Command:",
            "  node server.js --fast",
            "",
            "Environment Variables:",
            "  A=1",
            "  A.B=2",
            "  PORT=3000",
        ])
    );
    let bare = describe("api", "./run", &Vec::new(), "/", &Vec::new(), "cmd");
    assert_eq!(
        texts(&bare),
        plain(&[
            "Process: api",
            "Mode: cmd",
            "Working Directory: /",
            "",
            "Command: ./run",
            "",
            "Full Command:",
            "  ./run",
        ])
    );
    let r = outcome(
        Command::Describe,
        Ok(Response::Described {
            name: "api".to_string(),
            command: "./run".to_string(),
            args: Vec::new(),
            cwd: "/".to_string(),
            env: Vec::new(),
            mode: "cmd".to_string(),
        }),
    );
    assert_eq!(texts(&r.notes), texts(&bare));
    assert_eq!(r.failure, None);
}

#[test]
fn grep_filters_lines() {
    let lines =
        vec!["GET /a 200".to_string(), "POST /b 500".to_string(), "GET /c 404".to_string()];
    assert_eq!(grep_lines(lines.clone(), None), Ok(lines.clone()));
    assert_eq!(
        grep_lines(lines.clone(), Some("^GET")),
        Ok(vec!["GET /a 200".to_string(), "GET /c 404".to_string()])
    );
    assert_eq!(grep_lines(lines.clone(), Some(r"\s[45]\d\d$")).unwrap().len(), 2);
    assert_eq!(grep_lines(lines.clone(), Some("nothing")), Ok(Vec::new()));
    assert_eq!(grep_lines(lines.clone(), Some("")), Ok(lines.clone()));
    let refused = grep_lines(lines, Some("(")).unwrap_err();
    assert!(refused.starts_with("Invalid regex pattern: "), "{}", refused);
    assert!(refused.len() > "Invalid regex pattern: ".len());
    assert!(grep_lines(Vec::new(), Some("[")).is_err());
}

#[test]
fn events_from_a_list() {
    assert_eq!(parse_events("start, crash ,,stop,"), vec!["start", "crash", "stop"]);
    assert!(parse_events("").is_empty());
    assert!(parse_events(" , ").is_empty());
    assert_eq!(parse_events("a b"), vec!["a b"]);
}

#[test]
fn notify_settings_plans() {
    let mut config = NotifyConfig::default();
    let plan = configure_telegram(&mut config, "t".to_string(), "c".to_string(), "/h/notify.toml");
    assert!(plan.first.is_empty() && plan.save && plan.failure.is_none());
    assert_eq!(
        texts(&plan.after),
        vec![
            (Mark::Success, "Telegram notifications configured successfully".to_string()),
            (Mark::Info, "Config saved to: /h/notify.toml".to_string()),
        ]
    );
    assert_eq!(config.telegram.as_ref().unwrap().bot_token, "t");

    let plan = remove_channel(&mut config, "slack");
    assert_eq!(
        texts(&plan.first),
        vec![(Mark::Error, "Unknown notification channel: slack".to_string())]
    );
    assert!(!plan.save && plan.after.is_empty());
    assert_eq!(plan.failure, Some("Unknown channel: slack".to_string()));
    assert!(config.telegram.is_some());

    let plan = remove_channel(&mut config, "Telegram");
    assert!(plan.first.is_empty() && plan.save && plan.failure.is_none());
    assert_eq!(
        texts(&plan.after),
        vec![(Mark::Success, "Telegram notifications removed".to_string())]
    );
    assert!(config.telegram.is_none());
}

#[test]
fn notify_event_filter_plans() {
    let mut config = NotifyConfig::default();
    let plan = set_events(&mut config, "start, crash");
    assert!(plan.first.is_empty() && plan.save && plan.failure.is_none());
    assert_eq!(texts(&plan.after), vec![(Mark::Success, "Events set to: start, crash".to_string())]);
    assert_eq!(config.events, vec!["start", "crash"]);

    let plan = set_events(&mut config, "");
    assert_eq!(
        texts(&plan.first),
        vec![(Mark::Info, "Clearing event filter (will notify on all events)".to_string())]
    );
    assert!(plan.save);
    assert_eq!(
        texts(&plan.after),
        vec![(Mark::Success, "Event filter cleared - will notify on all events".to_string())]
    );

    let plan = set_events(&mut config, "start,boom,bang");
    let text = "Configuration error: Invalid event type 'boom'. Valid types: [\"start\", \"stop\", \"crash\", \"restart\", \"memory_limit\", \"health_check\"]";
    assert_eq!(texts(&plan.first), vec![(Mark::Error, text.to_string())]);
    assert!(!plan.save && plan.after.is_empty());
    assert_eq!(plan.failure, Some(text.to_string()));
}

#[test]
fn notify_settings_shown() {
    let mut config = NotifyConfig::default();
    assert_eq!(
        texts(&show_status(&config, "/h/notify.toml")),
        plain(&[
            "",
            "Notification Configuration",
            "========================================",
            "Telegram: not configured",
            "",
            "Events: all (no filter)",
            "",
            "Config file: /h/notify.toml",
        ])
    );
    config.set_telegram("123456789:ABCDEFGH".to_string(), "42".to_string());
    config.set_events(vec!["start".to_string(), "stop".to_string()]);
    assert_eq!(
        texts(&show_status(&config, "p")),
        plain(&[
            "",
            "Notification Configuration",
            "========================================",
            "Telegram: configured",
            "  Chat ID: 42",
            "  Bot Token: 12345678...EFGH",
            "",
            "Events: start, stop",
            "",
            "Config file: p",
        ])
    );
    assert_eq!(hint_of(""), "...");
    assert_eq!(hint_of("abc"), "abc...abc");
    assert_eq!(hint_of("abcd"), "abcd...abcd");
    assert_eq!(hint_of("abcdefghi"), "abcdefgh...fghi");
}

#[test]
fn notify_test_run() {
    let mut config = NotifyConfig::default();
    let plan = begin_test(&config);
    assert_eq!(
        texts(&plan.first),
        vec![
            (Mark::Error, "No notification channels configured".to_string()),
            (
                Mark::Info,
                "Run 'oxidepm notify telegram --token <TOKEN> --chat <CHAT_ID>' to configure"
                    .to_string()
            ),
        ]
    );
    assert_eq!(plan.failure, Some("Not configured".to_string()));
    config.set_telegram("t".to_string(), "c".to_string());
    let plan = begin_test(&config);
    assert_eq!(texts(&plan.first), vec![(Mark::Info, "Sending test notification...".to_string())]);
    assert!(plan.failure.is_none() && !plan.save);
    assert!(matches!(
        test_event(),
        ProcessEvent::Started { ref name, id: 0 } if name == "test-process"
    ));

    let (note, failure) = finish_test(&Ok(()));
    assert_eq!((note.mark, note.text.as_str()), (Mark::Success, "Test notification sent successfully!"));
    assert_eq!(failure, None);
    let (note, failure) = finish_test(&Err(NotifyError::TelegramError("401".to_string())));
    assert_eq!(
        (note.mark, note.text.as_str()),
        (Mark::Error, "Failed to send test notification: Telegram API error: 401")
    );
    assert_eq!(failure, Some("Test notification failed: Telegram API error: 401".to_string()));
}

fn result(status: CheckStatus, message: &str, hint: Option<&str>) -> CheckResult {
    CheckResult { status, message: message.to_string(), fix_hint: hint.map(String::from) }
}

#[test]
fn report_of_checks() {
    let results = vec![
        result(CheckStatus::Okay, "package.json found", None),
        result(CheckStatus::Warn, "node_modules/ missing", Some("Use --fix")),
        result(CheckStatus::Info, ".env.local found", Some("never shown")),
        result(CheckStatus::Error, "broken", None),
        result(CheckStatus::Fixed, "mended", None),
    ];
    assert_eq!(count_with_status(&results, CheckStatus::Warn), 1);
    assert_eq!(count_with_status(&results, CheckStatus::Fixed), 1);
    assert_eq!(
        texts(&check_report(&results, false)),
        plain(&[
            "[OK] package.json found",
            "[WARN] node_modules/ missing",
            "       Use --fix",
            "[INFO] .env.local found",
            "[ERROR] broken",
            "[FIX] mended",
            "",
            "Issues: 1 error(s), 1 warning(s)",
            "Run with --fix to auto-resolve",
        ])
    );
    let warned = vec![result(CheckStatus::Warn, "w", None)];
    assert_eq!(texts(&check_report(&warned, true)), plain(&["[WARN] w", "", "Issues: 1 warning(s)"]));
    assert_eq!(
        texts(&check_report(&warned, false)),
        plain(&["[WARN] w", "", "Issues: 1 warning(s)", "Run with --fix to auto-resolve"])
    );
    assert_eq!(texts(&check_report(&Vec::new(), false)), plain(&["", "All checks passed!"]));
}

#[test]
fn start_routes_and_gates() {
    assert_eq!(start_route("apps.toml", true), StartRoute::ConfigFile);
    assert_eq!(start_route("conf/apps.YAML", true), StartRoute::ConfigFile);
    assert_eq!(start_route("apps.json", false), StartRoute::Single);
    assert_eq!(start_route("server.js", true), StartRoute::Single);
    assert_eq!(start_route("project", true), StartRoute::Single);

    let clean = run_preflight_checks(vec![result(CheckStatus::Okay, "fine", None)]);
    assert_eq!(preflight_gate(&clean, false), Gate::Proceed);
    assert_eq!(preflight_gate(&clean, true), Gate::Proceed);
    let warned = run_preflight_checks(vec![result(CheckStatus::Warn, "w", None)]);
    assert_eq!(preflight_gate(&warned, false), Gate::Refuse);
    assert_eq!(preflight_gate(&warned, true), Gate::Recheck);
}

#[test]
fn start_refused_or_set_up() {
    let summary = run_preflight_checks(vec![
        result(CheckStatus::Okay, "package.json found", None),
        result(CheckStatus::Warn, "node_modules/ missing", Some("hint")),
        result(CheckStatus::Error, "broken", None),
        result(CheckStatus::Fixed, "Creating .env", None),
    ]);
    let (notes, failure) = refuse_start(&summary, "./app");
    assert_eq!(
        texts(&notes),
        vec![
            (Mark::Error, "Cannot start - preflight checks failed:".to_string()),
            (Mark::Plain, "".to_string()),
            (Mark::Plain, "  [WARN] node_modules/ missing".to_string()),
            (Mark::Plain, "  [ERROR] broken".to_string()),
            (Mark::Plain, "".to_string()),
            (Mark::Plain, "Fix with: oxidepm start ./app --setup".to_string()),
            (Mark::Plain, "Or run:   oxidepm check ./app --fix".to_string()),
        ]
    );
    assert_eq!(failure, "Preflight checks failed");
    assert_eq!(
        texts(&setup_report(&summary)),
        vec![
            (Mark::Info, "Setting up project...".to_string()),
            (Mark::Plain, "  [FIX] Creating .env".to_string()),
        ]
    );
    let (notes, failure) = recheck_report(&summary);
    assert_eq!(
        texts(&notes),
        vec![
            (Mark::Plain, "".to_string()),
            (Mark::Error, "Setup incomplete - some issues could not be fixed:".to_string()),
            (Mark::Plain, "  [ERROR] broken".to_string()),
        ]
    );
    assert_eq!(failure, Some("Setup failed".to_string()));
    let fine = run_preflight_checks(vec![result(CheckStatus::Warn, "no lockfile", None)]);
    let (notes, failure) = recheck_report(&fine);
    assert_eq!(
        texts(&notes),
        vec![(Mark::Success, "Setup complete!".to_string()), (Mark::Plain, "".to_string())]
    );
    assert_eq!(failure, None);
}

#[test]
fn start_and_its_port() {
    let none: Vec<(String, String)> = Vec::new();
    let taken = Some(PortCheckResult { desired_port: 3000, is_in_use: true, available_port: Some(3002) });
    let full = Some(PortCheckResult { desired_port: 65535, is_in_use: true, available_port: None });
    let free = Some(PortCheckResult { desired_port: 3000, is_in_use: false, available_port: None });

    let plan = port_plan(&none, &None, false, "app");
    assert!(plan.step == PortStep::Proceed && plan.notes.is_empty() && plan.failure.is_none());
    let plan = port_plan(&none, &free, true, "app");
    assert!(plan.step == PortStep::Proceed && plan.notes.is_empty() && plan.failure.is_none());
    let user = vec![("PORT".to_string(), "1".to_string())];
    let plan = port_plan(&user, &taken, false, "app");
    assert!(plan.step == PortStep::Proceed && plan.notes.is_empty() && plan.failure.is_none());

    let plan = port_plan(&none, &taken, true, "app");
    assert_eq!(plan.step, PortStep::Ask { port: 3002 });
    assert_eq!(texts(&plan.notes), plain(&["[WARN] Port 3000 is already in use"]));
    assert_eq!(plan.failure, None);
    assert_eq!(port_prompt(3002), "Would you like to run on port 3002 instead?");

    let plan = port_plan(&none, &taken, false, "./app");
    assert_eq!(plan.step, PortStep::Refuse);
    assert_eq!(
        texts(&plan.notes),
        plain(&[
            "[WARN] Port 3000 is already in use",
            "",
            "To use port 3002 instead, run:",
            "  oxidepm start ./app --env PORT=3002",
        ])
    );
    assert_eq!(
        plan.failure,
        Some("Port 3000 is in use. Use --env PORT=3002 to use an alternative port".to_string())
    );

    let plan = port_plan(&none, &full, true, "app");
    assert_eq!(plan.step, PortStep::Refuse);
    assert_eq!(texts(&plan.notes), plain(&["[WARN] Port 65535 is already in use"]));
    assert_eq!(
        plan.failure,
        Some("Port 65535 is in use and no available ports found".to_string())
    );

    let mut envs = vec![("A".to_string(), "1".to_string())];
    let note = port_answer(&mut envs, 3000, 3002, true).unwrap();
    assert_eq!((note.mark, note.text.as_str()), (Mark::Plain, "[OK] Using port 3002"));
    assert_eq!(envs, vec![("A".to_string(), "1".to_string()), ("PORT".to_string(), "3002".to_string())]);
    let refused = port_answer(&mut envs, 3000, 3002, false).unwrap_err();
    assert_eq!(
        refused,
        "Port 3000 is in use. Free the port or specify a different one with --env PORT=<port>"
    );
    assert_eq!(envs.len(), 2);
}

#[test]
fn start_of_a_config_file() {
    let mut tally = ConfigTally::new();
    let note = tally.record("a", &Response::Started { id: 1, name: "a".to_string() });
    assert_eq!((note.mark, note.text.as_str()), (Mark::Success, "Started a (id: 1)"));
    assert_eq!(tally.summary(), "\nStarted 1 apps");
    let note = tally.record("b", &Response::Error { message: "taken".to_string() });
    assert_eq!((note.mark, note.text.as_str()), (Mark::Error, "Failed to start b: taken"));
    let note = tally.record("c", &Response::Pong);
    assert_eq!((note.mark, note.text.as_str()), (Mark::Error, "Unexpected response for c"));
    assert_eq!((tally.started, tally.failed), (1, 2));
    assert_eq!(tally.summary(), "\nStarted: 1, Failed: 2");
    let (note, failure) = empty_config();
    assert_eq!((note.mark, note.text.as_str()), (Mark::Error, "No apps defined in config file"));
    assert_eq!(failure, "No apps in config");
}

#[test]
fn startup_files() {
    let unit = systemd_unit("ann", "/usr/bin/oxidepm", "/home/ann");
    assert_eq!(
        unit,
        "[Unit]\nDescription=OxidePM Process Manager\nAfter=network.target\n\n[Service]\nType=simple\nUser=ann\nExecStart=/usr/bin/oxidepm daemon\nRestart=on-failure\nRestartSec=10\nEnvironment=HOME=/home/ann\n\n[Install]\nWantedBy=multi-user.target\n"
    );
    let plist = launchd_plist("/bin/o", "/Users/ann");
    assert!(plist.starts_with("<?xml version=\"1.0\" encoding=\"UTF-8\"?>\n<!DOCTYPE plist"));
    assert!(plist.contains("        <string>/bin/o</string>\n        <string>daemon</string>\n"));
    assert!(plist.contains("    <string>/Users/ann/.oxidepm/daemon.err.log</string>\n"));
    assert!(plist.ends_with("</dict>\n</plist>\n"));

    let notes = startup(StartupTarget::Systemd, "ann", "/usr/bin/oxidepm", "/home/ann");
    assert_eq!(notes.len(), 9);
    assert_eq!((notes[0].mark, notes[0].text.as_str()), (Mark::Info, "Systemd unit file:"));
    assert_eq!(notes[2].text, unit);
    assert_eq!((notes[4].mark, notes[4].text.as_str()), (Mark::Success, "To install:"));
    assert_eq!(notes[8].text, "  4. sudo systemctl start oxidepmd");
    let notes = startup(StartupTarget::Launchd, "ann", "/bin/o", "/Users/ann");
    assert_eq!(notes.len(), 7);
    assert_eq!(notes[2].text, plist);
    assert_eq!(
        notes[6].text,
        "  2. launchctl load ~/Library/LaunchAgents/com.oxidepm.daemon.plist"
    );
    assert_eq!(default_startup_target(true), StartupTarget::Launchd);
    assert_eq!(default_startup_target(false), StartupTarget::Systemd);
}

#[test]
fn command_line_dispatch() {
    assert_eq!(log_level(0), "warn");
    assert_eq!(log_level(1), "info");
    assert_eq!(log_level(2), "debug");
    assert_eq!(log_level(3), "trace");
    assert_eq!(log_level(255), "trace");
    assert_eq!(log_filter(2), "oxidepm=debug");
    assert_eq!(bind_address(9615), "0.0.0.0:9615");

    let stop = Commands::Stop { selector: "@web".to_string() };
    assert_eq!(command_kind(&stop), Some(Command::Stop));
    match request_of(&stop) {
        Some(Request::Stop { selector }) => assert_eq!(selector, Selector::ByTag("web".to_string())),
        other => panic!("{:?}", other),
    }
    match request_of(&Commands::Reload { selector: "3".to_string() }) {
        Some(Request::Reload { selector }) => assert_eq!(selector, Selector::ById(3)),
        other => panic!("{:?}", other),
    }
    match request_of(&Commands::Describe { target: "api".to_string() }) {
        Some(Request::Describe { selector }) => {
            assert_eq!(selector, Selector::ByName("api".to_string()))
        }
        other => panic!("{:?}", other),
    }
    let logs = Commands::Logs(LogsArgs {
        selector: "all".to_string(),
        follow: true,
        lines: 15,
        out: true,
        err: false,
        grep: Some("x".to_string()),
    });
    assert_eq!(command_kind(&logs), Some(Command::Logs));
    match request_of(&logs) {
        Some(Request::Logs { selector, lines, follow, stdout, stderr }) => {
            assert_eq!(selector, Selector::All);
            assert_eq!((lines, follow, stdout, stderr), (15, true, true, false));
        }
        other => panic!("{:?}", other),
    }
    assert!(matches!(request_of(&Commands::Status), Some(Request::Status)));
    assert!(matches!(request_of(&Commands::Kill), Some(Request::Kill)));
    assert!(request_of(&Commands::Monit).is_none());
    assert_eq!(command_kind(&Commands::Monit), None);
    let web = Commands::Web(WebArgs { port: 1, api_key: None });
    assert!(request_of(&web).is_none());
    assert_eq!(command_kind(&web), None);
    assert_eq!(command_kind(&Commands::Ping), Some(Command::Ping));
}
