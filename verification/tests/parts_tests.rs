use oxidepm::appspec::AppSpec;
use oxidepm::check::{
    check_cargo_project, check_config_files, check_port_conflict, detect_project_type,
    find_available_port, run_preflight_checks, CargoFacts, CheckResult, CheckStatus,
    PortCheckResult, ProjectType,
};
use oxidepm::cli::{parse_duration, parse_env};
use oxidepm::health::{
    HealthCheckResult, HealthChecker, HealthMonitor, HttpOutcome, ProbeKind, ScriptOutcome,
};
use oxidepm::hooks::{hook_result, log_hook_output, HookCall, HookOutcome, HOOK_TIMEOUT_SECS};
use oxidepm::output::{format_status, StatusRow};
use oxidepm::runtime::{
    get_runner, AnyRunner, CargoRunner, CmdRunner, NodeRunner, NpmRunner, PrepareResult,
    ProgramLookup, RustRunner,
};
use oxidepm::text::{decimal_string, join_texts, lower_string, split_words, trimmed};
use oxidepm::types::{AppMode, AppStatus, HealthCheck, HookEvent, Hooks, RunState};
use oxidepm::web::{ApiResponse, StartRequest};

#[test]
fn test_parse_duration_hours() {
    assert_eq!(parse_duration("1h").unwrap(), 3600);
    assert_eq!(parse_duration("24h").unwrap(), 86400);
    assert_eq!(parse_duration("2h").unwrap(), 7200);
}

#[test]
fn test_parse_duration_minutes() {
    assert_eq!(parse_duration("30m").unwrap(), 1800);
    assert_eq!(parse_duration("1m").unwrap(), 60);
    assert_eq!(parse_duration("60m").unwrap(), 3600);
}

#[test]
fn test_parse_duration_seconds() {
    assert_eq!(parse_duration("30s").unwrap(), 30);
    assert_eq!(parse_duration("120s").unwrap(), 120);
}

#[test]
fn test_parse_duration_days() {
    assert_eq!(parse_duration("1d").unwrap(), 86400);
    assert_eq!(parse_duration("7d").unwrap(), 604800);
}

#[test]
fn test_parse_duration_combined() {
    assert_eq!(parse_duration("1h30m").unwrap(), 5400);
    assert_eq!(parse_duration("2h30m30s").unwrap(), 9030);
    assert_eq!(parse_duration("1d12h").unwrap(), 129600);
}

#[test]
fn test_parse_duration_plain_number() {
    assert_eq!(parse_duration("3600").unwrap(), 3600);
    assert_eq!(parse_duration("60").unwrap(), 60);
}

#[test]
fn test_parse_duration_case_insensitive() {
    assert_eq!(parse_duration("1H").unwrap(), 3600);
    assert_eq!(parse_duration("30M").unwrap(), 1800);
    assert_eq!(parse_duration("1D").unwrap(), 86400);
}

#[test]
fn test_parse_duration_errors() {
    assert!(parse_duration("").is_err());
    assert!(parse_duration("0").is_err());
    assert!(parse_duration("0h").is_err());
    assert!(parse_duration("abc").is_err());
    assert!(parse_duration("1x").is_err());
}

#[test]
fn parse_duration_messages_and_edges() {
    assert_eq!(parse_duration("   "), Err("Empty duration string".to_string()));
    assert_eq!(parse_duration(" H1 "), Err("Invalid duration format: h1".to_string()));
    assert_eq!(parse_duration("1x"), Err("Unknown duration unit: x".to_string()));
    assert_eq!(parse_duration("1 h"), Err("Unknown duration unit:  ".to_string()));
    assert_eq!(parse_duration("0m0s"), Err("Duration must be greater than 0".to_string()));
    assert_eq!(
        parse_duration("99999999999999999999s"),
        Err("Invalid number in duration: 99999999999999999999".to_string())
    );
    assert_eq!(
        parse_duration("1h18446744073709551616"),
        Err("Invalid number in duration: 18446744073709551616".to_string())
    );
    assert_eq!(parse_duration("18446744073709551615d"), Err("Duration too large".to_string()));
    assert_eq!(parse_duration("18446744073709551615s1"), Err("Duration too large".to_string()));
    assert_eq!(parse_duration("18446744073709551615"), Ok(18446744073709551615));
    assert_eq!(parse_duration(" 1m1 "), Ok(61));
    assert_eq!(parse_duration("1h1h"), Ok(7200));
}

#[test]
fn test_parse_env() {
    let (key, value) = parse_env("FOO=bar").unwrap();
    assert_eq!(key, "FOO");
    assert_eq!(value, "bar");

    let (key, value) = parse_env("COMPLEX_VAR=value=with=equals").unwrap();
    assert_eq!(key, "COMPLEX_VAR");
    assert_eq!(value, "value=with=equals");

    assert!(parse_env("NO_EQUALS").is_err());
}

#[test]
fn parse_env_edges() {
    assert_eq!(parse_env("=").unwrap(), (String::new(), String::new()));
    assert_eq!(parse_env("A="), Ok(("A".to_string(), String::new())));
    assert_eq!(parse_env(""), Err("Expected KEY=VALUE format".to_string()));
}

#[test]
fn test_check_status_prefix() {
    assert!(CheckStatus::Okay.prefix().contains("OK"));
    assert!(CheckStatus::Warn.prefix().contains("WARN"));
    assert!(CheckStatus::Error.prefix().contains("ERROR"));
    assert!(CheckStatus::Info.prefix().contains("INFO"));
    assert!(CheckStatus::Fixed.prefix().contains("FIX"));
}

fn result(status: CheckStatus, message: &str) -> CheckResult {
    CheckResult { status, message: message.to_string(), fix_hint: None }
}

#[test]
fn preflight_summary_counts_and_blocks() {
    let s = run_preflight_checks(vec![
        result(CheckStatus::Okay, "package.json found"),
        result(CheckStatus::Warn, "node_modules/ missing - run `npm install`"),
        result(CheckStatus::Warn, "Cargo.lock missing - dependencies not locked"),
        result(CheckStatus::Info, "target/ not found"),
    ]);
    assert_eq!(s.warnings, 2);
    assert_eq!(s.errors, 0);
    assert!(s.has_blocking_issues);
    assert!(!s.can_start());
    assert_eq!(
        s.blocking_message(),
        "Cannot start - missing dependencies:\n  - node_modules/ missing - run `npm install`\n  - Cargo.lock missing - dependencies not locked\n"
    );

    let s = run_preflight_checks(vec![result(CheckStatus::Warn, "Cargo.lock missing")]);
    assert!(s.can_start());
    assert_eq!(s.warnings, 1);
    let s = run_preflight_checks(vec![result(CheckStatus::Error, "x")]);
    assert!(!s.can_start());
    assert_eq!(s.errors, 1);
    let s = run_preflight_checks(vec![]);
    assert!(s.can_start());
    assert_eq!(s.blocking_message(), "Cannot start - missing dependencies:\n");
}

#[test]
fn test_detect_project_type_generic() {
    assert_eq!(detect_project_type(false, false), ProjectType::Generic);
}

#[test]
fn detect_project_type_by_manifest() {
    assert_eq!(detect_project_type(true, true), ProjectType::NodeJs);
    assert_eq!(detect_project_type(false, true), ProjectType::Cargo);
    assert_eq!(ProjectType::NodeJs.as_str(), "nodejs");
    assert_eq!(ProjectType::Cargo.as_str(), "cargo");
    assert_eq!(ProjectType::Generic.as_str(), "generic");
}

#[test]
fn cargo_project_checks() {
    let mut results = Vec::new();
    check_cargo_project(
        CargoFacts {
            has_cargo_toml: true,
            has_cargo_lock: false,
            has_target_dir: true,
            has_debug: true,
            has_release: false,
        },
        &mut results,
    );
    assert_eq!(results.len(), 3);
    assert_eq!(results[0].status, CheckStatus::Okay);
    assert_eq!(results[0].message, "Cargo.toml found");
    assert_eq!(results[1].status, CheckStatus::Warn);
    assert_eq!(results[1].fix_hint, Some("Run `cargo build` to generate Cargo.lock".to_string()));
    assert_eq!(results[2].message, "target/debug/ found (debug build available)");

    let mut results = vec![result(CheckStatus::Info, "before")];
    check_cargo_project(
        CargoFacts {
            has_cargo_toml: false,
            has_cargo_lock: true,
            has_target_dir: true,
            has_debug: true,
            has_release: true,
        },
        &mut results,
    );
    assert_eq!(results.len(), 2);
    assert_eq!(results[1].status, CheckStatus::Error);
    assert_eq!(results[1].message, "Cargo.toml not found");
}

#[test]
fn config_file_note() {
    let mut results = Vec::new();
    check_config_files(&vec![false; 8], &mut results);
    assert!(results.is_empty());
    check_config_files(&vec![true, false, false, true, false, false, false, true], &mut results);
    assert_eq!(results.len(), 1);
    assert_eq!(results[0].status, CheckStatus::Info);
    assert_eq!(results[0].message, "Found config files: config.json, config.yml, settings.toml");
}

#[test]
fn find_available_port_gives_the_smallest_free_port() {
    assert_eq!(find_available_port(3000, &vec![true, true, false, false]), Some(3002));
    assert_eq!(find_available_port(3000, &vec![false]), Some(3000));
    assert_eq!(find_available_port(3000, &vec![true, true]), None);
    assert_eq!(find_available_port(3000, &vec![]), None);
    assert_eq!(find_available_port(65535, &vec![true, false]), None);
    assert_eq!(find_available_port(65534, &vec![true, false]), Some(65535));
}

#[test]
fn port_conflict_check() {
    assert_eq!(check_port_conflict(None, &vec![true]), None);
    assert_eq!(
        check_port_conflict(Some(3000), &vec![false, true]),
        Some(PortCheckResult { desired_port: 3000, is_in_use: false, available_port: None })
    );
    assert_eq!(
        check_port_conflict(Some(3000), &vec![true, true, false]),
        Some(PortCheckResult { desired_port: 3000, is_in_use: true, available_port: Some(3002) })
    );
    assert_eq!(
        check_port_conflict(Some(65535), &vec![true, false]),
        Some(PortCheckResult { desired_port: 65535, is_in_use: true, available_port: None })
    );
}

#[test]
fn test_api_response_ok() {
    let resp = ApiResponse::ok("test");
    assert!(resp.success);
    assert_eq!(resp.data, Some("test"));
    assert!(resp.error.is_none());
}

#[test]
fn test_api_response_err() {
    let resp = ApiResponse::<()>::err("error message");
    assert!(!resp.success);
    assert!(resp.data.is_none());
    assert_eq!(resp.error, Some("error message".to_string()));
}

#[test]
fn start_request_shape() {
    let r = StartRequest {
        name: "a".to_string(),
        command: "b".to_string(),
        cwd: None,
        args: None,
        env: None,
        instances: Some(2),
        watch: None,
        port: None,
    };
    assert_eq!(r.instances, Some(2));
}

#[test]
fn lib_test_format_duration() {
    assert_eq!(oxidepm::tui::format_duration(30), "30s");
    assert_eq!(oxidepm::tui::format_duration(90), "1m");
    assert_eq!(oxidepm::tui::format_duration(3700), "1h");
    assert_eq!(oxidepm::tui::format_duration(90000), "1d");
}

#[test]
fn output_test_format_duration() {
    assert_eq!(oxidepm::output::format_duration(0), "0s");
    assert_eq!(oxidepm::output::format_duration(59), "59s");
    assert_eq!(oxidepm::output::format_duration(60), "1m 0s");
    assert_eq!(oxidepm::output::format_duration(3599), "59m 59s");
    assert_eq!(oxidepm::output::format_duration(3600), "1h 0m");
    assert_eq!(oxidepm::output::format_duration(3661), "1h 1m");
    assert_eq!(oxidepm::output::format_duration(86400), "1d 0h");
    assert_eq!(oxidepm::output::format_duration(90061), "1d 1h");
}

#[test]
fn status_row_texts() {
    let spec = AppSpec::try_new_at(
        "test-app".to_string(),
        AppMode::Node,
        "server.js".to_string(),
        "/app".to_string(),
        0,
    )
    .unwrap();
    let mut state = RunState::running_at(0, 1234, 0);
    state.uptime_secs = 3600;
    state.restarts = 2;
    state.cpu_centipercent = 150;
    state.memory_bytes = 128 * 1024 * 1024;
    let info = oxidepm::appspec::AppInfo::new(spec, state);
    let row = StatusRow::from_info(&info);
    assert_eq!(row.name, "test-app");
    assert_eq!(row.mode, "node");
    assert_eq!(row.pid, "1234");
    assert_eq!(row.restarts, "2");
    assert_eq!(row.status, "online");
    assert_eq!(row.cpu, "1.5%");
    assert_eq!(row.mem, "128.0M");
    assert_eq!(row.uptime, "1h 0m");
    assert_eq!(format_status(AppStatus::Errored), "errored");
    assert_eq!(format_status(AppStatus::Building), "building");
}

#[test]
fn text_helpers() {
    assert_eq!(decimal_string(0), "0");
    assert_eq!(decimal_string(10), "10");
    assert_eq!(decimal_string(u64::MAX), "18446744073709551615");
    assert_eq!(lower_string("MiXeD-\u{c9}"), "mixed-\u{c9}");
    assert_eq!(trimmed("\t a b \u{a0}\r\n"), "a b");
    assert_eq!(trimmed(""), "");
    assert_eq!(split_words("  a\tbc \n d  "), vec!["a", "bc", "d"]);
    assert!(split_words("   ").is_empty());
    assert_eq!(join_texts(&vec!["a".to_string(), "b".to_string()], ", "), "a, b");
    assert_eq!(join_texts(&vec![], ", "), "");
}

#[test]
fn test_health_monitor_failure_counting() {
    let config = HealthCheck { retries: 3, ..Default::default() };
    let mut monitor = HealthMonitor::new(config);

    assert!(!monitor.is_unhealthy());
    monitor.consecutive_failures = 2;
    assert!(!monitor.is_unhealthy());
    monitor.consecutive_failures = 3;
    assert!(monitor.is_unhealthy());
}

#[test]
fn health_monitor_counts_and_resets() {
    let mut monitor = HealthMonitor::new(HealthCheck { retries: 2, ..Default::default() });
    assert_eq!(monitor.interval(), 30);
    monitor.record(false);
    assert!(!monitor.is_unhealthy());
    monitor.record(false);
    assert!(monitor.is_unhealthy());
    monitor.record(true);
    assert_eq!(monitor.consecutive_failures, 0);
    assert!(!monitor.is_unhealthy());
    monitor.record(false);
    monitor.reset();
    assert_eq!(monitor.consecutive_failures, 0);
    monitor.consecutive_failures = u32::MAX;
    monitor.record(false);
    assert_eq!(monitor.consecutive_failures, u32::MAX);
}

#[test]
fn health_checker_judges_probes() {
    let checker = HealthChecker::new();
    assert_eq!(checker.probe_kind(&HealthCheck::default()), ProbeKind::Nothing);
    assert_eq!(checker.probe_kind(&HealthCheck::http("http://x")), ProbeKind::Http);
    assert_eq!(checker.probe_kind(&HealthCheck::script("true")), ProbeKind::Script);
    let mut both = HealthCheck::http("http://x");
    both.script = Some("true".to_string());
    assert_eq!(checker.probe_kind(&both), ProbeKind::Http);

    let ok = checker.check_http(&vec![200, 204], &HttpOutcome::Status(204), 7, 100);
    assert!(ok.healthy);
    assert_eq!(ok.duration_ms, 7);
    assert_eq!(ok.timestamp, 100);
    assert!(ok.message.is_none());
    let bad = checker.check_http(&vec![200, 204], &HttpOutcome::Status(500), 7, 100);
    assert!(!bad.healthy);
    assert_eq!(bad.message, Some("Unexpected status: 500".to_string()));
    assert!(checker.check_http(&vec![], &HttpOutcome::Status(200), 0, 0).healthy);
    assert!(!checker.check_http(&vec![], &HttpOutcome::Status(201), 0, 0).healthy);
    assert!(!checker.check_http(&vec![201], &HttpOutcome::Status(200), 0, 0).healthy);
    assert_eq!(
        checker.check_http(&vec![], &HttpOutcome::Failed("refused".to_string()), 0, 0).message,
        Some("Request failed: refused".to_string())
    );
    assert_eq!(
        checker.check_http(&vec![], &HttpOutcome::TimedOut, 0, 0).message,
        Some("Timeout".to_string())
    );

    assert!(checker
        .check_script(&ScriptOutcome::Exited { success: true, code: Some(0) }, 1, 2)
        .healthy);
    assert_eq!(
        checker.check_script(&ScriptOutcome::Exited { success: false, code: Some(3) }, 1, 2).message,
        Some("Exit code: 3".to_string())
    );
    assert_eq!(
        checker.check_script(&ScriptOutcome::Exited { success: false, code: None }, 1, 2).message,
        Some("Exit code: -1".to_string())
    );
    assert_eq!(
        checker.check_script(&ScriptOutcome::Failed("no sh".to_string()), 1, 2).message,
        Some("Script error: no sh".to_string())
    );
    assert_eq!(
        checker.check_script(&ScriptOutcome::TimedOut, 1, 2).message,
        Some("Timeout".to_string())
    );
    let now = HealthCheckResult::healthy(3);
    assert!(now.healthy && now.timestamp > 1_600_000_000);
    let now = HealthCheckResult::unhealthy(3, "m");
    assert!(!now.healthy);
    assert_eq!(now.message, Some("m".to_string()));
}

#[test]
fn hook_call_environment() {
    let hooks = Hooks {
        on_start: None,
        on_stop: Some("echo bye".to_string()),
        on_restart: None,
        on_crash: None,
        on_error: None,
    };
    assert!(HookCall::for_event(&hooks, HookEvent::Start, 1, "a", None, None).is_none());
    let call = HookCall::for_event(&hooks, HookEvent::Stop, 42, "test-app", Some(5678), Some(-1))
        .unwrap();
    assert_eq!(call.script, "echo bye");
    assert_eq!(
        call.environment(),
        vec![
            ("OPM_APP_ID".to_string(), "42".to_string()),
            ("OPM_APP_NAME".to_string(), "test-app".to_string()),
            ("OPM_EVENT".to_string(), "stop".to_string()),
            ("OPM_PID".to_string(), "5678".to_string()),
            ("OPM_EXIT_CODE".to_string(), "-1".to_string()),
        ]
    );
    let call = HookCall::for_event(&hooks, HookEvent::Stop, 1, "a", None, None).unwrap();
    assert_eq!(call.environment().len(), 3);
    assert_eq!(HOOK_TIMEOUT_SECS, 30);
}

#[test]
fn hook_results_and_log_entries() {
    assert_eq!(
        hook_result(&HookOutcome::Exited {
            success: true,
            code: Some(0),
            stdout: " hello world\n".to_string(),
            stderr: String::new()
        }),
        Ok("hello world".to_string())
    );
    assert_eq!(
        hook_result(&HookOutcome::Exited {
            success: false,
            code: Some(1),
            stdout: String::new(),
            stderr: "bad\n".to_string()
        }),
        Err("Hook exited with code Some(1): bad".to_string())
    );
    assert_eq!(
        hook_result(&HookOutcome::Exited {
            success: false,
            code: None,
            stdout: String::new(),
            stderr: String::new()
        }),
        Err("Hook exited with code None: ".to_string())
    );
    assert_eq!(
        hook_result(&HookOutcome::Failed("no such file".to_string())),
        Err("Failed to execute hook: no such file".to_string())
    );
    assert_eq!(
        hook_result(&HookOutcome::TimedOut),
        Err("Hook timed out after 30 seconds".to_string())
    );
    assert_eq!(
        log_hook_output("2024-01-02 03:04:05 UTC", "crash", " out \n", ""),
        "[2024-01-02 03:04:05 UTC] Event: crash\n  stdout: out\n"
    );
    assert_eq!(
        log_hook_output("t", "stop", "", "e"),
        "[t] Event: stop\n  stderr: e\n"
    );
    assert_eq!(log_hook_output("t", "stop", "", ""), "[t] Event: stop\n");
}

fn runner_spec() -> AppSpec {
    AppSpec::try_new_at(
        "r".to_string(),
        AppMode::Cmd,
        "sleep".to_string(),
        "/work".to_string(),
        0,
    )
    .unwrap()
    .with_args(vec!["3600".to_string(), "-v".to_string()])
}

#[test]
fn runner_command_strings() {
    let spec = runner_spec();
    assert_eq!(CmdRunner.command_string(&spec), "sleep 3600 -v");
    assert_eq!(CmdRunner.command_string(&spec.clone().with_args(vec![])), "sleep");
    assert_eq!(NodeRunner.command_string(&spec), "node sleep 3600 -v");
    assert_eq!(NpmRunner::new("pnpm").command_string(&spec), "pnpm run sleep 3600 -v");
    assert_eq!(
        CargoRunner.command_string(&spec, "api"),
        "/work/target/release/api 3600 -v"
    );
    let mut rust = spec.clone();
    rust.command = "src/main.rs".to_string();
    assert_eq!(RustRunner.command_string(&rust), "/work/.oxidepm/bin/main 3600 -v");
    rust.command = "/abs/tool.tar.gz".to_string();
    assert_eq!(RustRunner.command_string(&rust), "/work/.oxidepm/bin/tool.tar 3600 -v");
    assert_eq!(RustRunner::file_stem(".hidden"), ".hidden");
    assert_eq!(RustRunner::file_stem("a/.."), "app");
    assert_eq!(RustRunner::file_stem("a/"), "app");
    assert_eq!(RustRunner::file_stem("noext"), "noext");
}

#[test]
fn runner_names_and_prepare() {
    assert_eq!(get_runner(AppMode::Cmd).mode_name(), "cmd");
    assert_eq!(get_runner(AppMode::Node).mode_name(), "node");
    assert_eq!(get_runner(AppMode::Npm).mode_name(), "npm");
    assert_eq!(get_runner(AppMode::Pnpm).mode_name(), "pnpm");
    assert_eq!(get_runner(AppMode::Yarn).mode_name(), "yarn");
    assert_eq!(get_runner(AppMode::Cargo).mode_name(), "cargo");
    assert_eq!(get_runner(AppMode::Rust).mode_name(), "rust");
    assert!(matches!(get_runner(AppMode::Yarn), AnyRunner::Npm(_)));

    let mut spec = runner_spec();
    spec.command = "  echo hi".to_string();
    assert_eq!(CmdRunner::program(&spec.command), Some("echo".to_string()));
    let found = CmdRunner.prepare(&spec, &ProgramLookup::Found("/bin/echo".to_string()));
    assert!(found.success);
    assert_eq!(found.output, "Found echo at /bin/echo");
    let exists = CmdRunner.prepare(&spec, &ProgramLookup::Exists);
    assert!(exists.success);
    assert_eq!(exists.output, "Using echo");
    let missing = CmdRunner.prepare(&spec, &ProgramLookup::Missing);
    assert!(!missing.success);
    assert_eq!(missing.output, "Command not found: echo");
    spec.command = " \t".to_string();
    let empty = CmdRunner.prepare(&spec, &ProgramLookup::Exists);
    assert!(!empty.success);
    assert_eq!(empty.output, "Empty command");

    let p = PrepareResult::success_with_binary("built", "/b".to_string());
    assert!(p.success);
    assert_eq!(p.binary_path, Some("/b".to_string()));
    assert!(PrepareResult::success("ok").binary_path.is_none());
    assert!(!PrepareResult::failure("no").success);
}
