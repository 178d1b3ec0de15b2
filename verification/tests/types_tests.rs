use oxidepm::appspec::{env_lookup, AppInfo, AppSpec, Selector};
use oxidepm::constants::{
    log_path, socket_path, DEFAULT_KILL_TIMEOUT_MS, DEFAULT_MAX_RESTARTS,
    DEFAULT_RESTART_DELAY_MS,
};
use oxidepm::error::Error;
use oxidepm::types::{
    validate_app_name, AppMode, AppStatus, HealthCheck, HookEvent, Hooks, RestartPolicy,
    RunState,
};

fn test_spec(name: &str) -> AppSpec {
    AppSpec::new(name.to_string(), AppMode::Node, "server.js".to_string(), "/app".to_string())
}

#[test]
fn test_socket_path() {
    let path = socket_path();
    assert!(path.contains("daemon.sock"));
}

#[test]
fn test_log_path() {
    let path = log_path("myapp", "out");
    assert!(path.contains("myapp-out.log"));
}

#[test]
fn test_oxidepm_home() {
    let home = oxidepm::constants::oxidepm_home();
    assert!(home.contains(".oxidepm"));
}

#[test]
fn test_error_display() {
    let err = Error::AppNotFound("myapp".to_string());
    assert_eq!(err.to_string(), "App not found: myapp");
}

#[test]
fn test_app_mode_from_extension() {
    assert_eq!(AppMode::from_extension("rs"), Some(AppMode::Rust));
    assert_eq!(AppMode::from_extension("js"), Some(AppMode::Node));
    assert_eq!(AppMode::from_extension("mjs"), Some(AppMode::Node));
    assert_eq!(AppMode::from_extension("ts"), Some(AppMode::Node));
    assert_eq!(AppMode::from_extension("py"), None);
}

#[test]
fn test_app_mode_from_str() {
    assert_eq!("cargo".parse::<AppMode>().unwrap(), AppMode::Cargo);
    assert_eq!("node".parse::<AppMode>().unwrap(), AppMode::Node);
    assert!("invalid".parse::<AppMode>().is_err());
}

#[test]
fn test_restart_policy_default() {
    let policy = RestartPolicy::default();
    assert!(policy.auto_restart);
    assert_eq!(policy.max_restarts, DEFAULT_MAX_RESTARTS);
    assert_eq!(policy.restart_delay_ms, DEFAULT_RESTART_DELAY_MS);
}

#[test]
fn test_selector_parse() {
    assert_eq!(Selector::parse("all"), Selector::All);
    assert_eq!(Selector::parse("ALL"), Selector::All);
    assert_eq!(Selector::parse("123"), Selector::ById(123));
    assert_eq!(Selector::parse("myapp"), Selector::ByName("myapp".to_string()));
    assert_eq!(Selector::parse("@production"), Selector::ByTag("production".to_string()));
    assert_eq!(Selector::parse("@web-servers"), Selector::ByTag("web-servers".to_string()));
}

#[test]
fn test_selector_matches() {
    let spec = test_spec("test-app").with_tags(vec!["production".to_string(), "web".to_string()]);

    let mut spec_with_id = spec.clone();
    spec_with_id.id = 42;

    assert!(Selector::All.matches(&spec_with_id));
    assert!(Selector::ById(42).matches(&spec_with_id));
    assert!(!Selector::ById(99).matches(&spec_with_id));
    assert!(Selector::ByName("test-app".to_string()).matches(&spec_with_id));
    assert!(!Selector::ByName("other-app".to_string()).matches(&spec_with_id));
    assert!(Selector::ByTag("production".to_string()).matches(&spec_with_id));
    assert!(Selector::ByTag("web".to_string()).matches(&spec_with_id));
    assert!(!Selector::ByTag("staging".to_string()).matches(&spec_with_id));
}

#[test]
fn test_selector_display() {
    assert_eq!(Selector::All.to_string(), "all");
    assert_eq!(Selector::ById(123).to_string(), "123");
    assert_eq!(Selector::ByName("myapp".to_string()).to_string(), "myapp");
    assert_eq!(Selector::ByTag("production".to_string()).to_string(), "@production");
}

#[test]
fn selector_text_round_trip() {
    for s in ["all", "123", "@web", "my-app"] {
        assert_eq!(Selector::parse(s).to_string(), s);
    }
}

#[test]
fn selector_parse_edges() {
    assert_eq!(Selector::parse("All"), Selector::All);
    assert_eq!(Selector::parse("@"), Selector::ByTag(String::new()));
    assert_eq!(Selector::parse("0"), Selector::ById(0));
    assert_eq!(Selector::parse("007"), Selector::ById(7));
    assert_eq!(Selector::parse("4294967295"), Selector::ById(4294967295));
    assert_eq!(Selector::parse("4294967296"), Selector::ByName("4294967296".to_string()));
    assert_eq!(Selector::parse("+5"), Selector::ByName("+5".to_string()));
    assert_eq!(Selector::parse("-5"), Selector::ByName("-5".to_string()));
    assert_eq!(Selector::parse("12a"), Selector::ByName("12a".to_string()));
    assert_eq!(Selector::parse(""), Selector::ByName(String::new()));
}

#[test]
fn test_app_spec_with_tags() {
    let spec = test_spec("test").with_tags(vec!["web".to_string(), "production".to_string()]);

    assert_eq!(spec.tags.len(), 2);
    assert!(spec.tags.contains(&"web".to_string()));
    assert!(spec.tags.contains(&"production".to_string()));
}

#[test]
fn test_app_spec_with_max_uptime() {
    let spec = test_spec("test").with_max_uptime(86400);
    assert_eq!(spec.max_uptime_secs, Some(86400));
}

#[test]
fn test_app_status_is_running() {
    assert!(AppStatus::Running.is_running());
    assert!(AppStatus::Starting.is_running());
    assert!(!AppStatus::Stopped.is_running());
    assert!(!AppStatus::Errored.is_running());
}

#[test]
fn app_status_names() {
    assert!(AppStatus::Building.is_running());
    assert!(!AppStatus::Stopping.is_running());
    assert_eq!(AppStatus::Errored.as_str(), "errored");
    assert_eq!(AppStatus::Running.to_string(), "running");
    assert_eq!("STOPPED".parse::<AppStatus>().unwrap(), AppStatus::Stopped);
    match "gone".parse::<AppStatus>() {
        Err(Error::ConfigError(d)) => assert_eq!(d, "Invalid status: gone"),
        other => panic!("unexpected: {:?}", other),
    }
}

#[test]
fn app_mode_names() {
    assert_eq!(AppMode::Pnpm.as_str(), "pnpm");
    assert_eq!(AppMode::Cmd.to_string(), "cmd");
    assert_eq!(AppMode::parse("YARN").unwrap(), AppMode::Yarn);
    match AppMode::parse("Deno") {
        Err(Error::InvalidMode(d)) => assert_eq!(d, "Deno"),
        other => panic!("unexpected: {:?}", other),
    }
    assert_eq!(AppMode::from_extension("CTS"), Some(AppMode::Node));
    assert_eq!(AppMode::detect(true, true, true, None), Some(AppMode::Cargo));
    assert_eq!(AppMode::detect(true, false, true, None), Some(AppMode::Npm));
    assert_eq!(AppMode::detect(true, false, false, Some("rs")), None);
    assert_eq!(AppMode::detect(false, true, true, Some("rs")), Some(AppMode::Rust));
    assert_eq!(AppMode::detect(false, false, false, None), None);
}

#[test]
fn test_app_spec_builder() {
    let spec = test_spec("test")
        .with_watch(true)
        .with_args(vec!["--port".to_string(), "3000".to_string()]);

    assert_eq!(spec.name, "test");
    assert!(spec.watch);
    assert_eq!(spec.args.len(), 2);
}

#[test]
fn types_test_hooks_default() {
    let hooks = Hooks::default();
    assert!(hooks.is_empty());
    assert!(hooks.on_start.is_none());
    assert!(hooks.on_stop.is_none());
    assert!(hooks.on_restart.is_none());
    assert!(hooks.on_crash.is_none());
    assert!(hooks.on_error.is_none());
}

#[test]
fn supervisor_test_hooks_default() {
    let hooks = Hooks::default();
    assert!(hooks.is_empty());
}

#[test]
fn test_hooks_is_empty() {
    let mut hooks = Hooks::default();
    assert!(hooks.is_empty());

    hooks.on_start = Some("echo 'started'".to_string());
    assert!(!hooks.is_empty());
}

#[test]
fn test_hooks_get() {
    let hooks = Hooks {
        on_start: Some("start.sh".to_string()),
        on_stop: Some("stop.sh".to_string()),
        on_restart: None,
        on_crash: Some("crash.sh".to_string()),
        on_error: None,
    };

    assert_eq!(hooks.get(HookEvent::Start), Some("start.sh"));
    assert_eq!(hooks.get(HookEvent::Stop), Some("stop.sh"));
    assert_eq!(hooks.get(HookEvent::Restart), None);
    assert_eq!(hooks.get(HookEvent::Crash), Some("crash.sh"));
    assert_eq!(hooks.get(HookEvent::Error), None);
}

#[test]
fn test_hooks_get_event() {
    let hooks = Hooks {
        on_start: Some("start.sh".to_string()),
        on_stop: Some("stop.sh".to_string()),
        on_restart: None,
        on_crash: Some("crash.sh".to_string()),
        on_error: None,
    };

    assert_eq!(hooks.get(HookEvent::Start), Some("start.sh"));
    assert_eq!(hooks.get(HookEvent::Stop), Some("stop.sh"));
    assert_eq!(hooks.get(HookEvent::Restart), None);
    assert_eq!(hooks.get(HookEvent::Crash), Some("crash.sh"));
    assert_eq!(hooks.get(HookEvent::Error), None);
}

#[test]
fn test_hook_event_as_str() {
    assert_eq!(HookEvent::Start.as_str(), "start");
    assert_eq!(HookEvent::Stop.as_str(), "stop");
    assert_eq!(HookEvent::Restart.as_str(), "restart");
    assert_eq!(HookEvent::Crash.as_str(), "crash");
    assert_eq!(HookEvent::Error.as_str(), "error");
}

#[test]
fn test_hook_event_display() {
    assert_eq!(HookEvent::Start.to_string(), "start");
    assert_eq!(HookEvent::Stop.to_string(), "stop");
    assert_eq!(HookEvent::Restart.to_string(), "restart");
    assert_eq!(HookEvent::Crash.to_string(), "crash");
    assert_eq!(HookEvent::Error.to_string(), "error");
}

#[test]
fn test_app_spec_with_hooks() {
    let hooks = Hooks {
        on_start: Some("echo 'started'".to_string()),
        on_crash: Some("/scripts/notify.sh".to_string()),
        ..Default::default()
    };

    let spec = test_spec("test").with_hooks(hooks);

    assert_eq!(spec.hooks.on_start, Some("echo 'started'".to_string()));
    assert_eq!(spec.hooks.on_crash, Some("/scripts/notify.sh".to_string()));
    assert!(spec.hooks.on_stop.is_none());
}

#[test]
fn test_app_spec_with_startup_delay() {
    let spec = test_spec("test").with_startup_delay(5000);
    assert_eq!(spec.startup_delay_ms, Some(5000));
}

#[test]
fn test_app_spec_default_no_startup_delay() {
    let spec = test_spec("test");
    assert_eq!(spec.startup_delay_ms, None);
    assert!(!spec.env_inherit);
}

#[test]
fn test_app_spec_with_env_inherit() {
    let spec = test_spec("test").with_env_inherit(true);
    assert!(spec.env_inherit);
}

#[test]
fn test_validate_app_name_valid() {
    assert!(validate_app_name("myapp"));
    assert!(validate_app_name("my-app"));
    assert!(validate_app_name("my_app"));
    assert!(validate_app_name("MyApp123"));
    assert!(validate_app_name("app-123_test"));
}

#[test]
fn test_validate_app_name_invalid() {
    assert!(!validate_app_name(""));
    assert!(!validate_app_name("../etc/passwd"));
    assert!(!validate_app_name("my app"));
    assert!(!validate_app_name("my.app"));
    assert!(!validate_app_name("my/app"));
    assert!(!validate_app_name("my\\app"));
    assert!(!validate_app_name("app@server"));
    assert!(!validate_app_name("app:8080"));
}

#[test]
fn validate_app_name_rejects_other_alphabets_and_line_feeds() {
    assert!(!validate_app_name("caf\u{e9}"));
    assert!(!validate_app_name("app\n"));
    assert!(!validate_app_name("\u{212a}"));
    assert!(validate_app_name("-"));
    assert!(validate_app_name("_"));
    assert!(validate_app_name("0"));
}

#[test]
fn test_app_spec_try_new_valid() {
    let result = AppSpec::try_new(
        "valid-app".to_string(),
        AppMode::Node,
        "server.js".to_string(),
        "/app".to_string(),
    );
    assert!(result.is_ok());
}

#[test]
fn test_app_spec_try_new_invalid() {
    let result = AppSpec::try_new(
        "../evil".to_string(),
        AppMode::Node,
        "server.js".to_string(),
        "/app".to_string(),
    );
    assert!(result.is_err());
}

#[test]
fn try_new_at_gives_the_defaults() {
    let spec = AppSpec::try_new_at(
        "api".to_string(),
        AppMode::Cargo,
        "api-server".to_string(),
        "/srv/api".to_string(),
        1_700_000_000,
    )
    .unwrap();
    assert_eq!(spec.id, 0);
    assert_eq!(spec.name, "api");
    assert_eq!(spec.mode, AppMode::Cargo);
    assert_eq!(spec.command, "api-server");
    assert_eq!(spec.cwd, "/srv/api");
    assert!(spec.args.is_empty());
    assert!(spec.env.is_empty());
    assert!(!spec.watch);
    assert_eq!(
        spec.ignore_patterns,
        vec!["target", "node_modules", ".git", ".oxidepm", "*.swp", "*.swo", ".DS_Store"]
    );
    assert_eq!(spec.restart_policy, RestartPolicy::default());
    assert_eq!(spec.restart_policy.crash_window_secs, 60);
    assert_eq!(spec.kill_timeout_ms, DEFAULT_KILL_TIMEOUT_MS);
    assert_eq!(spec.created_at, 1_700_000_000);
    assert_eq!(spec.instances, 1);
    assert_eq!(spec.instance_id, None);
    assert_eq!(spec.port, None);
    assert_eq!(spec.port_range, None);
    assert!(spec.health_check.is_none());
    assert_eq!(spec.max_memory_mb, None);
    assert!(spec.hooks.is_empty());
    assert!(spec.tags.is_empty());
    assert_eq!(spec.max_uptime_secs, None);
}

#[test]
fn try_new_names_the_invalid_name() {
    match AppSpec::try_new_at(
        "a b".to_string(),
        AppMode::Cmd,
        "true".to_string(),
        "/".to_string(),
        0,
    ) {
        Err(Error::ConfigError(d)) => assert_eq!(
            d,
            "Invalid app name 'a b': only alphanumeric characters, underscores, and hyphens are allowed"
        ),
        other => panic!("unexpected: {:?}", other),
    }
}

#[test]
fn try_new_stamps_the_current_time() {
    let spec = test_spec("clock");
    assert!(spec.created_at > 1_600_000_000);
}

#[test]
fn builders_set_one_field_each() {
    let spec = test_spec("b")
        .with_instances(4)
        .with_port(3000)
        .with_port_range(3000, 3003)
        .with_health_check(HealthCheck::http("http://localhost:3000/health"))
        .with_max_memory(512)
        .with_env(vec![("A".to_string(), "1".to_string())])
        .with_ignore_patterns(vec!["dist".to_string()]);
    assert_eq!(spec.instances, 4);
    assert_eq!(spec.port, Some(3000));
    assert_eq!(spec.port_range, Some((3000, 3003)));
    assert_eq!(
        spec.health_check.as_ref().unwrap().http_url,
        Some("http://localhost:3000/health".to_string())
    );
    assert_eq!(spec.max_memory_mb, Some(512));
    assert_eq!(env_lookup(&spec.env, "A"), Some("1".to_string()));
    assert_eq!(spec.ignore_patterns, vec!["dist"]);
    assert_eq!(spec.name, "b");
}

#[test]
fn for_instance_names_the_child_and_sets_its_port() {
    let parent = test_spec("web").with_instances(3).with_env(vec![
        ("NODE_ENV".to_string(), "production".to_string()),
        ("PORT".to_string(), "1".to_string()),
    ]);
    let child = parent.for_instance(2, Some(3002));
    assert_eq!(child.name, "web-2");
    assert_eq!(child.instance_id, Some(2));
    assert_eq!(child.port, Some(3002));
    assert_eq!(env_lookup(&child.env, "PORT"), Some("3002".to_string()));
    assert_eq!(env_lookup(&child.env, "NODE_ENV"), Some("production".to_string()));
    assert_eq!(child.env.len(), 2);
    assert_eq!(child.instances, 3);

    let plain = parent.for_instance(10, None);
    assert_eq!(plain.name, "web-10");
    assert_eq!(plain.port, None);
    assert_eq!(env_lookup(&plain.env, "PORT"), Some("1".to_string()));
}

#[test]
fn health_check_constructors() {
    let d = HealthCheck::default();
    assert_eq!(d.expected_status, vec![200]);
    assert_eq!(d.interval_secs, 30);
    assert_eq!(d.timeout_secs, 5);
    assert_eq!(d.retries, 3);
    let s = HealthCheck::script("exit 0");
    assert_eq!(s.script, Some("exit 0".to_string()));
    assert!(s.http_url.is_none());
    assert_eq!(s.retries, 3);
}

#[test]
fn run_state_constructors() {
    let s = RunState::new(7);
    assert_eq!(s.app_id, 7);
    assert_eq!(s.status, AppStatus::Stopped);
    assert_eq!(s.pid, None);
    assert!(!s.healthy);
    let r = RunState::running_at(7, 1234, 99).with_port(8080).with_instance(1);
    assert_eq!(r.status, AppStatus::Running);
    assert_eq!(r.pid, Some(1234));
    assert_eq!(r.started_at, Some(99));
    assert!(r.healthy);
    assert_eq!(r.port, Some(8080));
    assert_eq!(r.instance_id, Some(1));
    let now = RunState::running(7, 1);
    assert!(now.started_at.unwrap() > 1_600_000_000);
    let info = AppInfo::new(test_spec("i"), r);
    assert_eq!(info.state.pid, Some(1234));
    assert_eq!(info.spec.name, "i");
}

#[test]
fn error_messages() {
    assert_eq!(Error::HealthCheckFailed.to_string(), "Health check failed");
    assert_eq!(Error::DaemonNotRunning.to_string(), "Daemon not running");
    assert_eq!(Error::config("bad").to_string(), "Config error: bad");
    assert_eq!(Error::ipc("x").to_string(), "IPC error: x");
    assert_eq!(Error::db("x").to_string(), "Database error: x");
    assert_eq!(Error::process_start("x").to_string(), "Process failed to start: x");
    assert_eq!(Error::BuildFailed("no".to_string()).to_string(), "Build failed: no");
    assert_eq!(Error::Timeout("5s".to_string()).to_string(), "Timeout: 5s");
}
