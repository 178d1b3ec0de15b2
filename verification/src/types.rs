//! The data model: application specifications, run states, hooks, health
//! checks, restart policies and selectors.

use crate::constants::{DEFAULT_CRASH_WINDOW_SECS, DEFAULT_MAX_RESTARTS, DEFAULT_RESTART_DELAY_MS};
use crate::error::Error;
use crate::text::{copy_opt_text, copy_text, is_digit, lower, lower_string, opt_text, same_text};
use vstd::prelude::*;
use vstd::string::*;

verus! {

/// `c` may occur in an application name: an ASCII letter or digit, `_` or `-`.
pub open spec fn is_name_char(c: char) -> bool {
    ('a' <= c && c <= 'z') || ('A' <= c && c <= 'Z') || is_digit(c) || c == '_' || c == '-'
}

/// `s` is a valid application name: not empty, and made of name characters.
pub open spec fn valid_app_name(s: Seq<char>) -> bool {
    s.len() > 0 && forall|i: int| 0 <= i < s.len() ==> is_name_char(#[trigger] s[i])
}

/// Whether `name` is a valid application name. Names end up in log file
/// names, so nothing that could leave the log directory is accepted.
pub fn validate_app_name(name: &str) -> (r: bool)
    ensures
        r == valid_app_name(name@),
{
    let mut seen = false;
    for c in it: name.chars()
        invariant
            it.seq() == name@,
            seen == (it.index() > 0),
            forall|i: int| 0 <= i < it.index() ==> is_name_char(#[trigger] name@[i]),
    {
        let ok = (c >= 'a' && c <= 'z') || (c >= 'A' && c <= 'Z') || (c >= '0' && c <= '9') || c
            == '_' || c == '-';
        if !ok {
            assert(!is_name_char(name@[it.index() as int]));
            return false;
        }
        seen = true;
    }
    seen
}

/// The lifecycle events on which a hook script can run.
#[derive(Debug, Clone, Copy, PartialEq, Eq, Structural)]
pub enum HookEvent {
    Start,
    Stop,
    Restart,
    Crash,
    Error,
}

/// The name of a hook event, as the hook's environment carries it.
pub open spec fn hook_event_name(e: HookEvent) -> Seq<char> {
    match e {
        HookEvent::Start => "start"@,
        HookEvent::Stop => "stop"@,
        HookEvent::Restart => "restart"@,
        HookEvent::Crash => "crash"@,
        HookEvent::Error => "error"@,
    }
}

impl HookEvent {
    pub fn as_str(&self) -> (r: &'static str)
        ensures
            r@ == hook_event_name(*self),
    {
        match self {
            HookEvent::Start => "start",
            HookEvent::Stop => "stop",
            HookEvent::Restart => "restart",
            HookEvent::Crash => "crash",
            HookEvent::Error => "error",
        }
    }

    pub fn to_string(&self) -> (r: String)
        ensures
            r@ == hook_event_name(*self),
    {
        copy_text(self.as_str())
    }
}

/// Scripts to run when lifecycle events occur.
#[derive(Debug)]
pub struct Hooks {
    pub on_start: Option<String>,
    pub on_stop: Option<String>,
    pub on_restart: Option<String>,
    pub on_crash: Option<String>,
    pub on_error: Option<String>,
}

/// The mathematical value of [`Hooks`].
pub struct HooksView {
    pub on_start: Option<Seq<char>>,
    pub on_stop: Option<Seq<char>>,
    pub on_restart: Option<Seq<char>>,
    pub on_crash: Option<Seq<char>>,
    pub on_error: Option<Seq<char>>,
}

/// Hooks with no script at all.
pub open spec fn no_hooks() -> HooksView {
    HooksView { on_start: None, on_stop: None, on_restart: None, on_crash: None, on_error: None }
}

/// The script configured for `event`, if any.
pub open spec fn hook_for(h: HooksView, event: HookEvent) -> Option<Seq<char>> {
    match event {
        HookEvent::Start => h.on_start,
        HookEvent::Stop => h.on_stop,
        HookEvent::Restart => h.on_restart,
        HookEvent::Crash => h.on_crash,
        HookEvent::Error => h.on_error,
    }
}

/// The view of an optional borrowed text.
pub open spec fn opt_str_text(o: Option<&str>) -> Option<Seq<char>> {
    match o {
        Some(s) => Some(s@),
        None => None,
    }
}

impl View for Hooks {
    type V = HooksView;

    open spec fn view(&self) -> HooksView {
        HooksView {
            on_start: opt_text(self.on_start),
            on_stop: opt_text(self.on_stop),
            on_restart: opt_text(self.on_restart),
            on_crash: opt_text(self.on_crash),
            on_error: opt_text(self.on_error),
        }
    }
}

impl Default for Hooks {
    fn default() -> (r: Hooks)
        ensures
            r@ == no_hooks(),
    {
        Hooks { on_start: None, on_stop: None, on_restart: None, on_crash: None, on_error: None }
    }
}

impl Clone for Hooks {
    fn clone(&self) -> (r: Hooks)
        ensures
            r@ == self@,
    {
        Hooks {
            on_start: copy_opt_text(&self.on_start),
            on_stop: copy_opt_text(&self.on_stop),
            on_restart: copy_opt_text(&self.on_restart),
            on_crash: copy_opt_text(&self.on_crash),
            on_error: copy_opt_text(&self.on_error),
        }
    }
}

impl Hooks {
    /// Whether no hook is configured.
    pub fn is_empty(&self) -> (r: bool)
        ensures
            r == (self@ == no_hooks()),
    {
        self.on_start.is_none() && self.on_stop.is_none() && self.on_restart.is_none()
            && self.on_crash.is_none() && self.on_error.is_none()
    }

    /// The script for `event`, if one is configured.
    pub fn get(&self, event: HookEvent) -> (r: Option<&str>)
        ensures
            opt_str_text(r) == hook_for(self@, event),
    {
        let slot = match event {
            HookEvent::Start => &self.on_start,
            HookEvent::Stop => &self.on_stop,
            HookEvent::Restart => &self.on_restart,
            HookEvent::Crash => &self.on_crash,
            HookEvent::Error => &self.on_error,
        };
        match slot {
            Some(s) => Some(s.as_str()),
            None => None,
        }
    }
}

/// How the liveness of a process is probed.
#[derive(Debug)]
pub struct HealthCheck {
    /// HTTP endpoint to GET.
    pub http_url: Option<String>,
    /// Shell script to run; success is exit status 0.
    pub script: Option<String>,
    /// Accepted HTTP status codes; an empty list accepts 200 only.
    pub expected_status: Vec<u16>,
    pub interval_secs: u64,
    pub timeout_secs: u64,
    /// Consecutive failures after which the process counts as unhealthy.
    pub retries: u32,
}

/// The mathematical value of [`HealthCheck`].
pub struct HealthCheckView {
    pub http_url: Option<Seq<char>>,
    pub script: Option<Seq<char>>,
    pub expected_status: Seq<u16>,
    pub interval_secs: u64,
    pub timeout_secs: u64,
    pub retries: u32,
}

/// The health check that probes nothing: status 200, every 30 s, 5 s
/// timeout, 3 retries.
pub open spec fn default_health_check() -> HealthCheckView {
    HealthCheckView {
        http_url: None,
        script: None,
        expected_status: seq![200u16],
        interval_secs: 30,
        timeout_secs: 5,
        retries: 3,
    }
}

impl View for HealthCheck {
    type V = HealthCheckView;

    open spec fn view(&self) -> HealthCheckView {
        HealthCheckView {
            http_url: opt_text(self.http_url),
            script: opt_text(self.script),
            expected_status: self.expected_status@,
            interval_secs: self.interval_secs,
            timeout_secs: self.timeout_secs,
            retries: self.retries,
        }
    }
}

/// The view of an optional health check.
pub open spec fn opt_health(o: Option<HealthCheck>) -> Option<HealthCheckView> {
    match o {
        Some(h) => Some(h@),
        None => None,
    }
}

/// A copy of a list of status codes.
pub fn copy_codes(v: &Vec<u16>) -> (r: Vec<u16>)
    ensures
        r@ == v@,
{
    let mut out: Vec<u16> = Vec::new();
    let mut i: usize = 0;
    while i < v.len()
        invariant
            i <= v.len(),
            out@ == v@.subrange(0, i as int),
        decreases v.len() - i,
    {
        out.push(v[i]);
        i = i + 1;
        assert(out@ =~= v@.subrange(0, i as int));
    }
    assert(v@.subrange(0, v.len() as int) =~= v@);
    out
}

impl Default for HealthCheck {
    fn default() -> (r: HealthCheck)
        ensures
            r@ == default_health_check(),
    {
        let mut codes: Vec<u16> = Vec::new();
        codes.push(200);
        assert(codes@ =~= seq![200u16]);
        HealthCheck {
            http_url: None,
            script: None,
            expected_status: codes,
            interval_secs: 30,
            timeout_secs: 5,
            retries: 3,
        }
    }
}

impl Clone for HealthCheck {
    fn clone(&self) -> (r: HealthCheck)
        ensures
            r@ == self@,
    {
        HealthCheck {
            http_url: copy_opt_text(&self.http_url),
            script: copy_opt_text(&self.script),
            expected_status: copy_codes(&self.expected_status),
            interval_secs: self.interval_secs,
            timeout_secs: self.timeout_secs,
            retries: self.retries,
        }
    }
}

impl HealthCheck {
    /// The default health check, probing `url` over HTTP.
    pub fn http(url: &str) -> (r: HealthCheck)
        ensures
            r@ == (HealthCheckView { http_url: Some(url@), ..default_health_check() }),
    {
        let mut h = HealthCheck::default();
        h.http_url = Some(copy_text(url));
        h
    }

    /// The default health check, probing by running `cmd`.
    pub fn script(cmd: &str) -> (r: HealthCheck)
        ensures
            r@ == (HealthCheckView { script: Some(cmd@), ..default_health_check() }),
    {
        let mut h = HealthCheck::default();
        h.script = Some(copy_text(cmd));
        h
    }
}

/// A copy of an optional health check.
pub fn copy_opt_health(o: &Option<HealthCheck>) -> (r: Option<HealthCheck>)
    ensures
        opt_health(r) == opt_health(*o),
{
    match o {
        Some(h) => Some(h.clone()),
        None => None,
    }
}

/// When and how often a crashed process is started again.
#[derive(Debug, Clone, Copy, PartialEq, Eq, Structural)]
pub struct RestartPolicy {
    pub auto_restart: bool,
    /// Restart attempts allowed within one crash window.
    pub max_restarts: u32,
    pub restart_delay_ms: u64,
    /// Length of the rolling crash window in seconds.
    pub crash_window_secs: u64,
}

/// The restart policy of a new specification.
pub open spec fn default_restart_policy() -> RestartPolicy {
    RestartPolicy {
        auto_restart: true,
        max_restarts: DEFAULT_MAX_RESTARTS,
        restart_delay_ms: DEFAULT_RESTART_DELAY_MS,
        crash_window_secs: DEFAULT_CRASH_WINDOW_SECS,
    }
}

impl Default for RestartPolicy {
    fn default() -> (r: RestartPolicy)
        ensures
            r == default_restart_policy(),
    {
        RestartPolicy {
            auto_restart: true,
            max_restarts: DEFAULT_MAX_RESTARTS,
            restart_delay_ms: DEFAULT_RESTART_DELAY_MS,
            crash_window_secs: DEFAULT_CRASH_WINDOW_SECS,
        }
    }
}

/// How an application is run; selects the runner.
#[derive(Debug, Clone, Copy, PartialEq, Eq, Hash, Structural)]
pub enum AppMode {
    /// A raw command.
    Cmd,
    /// A script run by node.
    Node,
    /// A package script run by npm.
    Npm,
    /// A package script run by pnpm.
    Pnpm,
    /// A package script run by yarn.
    Yarn,
    /// A cargo project.
    Cargo,
    /// A single Rust source file.
    Rust,
}

/// The lower-case name of a mode.
pub open spec fn mode_name(m: AppMode) -> Seq<char> {
    match m {
        AppMode::Cmd => "cmd"@,
        AppMode::Node => "node"@,
        AppMode::Npm => "npm"@,
        AppMode::Pnpm => "pnpm"@,
        AppMode::Yarn => "yarn"@,
        AppMode::Cargo => "cargo"@,
        AppMode::Rust => "rust"@,
    }
}

/// The mode that a file extension stands for, letter case ignored.
pub open spec fn mode_of_extension(ext: Seq<char>) -> Option<AppMode> {
    let e = lower(ext);
    if e == "rs"@ {
        Some(AppMode::Rust)
    } else if e == "js"@ || e == "mjs"@ || e == "cjs"@ || e == "ts"@ || e == "mts"@ || e == "cts"@ {
        Some(AppMode::Node)
    } else {
        None
    }
}

/// The mode that a name stands for, letter case ignored.
pub open spec fn mode_of_name(s: Seq<char>) -> Option<AppMode> {
    let e = lower(s);
    if e == "cmd"@ {
        Some(AppMode::Cmd)
    } else if e == "node"@ {
        Some(AppMode::Node)
    } else if e == "npm"@ {
        Some(AppMode::Npm)
    } else if e == "pnpm"@ {
        Some(AppMode::Pnpm)
    } else if e == "yarn"@ {
        Some(AppMode::Yarn)
    } else if e == "cargo"@ {
        Some(AppMode::Cargo)
    } else if e == "rust"@ {
        Some(AppMode::Rust)
    } else {
        None
    }
}

/// The mode detected for a path: a directory is a cargo project if it holds
/// `Cargo.toml`, else a package if it holds `package.json`; a file goes by
/// its extension.
pub open spec fn detected_mode(
    is_dir: bool,
    has_cargo_toml: bool,
    has_package_json: bool,
    extension: Option<Seq<char>>,
) -> Option<AppMode> {
    if is_dir {
        if has_cargo_toml {
            Some(AppMode::Cargo)
        } else if has_package_json {
            Some(AppMode::Npm)
        } else {
            None
        }
    } else {
        match extension {
            Some(e) => mode_of_extension(e),
            None => None,
        }
    }
}

impl AppMode {
    /// The mode for a file extension, if the extension is known.
    pub fn from_extension(ext: &str) -> (r: Option<AppMode>)
        ensures
            r == mode_of_extension(ext@),
    {
        let e = lower_string(ext);
        if same_text(e.as_str(), "rs") {
            Some(AppMode::Rust)
        } else if same_text(e.as_str(), "js") || same_text(e.as_str(), "mjs") || same_text(
            e.as_str(),
            "cjs",
        ) || same_text(e.as_str(), "ts") || same_text(e.as_str(), "mts") || same_text(
            e.as_str(),
            "cts",
        ) {
            Some(AppMode::Node)
        } else {
            None
        }
    }

    /// The mode for a path, from what was observed of it on disk.
    pub fn detect(
        is_dir: bool,
        has_cargo_toml: bool,
        has_package_json: bool,
        extension: Option<&str>,
    ) -> (r: Option<AppMode>)
        ensures
            r == detected_mode(is_dir, has_cargo_toml, has_package_json, opt_str_text(extension)),
    {
        if is_dir {
            if has_cargo_toml {
                return Some(AppMode::Cargo);
            }
            if has_package_json {
                return Some(AppMode::Npm);
            }
            return None;
        }
        match extension {
            Some(e) => AppMode::from_extension(e),
            None => None,
        }
    }

    pub fn as_str(&self) -> (r: &'static str)
        ensures
            r@ == mode_name(*self),
    {
        match self {
            AppMode::Cmd => "cmd",
            AppMode::Node => "node",
            AppMode::Npm => "npm",
            AppMode::Pnpm => "pnpm",
            AppMode::Yarn => "yarn",
            AppMode::Cargo => "cargo",
            AppMode::Rust => "rust",
        }
    }

    pub fn to_string(&self) -> (r: String)
        ensures
            r@ == mode_name(*self),
    {
        copy_text(self.as_str())
    }

    /// The mode named by `s`, letter case ignored; `InvalidMode` with `s` as
    /// its detail when `s` names none.
    pub fn parse(s: &str) -> (r: Result<AppMode, Error>)
        ensures
            match mode_of_name(s@) {
                Some(m) => r == Ok::<AppMode, Error>(m),
                None => r matches Err(Error::InvalidMode(d)) && d@ == s@,
            },
    {
        let e = lower_string(s);
        if same_text(e.as_str(), "cmd") {
            Ok(AppMode::Cmd)
        } else if same_text(e.as_str(), "node") {
            Ok(AppMode::Node)
        } else if same_text(e.as_str(), "npm") {
            Ok(AppMode::Npm)
        } else if same_text(e.as_str(), "pnpm") {
            Ok(AppMode::Pnpm)
        } else if same_text(e.as_str(), "yarn") {
            Ok(AppMode::Yarn)
        } else if same_text(e.as_str(), "cargo") {
            Ok(AppMode::Cargo)
        } else if same_text(e.as_str(), "rust") {
            Ok(AppMode::Rust)
        } else {
            Err(Error::InvalidMode(copy_text(s)))
        }
    }
}

impl std::str::FromStr for AppMode {
    type Err = Error;

    fn from_str(s: &str) -> (r: Result<AppMode, Error>) {
        AppMode::parse(s)
    }
}

/// The status of a supervised process.
#[derive(Debug, Clone, Copy, PartialEq, Eq, Structural)]
pub enum AppStatus {
    /// Prepare and spawn are in progress.
    Starting,
    /// The child is alive.
    Running,
    /// A graceful shutdown is in progress.
    Stopping,
    /// Stopped by the user.
    Stopped,
    /// Exited unexpectedly, failed its health check or could not be started.
    Errored,
    /// The runner is building.
    Building,
}

/// The lower-case name of a status.
pub open spec fn status_name(s: AppStatus) -> Seq<char> {
    match s {
        AppStatus::Starting => "starting"@,
        AppStatus::Running => "running"@,
        AppStatus::Stopping => "stopping"@,
        AppStatus::Stopped => "stopped"@,
        AppStatus::Errored => "errored"@,
        AppStatus::Building => "building"@,
    }
}

/// The status that a name stands for, letter case ignored.
pub open spec fn status_of_name(s: Seq<char>) -> Option<AppStatus> {
    let e = lower(s);
    if e == "starting"@ {
        Some(AppStatus::Starting)
    } else if e == "running"@ {
        Some(AppStatus::Running)
    } else if e == "stopping"@ {
        Some(AppStatus::Stopping)
    } else if e == "stopped"@ {
        Some(AppStatus::Stopped)
    } else if e == "errored"@ {
        Some(AppStatus::Errored)
    } else if e == "building"@ {
        Some(AppStatus::Building)
    } else {
        None
    }
}

/// A process in this status counts as running: it is up or on its way up.
pub open spec fn status_is_running(s: AppStatus) -> bool {
    s == AppStatus::Running || s == AppStatus::Starting || s == AppStatus::Building
}

impl AppStatus {
    pub fn as_str(&self) -> (r: &'static str)
        ensures
            r@ == status_name(*self),
    {
        match self {
            AppStatus::Starting => "starting",
            AppStatus::Running => "running",
            AppStatus::Stopping => "stopping",
            AppStatus::Stopped => "stopped",
            AppStatus::Errored => "errored",
            AppStatus::Building => "building",
        }
    }

    pub fn to_string(&self) -> (r: String)
        ensures
            r@ == status_name(*self),
    {
        copy_text(self.as_str())
    }

    /// Whether the process is up or on its way up.
    pub fn is_running(&self) -> (r: bool)
        ensures
            r == status_is_running(*self),
    {
        match self {
            AppStatus::Running => true,
            AppStatus::Starting => true,
            AppStatus::Building => true,
            _ => false,
        }
    }

    /// The status named by `s`, letter case ignored; a `ConfigError` whose
    /// detail is `Invalid status: ` and `s` when `s` names none.
    pub fn parse(s: &str) -> (r: Result<AppStatus, Error>)
        ensures
            match status_of_name(s@) {
                Some(st) => r == Ok::<AppStatus, Error>(st),
                None => r matches Err(Error::ConfigError(d)) && d@ == "Invalid status: "@ + s@,
            },
    {
        let e = lower_string(s);
        if same_text(e.as_str(), "starting") {
            Ok(AppStatus::Starting)
        } else if same_text(e.as_str(), "running") {
            Ok(AppStatus::Running)
        } else if same_text(e.as_str(), "stopping") {
            Ok(AppStatus::Stopping)
        } else if same_text(e.as_str(), "stopped") {
            Ok(AppStatus::Stopped)
        } else if same_text(e.as_str(), "errored") {
            Ok(AppStatus::Errored)
        } else if same_text(e.as_str(), "building") {
            Ok(AppStatus::Building)
        } else {
            let mut d = copy_text("Invalid status: ");
            d.append(s);
            Err(Error::ConfigError(d))
        }
    }
}

impl std::str::FromStr for AppStatus {
    type Err = Error;

    fn from_str(s: &str) -> (r: Result<AppStatus, Error>) {
        AppStatus::parse(s)
    }
}

/// The live state of one specification. Times are seconds since the Unix
/// epoch; the CPU share is in hundredths of a percent.
#[derive(Debug, Clone, Copy, PartialEq, Eq, Structural)]
pub struct RunState {
    pub app_id: u32,
    pub pid: Option<u32>,
    pub status: AppStatus,
    pub restarts: u32,
    pub uptime_secs: u64,
    pub cpu_centipercent: u32,
    pub memory_bytes: u64,
    pub last_exit_code: Option<i32>,
    pub started_at: Option<i64>,
    pub healthy: bool,
    pub last_health_check: Option<i64>,
    pub health_check_failures: u32,
    pub port: Option<u16>,
    pub instance_id: Option<u32>,
}

/// The state of an application that is not running and never ran.
pub open spec fn stopped_state(app_id: u32) -> RunState {
    RunState {
        app_id,
        pid: None,
        status: AppStatus::Stopped,
        restarts: 0,
        uptime_secs: 0,
        cpu_centipercent: 0,
        memory_bytes: 0,
        last_exit_code: None,
        started_at: None,
        healthy: false,
        last_health_check: None,
        health_check_failures: 0,
        port: None,
        instance_id: None,
    }
}

/// The state of an application whose child `pid` came up at `now`.
pub open spec fn running_state(app_id: u32, pid: u32, now: i64) -> RunState {
    RunState {
        app_id,
        pid: Some(pid),
        status: AppStatus::Running,
        restarts: 0,
        uptime_secs: 0,
        cpu_centipercent: 0,
        memory_bytes: 0,
        last_exit_code: None,
        started_at: Some(now),
        healthy: true,
        last_health_check: None,
        health_check_failures: 0,
        port: None,
        instance_id: None,
    }
}

/// chrono::Utc::now and DateTime::timestamp: the current time in whole
/// seconds since the Unix epoch. Nothing is claimed of the value.
#[verifier::external_body]
pub(crate) fn utc_now_secs() -> (r: i64) {
    chrono::Utc::now().timestamp()
}

impl RunState {
    /// The state of a stopped application.
    pub fn new(app_id: u32) -> (r: RunState)
        ensures
            r == stopped_state(app_id),
    {
        RunState {
            app_id,
            pid: None,
            status: AppStatus::Stopped,
            restarts: 0,
            uptime_secs: 0,
            cpu_centipercent: 0,
            memory_bytes: 0,
            last_exit_code: None,
            started_at: None,
            healthy: false,
            last_health_check: None,
            health_check_failures: 0,
            port: None,
            instance_id: None,
        }
    }

    /// The state of an application whose child `pid` came up at `now`.
    pub fn running_at(app_id: u32, pid: u32, now: i64) -> (r: RunState)
        ensures
            r == running_state(app_id, pid, now),
    {
        RunState {
            app_id,
            pid: Some(pid),
            status: AppStatus::Running,
            restarts: 0,
            uptime_secs: 0,
            cpu_centipercent: 0,
            memory_bytes: 0,
            last_exit_code: None,
            started_at: Some(now),
            healthy: true,
            last_health_check: None,
            health_check_failures: 0,
            port: None,
            instance_id: None,
        }
    }

    /// The state of an application whose child `pid` came up just now.
    pub fn running(app_id: u32, pid: u32) -> (r: RunState)
        ensures
            exists|now: i64| r == running_state(app_id, pid, now),
    {
        let now = utc_now_secs();
        RunState::running_at(app_id, pid, now)
    }

    pub fn with_port(self, port: u16) -> (r: RunState)
        ensures
            r == (RunState { port: Some(port), ..self }),
    {
        let mut s = self;
        s.port = Some(port);
        s
    }

    pub fn with_instance(self, instance_id: u32) -> (r: RunState)
        ensures
            r == (RunState { instance_id: Some(instance_id), ..self }),
    {
        let mut s = self;
        s.instance_id = Some(instance_id);
        s
    }
}

} // verus!
