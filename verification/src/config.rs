//! Declarative configuration: the shape of a config file's entries, how an
//! entry becomes an application specification, and the env-file format.

use crate::appspec::{
    copy_env, env_insert, env_set, invalid_name_detail, pairs, AppSpec, AppSpecView,
};
use crate::constants::{
    config_file_names, config_files, default_ignore_patterns, default_ignore_texts, join,
    join_path, DEFAULT_CRASH_WINDOW_SECS, DEFAULT_KILL_TIMEOUT_MS, DEFAULT_MAX_RESTARTS,
    DEFAULT_RESTART_DELAY_MS,
};
use crate::error::Error;
use crate::logs::{file_part, last_index, split_lines};
use crate::text::{
    chars_of, copy_opt_text, copy_text, copy_texts, find_char, first_index, lines, lower,
    lower_string, opt_text, same_text, string_of, texts, trim, trim_bounds,
};
use crate::types::{
    copy_codes,
    default_health_check,
    mode_of_name,
    no_hooks,
    utc_now_secs,
    valid_app_name,
    validate_app_name,
    AppMode,
    HealthCheck,
    HealthCheckView,
    Hooks,
    HooksView,
    RestartPolicy,
};
use vstd::prelude::*;
use vstd::string::*;

verus! {

/// The formats a config file can have.
#[derive(Debug, Clone, Copy, PartialEq, Eq, Structural)]
pub enum ConfigFormat {
    Toml,
    Yaml,
    Json,
}

/// The format that a file extension stands for, letter case ignored.
pub open spec fn format_of_extension(ext: Seq<char>) -> Option<ConfigFormat> {
    let e = lower(ext);
    if e == "toml"@ {
        Some(ConfigFormat::Toml)
    } else if e == "yaml"@ || e == "yml"@ {
        Some(ConfigFormat::Yaml)
    } else if e == "json"@ {
        Some(ConfigFormat::Json)
    } else {
        None
    }
}

/// The extension of a path: what follows the last dot of its file name,
/// if the file name has a dot that is not its first character. The file
/// name `..` has none.
pub open spec fn extension_of(path: Seq<char>) -> Option<Seq<char>> {
    let file = file_part(path);
    let dot = last_index(file, '.');
    if dot <= 0 || file == seq!['.', '.'] {
        None
    } else {
        Some(file.subrange(dot + 1, file.len() as int))
    }
}

/// The index of the last `c` in `v[from..to]` counted from `from`, or -1.
fn find_last(v: &Vec<char>, from: usize, to: usize, c: char) -> (r: Option<usize>)
    requires
        from <= to <= v.len(),
    ensures
        match r {
            Some(i) => from <= i < to && i - from == last_index(
                v@.subrange(from as int, to as int),
                c,
            ),
            None => last_index(v@.subrange(from as int, to as int), c) == -1,
        },
{
    let ghost s = v@.subrange(from as int, to as int);
    let mut i: usize = to;
    assert(s.subrange(0, to - from) =~= s);
    while i > from
        invariant
            from <= i <= to <= v.len(),
            s == v@.subrange(from as int, to as int),
            last_index(s, c) == last_index(s.subrange(0, i - from), c),
        decreases i,
    {
        let ghost cur = s.subrange(0, i - from);
        assert(cur.last() == v[i - 1]);
        if v[i - 1] == c {
            return Some(i - 1);
        }
        assert(cur.drop_last() =~= s.subrange(0, i - 1 - from));
        i = i - 1;
    }
    assert(s.subrange(0, 0) =~= Seq::<char>::empty());
    None
}

impl ConfigFormat {
    /// The format for a file extension, if the extension is known.
    pub fn from_extension(ext: &str) -> (r: Option<ConfigFormat>)
        ensures
            r == format_of_extension(ext@),
    {
        let e = lower_string(ext);
        if same_text(e.as_str(), "toml") {
            Some(ConfigFormat::Toml)
        } else if same_text(e.as_str(), "yaml") || same_text(e.as_str(), "yml") {
            Some(ConfigFormat::Yaml)
        } else if same_text(e.as_str(), "json") {
            Some(ConfigFormat::Json)
        } else {
            None
        }
    }

    /// The format for a path, by its extension.
    pub fn from_path(path: &str) -> (r: Option<ConfigFormat>)
        ensures
            r == (match extension_of(path@) {
                Some(e) => format_of_extension(e),
                None => None,
            }),
    {
        match extension(path) {
            Some(ext) => ConfigFormat::from_extension(ext.as_str()),
            None => None,
        }
    }
}

/// The extension of `path`.
pub fn extension(path: &str) -> (r: Option<String>)
    ensures
        opt_text(r) == extension_of(path@),
{
    let v = chars_of(path);
    assert(v@.subrange(0, v.len() as int) =~= v@);
    let start: usize = match find_last(&v, 0, v.len(), '/') {
        Some(i) => i + 1,
        None => 0,
    };
    assert(v@.subrange(start as int, v.len() as int) =~= file_part(path@));
    let dot = find_last(&v, start, v.len(), '.');
    match dot {
        Some(d) => {
            if d == start {
                return None;
            }
            if v.len() - start == 2 && v[start] == '.' && v[start + 1] == '.' {
                assert(file_part(path@) =~= seq!['.', '.']);
                return None;
            }
            let ext = string_of(&v, d + 1, v.len());
            assert(ext@ =~= file_part(path@).subrange(d - start + 1, file_part(path@).len() as int));
            assert(file_part(path@) != seq!['.', '.']) by {
                if file_part(path@) == seq!['.', '.'] {
                    assert(file_part(path@).len() == 2);
                    assert(file_part(path@)[0] == v[start as int]);
                    assert(file_part(path@)[1] == v[start + 1]);
                }
            }
            Some(ext)
        },
        None => None,
    }
}

/// A health check as a config file gives it; what is left out takes the
/// default.
#[derive(Debug)]
pub struct HealthCheckConfig {
    pub http_url: Option<String>,
    pub script: Option<String>,
    pub expected_status: Vec<u16>,
    pub interval_secs: Option<u64>,
    pub timeout_secs: Option<u64>,
    pub retries: Option<u32>,
}

/// The health check that a config entry stands for.
pub open spec fn health_check_of(c: HealthCheckConfig) -> HealthCheckView {
    HealthCheckView {
        http_url: opt_text(c.http_url),
        script: opt_text(c.script),
        expected_status: if c.expected_status@.len() == 0 {
            default_health_check().expected_status
        } else {
            c.expected_status@
        },
        interval_secs: match c.interval_secs {
            Some(v) => v,
            None => default_health_check().interval_secs,
        },
        timeout_secs: match c.timeout_secs {
            Some(v) => v,
            None => default_health_check().timeout_secs,
        },
        retries: match c.retries {
            Some(v) => v,
            None => default_health_check().retries,
        },
    }
}

impl Default for HealthCheckConfig {
    fn default() -> (r: HealthCheckConfig)
        ensures
            health_check_of(r) == default_health_check(),
    {
        HealthCheckConfig {
            http_url: None,
            script: None,
            expected_status: Vec::new(),
            interval_secs: None,
            timeout_secs: None,
            retries: None,
        }
    }
}

impl HealthCheckConfig {
    /// The health check that this entry stands for.
    pub fn to_health_check(&self) -> (r: HealthCheck)
        ensures
            r@ == health_check_of(*self),
    {
        let default = HealthCheck::default();
        HealthCheck {
            http_url: copy_opt_text(&self.http_url),
            script: copy_opt_text(&self.script),
            expected_status: if self.expected_status.len() == 0 {
                default.expected_status
            } else {
                copy_codes(&self.expected_status)
            },
            interval_secs: match self.interval_secs {
                Some(v) => v,
                None => default.interval_secs,
            },
            timeout_secs: match self.timeout_secs {
                Some(v) => v,
                None => default.timeout_secs,
            },
            retries: match self.retries {
                Some(v) => v,
                None => default.retries,
            },
        }
    }

    /// The health check that this entry stands for.
    pub fn into_health_check(self) -> (r: HealthCheck)
        ensures
            r@ == health_check_of(self),
    {
        self.to_health_check()
    }
}

/// Hooks as a config file gives them.
#[derive(Debug)]
pub struct HooksConfig {
    pub on_start: Option<String>,
    pub on_stop: Option<String>,
    pub on_restart: Option<String>,
    pub on_crash: Option<String>,
    pub on_error: Option<String>,
}

/// The hooks that a config entry stands for.
pub open spec fn hooks_of(c: HooksConfig) -> HooksView {
    HooksView {
        on_start: opt_text(c.on_start),
        on_stop: opt_text(c.on_stop),
        on_restart: opt_text(c.on_restart),
        on_crash: opt_text(c.on_crash),
        on_error: opt_text(c.on_error),
    }
}

impl Default for HooksConfig {
    fn default() -> (r: HooksConfig)
        ensures
            hooks_of(r) == no_hooks(),
    {
        HooksConfig { on_start: None, on_stop: None, on_restart: None, on_crash: None, on_error: None }
    }
}

impl HooksConfig {
    /// The hooks that this entry stands for.
    pub fn to_hooks(&self) -> (r: Hooks)
        ensures
            r@ == hooks_of(*self),
    {
        Hooks {
            on_start: copy_opt_text(&self.on_start),
            on_stop: copy_opt_text(&self.on_stop),
            on_restart: copy_opt_text(&self.on_restart),
            on_crash: copy_opt_text(&self.on_crash),
            on_error: copy_opt_text(&self.on_error),
        }
    }

    /// The hooks that this entry stands for.
    pub fn into_hooks(self) -> (r: Hooks)
        ensures
            r@ == hooks_of(self),
    {
        Hooks {
            on_start: self.on_start,
            on_stop: self.on_stop,
            on_restart: self.on_restart,
            on_crash: self.on_crash,
            on_error: self.on_error,
        }
    }
}

/// An inclusive range of ports for cluster instances.
#[derive(Debug, Clone, Copy, PartialEq, Eq, Structural)]
pub struct PortRange {
    pub start: u16,
    pub end: u16,
}

/// One application as a config file gives it.
#[derive(Debug)]
pub struct AppConfig {
    pub name: String,
    pub mode: Option<String>,
    pub script: Option<String>,
    pub bin: Option<String>,
    pub cwd: Option<String>,
    pub args: Vec<String>,
    pub env: Vec<(String, String)>,
    pub env_file: Option<String>,
    pub watch: bool,
    pub ignore: Vec<String>,
    pub restart_delay: Option<u64>,
    pub max_restarts: Option<u32>,
    pub kill_timeout: Option<u64>,
    pub no_autorestart: bool,
    pub instances: u32,
    pub port: Option<u16>,
    pub port_range: Option<PortRange>,
    pub health_check: Option<HealthCheckConfig>,
    pub max_memory_mb: Option<u64>,
    pub hooks: Option<HooksConfig>,
    pub tags: Vec<String>,
    pub max_uptime_secs: Option<u64>,
}

/// The content of a config file: a list of applications.
#[derive(Debug)]
pub struct ConfigFile {
    pub apps: Vec<AppConfig>,
}

/// The number of instances of an entry that does not say.
pub fn default_instances() -> (r: u32)
    ensures
        r == 1,
{
    1
}

/// `p` is an absolute path.
pub open spec fn is_absolute(p: Seq<char>) -> bool {
    p.len() > 0 && p[0] == '/'
}

/// `p` taken relative to `base`, unless it is absolute.
pub open spec fn resolved_path(base: Seq<char>, p: Seq<char>) -> Seq<char> {
    join_path(base, p)
}

/// The mode of an entry: the one it names, else node for a script, cargo
/// for a binary, and a raw command otherwise. `None` if it names none.
pub open spec fn config_mode(c: AppConfig) -> Option<AppMode> {
    match c.mode {
        Some(m) => mode_of_name(m@),
        None => if c.script is Some {
            Some(AppMode::Node)
        } else if c.bin is Some {
            Some(AppMode::Cargo)
        } else {
            Some(AppMode::Cmd)
        },
    }
}

/// The command of an entry: its script, else its binary, else its name.
pub open spec fn config_command(c: AppConfig) -> Seq<char> {
    match c.script {
        Some(s) => s@,
        None => match c.bin {
            Some(b) => b@,
            None => c.name@,
        },
    }
}

/// The working directory of an entry, for a config file in `base_dir`.
pub open spec fn config_cwd(c: AppConfig, base_dir: Seq<char>) -> Seq<char> {
    match c.cwd {
        Some(d) => resolved_path(base_dir, d@),
        None => base_dir,
    }
}

/// The path of the env file of an entry, if it names one.
pub open spec fn config_env_path(c: AppConfig, base_dir: Seq<char>) -> Option<Seq<char>> {
    match c.env_file {
        Some(f) => Some(resolved_path(config_cwd(c, base_dir), f@)),
        None => None,
    }
}

/// A value without the quotes around it, if it has a pair of double or of
/// single quotes around it.
pub open spec fn unquoted(v: Seq<char>) -> Seq<char> {
    if v.len() >= 2 && v[0] == '"' && v.last() == '"' {
        v.subrange(1, v.len() - 1)
    } else if v.len() >= 2 && v[0] == '\'' && v.last() == '\'' {
        v.subrange(1, v.len() - 1)
    } else {
        v
    }
}

/// The entry that a line of an env file holds: `KEY=VALUE`, white space
/// around the key and the value left out and quotes around the value
/// stripped. A blank line, a comment, and a line without `=` hold none.
pub open spec fn env_entry(line: Seq<char>) -> Option<(Seq<char>, Seq<char>)> {
    let t = trim(line);
    let eq = first_index(t, '=');
    if t.len() == 0 || t[0] == '#' || eq >= t.len() || eq < 0 {
        None
    } else {
        Some((trim(t.subrange(0, eq)), unquoted(trim(t.subrange(eq + 1, t.len() as int)))))
    }
}

/// `env` with the entries of the lines `ls` set, in order.
pub open spec fn env_loaded(env: Seq<(Seq<char>, Seq<char>)>, ls: Seq<Seq<char>>) -> Seq<
    (Seq<char>, Seq<char>),
>
    decreases ls.len(),
{
    if ls.len() == 0 {
        env
    } else {
        let before = env_loaded(env, ls.drop_last());
        match env_entry(ls.last()) {
            Some((k, v)) => env_set(before, k, v),
            None => before,
        }
    }
}

/// The environment of an entry: its own, overlaid with its env file's.
pub open spec fn config_env(c: AppConfig, env_file: Option<Seq<char>>) -> Seq<(Seq<char>, Seq<char>)> {
    match env_file {
        Some(content) => env_loaded(pairs(c.env@), lines(content)),
        None => pairs(c.env@),
    }
}

/// The specification that a valid entry stands for.
pub open spec fn config_spec(
    c: AppConfig,
    base_dir: Seq<char>,
    env_file: Option<Seq<char>>,
    created_at: i64,
) -> AppSpecView {
    AppSpecView {
        id: 0,
        name: c.name@,
        mode: config_mode(c)->0,
        command: config_command(c),
        args: texts(c.args@),
        cwd: config_cwd(c, base_dir),
        env: config_env(c, env_file),
        watch: c.watch,
        ignore_patterns: default_ignore_texts() + texts(c.ignore@),
        restart_policy: RestartPolicy {
            auto_restart: !c.no_autorestart,
            max_restarts: match c.max_restarts {
                Some(v) => v,
                None => DEFAULT_MAX_RESTARTS,
            },
            restart_delay_ms: match c.restart_delay {
                Some(v) => v,
                None => DEFAULT_RESTART_DELAY_MS,
            },
            crash_window_secs: DEFAULT_CRASH_WINDOW_SECS,
        },
        kill_timeout_ms: match c.kill_timeout {
            Some(v) => v,
            None => DEFAULT_KILL_TIMEOUT_MS,
        },
        created_at,
        instances: c.instances,
        instance_id: None,
        port: c.port,
        port_range: match c.port_range {
            Some(r) => Some((r.start, r.end)),
            None => None,
        },
        health_check: match c.health_check {
            Some(h) => Some(health_check_of(h)),
            None => None,
        },
        max_memory_mb: c.max_memory_mb,
        startup_delay_ms: None,
        env_inherit: false,
        hooks: match c.hooks {
            Some(h) => hooks_of(h),
            None => no_hooks(),
        },
        tags: texts(c.tags@),
        max_uptime_secs: c.max_uptime_secs,
    }
}

/// Sets the entries of an env file's content in `env`.
pub fn load_env_file(content: &str, env: &mut Vec<(String, String)>)
    ensures
        pairs(final(env)@) == env_loaded(pairs(old(env)@), lines(content@)),
{
    let ls = split_lines(content);
    let mut i: usize = 0;
    while i < ls.len()
        invariant
            i <= ls.len(),
            texts(ls@) == lines(content@),
            pairs(env@) == env_loaded(pairs(old(env)@), texts(ls@).subrange(0, i as int)),
        decreases ls.len() - i,
    {
        proof {
            let next = texts(ls@).subrange(0, i + 1);
            assert(next.drop_last() =~= texts(ls@).subrange(0, i as int));
            assert(next.last() == ls[i as int]@);
        }
        let v = chars_of(ls[i].as_str());
        assert(v@.subrange(0, v.len() as int) =~= v@);
        let (a, b) = trim_bounds(&v, 0, v.len());
        let ghost t = v@.subrange(a as int, b as int);
        if b > a && v[a] != '#' {
            assert(t[0] == v[a as int]);
            let eq = find_char(&v, a, b, '=');
            if eq < b {
                let (ka, kb) = trim_bounds(&v, a, eq);
                let (va, vb) = trim_bounds(&v, eq + 1, b);
                let key = string_of(&v, ka, kb);
                proof {
                    assert(v@.subrange(a as int, eq as int) =~= t.subrange(0, eq - a));
                    assert(v@.subrange(eq + 1, b as int) =~= t.subrange(eq - a + 1, t.len() as int));
                }
                let ghost val = v@.subrange(va as int, vb as int);
                let value = if vb - va >= 2 && ((v[va] == '"' && v[vb - 1] == '"') || (v[va] == '\''
                    && v[vb - 1] == '\'')) {
                    assert(val[0] == v[va as int] && val.last() == v[vb - 1]);
                    let s = string_of(&v, va + 1, vb - 1);
                    assert(s@ =~= val.subrange(1, val.len() - 1));
                    s
                } else {
                    if vb - va >= 2 {
                        assert(val[0] == v[va as int] && val.last() == v[vb - 1]);
                    }
                    string_of(&v, va, vb)
                };
                assert(value@ == unquoted(val));
                env_insert(env, key.as_str(), value);
            }
        } else {
            if b > a {
                assert(t[0] == v[a as int]);
            }
        }
        i = i + 1;
    }
    assert(texts(ls@).subrange(0, ls.len() as int) =~= texts(ls@));
}

/// The two lists one after the other.
fn concat_texts(a: Vec<String>, b: &Vec<String>) -> (r: Vec<String>)
    ensures
        texts(r@) == texts(a@) + texts(b@),
{
    let mut out = a;
    let mut i: usize = 0;
    while i < b.len()
        invariant
            i <= b.len(),
            texts(out@) == texts(a@) + texts(b@).subrange(0, i as int),
        decreases b.len() - i,
    {
        let ghost earlier = texts(out@);
        out.push(b[i].clone());
        assert(texts(out@) =~= earlier.push(b[i as int]@));
        i = i + 1;
        assert(texts(b@).subrange(0, i as int) =~= texts(b@).subrange(0, i - 1).push(
            b[i - 1]@,
        ));
        assert(texts(out@) =~= texts(a@) + texts(b@).subrange(0, i as int));
    }
    assert(texts(b@).subrange(0, b.len() as int) =~= texts(b@));
    out
}

impl AppConfig {
    /// The path of the env file of this entry, for a config file in
    /// `base_dir`.
    pub fn env_file_path(&self, base_dir: &str) -> (r: Option<String>)
        ensures
            opt_text(r) == config_env_path(*self, base_dir@),
    {
        match &self.env_file {
            Some(f) => {
                let cwd = self.working_dir(base_dir);
                Some(join(cwd.as_str(), f.as_str()))
            },
            None => None,
        }
    }

    /// The working directory of this entry, for a config file in
    /// `base_dir`.
    pub fn working_dir(&self, base_dir: &str) -> (r: String)
        ensures
            r@ == config_cwd(*self, base_dir@),
    {
        match &self.cwd {
            Some(d) => join(base_dir, d.as_str()),
            None => copy_text(base_dir),
        }
    }

    /// The specification that this entry stands for, created at
    /// `created_at`, where `env_file` is the content of the entry's env file
    /// if there is one.
    ///
    /// An entry that names an unknown mode is refused with `InvalidMode`;
    /// one whose name is no valid application name, with `ConfigError`.
    pub fn to_spec(&self, base_dir: &str, env_file: Option<&str>, created_at: i64) -> (r: Result<
        AppSpec,
        Error,
    >)
        ensures
            config_mode(*self) is None ==> (r matches Err(Error::InvalidMode(d)) && self.mode
                matches Some(m) && d@ == m@),
            config_mode(*self) is Some && !valid_app_name(self.name@) ==> (r matches Err(
                Error::ConfigError(d),
            ) && d@ == invalid_name_detail(self.name@)),
            config_mode(*self) is Some && valid_app_name(self.name@) ==> (r matches Ok(s) && s@
                == config_spec(
                *self,
                base_dir@,
                crate::types::opt_str_text(env_file),
                created_at,
            )),
    {
        let mode = match &self.mode {
            Some(m) => match AppMode::parse(m.as_str()) {
                Ok(mode) => mode,
                Err(e) => {
                    return Err(e);
                },
            },
            None => if self.script.is_some() {
                AppMode::Node
            } else if self.bin.is_some() {
                AppMode::Cargo
            } else {
                AppMode::Cmd
            },
        };
        if !validate_app_name(self.name.as_str()) {
            let mut d = copy_text("Invalid app name '");
            d.append(self.name.as_str());
            d.append("': only alphanumeric characters, underscores, and hyphens are allowed");
            assert(d@ =~= invalid_name_detail(self.name@));
            return Err(Error::ConfigError(d));
        }
        let command = match &self.script {
            Some(s) => s.clone(),
            None => match &self.bin {
                Some(b) => b.clone(),
                None => self.name.clone(),
            },
        };
        let mut env = copy_env(&self.env);
        match env_file {
            Some(content) => {
                load_env_file(content, &mut env);
            },
            None => {},
        }
        Ok(
            AppSpec {
                id: 0,
                name: self.name.clone(),
                mode,
                command,
                args: copy_texts(&self.args),
                cwd: self.working_dir(base_dir),
                env,
                watch: self.watch,
                ignore_patterns: concat_texts(default_ignore_patterns(), &self.ignore),
                restart_policy: RestartPolicy {
                    auto_restart: !self.no_autorestart,
                    max_restarts: match self.max_restarts {
                        Some(v) => v,
                        None => DEFAULT_MAX_RESTARTS,
                    },
                    restart_delay_ms: match self.restart_delay {
                        Some(v) => v,
                        None => DEFAULT_RESTART_DELAY_MS,
                    },
                    crash_window_secs: DEFAULT_CRASH_WINDOW_SECS,
                },
                kill_timeout_ms: match self.kill_timeout {
                    Some(v) => v,
                    None => DEFAULT_KILL_TIMEOUT_MS,
                },
                created_at,
                instances: self.instances,
                instance_id: None,
                port: self.port,
                port_range: match self.port_range {
                    Some(r) => Some((r.start, r.end)),
                    None => None,
                },
                health_check: match &self.health_check {
                    Some(h) => Some(h.to_health_check()),
                    None => None,
                },
                max_memory_mb: self.max_memory_mb,
                startup_delay_ms: None,
                env_inherit: false,
                hooks: match &self.hooks {
                    Some(h) => h.to_hooks(),
                    None => Hooks::default(),
                },
                tags: copy_texts(&self.tags),
                max_uptime_secs: self.max_uptime_secs,
            },
        )
    }

    /// The specification that this entry stands for, created now, without
    /// an env file.
    pub fn into_spec(self, base_dir: &str) -> (r: Result<AppSpec, Error>)
        ensures
            config_mode(self) is None ==> r matches Err(Error::InvalidMode(_)),
            config_mode(self) is Some && !valid_app_name(self.name@) ==> r matches Err(
                Error::ConfigError(_),
            ),
            config_mode(self) is Some && valid_app_name(self.name@) ==> (r matches Ok(s)
                && exists|t: i64| s@ == config_spec(self, base_dir@, None, t)),
    {
        let now = utc_now_secs();
        self.to_spec(base_dir, None, now)
    }
}

/// The entry `c` stands for a specification.
pub open spec fn config_ok(c: AppConfig) -> bool {
    config_mode(c) is Some && valid_app_name(c.name@)
}

/// `v` holds the specifications that the entries `apps` stand for, created
/// at `t` and without env files.
pub open spec fn specs_at(apps: Seq<AppConfig>, v: Seq<AppSpec>, base_dir: Seq<char>, t: i64) -> bool {
    v.len() == apps.len() && forall|i: int|
        0 <= i < v.len() ==> (#[trigger] v[i])@ == config_spec(apps[i], base_dir, None, t)
}

/// Every entry of `apps` stands for a specification.
pub open spec fn all_ok(apps: Seq<AppConfig>) -> bool {
    forall|i: int| 0 <= i < apps.len() ==> config_ok(#[trigger] apps[i])
}

impl ConfigFile {
    /// The specifications that the entries of this file stand for, each
    /// created at `created_at` and without an env file; the error of the
    /// first entry that stands for none.
    pub fn to_specs(&self, base_dir: &str, created_at: i64) -> (r: Result<Vec<AppSpec>, Error>)
        ensures
            all_ok(self.apps@) ==> (r matches Ok(v) && specs_at(
                self.apps@,
                v@,
                base_dir@,
                created_at,
            )),
            !all_ok(self.apps@) ==> r is Err,
    {
        let mut out: Vec<AppSpec> = Vec::new();
        let mut i: usize = 0;
        while i < self.apps.len()
            invariant
                i <= self.apps.len(),
                out.len() == i,
                forall|j: int| 0 <= j < i ==> config_ok(#[trigger] self.apps@[j]),
                forall|j: int|
                    0 <= j < i ==> (#[trigger] out@[j])@ == config_spec(
                        self.apps@[j],
                        base_dir@,
                        None,
                        created_at,
                    ),
            decreases self.apps.len() - i,
        {
            match self.apps[i].to_spec(base_dir, None, created_at) {
                Ok(s) => {
                    out.push(s);
                },
                Err(e) => {
                    assert(!config_ok(self.apps@[i as int]));
                    return Err(e);
                },
            }
            i = i + 1;
        }
        Ok(out)
    }

    /// The specifications that the entries of this file stand for, each
    /// created now and without an env file; the error of the first entry
    /// that stands for none.
    pub fn into_specs(self, base_dir: &str) -> (r: Result<Vec<AppSpec>, Error>)
        ensures
            all_ok(self.apps@) ==> (r matches Ok(v) && exists|t: i64| #[trigger]
                specs_at(self.apps@, v@, base_dir@, t)),
            !all_ok(self.apps@) ==> r is Err,
    {
        let now = utc_now_secs();
        self.to_specs(base_dir, now)
    }

    /// The name of the config file to load from a directory, where
    /// `exists[i]` says whether the file with the `i`-th config file name
    /// exists: the first that does.
    pub fn find(exists: &Vec<bool>) -> (r: Option<String>)
        ensures
            match r {
                Some(name) => exists|i: int|
                    0 <= i < exists@.len() && i < config_file_names().len() && exists@[i]
                        && name@ == config_file_names()[i] && forall|j: int|
                        0 <= j < i ==> !exists@[j],
                None => forall|i: int|
                    0 <= i < exists@.len() && i < config_file_names().len() ==> !exists@[i],
            },
    {
        let names = config_files();
        let mut i: usize = 0;
        while i < names.len() && i < exists.len()
            invariant
                i <= names.len(),
                i <= exists.len(),
                texts(names@) == config_file_names(),
                forall|j: int| 0 <= j < i ==> !exists@[j],
            decreases names.len() - i,
        {
            if exists[i] {
                assert(texts(names@)[i as int] == names[i as int]@);
                return Some(names[i].clone());
            }
            i = i + 1;
        }
        None
    }
}

} // verus!
