//! Application specifications, the selectors that address them, and the
//! environment lists they carry.

use crate::constants::{
    default_ignore_patterns, default_ignore_texts, DEFAULT_KILL_TIMEOUT_MS,
};
use crate::error::Error;
use crate::text::{
    chars_of, contains_string, copy_text, copy_texts, decimal, decimal_string, decimal_value,
    is_number_up_to, lower, lower_string, parse_digits, push_char, push_decimal, same_text,
    string_of, texts,
};
use crate::types::{
    copy_opt_health, default_restart_policy, no_hooks, opt_health, utc_now_secs,
    valid_app_name, validate_app_name, AppMode, HealthCheck, HealthCheckView, Hooks, HooksView,
    RestartPolicy, RunState,
};
use vstd::prelude::*;
use vstd::string::*;

verus! {

/// The views of a list of key and value pairs, in order.
pub open spec fn pairs(v: Seq<(String, String)>) -> Seq<(Seq<char>, Seq<char>)> {
    v.map_values(|p: (String, String)| (p.0@, p.1@))
}

/// The index of the first entry of `env` with the key `key`, or the length of
/// `env` when there is none.
pub open spec fn key_index(env: Seq<(Seq<char>, Seq<char>)>, key: Seq<char>) -> int
    decreases env.len(),
{
    if env.len() == 0 {
        0
    } else if env[0].0 == key {
        0
    } else {
        1 + key_index(env.drop_first(), key)
    }
}

/// The value that `env` gives to `key`.
pub open spec fn env_get(env: Seq<(Seq<char>, Seq<char>)>, key: Seq<char>) -> Option<Seq<char>> {
    let i = key_index(env, key);
    if 0 <= i && i < env.len() {
        Some(env[i].1)
    } else {
        None
    }
}

/// `env` with `key` set to `value`: the entry for `key` is overwritten in
/// place, or a new entry is added at the end.
pub open spec fn env_set(env: Seq<(Seq<char>, Seq<char>)>, key: Seq<char>, value: Seq<char>) -> Seq<
    (Seq<char>, Seq<char>),
> {
    let i = key_index(env, key);
    if 0 <= i && i < env.len() {
        env.update(i, (key, value))
    } else {
        env.push((key, value))
    }
}

pub proof fn lemma_key_index(env: Seq<(Seq<char>, Seq<char>)>, key: Seq<char>)
    ensures
        0 <= key_index(env, key) <= env.len(),
        forall|j: int| 0 <= j < key_index(env, key) ==> env[j].0 != key,
        key_index(env, key) < env.len() ==> env[key_index(env, key)].0 == key,
    decreases env.len(),
{
    if env.len() > 0 && env[0].0 != key {
        let rest = env.drop_first();
        lemma_key_index(rest, key);
        assert forall|j: int| 0 <= j < key_index(env, key) implies env[j].0 != key by {
            if j > 0 {
                assert(env[j] == rest[j - 1]);
            }
        }
        if key_index(env, key) < env.len() {
            assert(env[key_index(env, key)] == rest[key_index(rest, key)]);
        }
    }
}

pub proof fn lemma_key_index_is(env: Seq<(Seq<char>, Seq<char>)>, key: Seq<char>, i: int)
    requires
        0 <= i <= env.len(),
        forall|j: int| 0 <= j < i ==> env[j].0 != key,
        i < env.len() ==> env[i].0 == key,
    ensures
        key_index(env, key) == i,
{
    lemma_key_index(env, key);
    let f = key_index(env, key);
    if f < i {
        assert(env[f].0 != key);
    } else if i < f {
        assert(env[i].0 == key);
    }
}

/// Setting a key makes it readable, and leaves every other key as it was.
pub proof fn lemma_env_set_get(
    env: Seq<(Seq<char>, Seq<char>)>,
    key: Seq<char>,
    value: Seq<char>,
    other: Seq<char>,
)
    ensures
        env_get(env_set(env, key, value), key) == Some(value),
        other != key ==> env_get(env_set(env, key, value), other) == env_get(env, other),
{
    lemma_key_index(env, key);
    lemma_key_index(env, other);
    let i = key_index(env, key);
    let after = env_set(env, key, value);
    lemma_key_index_is(after, key, i);
    if other != key {
        let o = key_index(env, other);
        if o < env.len() {
            lemma_key_index_is(after, other, o);
        } else {
            lemma_key_index_is(after, other, after.len() as int);
        }
    }
}

/// The position of `key` in `env`, or the length of `env`.
pub fn env_position(env: &Vec<(String, String)>, key: &str) -> (r: usize)
    ensures
        r == key_index(pairs(env@), key@),
        r <= env.len(),
{
    let mut i: usize = 0;
    while i < env.len()
        invariant
            i <= env.len(),
            forall|j: int| 0 <= j < i ==> pairs(env@)[j].0 != key@,
        decreases env.len() - i,
    {
        if same_text(env[i].0.as_str(), key) {
            proof {
                assert(pairs(env@)[i as int].0 == key@);
                lemma_key_index_is(pairs(env@), key@, i as int);
            }
            return i;
        }
        i = i + 1;
    }
    proof {
        lemma_key_index_is(pairs(env@), key@, i as int);
    }
    i
}

/// The value of `key` in `env`, if it has one.
pub fn env_lookup(env: &Vec<(String, String)>, key: &str) -> (r: Option<String>)
    ensures
        crate::text::opt_text(r) == env_get(pairs(env@), key@),
{
    let i = env_position(env, key);
    if i < env.len() {
        assert(pairs(env@)[i as int].1 == env@[i as int].1@);
        Some(env[i].1.clone())
    } else {
        None
    }
}

/// Sets `key` to `value` in `env`, as [`env_set`] says.
pub fn env_insert(env: &mut Vec<(String, String)>, key: &str, value: String)
    ensures
        pairs(final(env)@) == env_set(pairs(old(env)@), key@, value@),
{
    let i = env_position(env, key);
    proof {
        lemma_key_index(pairs(env@), key@);
    }
    if i < env.len() {
        assert(pairs(env@)[i as int].0 == key@);
        env[i].1 = value;
        assert(pairs(env@)[i as int] == (key@, value@));
        assert(pairs(env@) =~= env_set(pairs(old(env)@), key@, value@));
    } else {
        env.push((copy_text(key), value));
        assert(pairs(env@) =~= env_set(pairs(old(env)@), key@, value@));
    }
}

/// A copy of an environment list.
pub fn copy_env(env: &Vec<(String, String)>) -> (r: Vec<(String, String)>)
    ensures
        pairs(r@) == pairs(env@),
{
    let mut out: Vec<(String, String)> = Vec::new();
    let mut i: usize = 0;
    while i < env.len()
        invariant
            i <= env.len(),
            out.len() == i,
            forall|j: int| 0 <= j < i ==> out[j].0@ == env[j].0@ && out[j].1@ == env[j].1@,
        decreases env.len() - i,
    {
        out.push((env[i].0.clone(), env[i].1.clone()));
        i = i + 1;
    }
    assert(pairs(out@) =~= pairs(env@));
    out
}

/// The declarative intent for one managed process.
#[derive(Debug)]
pub struct AppSpec {
    /// Assigned by the registry on insert; 0 before that.
    pub id: u32,
    pub name: String,
    pub mode: AppMode,
    pub command: String,
    pub args: Vec<String>,
    /// Working directory, as a path text.
    pub cwd: String,
    /// Environment entries; a key occurs at most once where every entry
    /// went through [`env_insert`].
    pub env: Vec<(String, String)>,
    pub watch: bool,
    pub ignore_patterns: Vec<String>,
    pub restart_policy: RestartPolicy,
    pub kill_timeout_ms: u64,
    /// Creation time in seconds since the Unix epoch.
    pub created_at: i64,
    /// Number of cluster instances; 1 for a single process.
    pub instances: u32,
    /// The cluster index of a child instance; `None` for a parent or a
    /// single process.
    pub instance_id: Option<u32>,
    pub port: Option<u16>,
    /// Inclusive port range for cluster instances.
    pub port_range: Option<(u16, u16)>,
    pub health_check: Option<HealthCheck>,
    pub max_memory_mb: Option<u64>,
    pub startup_delay_ms: Option<u64>,
    pub env_inherit: bool,
    pub hooks: Hooks,
    pub tags: Vec<String>,
    pub max_uptime_secs: Option<u64>,
}

/// The mathematical value of [`AppSpec`].
pub struct AppSpecView {
    pub id: u32,
    pub name: Seq<char>,
    pub mode: AppMode,
    pub command: Seq<char>,
    pub args: Seq<Seq<char>>,
    pub cwd: Seq<char>,
    pub env: Seq<(Seq<char>, Seq<char>)>,
    pub watch: bool,
    pub ignore_patterns: Seq<Seq<char>>,
    pub restart_policy: RestartPolicy,
    pub kill_timeout_ms: u64,
    pub created_at: i64,
    pub instances: u32,
    pub instance_id: Option<u32>,
    pub port: Option<u16>,
    pub port_range: Option<(u16, u16)>,
    pub health_check: Option<HealthCheckView>,
    pub max_memory_mb: Option<u64>,
    pub startup_delay_ms: Option<u64>,
    pub env_inherit: bool,
    pub hooks: HooksView,
    pub tags: Seq<Seq<char>>,
    pub max_uptime_secs: Option<u64>,
}

impl View for AppSpec {
    type V = AppSpecView;

    open spec fn view(&self) -> AppSpecView {
        AppSpecView {
            id: self.id,
            name: self.name@,
            mode: self.mode,
            command: self.command@,
            args: texts(self.args@),
            cwd: self.cwd@,
            env: pairs(self.env@),
            watch: self.watch,
            ignore_patterns: texts(self.ignore_patterns@),
            restart_policy: self.restart_policy,
            kill_timeout_ms: self.kill_timeout_ms,
            created_at: self.created_at,
            instances: self.instances,
            instance_id: self.instance_id,
            port: self.port,
            port_range: self.port_range,
            health_check: opt_health(self.health_check),
            max_memory_mb: self.max_memory_mb,
            startup_delay_ms: self.startup_delay_ms,
            env_inherit: self.env_inherit,
            hooks: self.hooks@,
            tags: texts(self.tags@),
            max_uptime_secs: self.max_uptime_secs,
        }
    }
}

/// The views of a list of specifications, in order.
pub open spec fn spec_views(v: Seq<AppSpec>) -> Seq<AppSpecView> {
    v.map_values(|s: AppSpec| s@)
}

/// A freshly created specification: id 0, one instance, default ignore
/// patterns, restart policy and kill timeout, and nothing else configured.
pub open spec fn new_spec(
    name: Seq<char>,
    mode: AppMode,
    command: Seq<char>,
    cwd: Seq<char>,
    created_at: i64,
) -> AppSpecView {
    AppSpecView {
        id: 0,
        name,
        mode,
        command,
        args: Seq::empty(),
        cwd,
        env: Seq::empty(),
        watch: false,
        ignore_patterns: default_ignore_texts(),
        restart_policy: default_restart_policy(),
        kill_timeout_ms: DEFAULT_KILL_TIMEOUT_MS,
        created_at,
        instances: 1,
        instance_id: None,
        port: None,
        port_range: None,
        health_check: None,
        max_memory_mb: None,
        startup_delay_ms: None,
        env_inherit: false,
        hooks: no_hooks(),
        tags: Seq::empty(),
        max_uptime_secs: None,
    }
}

/// The detail of the error for an invalid application name.
pub open spec fn invalid_name_detail(name: Seq<char>) -> Seq<char> {
    "Invalid app name '"@ + name
        + "': only alphanumeric characters, underscores, and hyphens are allowed"@
}

/// The display name of instance `i` of a cluster named `name`.
pub open spec fn instance_name(name: Seq<char>, i: u32) -> Seq<char> {
    name + seq!['-'] + decimal(i as nat)
}

/// The specification of instance `i` of the cluster `s`: the child's name
/// and index, and, where a port is assigned, the port and `PORT` in the
/// environment.
pub open spec fn instance_of(s: AppSpecView, i: u32, port: Option<u16>) -> AppSpecView {
    AppSpecView {
        instance_id: Some(i),
        name: instance_name(s.name, i),
        port: match port {
            Some(p) => Some(p),
            None => s.port,
        },
        env: match port {
            Some(p) => env_set(s.env, "PORT"@, decimal(p as nat)),
            None => s.env,
        },
        ..s
    }
}

impl Clone for AppSpec {
    fn clone(&self) -> (r: AppSpec)
        ensures
            r@ == self@,
    {
        AppSpec {
            id: self.id,
            name: self.name.clone(),
            mode: self.mode,
            command: self.command.clone(),
            args: copy_texts(&self.args),
            cwd: self.cwd.clone(),
            env: copy_env(&self.env),
            watch: self.watch,
            ignore_patterns: copy_texts(&self.ignore_patterns),
            restart_policy: self.restart_policy,
            kill_timeout_ms: self.kill_timeout_ms,
            created_at: self.created_at,
            instances: self.instances,
            instance_id: self.instance_id,
            port: self.port,
            port_range: self.port_range,
            health_check: copy_opt_health(&self.health_check),
            max_memory_mb: self.max_memory_mb,
            startup_delay_ms: self.startup_delay_ms,
            env_inherit: self.env_inherit,
            hooks: self.hooks.clone(),
            tags: copy_texts(&self.tags),
            max_uptime_secs: self.max_uptime_secs,
        }
    }
}

impl AppSpec {
    /// A new specification created at `created_at`, or a `ConfigError` when
    /// the name is not a valid application name.
    pub fn try_new_at(name: String, mode: AppMode, command: String, cwd: String, created_at: i64) -> (r:
        Result<AppSpec, Error>)
        ensures
            valid_app_name(name@) ==> r is Ok && r->Ok_0@ == new_spec(
                name@,
                mode,
                command@,
                cwd@,
                created_at,
            ),
            !valid_app_name(name@) ==> (r matches Err(Error::ConfigError(d)) && d@
                == invalid_name_detail(name@)),
    {
        if !validate_app_name(name.as_str()) {
            let mut d = copy_text("Invalid app name '");
            d.append(name.as_str());
            d.append("': only alphanumeric characters, underscores, and hyphens are allowed");
            assert(d@ =~= invalid_name_detail(name@));
            return Err(Error::ConfigError(d));
        }
        let spec = AppSpec {
            id: 0,
            name,
            mode,
            command,
            args: Vec::new(),
            cwd,
            env: Vec::new(),
            watch: false,
            ignore_patterns: default_ignore_patterns(),
            restart_policy: RestartPolicy::default(),
            kill_timeout_ms: DEFAULT_KILL_TIMEOUT_MS,
            created_at,
            instances: 1,
            instance_id: None,
            port: None,
            port_range: None,
            health_check: None,
            max_memory_mb: None,
            startup_delay_ms: None,
            env_inherit: false,
            hooks: Hooks::default(),
            tags: Vec::new(),
            max_uptime_secs: None,
        };
        assert(spec@.args =~= Seq::empty());
        assert(spec@.env =~= Seq::empty());
        assert(spec@.tags =~= Seq::empty());
        Ok(spec)
    }

    /// A new specification created now, or a `ConfigError` when the name is
    /// not a valid application name.
    pub fn try_new(name: String, mode: AppMode, command: String, cwd: String) -> (r: Result<
        AppSpec,
        Error,
    >)
        ensures
            valid_app_name(name@) ==> r is Ok && exists|t: i64|
                r->Ok_0@ == new_spec(name@, mode, command@, cwd@, t),
            !valid_app_name(name@) ==> (r matches Err(Error::ConfigError(d)) && d@
                == invalid_name_detail(name@)),
    {
        let now = utc_now_secs();
        AppSpec::try_new_at(name, mode, command, cwd, now)
    }

    /// A new specification created now, for a name known to be valid.
    pub fn new(name: String, mode: AppMode, command: String, cwd: String) -> (r: AppSpec)
        requires
            valid_app_name(name@),
        ensures
            exists|t: i64| r@ == new_spec(name@, mode, command@, cwd@, t),
    {
        match AppSpec::try_new(name, mode, command, cwd) {
            Ok(s) => s,
            Err(_) => {
                assert(false);
                vstd::pervasive::unreached()
            },
        }
    }

    pub fn with_hooks(self, hooks: Hooks) -> (r: AppSpec)
        ensures
            r@ == (AppSpecView { hooks: hooks@, ..self@ }),
    {
        let mut s = self;
        s.hooks = hooks;
        s
    }

    pub fn with_instances(self, instances: u32) -> (r: AppSpec)
        ensures
            r@ == (AppSpecView { instances, ..self@ }),
    {
        let mut s = self;
        s.instances = instances;
        s
    }

    pub fn with_port(self, port: u16) -> (r: AppSpec)
        ensures
            r@ == (AppSpecView { port: Some(port), ..self@ }),
    {
        let mut s = self;
        s.port = Some(port);
        s
    }

    pub fn with_port_range(self, start: u16, end: u16) -> (r: AppSpec)
        ensures
            r@ == (AppSpecView { port_range: Some((start, end)), ..self@ }),
    {
        let mut s = self;
        s.port_range = Some((start, end));
        s
    }

    pub fn with_health_check(self, health_check: HealthCheck) -> (r: AppSpec)
        ensures
            r@ == (AppSpecView { health_check: Some(health_check@), ..self@ }),
    {
        let mut s = self;
        s.health_check = Some(health_check);
        s
    }

    pub fn with_max_memory(self, max_mb: u64) -> (r: AppSpec)
        ensures
            r@ == (AppSpecView { max_memory_mb: Some(max_mb), ..self@ }),
    {
        let mut s = self;
        s.max_memory_mb = Some(max_mb);
        s
    }

    pub fn with_startup_delay(self, delay_ms: u64) -> (r: AppSpec)
        ensures
            r@ == (AppSpecView { startup_delay_ms: Some(delay_ms), ..self@ }),
    {
        let mut s = self;
        s.startup_delay_ms = Some(delay_ms);
        s
    }

    pub fn with_env_inherit(self, inherit: bool) -> (r: AppSpec)
        ensures
            r@ == (AppSpecView { env_inherit: inherit, ..self@ }),
    {
        let mut s = self;
        s.env_inherit = inherit;
        s
    }

    pub fn with_tags(self, tags: Vec<String>) -> (r: AppSpec)
        ensures
            r@ == (AppSpecView { tags: texts(tags@), ..self@ }),
    {
        let mut s = self;
        s.tags = tags;
        s
    }

    pub fn with_max_uptime(self, secs: u64) -> (r: AppSpec)
        ensures
            r@ == (AppSpecView { max_uptime_secs: Some(secs), ..self@ }),
    {
        let mut s = self;
        s.max_uptime_secs = Some(secs);
        s
    }

    pub fn with_args(self, args: Vec<String>) -> (r: AppSpec)
        ensures
            r@ == (AppSpecView { args: texts(args@), ..self@ }),
    {
        let mut s = self;
        s.args = args;
        s
    }

    pub fn with_env(self, env: Vec<(String, String)>) -> (r: AppSpec)
        ensures
            r@ == (AppSpecView { env: pairs(env@), ..self@ }),
    {
        let mut s = self;
        s.env = env;
        s
    }

    pub fn with_watch(self, watch: bool) -> (r: AppSpec)
        ensures
            r@ == (AppSpecView { watch, ..self@ }),
    {
        let mut s = self;
        s.watch = watch;
        s
    }

    pub fn with_ignore_patterns(self, patterns: Vec<String>) -> (r: AppSpec)
        ensures
            r@ == (AppSpecView { ignore_patterns: texts(patterns@), ..self@ }),
    {
        let mut s = self;
        s.ignore_patterns = patterns;
        s
    }

    /// The specification of instance `instance_id` of this cluster.
    pub fn for_instance(&self, instance_id: u32, port: Option<u16>) -> (r: AppSpec)
        ensures
            r@ == instance_of(self@, instance_id, port),
    {
        let mut instance = self.clone();
        instance.instance_id = Some(instance_id);
        let mut name = self.name.clone();
        push_char(&mut name, '-');
        push_decimal(&mut name, instance_id as u64);
        assert(name@ =~= instance_name(self.name@, instance_id));
        instance.name = name;
        match port {
            Some(p) => {
                instance.port = Some(p);
                env_insert(&mut instance.env, "PORT", decimal_string(p as u64));
            },
            None => {},
        }
        instance
    }
}

/// How a request addresses applications.
#[derive(Debug, PartialEq, Eq)]
pub enum Selector {
    All,
    ById(u32),
    ByName(String),
    /// Written `@tag`.
    ByTag(String),
}

/// The mathematical value of [`Selector`].
pub enum SelectorView {
    All,
    ById(u32),
    ByName(Seq<char>),
    ByTag(Seq<char>),
}

impl View for Selector {
    type V = SelectorView;

    open spec fn view(&self) -> SelectorView {
        match self {
            Selector::All => SelectorView::All,
            Selector::ById(id) => SelectorView::ById(*id),
            Selector::ByName(n) => SelectorView::ByName(n@),
            Selector::ByTag(t) => SelectorView::ByTag(t@),
        }
    }
}

/// The selector that a text names: `all` in any letter case selects
/// everything; a leading `@` selects by the tag after it; a decimal number
/// that fits 32 bits selects by id; anything else is a name.
pub open spec fn parse_selector(s: Seq<char>) -> SelectorView {
    if lower(s) == "all"@ {
        SelectorView::All
    } else if s.len() > 0 && s[0] == '@' {
        SelectorView::ByTag(s.subrange(1, s.len() as int))
    } else if is_number_up_to(s, u32::MAX as nat) {
        SelectorView::ById(decimal_value(s) as u32)
    } else {
        SelectorView::ByName(s)
    }
}

/// Whether a selector selects a specification.
pub open spec fn selects(sel: SelectorView, spec: AppSpecView) -> bool {
    match sel {
        SelectorView::All => true,
        SelectorView::ById(id) => spec.id == id,
        SelectorView::ByName(n) => spec.name == n,
        SelectorView::ByTag(t) => spec.tags.contains(t),
    }
}

/// The text that names a selector.
pub open spec fn selector_text(sel: SelectorView) -> Seq<char> {
    match sel {
        SelectorView::All => "all"@,
        SelectorView::ById(id) => decimal(id as nat),
        SelectorView::ByName(n) => n,
        SelectorView::ByTag(t) => seq!['@'] + t,
    }
}

impl Clone for Selector {
    fn clone(&self) -> (r: Selector)
        ensures
            r@ == self@,
    {
        match self {
            Selector::All => Selector::All,
            Selector::ById(id) => Selector::ById(*id),
            Selector::ByName(n) => Selector::ByName(n.clone()),
            Selector::ByTag(t) => Selector::ByTag(t.clone()),
        }
    }
}

impl Selector {
    /// The selector that `s` names.
    pub fn parse(s: &str) -> (r: Selector)
        ensures
            r@ == parse_selector(s@),
    {
        let low = lower_string(s);
        if same_text(low.as_str(), "all") {
            return Selector::All;
        }
        let v = chars_of(s);
        if v.len() > 0 && v[0] == '@' {
            return Selector::ByTag(string_of(&v, 1, v.len()));
        }
        assert(v@.subrange(0, v.len() as int) =~= v@);
        match parse_digits(&v, 0, v.len(), 0xffff_ffff) {
            Some(n) => Selector::ById(n as u32),
            None => Selector::ByName(copy_text(s)),
        }
    }

    /// Whether this selector selects `spec`.
    pub fn matches(&self, spec: &AppSpec) -> (r: bool)
        ensures
            r == selects(self@, spec@),
    {
        match self {
            Selector::All => true,
            Selector::ById(id) => spec.id == *id,
            Selector::ByName(name) => same_text(spec.name.as_str(), name.as_str()),
            Selector::ByTag(tag) => contains_string(&spec.tags, tag.as_str()),
        }
    }

    /// The text that names this selector.
    pub fn to_string(&self) -> (r: String)
        ensures
            r@ == selector_text(self@),
    {
        match self {
            Selector::All => copy_text("all"),
            Selector::ById(id) => decimal_string(*id as u64),
            Selector::ByName(name) => name.clone(),
            Selector::ByTag(tag) => {
                let mut out = String::new();
                push_char(&mut out, '@');
                out.append(tag.as_str());
                assert(out@ =~= seq!['@'] + tag@);
                out
            },
        }
    }
}

/// A specification with its live state, as status queries report it.
#[derive(Debug)]
pub struct AppInfo {
    pub spec: AppSpec,
    pub state: RunState,
}

/// The mathematical value of [`AppInfo`].
pub struct AppInfoView {
    pub spec: AppSpecView,
    pub state: RunState,
}

impl View for AppInfo {
    type V = AppInfoView;

    open spec fn view(&self) -> AppInfoView {
        AppInfoView { spec: self.spec@, state: self.state }
    }
}

impl AppInfo {
    pub fn new(spec: AppSpec, state: RunState) -> (r: AppInfo)
        ensures
            r@ == (AppInfoView { spec: spec@, state }),
    {
        AppInfo { spec, state }
    }
}

impl Clone for AppInfo {
    fn clone(&self) -> (r: AppInfo)
        ensures
            r@ == self@,
    {
        AppInfo { spec: self.spec.clone(), state: self.state }
    }
}

} // verus!
