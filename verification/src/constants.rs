//! Constants, default values and the file-system layout under the manager's
//! home directory. Paths are texts with `/` between their components.

use crate::text::{chars_of, copy_text, opt_text, push_char, texts};
use vstd::prelude::*;
use vstd::string::*;

verus! {

/// Name of the manager's directory under the user's home.
pub const OXIDEPM_DIR: &'static str = ".oxidepm";

/// Name of the domain socket.
pub const SOCKET_FILE: &'static str = "daemon.sock";

/// Name of the registry file.
pub const DB_FILE: &'static str = "oxidepm.db";

/// Name of the resurrect snapshot.
pub const SAVED_FILE: &'static str = "saved.json";

/// Name of the log directory.
pub const LOGS_DIR: &'static str = "logs";

/// Name of the directory for cloned repositories.
pub const REPOS_DIR: &'static str = "repos";

/// Default restart delay in milliseconds.
pub const DEFAULT_RESTART_DELAY_MS: u64 = 500;

/// Default number of restarts allowed within the crash window.
pub const DEFAULT_MAX_RESTARTS: u32 = 15;

/// Default graceful-to-forceful kill timeout in milliseconds.
pub const DEFAULT_KILL_TIMEOUT_MS: u64 = 3000;

/// Default crash window in seconds.
pub const DEFAULT_CRASH_WINDOW_SECS: u64 = 60;

/// Default size at which a log file is rotated (10 MiB).
pub const DEFAULT_LOG_MAX_SIZE: u64 = 10485760;

/// Default number of rotated log files kept.
pub const DEFAULT_LOG_MAX_FILES: usize = 5;

/// Default debounce window of the file watcher in milliseconds.
pub const DEFAULT_DEBOUNCE_MS: u64 = 200;

/// Default metrics polling interval in seconds.
pub const DEFAULT_METRICS_INTERVAL_SECS: u64 = 2;

/// The names under which a declarative config file is looked for, in
/// priority order.
pub open spec fn config_file_names() -> Seq<Seq<char>> {
    seq![
        "oxidepm.config.toml"@,
        "oxidepm.toml"@,
        "ecosystem.config.toml"@,
        "oxidepm.config.yaml"@,
        "oxidepm.config.yml"@,
        "oxidepm.yaml"@,
        "oxidepm.yml"@,
        "ecosystem.config.yaml"@,
        "ecosystem.config.yml"@,
        "oxidepm.config.json"@,
        "oxidepm.json"@,
        "ecosystem.config.json"@,
    ]
}

/// The ignore patterns that watch mode starts from.
pub open spec fn default_ignore_texts() -> Seq<Seq<char>> {
    seq![
        "target"@,
        "node_modules"@,
        ".git"@,
        ".oxidepm"@,
        "*.swp"@,
        "*.swo"@,
        ".DS_Store"@,
    ]
}

/// `base` extended by the component `name`: an absolute `name` replaces
/// `base`; otherwise one `/` separates the two unless `base` is empty or ends
/// in one.
pub open spec fn join_path(base: Seq<char>, name: Seq<char>) -> Seq<char> {
    if name.len() > 0 && name[0] == '/' {
        name
    } else if base.len() == 0 || base.last() == '/' {
        base + name
    } else {
        base + seq!['/'] + name
    }
}

/// The manager's home directory, given the user's home directory if known.
pub open spec fn home_under(user_home: Option<Seq<char>>) -> Seq<char> {
    match user_home {
        Some(h) => join_path(h, OXIDEPM_DIR@),
        None => OXIDEPM_DIR@,
    }
}

/// The name of the log file of `app_name` for the stream `stream`.
pub open spec fn log_file_name(app_name: Seq<char>, stream: Seq<char>) -> Seq<char> {
    app_name + seq!['-'] + stream + ".log"@
}

/// The names of the config files, in priority order.
pub fn config_files() -> (r: Vec<String>)
    ensures
        texts(r@) == config_file_names(),
{
    let mut v: Vec<String> = Vec::new();
    v.push(copy_text("oxidepm.config.toml"));
    v.push(copy_text("oxidepm.toml"));
    v.push(copy_text("ecosystem.config.toml"));
    v.push(copy_text("oxidepm.config.yaml"));
    v.push(copy_text("oxidepm.config.yml"));
    v.push(copy_text("oxidepm.yaml"));
    v.push(copy_text("oxidepm.yml"));
    v.push(copy_text("ecosystem.config.yaml"));
    v.push(copy_text("ecosystem.config.yml"));
    v.push(copy_text("oxidepm.config.json"));
    v.push(copy_text("oxidepm.json"));
    v.push(copy_text("ecosystem.config.json"));
    assert(texts(v@) =~= config_file_names());
    v
}

/// The default ignore patterns of watch mode.
pub fn default_ignore_patterns() -> (r: Vec<String>)
    ensures
        texts(r@) == default_ignore_texts(),
{
    let mut v: Vec<String> = Vec::new();
    v.push(copy_text("target"));
    v.push(copy_text("node_modules"));
    v.push(copy_text(".git"));
    v.push(copy_text(".oxidepm"));
    v.push(copy_text("*.swp"));
    v.push(copy_text("*.swo"));
    v.push(copy_text(".DS_Store"));
    assert(texts(v@) =~= default_ignore_texts());
    v
}

/// Joins a path and a component as [`join_path`] says.
pub fn join(base: &str, name: &str) -> (r: String)
    ensures
        r@ == join_path(base@, name@),
{
    let b = chars_of(base);
    let n = chars_of(name);
    if n.len() > 0 && n[0] == '/' {
        return copy_text(name);
    }
    let mut out = copy_text(base);
    if !(b.len() == 0 || b[b.len() - 1] == '/') {
        push_char(&mut out, '/');
    }
    out.append(name);
    assert(out@ =~= join_path(base@, name@));
    out
}

/// dirs::home_dir: the user's home directory as the operating system and
/// the environment give it, or `None`. Nothing is claimed of the value.
#[verifier::external_body]
pub(crate) fn user_home_dir() -> (r: Option<String>) {
    match dirs::home_dir() {
        Some(p) => Some(p.to_string_lossy().into_owned()),
        None => None,
    }
}

/// The manager's home directory for a given user home.
pub fn oxidepm_home_in(user_home: &Option<String>) -> (r: String)
    ensures
        r@ == home_under(opt_text(*user_home)),
{
    match user_home {
        Some(h) => join(h.as_str(), OXIDEPM_DIR),
        None => copy_text(OXIDEPM_DIR),
    }
}

/// The manager's home directory: `.oxidepm` under the user's home, or the
/// relative path `.oxidepm` when no home is known.
pub fn oxidepm_home() -> (r: String)
    ensures
        exists|h: Option<Seq<char>>| r@ == home_under(h),
{
    let h = user_home_dir();
    let r = oxidepm_home_in(&h);
    assert(r@ == home_under(opt_text(h)));
    r
}

/// The path of the domain socket.
pub fn socket_path() -> (r: String)
    ensures
        exists|h: Option<Seq<char>>| r@ == join_path(home_under(h), SOCKET_FILE@),
{
    let home = oxidepm_home();
    join(home.as_str(), SOCKET_FILE)
}

/// The path of the registry file.
pub fn db_path() -> (r: String)
    ensures
        exists|h: Option<Seq<char>>| r@ == join_path(home_under(h), DB_FILE@),
{
    let home = oxidepm_home();
    join(home.as_str(), DB_FILE)
}

/// The path of the resurrect snapshot.
pub fn saved_path() -> (r: String)
    ensures
        exists|h: Option<Seq<char>>| r@ == join_path(home_under(h), SAVED_FILE@),
{
    let home = oxidepm_home();
    join(home.as_str(), SAVED_FILE)
}

/// The log directory.
pub fn logs_dir() -> (r: String)
    ensures
        exists|h: Option<Seq<char>>| r@ == join_path(home_under(h), LOGS_DIR@),
{
    let home = oxidepm_home();
    join(home.as_str(), LOGS_DIR)
}

/// The directory for cloned repositories.
pub fn repos_dir() -> (r: String)
    ensures
        exists|h: Option<Seq<char>>| r@ == join_path(home_under(h), REPOS_DIR@),
{
    let home = oxidepm_home();
    join(home.as_str(), REPOS_DIR)
}

/// The path of a log file inside the log directory `dir`.
pub fn log_path_in(dir: &str, app_name: &str, stream: &str) -> (r: String)
    ensures
        r@ == join_path(dir@, log_file_name(app_name@, stream@)),
{
    let mut name = copy_text(app_name);
    push_char(&mut name, '-');
    name.append(stream);
    name.append(".log");
    assert(name@ =~= log_file_name(app_name@, stream@));
    join(dir, name.as_str())
}

/// The path of the log file of `app_name` for `stream` (`out`, `err`, ...).
pub fn log_path(app_name: &str, stream: &str) -> (r: String)
    ensures
        exists|h: Option<Seq<char>>|
            r@ == join_path(
                join_path(home_under(h), LOGS_DIR@),
                log_file_name(app_name@, stream@),
            ),
{
    let dir = logs_dir();
    log_path_in(dir.as_str(), app_name, stream)
}

} // verus!
