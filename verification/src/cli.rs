//! Texts that the command line takes: `KEY=VALUE` pairs and durations such
//! as `1h30m`.

use crate::appspec::{
    copy_env, env_insert, env_set, invalid_name_detail, pairs, AppSpec, AppSpecView,
};
use crate::check::strip_end;
use crate::config::{env_loaded, extension, extension_of, is_absolute, load_env_file};
use crate::constants::{
    default_ignore_patterns, default_ignore_texts, DEFAULT_CRASH_WINDOW_SECS,
};
use crate::appspec::{parse_selector, Selector};
use crate::error::Error;
use crate::ipc::Request;
use crate::runtime::{dir_name, name_of_dir, stem_of, RustRunner};
use crate::text::{copy_opt_text, copy_texts, decimal, lines, opt_text, push_decimal, texts};
use crate::types::{
    detected_mode, mode_of_name, utc_now_secs, valid_app_name, validate_app_name, AppMode,
    Hooks, HooksView, RestartPolicy,
};
use crate::logs::{file_part, last_index};
use crate::text::{
    chars_of, copy_text, decimal_value, find_char, first_index, is_digit,
    lemma_decimal_value_push, lower, lower_string, matches_at, occurs_at, push_char, string_of,
    trim, trimmed,
};
use vstd::prelude::*;
use vstd::string::*;

verus! {

/// The two sides of the first `=` in `s`, if `s` holds one.
pub open spec fn key_value(s: Seq<char>) -> Option<(Seq<char>, Seq<char>)> {
    let eq = first_index(s, '=');
    if 0 <= eq && eq < s.len() {
        Some((s.subrange(0, eq), s.subrange(eq + 1, s.len() as int)))
    } else {
        None
    }
}

/// The key and the value of `KEY=VALUE`; the value may hold `=`.
pub fn parse_env(s: &str) -> (r: Result<(String, String), String>)
    ensures
        match key_value(s@) {
            Some((k, v)) => r matches Ok(p) && p.0@ == k && p.1@ == v,
            None => r matches Err(m) && m@ == "Expected KEY=VALUE format"@,
        },
{
    let v = chars_of(s);
    assert(v@.subrange(0, v.len() as int) =~= v@);
    let eq = find_char(&v, 0, v.len(), '=');
    if eq < v.len() {
        Ok((string_of(&v, 0, eq), string_of(&v, eq + 1, v.len())))
    } else {
        Err(copy_text("Expected KEY=VALUE format"))
    }
}

/// Why a text is no duration.
pub enum DurationError {
    /// The text is empty.
    Empty,
    /// A unit stands without a number before it.
    Format,
    /// The number with these digits is too large.
    Number(Seq<char>),
    /// This character is no unit.
    Unit(char),
    /// The duration is zero.
    Zero,
    /// The duration is too large.
    Overflow,
}

/// The seconds that a unit stands for.
pub open spec fn unit_secs(c: char) -> Option<nat> {
    if c == 's' {
        Some(1)
    } else if c == 'm' {
        Some(60)
    } else if c == 'h' {
        Some(3600)
    } else if c == 'd' {
        Some(86400)
    } else {
        None
    }
}

/// What has been read of a duration: the seconds of the groups read, and
/// the digits of the number being read.
pub struct Scan {
    pub total: nat,
    pub digits: Seq<char>,
}

/// Reading one more character of a duration.
pub open spec fn scan_step(st: Result<Scan, DurationError>, c: char) -> Result<Scan, DurationError> {
    match st {
        Err(e) => Err(e),
        Ok(s) => if is_digit(c) {
            Ok(Scan { total: s.total, digits: s.digits.push(c) })
        } else if s.digits.len() == 0 {
            Err(DurationError::Format)
        } else if decimal_value(s.digits) > u64::MAX {
            Err(DurationError::Number(s.digits))
        } else {
            match unit_secs(c) {
                None => Err(DurationError::Unit(c)),
                Some(m) => if s.total + decimal_value(s.digits) * m > u64::MAX {
                    Err(DurationError::Overflow)
                } else {
                    Ok(Scan { total: s.total + decimal_value(s.digits) * m, digits: Seq::empty() })
                },
            }
        },
    }
}

/// Reading the characters of `text`, in order.
pub open spec fn scan(text: Seq<char>) -> Result<Scan, DurationError>
    decreases text.len(),
{
    if text.len() == 0 {
        Ok(Scan { total: 0, digits: Seq::empty() })
    } else {
        scan_step(scan(text.drop_last()), text.last())
    }
}

/// The seconds that a text stands for: groups of a number and a unit
/// (`s`, `m`, `h`, `d`, in either letter case), added up; a number at the
/// end without a unit counts as seconds. White space around the text is
/// left out.
pub open spec fn duration_of(input: Seq<char>) -> Result<nat, DurationError> {
    let t = lower(trim(input));
    if t.len() == 0 {
        Err(DurationError::Empty)
    } else {
        match scan(t) {
            Err(e) => Err(e),
            Ok(s) => if s.digits.len() > 0 && decimal_value(s.digits) > u64::MAX {
                Err(DurationError::Number(s.digits))
            } else {
                let total = if s.digits.len() > 0 {
                    s.total + decimal_value(s.digits)
                } else {
                    s.total
                };
                if total > u64::MAX {
                    Err(DurationError::Overflow)
                } else if total == 0 {
                    Err(DurationError::Zero)
                } else {
                    Ok(total)
                }
            },
        }
    }
}

/// The message for a text that is no duration, where `text` is the text
/// in lower case and without the white space around it.
pub open spec fn duration_error_text(e: DurationError, text: Seq<char>) -> Seq<char> {
    match e {
        DurationError::Empty => "Empty duration string"@,
        DurationError::Format => "Invalid duration format: "@ + text,
        DurationError::Number(d) => "Invalid number in duration: "@ + d,
        DurationError::Unit(c) => "Unknown duration unit: "@.push(c),
        DurationError::Zero => "Duration must be greater than 0"@,
        DurationError::Overflow => "Duration too large"@,
    }
}

proof fn lemma_scan_error_sticks(text: Seq<char>, i: int)
    requires
        0 <= i <= text.len(),
        scan(text.subrange(0, i)) is Err,
    ensures
        scan(text) == scan(text.subrange(0, i)),
    decreases text.len() - i,
{
    if i == text.len() {
        assert(text.subrange(0, i) =~= text);
    } else {
        let next = text.subrange(0, i + 1);
        assert(next.drop_last() =~= text.subrange(0, i));
        lemma_scan_error_sticks(text, i + 1);
    }
}

proof fn lemma_value_grows(s: Seq<char>, c: char)
    ensures
        decimal_value(s.push(c)) >= decimal_value(s),
{
    lemma_decimal_value_push(s, c);
    assert(decimal_value(s) * 10 >= decimal_value(s)) by (nonlinear_arith);
}

/// The seconds that `s` stands for, or the message that says why it stands
/// for none.
pub fn parse_duration(s: &str) -> (r: Result<u64, String>)
    ensures
        match duration_of(s@) {
            Ok(n) => r == Ok::<u64, String>(n as u64),
            Err(e) => r matches Err(m) && m@ == duration_error_text(e, lower(trim(s@))),
        },
{
    let trimmed_text = trimmed(s);
    let low = lower_string(trimmed_text.as_str());
    let v = chars_of(low.as_str());
    let ghost t = v@;
    if v.len() == 0 {
        return Err(copy_text("Empty duration string"));
    }
    let mut total: u64 = 0;
    let mut num: u64 = 0;
    let mut too_big = false;
    let mut start: usize = 0;
    let mut i: usize = 0;
    assert(t.subrange(0, 0) =~= Seq::<char>::empty());
    assert(t.subrange(0, 0).subrange(0, 0) =~= Seq::<char>::empty());
    while i < v.len()
        invariant
            start <= i <= v.len(),
            t == v@,
            t == low@,
            t == lower(trim(s@)),
            scan(t.subrange(0, i as int)) == Ok::<Scan, DurationError>(
                Scan { total: total as nat, digits: t.subrange(start as int, i as int) },
            ),
            !too_big ==> num == decimal_value(t.subrange(start as int, i as int)),
            too_big ==> decimal_value(t.subrange(start as int, i as int)) > u64::MAX,
        decreases v.len() - i,
    {
        let c = v[i];
        let ghost digits = t.subrange(start as int, i as int);
        let ghost before = t.subrange(0, i as int);
        proof {
            let next = t.subrange(0, i + 1);
            assert(next.drop_last() =~= before);
            assert(next.last() == c);
        }
        if c >= '0' && c <= '9' {
            let d: u64 = (c as u32 - '0' as u32) as u64;
            proof {
                assert(t.subrange(start as int, i + 1) =~= digits.push(c));
                lemma_decimal_value_push(digits, c);
                lemma_value_grows(digits, c);
            }
            if !too_big {
                if num > (0xffff_ffff_ffff_ffff - d) / 10 {
                    too_big = true;
                    assert(num * 10 + d > u64::MAX) by (nonlinear_arith)
                        requires
                            num > (0xffff_ffff_ffff_ffff - d) / 10,
                            d < 10,
                    ;
                } else {
                    assert(num * 10 + d <= u64::MAX) by (nonlinear_arith)
                        requires
                            num <= (0xffff_ffff_ffff_ffff - d) / 10,
                            d < 10,
                    ;
                    num = num * 10 + d;
                }
            }
            i = i + 1;
        } else {
            if i == start {
                proof {
                    assert(scan(t.subrange(0, i + 1)) == Err::<Scan, DurationError>(
                        DurationError::Format,
                    ));
                    lemma_scan_error_sticks(t, i + 1);
                }
                let mut m = copy_text("Invalid duration format: ");
                m.append(low.as_str());
                return Err(m);
            }
            if too_big {
                proof {
                    assert(scan(t.subrange(0, i + 1)) == Err::<Scan, DurationError>(
                        DurationError::Number(digits),
                    ));
                    lemma_scan_error_sticks(t, i + 1);
                }
                let mut m = copy_text("Invalid number in duration: ");
                let d = string_of(&v, start, i);
                m.append(d.as_str());
                return Err(m);
            }
            let unit: u64 = if c == 's' {
                1
            } else if c == 'm' {
                60
            } else if c == 'h' {
                3600
            } else if c == 'd' {
                86400
            } else {
                proof {
                    assert(scan(t.subrange(0, i + 1)) == Err::<Scan, DurationError>(
                        DurationError::Unit(c),
                    ));
                    lemma_scan_error_sticks(t, i + 1);
                }
                let mut m = copy_text("Unknown duration unit: ");
                push_char(&mut m, c);
                return Err(m);
            };
            assert(unit_secs(c) == Some(unit as nat));
            let fits = num <= 0xffff_ffff_ffff_ffff / unit && num * unit <= 0xffff_ffff_ffff_ffff
                - total;
            if !fits {
                proof {
                    if num > 0xffff_ffff_ffff_ffffu64 / unit {
                        assert(num * unit > u64::MAX) by (nonlinear_arith)
                            requires
                                num > 0xffff_ffff_ffff_ffffu64 / unit,
                                unit > 0,
                        ;
                    }
                    assert(scan(t.subrange(0, i + 1)) == Err::<Scan, DurationError>(
                        DurationError::Overflow,
                    ));
                    lemma_scan_error_sticks(t, i + 1);
                }
                return Err(copy_text("Duration too large"));
            }
            total = total + num * unit;
            num = 0;
            start = i + 1;
            i = i + 1;
            assert(t.subrange(start as int, i as int) =~= Seq::<char>::empty());
        }
    }
    assert(t.subrange(0, v.len() as int) =~= t);
    if start < v.len() {
        if too_big {
            let mut m = copy_text("Invalid number in duration: ");
            let d = string_of(&v, start, v.len());
            m.append(d.as_str());
            return Err(m);
        }
        if num > 0xffff_ffff_ffff_ffff - total {
            return Err(copy_text("Duration too large"));
        }
        total = total + num;
    }
    if total == 0 {
        return Err(copy_text("Duration must be greater than 0"));
    }
    Ok(total)
}

/// `s` ends with `suffix`.
pub open spec fn has_suffix(s: Seq<char>, suffix: Seq<char>) -> bool {
    suffix.len() <= s.len() && s.subrange(s.len() - suffix.len(), s.len() as int) == suffix
}

/// `s` without the suffix `suffix`, as often as it ends with it.
pub open spec fn without_suffix(s: Seq<char>, suffix: Seq<char>) -> Seq<char>
    decreases s.len(),
{
    if suffix.len() > 0 && has_suffix(s, suffix) {
        without_suffix(s.subrange(0, s.len() - suffix.len()), suffix)
    } else {
        s
    }
}

/// A repository's address without the slashes and the `.git` at its end.
pub open spec fn repo_base(url: Seq<char>) -> Seq<char> {
    without_suffix(strip_end(url, '/'), ".git"@)
}

/// The name of the repository at an address: what follows the last `/`
/// of the address, its trailing slashes and `.git` left out.
pub open spec fn repo_name(url: Seq<char>) -> Seq<char> {
    file_part(repo_base(url))
}

/// The name of the repository at `url`, or a message if the address holds
/// none.
pub fn extract_repo_name(url: &str) -> (r: Result<String, String>)
    ensures
        repo_name(url@).len() > 0 ==> (r matches Ok(name) && name@ == repo_name(url@)),
        repo_name(url@).len() == 0 ==> (r matches Err(m) && m@
            == "Could not extract repository name from URL: "@ + repo_base(url@)),
{
    proof {
        reveal_strlit(".git");
    }
    let v = chars_of(url);
    let suffix = chars_of(".git");
    assert(v@.subrange(0, v.len() as int) =~= v@);
    let mut end: usize = v.len();
    while end > 0 && v[end - 1] == '/'
        invariant
            end <= v.len(),
            strip_end(v@, '/') == strip_end(v@.subrange(0, end as int), '/'),
        decreases end,
    {
        let ghost cur = v@.subrange(0, end as int);
        assert(cur.last() == v[end - 1]);
        assert(cur.drop_last() =~= v@.subrange(0, end - 1));
        end = end - 1;
    }
    proof {
        let cur = v@.subrange(0, end as int);
        if end > 0 {
            assert(cur.last() == v[end - 1]);
        }
    }
    let ghost stripped = v@.subrange(0, end as int);
    assert(stripped == strip_end(v@, '/'));
    while end >= 4 && matches_at(&v, &suffix, end - 4) && end - 4 + 4 <= v.len()
        invariant
            end <= v.len(),
            suffix@ == ".git"@,
            suffix@.len() == 4,
            without_suffix(stripped, ".git"@) == without_suffix(
                v@.subrange(0, end as int),
                ".git"@,
            ),
        decreases end,
    {
        let ghost cur = v@.subrange(0, end as int);
        assert(cur.subrange(cur.len() - 4, cur.len() as int) =~= v@.subrange(end - 4, end as int));
        assert(has_suffix(cur, ".git"@));
        assert(cur.subrange(0, cur.len() - 4) =~= v@.subrange(0, end - 4));
        end = end - 4;
    }
    proof {
        let cur = v@.subrange(0, end as int);
        if end >= 4 {
            assert(cur.subrange(cur.len() - 4, cur.len() as int) =~= v@.subrange(
                end - 4,
                end as int,
            ));
            assert(!occurs_at(v@, suffix@, end - 4));
        }
        assert(!has_suffix(cur, ".git"@));
    }
    let mut base: Vec<char> = Vec::new();
    let mut k: usize = 0;
    while k < end
        invariant
            k <= end <= v.len(),
            base@ == v@.subrange(0, k as int),
        decreases end - k,
    {
        base.push(v[k]);
        k = k + 1;
        assert(base@ =~= v@.subrange(0, k as int));
    }
    assert(base@ == repo_base(url@));
    let mut start: usize = end;
    assert(base@.subrange(0, end as int) =~= base@);
    while start > 0 && base[start - 1] != '/'
        invariant
            start <= end,
            end == base.len(),
            last_index(base@, '/') == last_index(base@.subrange(0, start as int), '/'),
        decreases start,
    {
        let ghost cur = base@.subrange(0, start as int);
        assert(cur.last() == base[start - 1]);
        assert(cur.drop_last() =~= base@.subrange(0, start - 1));
        start = start - 1;
    }
    proof {
        let cur = base@.subrange(0, start as int);
        if start > 0 {
            assert(cur.last() == base[start - 1]);
        }
        assert(last_index(base@, '/') == start - 1);
    }
    if start == end {
        let mut m = copy_text("Could not extract repository name from URL: ");
        let text = string_of(&base, 0, end);
        m.append(text.as_str());
        assert(base@.subrange(0, end as int) =~= base@);
        return Err(m);
    }
    Ok(string_of(&base, start, end))
}

/// What the command line gives for a start.
#[derive(Debug)]
pub struct StartArgs {
    /// The file or directory to start.
    pub target: Option<String>,
    pub git: Option<String>,
    pub branch: Option<String>,
    pub clone_dir: Option<String>,
    pub name: Option<String>,
    pub cwd: Option<String>,
    pub envs: Vec<(String, String)>,
    pub env_file: Option<String>,
    pub watch: bool,
    pub ignore: Vec<String>,
    pub restart_delay: u64,
    pub max_restarts: u32,
    pub kill_timeout: u64,
    pub no_autorestart: bool,
    pub mode: Option<String>,
    pub script: Option<String>,
    pub bin: Option<String>,
    pub tag: Vec<String>,
    pub max_uptime: Option<u64>,
    pub startup_delay: Option<u64>,
    pub env_inherit: bool,
    pub on_start: Option<String>,
    pub on_stop: Option<String>,
    pub on_restart: Option<String>,
    pub on_crash: Option<String>,
    pub setup: bool,
    pub no_check: bool,
    /// The arguments passed on to the process.
    pub args: Vec<String>,
}

/// What a look at the target of a start showed.
#[derive(Debug)]
pub struct TargetFacts {
    pub is_dir: bool,
    pub has_cargo_toml: bool,
    pub has_package_json: bool,
    /// The working directory: the one given, else the target if it is a
    /// directory, else the directory of the target.
    pub cwd: String,
    /// The environment of the command line itself.
    pub inherited_env: Vec<(String, String)>,
    /// The content of the env file, if one is given and exists.
    pub env_file: Option<String>,
}

/// The mode of a start: the one named, else npm for a package script, else
/// the one detected for the target, else a raw command. `None` if the name
/// names no mode.
pub open spec fn start_mode(a: StartArgs, f: TargetFacts, target: Seq<char>) -> Option<AppMode> {
    match a.mode {
        Some(m) => mode_of_name(m@),
        None => if a.script is Some {
            Some(AppMode::Npm)
        } else {
            match detected_mode(f.is_dir, f.has_cargo_toml, f.has_package_json, extension_of(target)) {
                Some(m) => Some(m),
                None => Some(AppMode::Cmd),
            }
        },
    }
}

/// The command of a start: for a package script its name, `start` if none
/// is given; for a cargo project the binary, `.` if none is given; else the
/// target, by its file name unless it is absolute or a directory.
pub open spec fn start_command(a: StartArgs, f: TargetFacts, mode: AppMode, target: Seq<char>) -> Seq<
    char,
> {
    if mode == AppMode::Npm || mode == AppMode::Pnpm || mode == AppMode::Yarn {
        match a.script {
            Some(s) => s@,
            None => "start"@,
        }
    } else if mode == AppMode::Cargo {
        match a.bin {
            Some(b) => b@,
            None => "."@,
        }
    } else if is_absolute(target) {
        target
    } else if f.is_dir {
        "."@
    } else {
        match dir_name(target) {
            Some(n) => n,
            None => target,
        }
    }
}

/// The name of a start: the one given, else the name of the target
/// directory or the stem of the target file, else `app`.
pub open spec fn start_name(a: StartArgs, f: TargetFacts, target: Seq<char>) -> Seq<char> {
    match a.name {
        Some(n) => n@,
        None => if f.is_dir {
            match dir_name(target) {
                Some(n) => n,
                None => "app"@,
            }
        } else {
            stem_of(target)
        },
    }
}

/// `env` with the entries `over` set, in order.
pub open spec fn env_overlaid(env: Seq<(Seq<char>, Seq<char>)>, over: Seq<(Seq<char>, Seq<char>)>) -> Seq<
    (Seq<char>, Seq<char>),
>
    decreases over.len(),
{
    if over.len() == 0 {
        env
    } else {
        env_set(env_overlaid(env, over.drop_last()), over.last().0, over.last().1)
    }
}

/// The environment of a start: the inherited one if asked for, overlaid
/// with the env file's entries, overlaid with the entries given.
pub open spec fn start_env(a: StartArgs, f: TargetFacts) -> Seq<(Seq<char>, Seq<char>)> {
    let base = if a.env_inherit {
        pairs(f.inherited_env@)
    } else {
        Seq::empty()
    };
    let filed = match f.env_file {
        Some(c) => env_loaded(base, lines(c@)),
        None => base,
    };
    env_overlaid(filed, pairs(a.envs@))
}

/// The specification that a start stands for, created at `created_at`.
pub open spec fn start_spec(a: StartArgs, f: TargetFacts, created_at: i64) -> AppSpecView {
    let target = a.target->0@;
    let mode = start_mode(a, f, target)->0;
    AppSpecView {
        id: 0,
        name: start_name(a, f, target),
        mode,
        command: start_command(a, f, mode, target),
        args: texts(a.args@),
        cwd: f.cwd@,
        env: start_env(a, f),
        watch: a.watch,
        ignore_patterns: default_ignore_texts() + texts(a.ignore@),
        restart_policy: RestartPolicy {
            auto_restart: !a.no_autorestart,
            max_restarts: a.max_restarts,
            restart_delay_ms: a.restart_delay,
            crash_window_secs: DEFAULT_CRASH_WINDOW_SECS,
        },
        kill_timeout_ms: a.kill_timeout,
        created_at,
        instances: 1,
        instance_id: None,
        port: None,
        port_range: None,
        health_check: None,
        max_memory_mb: None,
        startup_delay_ms: a.startup_delay,
        env_inherit: a.env_inherit,
        hooks: HooksView {
            on_start: opt_text(a.on_start),
            on_stop: opt_text(a.on_stop),
            on_restart: opt_text(a.on_restart),
            on_crash: opt_text(a.on_crash),
            on_error: None,
        },
        tags: texts(a.tag@),
        max_uptime_secs: a.max_uptime,
    }
}

/// Sets the entries `over` in `env`, in order.
pub fn overlay_env(env: &mut Vec<(String, String)>, over: &Vec<(String, String)>)
    ensures
        pairs(final(env)@) == env_overlaid(pairs(old(env)@), pairs(over@)),
{
    let mut i: usize = 0;
    assert(pairs(over@).subrange(0, 0) =~= Seq::<(Seq<char>, Seq<char>)>::empty());
    while i < over.len()
        invariant
            i <= over.len(),
            pairs(env@) == env_overlaid(pairs(old(env)@), pairs(over@).subrange(0, i as int)),
        decreases over.len() - i,
    {
        proof {
            let next = pairs(over@).subrange(0, i + 1);
            assert(next.drop_last() =~= pairs(over@).subrange(0, i as int));
            assert(next.last() == (over[i as int].0@, over[i as int].1@));
        }
        env_insert(env, over[i].0.as_str(), over[i].1.clone());
        i = i + 1;
    }
    assert(pairs(over@).subrange(0, over.len() as int) =~= pairs(over@));
}

/// The specification that the arguments of a start stand for, created at
/// `created_at`.
///
/// Without a target the start is refused with `ConfigError`; with a mode
/// name that names none, with `InvalidMode`; with a name that is no valid
/// application name, with `ConfigError`.
pub fn build_app_spec_at(args: &StartArgs, facts: &TargetFacts, created_at: i64) -> (r: Result<
    AppSpec,
    Error,
>)
    ensures
        args.target is None ==> (r matches Err(Error::ConfigError(d)) && d@
            == "No target specified"@),
        args.target matches Some(t) && start_mode(*args, *facts, t@) is None ==> (r matches Err(
            Error::InvalidMode(d),
        ) && args.mode matches Some(m) && d@ == m@),
        args.target matches Some(t) && start_mode(*args, *facts, t@) is Some && !valid_app_name(
            start_name(*args, *facts, t@),
        ) ==> (r matches Err(Error::ConfigError(d)) && d@ == invalid_name_detail(
            start_name(*args, *facts, args.target->0@),
        )),
        args.target matches Some(t) && start_mode(*args, *facts, t@) is Some && valid_app_name(
            start_name(*args, *facts, t@),
        ) ==> (r matches Ok(s) && s@ == start_spec(*args, *facts, created_at)),
{
    let target = match &args.target {
        Some(t) => t.as_str(),
        None => {
            return Err(Error::ConfigError(copy_text("No target specified")));
        },
    };
    let mode = match &args.mode {
        Some(m) => match AppMode::parse(m.as_str()) {
            Ok(mode) => mode,
            Err(e) => {
                return Err(e);
            },
        },
        None => if args.script.is_some() {
            AppMode::Npm
        } else {
            let ext = extension(target);
            let detected = match &ext {
                Some(e) => AppMode::detect(
                    facts.is_dir,
                    facts.has_cargo_toml,
                    facts.has_package_json,
                    Some(e.as_str()),
                ),
                None => AppMode::detect(
                    facts.is_dir,
                    facts.has_cargo_toml,
                    facts.has_package_json,
                    None,
                ),
            };
            match detected {
                Some(m) => m,
                None => AppMode::Cmd,
            }
        },
    };
    let name = match &args.name {
        Some(n) => n.clone(),
        None => if facts.is_dir {
            match name_of_dir(target) {
                Some(n) => n,
                None => copy_text("app"),
            }
        } else {
            RustRunner::file_stem(target)
        },
    };
    if !validate_app_name(name.as_str()) {
        let mut d = copy_text("Invalid app name '");
        d.append(name.as_str());
        d.append("': only alphanumeric characters, underscores, and hyphens are allowed");
        assert(d@ =~= invalid_name_detail(name@));
        return Err(Error::ConfigError(d));
    }
    let command = match mode {
        AppMode::Npm | AppMode::Pnpm | AppMode::Yarn => match &args.script {
            Some(s) => s.clone(),
            None => copy_text("start"),
        },
        AppMode::Cargo => match &args.bin {
            Some(b) => b.clone(),
            None => copy_text("."),
        },
        _ => {
            let chars = crate::text::chars_of(target);
            if chars.len() > 0 && chars[0] == '/' {
                copy_text(target)
            } else if facts.is_dir {
                copy_text(".")
            } else {
                match name_of_dir(target) {
                    Some(n) => n,
                    None => copy_text(target),
                }
            }
        },
    };
    let mut env: Vec<(String, String)> = if args.env_inherit {
        copy_env(&facts.inherited_env)
    } else {
        Vec::new()
    };
    assert(!args.env_inherit ==> pairs(env@) =~= Seq::<(Seq<char>, Seq<char>)>::empty());
    match &facts.env_file {
        Some(content) => {
            load_env_file(content.as_str(), &mut env);
        },
        None => {},
    }
    overlay_env(&mut env, &args.envs);
    let mut ignore = default_ignore_patterns();
    let mut i: usize = 0;
    while i < args.ignore.len()
        invariant
            i <= args.ignore.len(),
            texts(ignore@) == default_ignore_texts() + texts(args.ignore@).subrange(0, i as int),
        decreases args.ignore.len() - i,
    {
        let ghost earlier = texts(ignore@);
        ignore.push(args.ignore[i].clone());
        assert(texts(ignore@) =~= earlier.push(args.ignore[i as int]@));
        i = i + 1;
        assert(texts(args.ignore@).subrange(0, i as int) =~= texts(args.ignore@).subrange(
            0,
            i - 1,
        ).push(args.ignore[i - 1]@));
        assert(texts(ignore@) =~= default_ignore_texts() + texts(args.ignore@).subrange(
            0,
            i as int,
        ));
    }
    assert(texts(args.ignore@).subrange(0, args.ignore.len() as int) =~= texts(args.ignore@));
    Ok(
        AppSpec {
            id: 0,
            name,
            mode,
            command,
            args: copy_texts(&args.args),
            cwd: facts.cwd.clone(),
            env,
            watch: args.watch,
            ignore_patterns: ignore,
            restart_policy: RestartPolicy {
                auto_restart: !args.no_autorestart,
                max_restarts: args.max_restarts,
                restart_delay_ms: args.restart_delay,
                crash_window_secs: DEFAULT_CRASH_WINDOW_SECS,
            },
            kill_timeout_ms: args.kill_timeout,
            created_at,
            instances: 1,
            instance_id: None,
            port: None,
            port_range: None,
            health_check: None,
            max_memory_mb: None,
            startup_delay_ms: args.startup_delay,
            env_inherit: args.env_inherit,
            hooks: Hooks {
                on_start: copy_opt_text(&args.on_start),
                on_stop: copy_opt_text(&args.on_stop),
                on_restart: copy_opt_text(&args.on_restart),
                on_crash: copy_opt_text(&args.on_crash),
                on_error: None,
            },
            tags: copy_texts(&args.tag),
            max_uptime_secs: args.max_uptime,
        },
    )
}

/// The specification that the arguments of a start stand for, created now.
pub fn build_app_spec(args: &StartArgs, facts: &TargetFacts) -> (r: Result<AppSpec, Error>)
    ensures
        args.target is None ==> r matches Err(Error::ConfigError(_)),
        args.target matches Some(t) && start_mode(*args, *facts, t@) is None ==> r matches Err(
            Error::InvalidMode(_),
        ),
        args.target matches Some(t) && start_mode(*args, *facts, t@) is Some && !valid_app_name(
            start_name(*args, *facts, t@),
        ) ==> r matches Err(Error::ConfigError(_)),
        args.target matches Some(t) && start_mode(*args, *facts, t@) is Some && valid_app_name(
            start_name(*args, *facts, t@),
        ) ==> (r matches Ok(s) && exists|at: i64| s@ == start_spec(*args, *facts, at)),
{
    let now = utc_now_secs();
    build_app_spec_at(args, facts, now)
}

/// The arguments of the `logs` command.
#[derive(Debug)]
pub struct LogsArgs {
    pub selector: String,
    pub follow: bool,
    pub lines: usize,
    pub out: bool,
    pub err: bool,
    pub grep: Option<String>,
}

/// The system for which a startup script is written.
#[derive(Debug, Clone, Copy, PartialEq, Eq, Structural)]
pub enum StartupTarget {
    Systemd,
    Launchd,
}

/// The arguments of the `web` command.
#[derive(Debug)]
pub struct WebArgs {
    pub port: u16,
    pub api_key: Option<String>,
}

/// The arguments of the `check` command.
#[derive(Debug)]
pub struct CheckArgs {
    pub target: String,
    pub fix: bool,
    pub set_envs: Vec<(String, String)>,
}

/// The commands under `notify`.
#[derive(Debug)]
pub enum NotifyCommand {
    Telegram { token: String, chat: String },
    Remove { channel: String },
    Events { set: String },
    Status,
    Test,
}

/// The arguments of the `notify` command.
#[derive(Debug)]
pub struct NotifyArgs {
    pub command: NotifyCommand,
}

/// The commands of the command line.
#[derive(Debug)]
pub enum Commands {
    Start(StartArgs),
    Stop { selector: String },
    Restart { selector: String },
    Delete { selector: String },
    Status,
    Show { selector: String },
    Logs(LogsArgs),
    Ping,
    Save,
    Resurrect,
    Kill,
    Startup { target: Option<StartupTarget> },
    Monit,
    Web(WebArgs),
    Reload { selector: String },
    Flush { selector: String },
    Describe { target: String },
    Notify(NotifyArgs),
    Check(CheckArgs),
}

/// What the command line was called with.
#[derive(Debug)]
pub struct Cli {
    pub command: Commands,
    /// How often `-v` was given.
    pub verbose: u8,
    pub instances: u32,
    pub port: Option<u16>,
    pub health_check: Option<String>,
    pub json: bool,
}

/// The level of the log for a number of `-v`: warnings, then information,
/// then debugging, then everything.
pub open spec fn level_name(verbose: u8) -> Seq<char> {
    if verbose == 0 {
        "warn"@
    } else if verbose == 1 {
        "info"@
    } else if verbose == 2 {
        "debug"@
    } else {
        "trace"@
    }
}

/// The level of the log for `verbose` times `-v`.
pub fn log_level(verbose: u8) -> (r: &'static str)
    ensures
        r@ == level_name(verbose),
{
    if verbose == 0 {
        "warn"
    } else if verbose == 1 {
        "info"
    } else if verbose == 2 {
        "debug"
    } else {
        "trace"
    }
}

/// The filter of the log for `verbose` times `-v`.
pub fn log_filter(verbose: u8) -> (r: String)
    ensures
        r@ == "oxidepm="@ + level_name(verbose),
{
    let mut out = copy_text("oxidepm=");
    out.append(log_level(verbose));
    out
}

/// The address on which the web API listens for `port`: every interface.
pub fn bind_address(port: u16) -> (r: String)
    ensures
        r@ == "0.0.0.0:"@ + decimal(port as nat),
{
    let mut out = copy_text("0.0.0.0:");
    push_decimal(&mut out, port as u64);
    out
}

/// The system for which a startup script is written when none is named:
/// launchd on macOS, systemd anywhere else.
pub fn default_startup_target(macos: bool) -> (r: StartupTarget)
    ensures
        r == (if macos {
            StartupTarget::Launchd
        } else {
            StartupTarget::Systemd
        }),
{
    if macos {
        StartupTarget::Launchd
    } else {
        StartupTarget::Systemd
    }
}

/// The request that a command sends to the daemon is the right one: each
/// command that names applications sends its selector, parsed; the logs
/// command also what it asks of the logs. The commands that do not ask the
/// daemon, and the start, whose request carries a specification, send
/// none.
pub open spec fn request_ok(c: Commands, r: Option<Request>) -> bool {
    match c {
        Commands::Stop { selector } => r matches Some(Request::Stop { selector: s }) && s@
            == parse_selector(selector@),
        Commands::Restart { selector } => r matches Some(Request::Restart { selector: s }) && s@
            == parse_selector(selector@),
        Commands::Delete { selector } => r matches Some(Request::Delete { selector: s }) && s@
            == parse_selector(selector@),
        Commands::Reload { selector } => r matches Some(Request::Reload { selector: s }) && s@
            == parse_selector(selector@),
        Commands::Flush { selector } => r matches Some(Request::Flush { selector: s }) && s@
            == parse_selector(selector@),
        Commands::Show { selector } => r matches Some(Request::Show { selector: s }) && s@
            == parse_selector(selector@),
        Commands::Describe { target } => r matches Some(Request::Describe { selector: s }) && s@
            == parse_selector(target@),
        Commands::Logs(a) => r matches Some(
            Request::Logs { selector: s, lines, follow, stdout, stderr },
        ) && s@ == parse_selector(a.selector@) && lines == a.lines && follow == a.follow
            && stdout == a.out && stderr == a.err,
        Commands::Status => r == Some(Request::Status),
        Commands::Ping => r == Some(Request::Ping),
        Commands::Save => r == Some(Request::Save),
        Commands::Resurrect => r == Some(Request::Resurrect),
        Commands::Kill => r == Some(Request::Kill),
        _ => r is None,
    }
}

/// The request that a command sends to the daemon.
pub fn request_of(command: &Commands) -> (r: Option<Request>)
    ensures
        request_ok(*command, r),
{
    match command {
        Commands::Stop { selector } => Some(
            Request::Stop { selector: Selector::parse(selector.as_str()) },
        ),
        Commands::Restart { selector } => Some(
            Request::Restart { selector: Selector::parse(selector.as_str()) },
        ),
        Commands::Delete { selector } => Some(
            Request::Delete { selector: Selector::parse(selector.as_str()) },
        ),
        Commands::Reload { selector } => Some(
            Request::Reload { selector: Selector::parse(selector.as_str()) },
        ),
        Commands::Flush { selector } => Some(
            Request::Flush { selector: Selector::parse(selector.as_str()) },
        ),
        Commands::Show { selector } => Some(
            Request::Show { selector: Selector::parse(selector.as_str()) },
        ),
        Commands::Describe { target } => Some(
            Request::Describe { selector: Selector::parse(target.as_str()) },
        ),
        Commands::Logs(a) => Some(
            Request::Logs {
                selector: Selector::parse(a.selector.as_str()),
                lines: a.lines,
                follow: a.follow,
                stdout: a.out,
                stderr: a.err,
            },
        ),
        Commands::Status => Some(Request::Status),
        Commands::Ping => Some(Request::Ping),
        Commands::Save => Some(Request::Save),
        Commands::Resurrect => Some(Request::Resurrect),
        Commands::Kill => Some(Request::Kill),
        _ => None,
    }
}

} // verus!
