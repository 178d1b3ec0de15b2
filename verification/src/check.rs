//! Preflight checks: what a look at a project directory means for a start,
//! which port a project asks for, and which port is free.

use crate::logs::split_lines;
use crate::text::{
    chars_of,
    contains_text,
    copy_text,
    decimal,
    find_char,
    find_text,
    has_prefix,
    is_digit,
    join_texts,
    joined,
    lines,
    matches_at,
    occurs_at,
    parse_digits,
    parse_number_plus,
    push_char,
    push_decimal,
    same_text,
    split_words,
    string_of,
    texts,
    trim,
    trim_bounds,
    words,
};
use vstd::prelude::*;
use vstd::string::*;

verus! {

/// How one check came out.
#[derive(Debug, Clone, Copy, PartialEq, Eq, Structural)]
pub enum CheckStatus {
    Okay,
    Warn,
    Error,
    Info,
    Fixed,
}

/// The label of a status, in brackets.
pub open spec fn status_prefix(s: CheckStatus) -> Seq<char> {
    match s {
        CheckStatus::Okay => "[OK]"@,
        CheckStatus::Warn => "[WARN]"@,
        CheckStatus::Error => "[ERROR]"@,
        CheckStatus::Info => "[INFO]"@,
        CheckStatus::Fixed => "[FIX]"@,
    }
}

impl CheckStatus {
    /// The label of this status, in brackets.
    pub fn prefix(&self) -> (r: String)
        ensures
            r@ == status_prefix(*self),
    {
        match self {
            CheckStatus::Okay => copy_text("[OK]"),
            CheckStatus::Warn => copy_text("[WARN]"),
            CheckStatus::Error => copy_text("[ERROR]"),
            CheckStatus::Info => copy_text("[INFO]"),
            CheckStatus::Fixed => copy_text("[FIX]"),
        }
    }
}

/// The result of one check.
#[derive(Debug)]
pub struct CheckResult {
    pub status: CheckStatus,
    pub message: String,
    pub fix_hint: Option<String>,
}

/// The mathematical value of [`CheckResult`].
pub struct CheckResultView {
    pub status: CheckStatus,
    pub message: Seq<char>,
    pub fix_hint: Option<Seq<char>>,
}

impl View for CheckResult {
    type V = CheckResultView;

    open spec fn view(&self) -> CheckResultView {
        CheckResultView {
            status: self.status,
            message: self.message@,
            fix_hint: crate::text::opt_text(self.fix_hint),
        }
    }
}

/// The views of a list of results, in order.
pub open spec fn result_views(v: Seq<CheckResult>) -> Seq<CheckResultView> {
    v.map_values(|r: CheckResult| r@)
}

impl Clone for CheckResult {
    fn clone(&self) -> (r: CheckResult)
        ensures
            r@ == self@,
    {
        CheckResult {
            status: self.status,
            message: self.message.clone(),
            fix_hint: crate::text::copy_opt_text(&self.fix_hint),
        }
    }
}

/// A result without a hint.
fn plain(status: CheckStatus, message: &str) -> (r: CheckResult)
    ensures
        r@ == (CheckResultView { status, message: message@, fix_hint: None }),
{
    CheckResult { status, message: copy_text(message), fix_hint: None }
}

/// A result with a hint.
fn hinted(status: CheckStatus, message: &str, hint: &str) -> (r: CheckResult)
    ensures
        r@ == (CheckResultView { status, message: message@, fix_hint: Some(hint@) }),
{
    CheckResult { status, message: copy_text(message), fix_hint: Some(copy_text(hint)) }
}

/// The number of results with the status `status`.
pub open spec fn count_status(rs: Seq<CheckResultView>, status: CheckStatus) -> nat
    decreases rs.len(),
{
    if rs.len() == 0 {
        0
    } else {
        count_status(rs.drop_last(), status) + (if rs.last().status == status {
            1nat
        } else {
            0nat
        })
    }
}

/// A result stands in the way of a start: an error, or a warning about
/// `node_modules`.
pub open spec fn is_blocking(r: CheckResultView) -> bool {
    r.status == CheckStatus::Error || (r.status == CheckStatus::Warn && contains_text(
        r.message,
        "node_modules"@,
    ))
}

/// Some result stands in the way of a start.
pub open spec fn any_blocking(rs: Seq<CheckResultView>) -> bool {
    exists|i: int| 0 <= i < rs.len() && is_blocking(#[trigger] rs[i])
}

/// The lines of the blocking message: one for each warning and each error.
pub open spec fn blocking_lines(rs: Seq<CheckResultView>) -> Seq<char>
    decreases rs.len(),
{
    if rs.len() == 0 {
        Seq::empty()
    } else {
        blocking_lines(rs.drop_last()) + (if rs.last().status == CheckStatus::Warn
            || rs.last().status == CheckStatus::Error {
            "  - "@ + rs.last().message + "\n"@
        } else {
            Seq::empty()
        })
    }
}

/// What the preflight checks came to.
#[derive(Debug)]
pub struct PreflightSummary {
    pub results: Vec<CheckResult>,
    pub warnings: usize,
    pub errors: usize,
    pub has_blocking_issues: bool,
}

impl PreflightSummary {
    /// Whether nothing stands in the way of a start.
    pub fn can_start(&self) -> (r: bool)
        ensures
            r == !self.has_blocking_issues,
    {
        !self.has_blocking_issues
    }

    /// The message that lists what stands in the way.
    pub fn blocking_message(&self) -> (r: String)
        ensures
            r@ == "Cannot start - missing dependencies:\n"@ + blocking_lines(
                result_views(self.results@),
            ),
    {
        let mut out = copy_text("Cannot start - missing dependencies:\n");
        let ghost head = out@;
        let mut i: usize = 0;
        assert(result_views(self.results@).subrange(0, 0) =~= Seq::<CheckResultView>::empty());
        assert(out@ =~= head + blocking_lines(result_views(self.results@).subrange(0, 0)));
        while i < self.results.len()
            invariant
                i <= self.results.len(),
                head == "Cannot start - missing dependencies:\n"@,
                out@ == head + blocking_lines(result_views(self.results@).subrange(0, i as int)),
            decreases self.results.len() - i,
        {
            proof {
                let next = result_views(self.results@).subrange(0, i + 1);
                assert(next.drop_last() =~= result_views(self.results@).subrange(0, i as int));
                assert(next.last() == self.results[i as int]@);
            }
            let ghost earlier = out@;
            if self.results[i].status == CheckStatus::Warn || self.results[i].status
                == CheckStatus::Error {
                out.append("  - ");
                out.append(self.results[i].message.as_str());
                out.append("\n");
                assert(out@ =~= earlier + ("  - "@ + self.results[i as int].message@ + "\n"@));
            }
            i = i + 1;
            assert(out@ =~= head + blocking_lines(
                result_views(self.results@).subrange(0, i as int),
            ));
        }
        assert(result_views(self.results@).subrange(0, self.results.len() as int)
            =~= result_views(self.results@));
        out
    }
}

/// The summary of the results of the preflight checks: how many warnings
/// and errors there are, and whether anything stands in the way of a start.
pub fn run_preflight_checks(results: Vec<CheckResult>) -> (r: PreflightSummary)
    ensures
        r.results == results,
        r.warnings == count_status(result_views(results@), CheckStatus::Warn),
        r.errors == count_status(result_views(results@), CheckStatus::Error),
        r.has_blocking_issues == any_blocking(result_views(results@)),
{
    let needle = chars_of("node_modules");
    let mut warnings: usize = 0;
    let mut errors: usize = 0;
    let mut blocking = false;
    let mut i: usize = 0;
    assert(result_views(results@).subrange(0, 0) =~= Seq::<CheckResultView>::empty());
    while i < results.len()
        invariant
            i <= results.len(),
            needle@ == "node_modules"@,
            warnings == count_status(
                result_views(results@).subrange(0, i as int),
                CheckStatus::Warn,
            ),
            errors == count_status(result_views(results@).subrange(0, i as int), CheckStatus::Error),
            warnings <= i,
            errors <= i,
            blocking == exists|j: int|
                0 <= j < i && is_blocking(#[trigger] result_views(results@)[j]),
        decreases results.len() - i,
    {
        proof {
            let next = result_views(results@).subrange(0, i + 1);
            assert(next.drop_last() =~= result_views(results@).subrange(0, i as int));
            assert(next.last() == results[i as int]@);
            assert(result_views(results@)[i as int] == results[i as int]@);
        }
        let status = results[i].status;
        if status == CheckStatus::Warn {
            warnings = warnings + 1;
        }
        if status == CheckStatus::Error {
            errors = errors + 1;
        }
        let mut here = status == CheckStatus::Error;
        if status == CheckStatus::Warn {
            let text = chars_of(results[i].message.as_str());
            here = find_text(&text, &needle).is_some();
        }
        assert(here == is_blocking(result_views(results@)[i as int]));
        blocking = blocking || here;
        i = i + 1;
    }
    assert(result_views(results@).subrange(0, results.len() as int) =~= result_views(results@));
    PreflightSummary { results, warnings, errors, has_blocking_issues: blocking }
}

/// The kind of project that a directory holds.
#[derive(Debug, Clone, Copy, PartialEq, Eq, Structural)]
pub enum ProjectType {
    NodeJs,
    Cargo,
    Generic,
}

/// The name of a project type.
pub open spec fn project_type_name(t: ProjectType) -> Seq<char> {
    match t {
        ProjectType::NodeJs => "nodejs"@,
        ProjectType::Cargo => "cargo"@,
        ProjectType::Generic => "generic"@,
    }
}

impl ProjectType {
    pub fn as_str(&self) -> (r: &'static str)
        ensures
            r@ == project_type_name(*self),
    {
        match self {
            ProjectType::NodeJs => "nodejs",
            ProjectType::Cargo => "cargo",
            ProjectType::Generic => "generic",
        }
    }
}

/// The kind of project in a directory: a package if it holds
/// `package.json`, else a cargo project if it holds `Cargo.toml`.
pub fn detect_project_type(has_package_json: bool, has_cargo_toml: bool) -> (r: ProjectType)
    ensures
        r == (if has_package_json {
            ProjectType::NodeJs
        } else if has_cargo_toml {
            ProjectType::Cargo
        } else {
            ProjectType::Generic
        }),
{
    if has_package_json {
        ProjectType::NodeJs
    } else if has_cargo_toml {
        ProjectType::Cargo
    } else {
        ProjectType::Generic
    }
}

/// What a look at a cargo project's directory showed.
#[derive(Debug, Clone, Copy, PartialEq, Eq, Structural)]
pub struct CargoFacts {
    pub has_cargo_toml: bool,
    pub has_cargo_lock: bool,
    pub has_target_dir: bool,
    pub has_debug: bool,
    pub has_release: bool,
}

/// The check of the lock file.
pub open spec fn lock_check(f: CargoFacts) -> CheckResultView {
    if f.has_cargo_lock {
        CheckResultView { status: CheckStatus::Okay, message: "Cargo.lock found"@, fix_hint: None }
    } else {
        CheckResultView {
            status: CheckStatus::Warn,
            message: "Cargo.lock missing - dependencies not locked"@,
            fix_hint: Some("Run `cargo build` to generate Cargo.lock"@),
        }
    }
}

/// The check of the build directory.
pub open spec fn target_check(f: CargoFacts) -> CheckResultView {
    if !f.has_target_dir {
        CheckResultView {
            status: CheckStatus::Info,
            message: "target/ not found - project not built yet"@,
            fix_hint: Some("Run `cargo build` to build the project"@),
        }
    } else if f.has_release {
        CheckResultView {
            status: CheckStatus::Okay,
            message: "target/release/ found (release build available)"@,
            fix_hint: None,
        }
    } else if f.has_debug {
        CheckResultView {
            status: CheckStatus::Okay,
            message: "target/debug/ found (debug build available)"@,
            fix_hint: None,
        }
    } else {
        CheckResultView {
            status: CheckStatus::Info,
            message: "target/ exists but no builds found"@,
            fix_hint: Some("Run `cargo build` or `cargo build --release`"@),
        }
    }
}

/// The checks of a cargo project: without a manifest, that alone is
/// reported; else the manifest, the lock file and the build directory.
pub open spec fn cargo_checks(f: CargoFacts) -> Seq<CheckResultView> {
    if !f.has_cargo_toml {
        seq![
            CheckResultView {
                status: CheckStatus::Error,
                message: "Cargo.toml not found"@,
                fix_hint: Some("Run `cargo init` to create a new Cargo project"@),
            },
        ]
    } else {
        seq![
            CheckResultView { status: CheckStatus::Okay, message: "Cargo.toml found"@, fix_hint: None },
            lock_check(f),
            target_check(f),
        ]
    }
}

/// Adds the checks of a cargo project to `results`.
pub fn check_cargo_project(facts: CargoFacts, results: &mut Vec<CheckResult>)
    ensures
        result_views(final(results)@) == result_views(old(results)@) + cargo_checks(facts),
{
    let ghost before = result_views(results@);
    if !facts.has_cargo_toml {
        results.push(
            hinted(
                CheckStatus::Error,
                "Cargo.toml not found",
                "Run `cargo init` to create a new Cargo project",
            ),
        );
        assert(result_views(results@) =~= before + cargo_checks(facts));
        return ;
    }
    results.push(plain(CheckStatus::Okay, "Cargo.toml found"));
    if facts.has_cargo_lock {
        results.push(plain(CheckStatus::Okay, "Cargo.lock found"));
    } else {
        results.push(
            hinted(
                CheckStatus::Warn,
                "Cargo.lock missing - dependencies not locked",
                "Run `cargo build` to generate Cargo.lock",
            ),
        );
    }
    if !facts.has_target_dir {
        results.push(
            hinted(
                CheckStatus::Info,
                "target/ not found - project not built yet",
                "Run `cargo build` to build the project",
            ),
        );
    } else if facts.has_release {
        results.push(plain(CheckStatus::Okay, "target/release/ found (release build available)"));
    } else if facts.has_debug {
        results.push(plain(CheckStatus::Okay, "target/debug/ found (debug build available)"));
    } else {
        results.push(
            hinted(
                CheckStatus::Info,
                "target/ exists but no builds found",
                "Run `cargo build` or `cargo build --release`",
            ),
        );
    }
    assert(result_views(results@) =~= before + cargo_checks(facts));
}

/// The names under which a project's own config files are looked for.
pub open spec fn project_config_names() -> Seq<Seq<char>> {
    seq![
        "config.json"@,
        "config.toml"@,
        "config.yaml"@,
        "config.yml"@,
        ".config.json"@,
        ".config.toml"@,
        "settings.json"@,
        "settings.toml"@,
    ]
}

/// The names of `names` whose flag in `found` is set, in order.
pub open spec fn chosen(names: Seq<Seq<char>>, found: Seq<bool>) -> Seq<Seq<char>>
    decreases names.len(),
{
    if names.len() == 0 {
        Seq::empty()
    } else {
        let rest = chosen(names.drop_last(), found);
        if names.len() <= found.len() && found[names.len() - 1] {
            rest.push(names.last())
        } else {
            rest
        }
    }
}

/// The names under which a project's own config files are looked for.
pub fn project_config_files() -> (r: Vec<String>)
    ensures
        texts(r@) == project_config_names(),
{
    let mut v: Vec<String> = Vec::new();
    v.push(copy_text("config.json"));
    v.push(copy_text("config.toml"));
    v.push(copy_text("config.yaml"));
    v.push(copy_text("config.yml"));
    v.push(copy_text(".config.json"));
    v.push(copy_text(".config.toml"));
    v.push(copy_text("settings.json"));
    v.push(copy_text("settings.toml"));
    assert(texts(v@) =~= project_config_names());
    v
}

/// Adds the note on the project's own config files to `results`, where
/// `found[i]` says whether the file with the `i`-th name exists. Without
/// such a file nothing is added.
pub fn check_config_files(found: &Vec<bool>, results: &mut Vec<CheckResult>)
    ensures
        ({
            let names = chosen(project_config_names(), found@);
            if names.len() == 0 {
                result_views(final(results)@) == result_views(old(results)@)
            } else {
                result_views(final(results)@) == result_views(old(results)@).push(
                    CheckResultView {
                        status: CheckStatus::Info,
                        message: "Found config files: "@ + joined(names, ", "@),
                        fix_hint: None,
                    },
                )
            }
        }),
{
    let names = project_config_files();
    let mut picked: Vec<String> = Vec::new();
    let mut i: usize = 0;
    assert(texts(names@).subrange(0, 0) =~= Seq::<Seq<char>>::empty());
    assert(texts(picked@) =~= Seq::<Seq<char>>::empty());
    while i < names.len()
        invariant
            i <= names.len(),
            texts(names@) == project_config_names(),
            texts(picked@) == chosen(texts(names@).subrange(0, i as int), found@),
        decreases names.len() - i,
    {
        let ghost earlier = texts(picked@);
        proof {
            let next = texts(names@).subrange(0, i + 1);
            assert(next.drop_last() =~= texts(names@).subrange(0, i as int));
            assert(next.last() == names[i as int]@);
        }
        if i < found.len() && found[i] {
            picked.push(names[i].clone());
            assert(texts(picked@) =~= earlier.push(names[i as int]@));
        }
        i = i + 1;
    }
    assert(texts(names@).subrange(0, names.len() as int) =~= texts(names@));
    if picked.len() > 0 {
        let ghost before = result_views(results@);
        let mut message = copy_text("Found config files: ");
        let list = join_texts(&picked, ", ");
        message.append(list.as_str());
        let r = CheckResult { status: CheckStatus::Info, message, fix_hint: None };
        results.push(r);
        assert(result_views(results@) =~= before.push(r@));
    }
}

/// The first port from `start_port` on that is free, where `in_use[i]`
/// says whether the port `start_port + i` is in use.
pub open spec fn first_free(start_port: u16, in_use: Seq<bool>) -> Option<u16>
    decreases in_use.len(),
{
    if in_use.len() == 0 {
        None
    } else if !in_use[0] {
        Some(start_port)
    } else if start_port == 65535 {
        None
    } else {
        first_free((start_port + 1) as u16, in_use.drop_first())
    }
}

/// The port that the search gives is free, and every port from the start up
/// to it is in use (port `start_port + i` for every `i` below the
/// distance): it is the smallest free port not below the start. If the
/// search gives none, every port that was looked at is in use.
pub proof fn lemma_first_free_is_smallest(start_port: u16, in_use: Seq<bool>)
    ensures
        match first_free(start_port, in_use) {
            Some(q) => q >= start_port && q - start_port < in_use.len() && !in_use[q - start_port]
                && forall|i: int| 0 <= i < q - start_port ==> in_use[i],
            None => forall|i: int|
                0 <= i < in_use.len() && start_port + i <= 65535 ==> in_use[i],
        },
    decreases in_use.len(),
{
    if in_use.len() > 0 && in_use[0] && start_port < 65535 {
        let rest = in_use.drop_first();
        let next = (start_port + 1) as u16;
        lemma_first_free_is_smallest(next, rest);
        match first_free(next, rest) {
            Some(q) => {
                assert(in_use[q - start_port] == rest[q - next]);
                assert forall|i: int| 0 <= i < q - start_port implies in_use[i] by {
                    if i > 0 {
                        assert(in_use[i] == rest[i - 1]);
                    }
                }
            },
            None => {
                assert forall|i: int|
                    0 <= i < in_use.len() && start_port + i <= 65535 implies in_use[i] by {
                    if i > 0 {
                        assert(in_use[i] == rest[i - 1]);
                    }
                }
            },
        }
    }
}

/// The port to look at after `port` in the search for a free one: the one
/// above, while `port` is in use and is not the last there is; none once a
/// free port is found or the ports have run out.
pub open spec fn probe_after(port: u16, taken: bool) -> Option<u16> {
    if taken && port < 65535 {
        Some((port + 1) as u16)
    } else {
        None
    }
}

/// The port to look at after `port`, which was found in use or not.
pub fn next_probe(port: u16, taken: bool) -> (r: Option<u16>)
    ensures
        r == probe_after(port, taken),
{
    if taken && port < 65535 {
        Some(port + 1)
    } else {
        None
    }
}

/// The search looks at exactly the ports that decide it: where the ports
/// from `start_port` on were looked at one after the other as
/// [`next_probe`] says, and `in_use` holds what was found, the search ends
/// at the last of them, and the free port, if one was found, is that last
/// one.
pub proof fn lemma_probes_decide(start_port: u16, in_use: Seq<bool>)
    requires
        in_use.len() > 0,
        start_port + in_use.len() <= 65536,
        forall|i: int|
            0 <= i < in_use.len() - 1 ==> probe_after((start_port + i) as u16, #[trigger] in_use[i])
                == Some((start_port + i + 1) as u16),
        probe_after((start_port + in_use.len() - 1) as u16, in_use.last()) is None,
    ensures
        first_free(start_port, in_use) == (if in_use.last() {
            None
        } else {
            Some((start_port + in_use.len() - 1) as u16)
        }),
    decreases in_use.len(),
{
    if in_use.len() > 1 {
        let rest = in_use.drop_first();
        assert(in_use[0]);
        assert forall|i: int| 0 <= i < rest.len() - 1 implies probe_after(
            (start_port + 1 + i) as u16,
            #[trigger] rest[i],
        ) == Some((start_port + 1 + i + 1) as u16) by {
            assert(rest[i] == in_use[i + 1]);
        }
        assert(rest.last() == in_use.last());
        lemma_probes_decide((start_port + 1) as u16, rest);
    }
}

/// The smallest free port not below `start_port`, where `in_use[i]` says
/// whether the port `start_port + i` is in use.
pub fn find_available_port(start_port: u16, in_use: &Vec<bool>) -> (r: Option<u16>)
    ensures
        r == first_free(start_port, in_use@),
        match r {
            Some(q) => q >= start_port && q - start_port < in_use@.len() && !in_use@[q
                - start_port] && forall|i: int| 0 <= i < q - start_port ==> in_use@[i],
            None => forall|i: int|
                0 <= i < in_use@.len() && start_port + i <= 65535 ==> in_use@[i],
        },
{
    proof {
        lemma_first_free_is_smallest(start_port, in_use@);
    }
    let mut i: usize = 0;
    assert(in_use@.subrange(0, in_use.len() as int) =~= in_use@);
    while i < in_use.len() && i <= 65535 - start_port as usize
        invariant
            i <= in_use.len(),
            i <= 65536 - start_port,
            first_free(start_port, in_use@) == (if start_port + i <= 65535 {
                first_free((start_port + i) as u16, in_use@.subrange(i as int, in_use.len() as int))
            } else {
                None
            }),
        decreases in_use.len() - i,
    {
        let ghost rest = in_use@.subrange(i as int, in_use.len() as int);
        assert(rest[0] == in_use[i as int]);
        if !in_use[i] {
            proof {
                lemma_first_free_is_smallest(start_port, in_use@);
            }
            return Some(start_port + i as u16);
        }
        assert(rest.drop_first() =~= in_use@.subrange(i + 1, in_use.len() as int));
        i = i + 1;
    }
    None
}

/// Whether the port that a project asks for is taken, and which to use
/// instead.
#[derive(Debug, Clone, Copy, PartialEq, Eq, Structural)]
pub struct PortCheckResult {
    pub desired_port: u16,
    pub is_in_use: bool,
    /// The next free port, if the desired one is in use.
    pub available_port: Option<u16>,
}

/// What the check of the port `desired` comes to, where `in_use[i]` says
/// whether the port `desired + i` is in use.
pub open spec fn port_check(desired: u16, in_use: Seq<bool>) -> PortCheckResult {
    let taken = in_use.len() > 0 && in_use[0];
    PortCheckResult {
        desired_port: desired,
        is_in_use: taken,
        available_port: if taken && desired < 65535 {
            first_free((desired + 1) as u16, in_use.drop_first())
        } else {
            None
        },
    }
}

/// Checks the port that a project asks for, if it asks for one.
pub fn check_port_conflict(desired_port: Option<u16>, in_use: &Vec<bool>) -> (r: Option<
    PortCheckResult,
>)
    ensures
        r == (match desired_port {
            Some(d) => Some(port_check(d, in_use@)),
            None => None,
        }),
{
    match desired_port {
        None => None,
        Some(d) => {
            let taken = in_use.len() > 0 && in_use[0];
            let available = if taken && d < 65535 {
                let mut rest: Vec<bool> = Vec::new();
                let mut i: usize = 1;
                while i < in_use.len()
                    invariant
                        1 <= i <= in_use.len(),
                        rest@ == in_use@.subrange(1, i as int),
                    decreases in_use.len() - i,
                {
                    rest.push(in_use[i]);
                    i = i + 1;
                    assert(rest@ =~= in_use@.subrange(1, i as int));
                }
                assert(rest@ =~= in_use@.drop_first());
                find_available_port(d + 1, &rest)
            } else {
                None
            };
            Some(PortCheckResult { desired_port: d, is_in_use: taken, available_port: available })
        },
    }
}

/// `s` without the characters `c` at its start.
pub open spec fn strip_start(s: Seq<char>, c: char) -> Seq<char>
    decreases s.len(),
{
    if s.len() > 0 && s[0] == c {
        strip_start(s.drop_first(), c)
    } else {
        s
    }
}

/// `s` without the characters `c` at its end.
pub open spec fn strip_end(s: Seq<char>, c: char) -> Seq<char>
    decreases s.len(),
{
    if s.len() > 0 && s.last() == c {
        strip_end(s.drop_last(), c)
    } else {
        s
    }
}

/// `s` without the characters `c` at its start and at its end.
pub open spec fn strip_both(s: Seq<char>, c: char) -> Seq<char> {
    strip_end(strip_start(s, c), c)
}

proof fn lemma_strip_start_range(s: Seq<char>, c: char, i: int)
    requires
        0 <= i <= s.len(),
        forall|j: int| 0 <= j < i ==> s[j] == c,
        i < s.len() ==> s[i] != c,
    ensures
        strip_start(s, c) == s.subrange(i, s.len() as int),
    decreases i,
{
    if i == 0 {
        assert(s.subrange(0, s.len() as int) =~= s);
    } else {
        let rest = s.drop_first();
        assert forall|j: int| 0 <= j < i - 1 implies rest[j] == c by {
            assert(rest[j] == s[j + 1]);
        }
        lemma_strip_start_range(rest, c, i - 1);
        assert(rest.subrange(i - 1, rest.len() as int) =~= s.subrange(i, s.len() as int));
    }
}

proof fn lemma_strip_end_range(s: Seq<char>, c: char, i: int)
    requires
        0 <= i <= s.len(),
        forall|j: int| i <= j < s.len() ==> s[j] == c,
        i > 0 ==> s[i - 1] != c,
    ensures
        strip_end(s, c) == s.subrange(0, i),
    decreases s.len() - i,
{
    if i == s.len() {
        assert(s.subrange(0, i) =~= s);
    } else {
        let rest = s.drop_last();
        lemma_strip_end_range(rest, c, i);
        assert(rest.subrange(0, i) =~= s.subrange(0, i));
    }
}

/// The bounds of `v[from..to]` once the characters `c` at its start and at
/// its end are left out.
pub fn strip_bounds(v: &Vec<char>, from: usize, to: usize, c: char) -> (r: (usize, usize))
    requires
        from <= to <= v.len(),
    ensures
        from <= r.0 <= r.1 <= to,
        v@.subrange(r.0 as int, r.1 as int) == strip_both(v@.subrange(from as int, to as int), c),
{
    let ghost s = v@.subrange(from as int, to as int);
    let mut a: usize = from;
    while a < to && v[a] == c
        invariant
            from <= a <= to <= v.len(),
            s == v@.subrange(from as int, to as int),
            forall|j: int| 0 <= j < a - from ==> s[j] == c,
        decreases to - a,
    {
        a = a + 1;
    }
    proof {
        lemma_strip_start_range(s, c, a - from);
    }
    let ghost t = s.subrange(a - from, s.len() as int);
    let mut b: usize = to;
    while b > a && v[b - 1] == c
        invariant
            a <= b <= to <= v.len(),
            from <= a,
            s == v@.subrange(from as int, to as int),
            t == s.subrange(a - from, s.len() as int),
            forall|j: int| b - a <= j < t.len() ==> t[j] == c,
        decreases b,
    {
        b = b - 1;
    }
    proof {
        if b > a {
            assert(t[b - a - 1] == v[b - 1]);
        }
        lemma_strip_end_range(t, c, b - a);
        assert(t.subrange(0, b - a) =~= v@.subrange(a as int, b as int));
    }
    (a, b)
}

/// Reads `v[from..to]` as a port number: decimal digits, with one `+`
/// allowed in front, of a value that fits 16 bits.
fn parse_port(v: &Vec<char>, from: usize, to: usize) -> (r: Option<u16>)
    requires
        from <= to <= v.len(),
    ensures
        r == port_number(v@.subrange(from as int, to as int)),
{
    let ghost s = v@.subrange(from as int, to as int);
    let start = if to - from > 1 && v[from] == '+' {
        assert(s[0] == v[from as int]);
        assert(s.subrange(1, s.len() as int) =~= v@.subrange(from + 1, to as int));
        from + 1
    } else {
        if to - from > 1 {
            assert(s[0] == v[from as int]);
        }
        from
    };
    match parse_digits(v, start, to, 65535) {
        Some(n) => Some(n as u16),
        None => None,
    }
}

/// The port that a text spells.
pub open spec fn port_number(s: Seq<char>) -> Option<u16> {
    match parse_number_plus(s, 65535) {
        Some(n) => Some(n as u16),
        None => None,
    }
}

/// The port that a line of an env file sets: the line is `PORT=` and a
/// port, white space and quotes around the port left out. A comment and any
/// other line set none.
pub open spec fn env_line_port(line: Seq<char>) -> Option<u16> {
    let t = trim(line);
    if t.len() == 0 || t[0] == '#' || !has_prefix(t, "PORT="@) {
        None
    } else {
        port_number(strip_both(strip_both(trim(t.subrange(5, t.len() as int)), '"'), '\''))
    }
}

/// The port that the first of the lines `ls` to set one sets.
pub open spec fn env_port(ls: Seq<Seq<char>>) -> Option<u16>
    decreases ls.len(),
{
    if ls.len() == 0 {
        None
    } else {
        match env_line_port(ls[0]) {
            Some(p) => Some(p),
            None => env_port(ls.drop_first()),
        }
    }
}

/// The port that an env file's content sets.
pub fn parse_port_from_env(content: &str) -> (r: Option<u16>)
    ensures
        r == env_port(lines(content@)),
{
    proof {
        reveal_strlit("PORT=");
    }
    let key = chars_of("PORT=");
    let ls = split_lines(content);
    let mut i: usize = 0;
    assert(texts(ls@).subrange(0, ls.len() as int) =~= texts(ls@));
    while i < ls.len()
        invariant
            i <= ls.len(),
            key@ == "PORT="@,
            key@.len() == 5,
            texts(ls@) == lines(content@),
            env_port(texts(ls@)) == env_port(texts(ls@).subrange(i as int, ls.len() as int)),
        decreases ls.len() - i,
    {
        let ghost rest = texts(ls@).subrange(i as int, ls.len() as int);
        proof {
            assert(rest[0] == ls[i as int]@);
            assert(rest.drop_first() =~= texts(ls@).subrange(i + 1, ls.len() as int));
        }
        let v = chars_of(ls[i].as_str());
        assert(v@.subrange(0, v.len() as int) =~= v@);
        let (a, b) = trim_bounds(&v, 0, v.len());
        let ghost t = v@.subrange(a as int, b as int);
        let mut found: Option<u16> = None;
        if b > a && v[a] != '#' && b - a >= 5 {
            assert(t[0] == v[a as int]);
            let mut line: Vec<char> = Vec::new();
            let mut k: usize = a;
            while k < b
                invariant
                    a <= k <= b <= v.len(),
                    line@ == v@.subrange(a as int, k as int),
                decreases b - k,
            {
                line.push(v[k]);
                k = k + 1;
                assert(line@ =~= v@.subrange(a as int, k as int));
            }
            assert(line@ == t);
            if matches_at(&line, &key, 0) {
                assert(t.subrange(0, 5) =~= "PORT="@);
                let (va, vb) = trim_bounds(&line, 5, line.len());
                let (qa, qb) = strip_bounds(&line, va, vb, '"');
                let (sa, sb) = strip_bounds(&line, qa, qb, '\'');
                found = parse_port(&line, sa, sb);
            } else {
                assert(!has_prefix(t, "PORT="@)) by {
                    if has_prefix(t, "PORT="@) {
                        assert(occurs_at(t, "PORT="@, 0));
                    }
                }
            }
        } else {
            if b > a {
                assert(t[0] == v[a as int]);
            }
        }
        assert(found == env_line_port(ls[i as int]@));
        match found {
            Some(p) => {
                return Some(p);
            },
            None => {},
        }
        i = i + 1;
    }
    None
}

/// The index of the first character of `s` that is no digit, or the length
/// of `s`.
pub open spec fn digits_end(s: Seq<char>) -> int
    decreases s.len(),
{
    if s.len() == 0 {
        0
    } else if !is_digit(s[0]) {
        0
    } else {
        1 + digits_end(s.drop_first())
    }
}

proof fn lemma_digits_end_is(s: Seq<char>, i: int)
    requires
        0 <= i <= s.len(),
        forall|j: int| 0 <= j < i ==> is_digit(s[j]),
        i < s.len() ==> !is_digit(s[i]),
    ensures
        digits_end(s) == i,
    decreases i,
{
    if i > 0 {
        let rest = s.drop_first();
        assert forall|j: int| 0 <= j < i - 1 implies is_digit(rest[j]) by {
            assert(rest[j] == s[j + 1]);
        }
        lemma_digits_end_is(rest, i - 1);
    }
}

/// `i` is the first index at which `pat` occurs in `s`.
pub open spec fn first_occurrence(s: Seq<char>, pat: Seq<char>, i: int) -> bool {
    occurs_at(s, pat, i) && forall|j: int| 0 <= j < i ==> !occurs_at(s, pat, j)
}

/// The port that a script gives inline: the digits right after the first
/// `PORT=`, if they spell a port.
pub open spec fn inline_port(script: Seq<char>) -> Option<u16> {
    if exists|i: int| first_occurrence(script, "PORT="@, i) {
        let i = choose|i: int| first_occurrence(script, "PORT="@, i);
        let rest = script.subrange(i + 5, script.len() as int);
        port_number(rest.subrange(0, digits_end(rest)))
    } else {
        None
    }
}

/// The port that the flags `--port` and `-p` of a script give: that of the
/// first of them, from the word `from` on, that is followed by a port.
pub open spec fn flag_port(ws: Seq<Seq<char>>, from: int) -> Option<u16>
    decreases ws.len() - from,
{
    if from < 0 || from + 1 >= ws.len() {
        None
    } else if (ws[from] == "--port"@ || ws[from] == "-p"@) && port_number(ws[from + 1]) is Some {
        port_number(ws[from + 1])
    } else {
        flag_port(ws, from + 1)
    }
}

/// The port that a package script asks for: the inline one, else the one
/// that a flag gives.
pub open spec fn script_port(script: Seq<char>) -> Option<u16> {
    match inline_port(script) {
        Some(p) => Some(p),
        None => flag_port(words(script), 0),
    }
}

/// The port that a package script asks for, as in `PORT=3001 node app` or
/// `node app --port 3001`.
pub fn parse_port_from_script(script: &str) -> (r: Option<u16>)
    ensures
        r == script_port(script@),
{
    proof {
        reveal_strlit("PORT=");
    }
    let v = chars_of(script);
    let key = chars_of("PORT=");
    let mut inline: Option<u16> = None;
    match find_text(&v, &key) {
        Some(i) => {
            proof {
                assert(first_occurrence(v@, key@, i as int));
                let c = choose|c: int| first_occurrence(v@, "PORT="@, c);
                if c < i {
                    assert(!occurs_at(v@, key@, c));
                }
                if i < c {
                    assert(!occurs_at(v@, key@, i as int));
                }
                assert(c == i);
                assert(key@.len() == 5);
                assert(i + 5 <= v.len());
            }
            let start = i + 5;
            let ghost rest = v@.subrange(start as int, v.len() as int);
            let mut e: usize = start;
            while e < v.len() && v[e] >= '0' && v[e] <= '9'
                invariant
                    start <= e <= v.len(),
                    rest == v@.subrange(start as int, v.len() as int),
                    forall|j: int| 0 <= j < e - start ==> is_digit(rest[j]),
                decreases v.len() - e,
            {
                e = e + 1;
            }
            proof {
                if e < v.len() {
                    assert(rest[e - start] == v[e as int]);
                }
                lemma_digits_end_is(rest, e - start);
                assert(rest.subrange(0, e - start) =~= v@.subrange(start as int, e as int));
            }
            inline = parse_port(&v, start, e);
        },
        None => {
            assert(!exists|i: int| first_occurrence(v@, "PORT="@, i)) by {
                if exists|i: int| first_occurrence(v@, "PORT="@, i) {
                    let i = choose|i: int| first_occurrence(v@, "PORT="@, i);
                    assert(occurs_at(v@, key@, i));
                }
            }
        },
    }
    assert(inline == inline_port(script@));
    match inline {
        Some(p) => {
            return Some(p);
        },
        None => {},
    }
    let ws = split_words(script);
    let mut i: usize = 0;
    while i < ws.len() && ws.len() - i > 1
        invariant
            i <= ws.len(),
            texts(ws@) == words(script@),
            script_port(script@) == flag_port(texts(ws@), 0),
            flag_port(texts(ws@), 0) == flag_port(texts(ws@), i as int),
        decreases ws.len() - i,
    {
        assert(texts(ws@)[i as int] == ws[i as int]@);
        assert(texts(ws@)[i + 1] == ws[i + 1]@);
        let next = chars_of(ws[i + 1].as_str());
        assert(next@.subrange(0, next.len() as int) =~= next@);
        let port = parse_port(&next, 0, next.len());
        if (same_text(ws[i].as_str(), "--port") || same_text(ws[i].as_str(), "-p"))
            && port.is_some() {
            return port;
        }
        i = i + 1;
    }
    None
}

/// What a look at a project directory showed of the port it asks for.
#[derive(Debug)]
pub struct PortFacts {
    /// The content of `.env`, if it can be read.
    pub env: Option<String>,
    /// The content of `.env.local`, if it can be read.
    pub env_local: Option<String>,
    /// Whether `package.json` exists.
    pub has_package_json: bool,
    /// The `start` script of `package.json`, if it has one.
    pub start_script: Option<String>,
    /// The `dev` script of `package.json`, if it has one.
    pub dev_script: Option<String>,
    /// The content of `Cargo.toml`, if it can be read.
    pub cargo_toml: Option<String>,
}

/// The port that an optional env file sets.
pub open spec fn optional_env_port(content: Option<String>) -> Option<u16> {
    match content {
        Some(c) => env_port(lines(c@)),
        None => None,
    }
}

/// The port that an optional package script asks for.
pub open spec fn optional_script_port(script: Option<String>) -> Option<u16> {
    match script {
        Some(s) => script_port(s@),
        None => None,
    }
}

/// The manifest names one of the web frameworks that listen on port 8080.
pub open spec fn names_web_framework(manifest: Seq<char>) -> bool {
    contains_text(manifest, "actix-web"@) || contains_text(manifest, "axum"@) || contains_text(
        manifest,
        "rocket"@,
    ) || contains_text(manifest, "warp"@)
}

/// The port that a project asks for: that of `.env`, else of `.env.local`,
/// else of the package's `start` or `dev` script; a package that says
/// nothing asks for 3000, and a cargo project with a web framework for
/// 8080.
pub open spec fn project_port(f: PortFacts) -> Option<u16> {
    if optional_env_port(f.env) is Some {
        optional_env_port(f.env)
    } else if optional_env_port(f.env_local) is Some {
        optional_env_port(f.env_local)
    } else if f.has_package_json {
        if optional_script_port(f.start_script) is Some {
            optional_script_port(f.start_script)
        } else if optional_script_port(f.dev_script) is Some {
            optional_script_port(f.dev_script)
        } else {
            Some(3000u16)
        }
    } else if f.cargo_toml matches Some(m) && names_web_framework(m@) {
        Some(8080u16)
    } else {
        None
    }
}

/// Whether `text` holds `word`.
fn holds(text: &Vec<char>, word: &str) -> (r: bool)
    ensures
        r == contains_text(text@, word@),
{
    let w = chars_of(word);
    find_text(text, &w).is_some()
}

/// The port that a project asks for.
pub fn detect_project_port(facts: &PortFacts) -> (r: Option<u16>)
    ensures
        r == project_port(*facts),
{
    match &facts.env {
        Some(c) => {
            match parse_port_from_env(c.as_str()) {
                Some(p) => {
                    return Some(p);
                },
                None => {},
            }
        },
        None => {},
    }
    match &facts.env_local {
        Some(c) => {
            match parse_port_from_env(c.as_str()) {
                Some(p) => {
                    return Some(p);
                },
                None => {},
            }
        },
        None => {},
    }
    if facts.has_package_json {
        match &facts.start_script {
            Some(s) => {
                match parse_port_from_script(s.as_str()) {
                    Some(p) => {
                        return Some(p);
                    },
                    None => {},
                }
            },
            None => {},
        }
        match &facts.dev_script {
            Some(s) => {
                match parse_port_from_script(s.as_str()) {
                    Some(p) => {
                        return Some(p);
                    },
                    None => {},
                }
            },
            None => {},
        }
        return Some(3000);
    }
    match &facts.cargo_toml {
        Some(m) => {
            let text = chars_of(m.as_str());
            if holds(&text, "actix-web") || holds(&text, "axum") || holds(&text, "rocket") || holds(
                &text,
                "warp",
            ) {
                Some(8080)
            } else {
                None
            }
        },
        None => None,
    }
}

/// What running the package manager's install came to.
#[derive(Debug)]
pub enum InstallOutcome {
    /// It was not run.
    NotRun,
    /// It installed this many packages.
    Installed(usize),
    /// It failed; the detail says how.
    Failed(String),
}

/// What a look at a package's directory showed.
#[derive(Debug)]
pub struct NodeFacts {
    pub has_package_json: bool,
    /// The number of entries of `node_modules`, if that directory exists.
    pub node_modules: Option<usize>,
    /// Whether missing dependencies are to be installed.
    pub fix: bool,
    pub install: InstallOutcome,
    pub has_package_lock: bool,
    pub has_yarn_lock: bool,
    pub has_pnpm_lock: bool,
}

/// The dependencies are to be installed: there is a package, its
/// `node_modules` is missing, and fixing is asked for.
pub open spec fn install_needed(f: NodeFacts) -> bool {
    f.has_package_json && f.node_modules is None && f.fix
}

/// The tool that installs the dependencies: the one whose lockfile is
/// there, pnpm first, then yarn; npm otherwise.
pub open spec fn install_tool_name(f: NodeFacts) -> Seq<char> {
    if f.has_pnpm_lock {
        "pnpm"@
    } else if f.has_yarn_lock {
        "yarn"@
    } else {
        "npm"@
    }
}

/// The checks of the dependencies of a package.
pub open spec fn modules_checks(f: NodeFacts) -> Seq<CheckResultView> {
    match f.node_modules {
        Some(n) => seq![
            CheckResultView {
                status: CheckStatus::Okay,
                message: "node_modules/ found ("@ + decimal(n as nat) + " packages)"@,
                fix_hint: None,
            },
        ],
        None => if f.fix {
            seq![
                CheckResultView {
                    status: CheckStatus::Fixed,
                    message: "Running npm install..."@,
                    fix_hint: None,
                },
            ] + (match f.install {
                InstallOutcome::NotRun => Seq::empty(),
                InstallOutcome::Installed(n) => seq![
                    CheckResultView {
                        status: CheckStatus::Okay,
                        message: "node_modules/ installed ("@ + decimal(n as nat) + " packages)"@,
                        fix_hint: None,
                    },
                ],
                InstallOutcome::Failed(e) => seq![
                    CheckResultView {
                        status: CheckStatus::Error,
                        message: "npm install failed: "@ + e@,
                        fix_hint: Some("Try running `npm install` manually"@),
                    },
                ],
            })
        } else {
            seq![
                CheckResultView {
                    status: CheckStatus::Warn,
                    message: "node_modules/ missing - run `npm install`"@,
                    fix_hint: Some("Use --fix to auto-install dependencies"@),
                },
            ]
        },
    }
}

/// The check of the lockfile of a package.
pub open spec fn lockfile_check(f: NodeFacts) -> CheckResultView {
    if f.has_package_lock {
        CheckResultView {
            status: CheckStatus::Okay,
            message: "package-lock.json found"@,
            fix_hint: None,
        }
    } else if f.has_yarn_lock {
        CheckResultView { status: CheckStatus::Okay, message: "yarn.lock found"@, fix_hint: None }
    } else if f.has_pnpm_lock {
        CheckResultView {
            status: CheckStatus::Okay,
            message: "pnpm-lock.yaml found"@,
            fix_hint: None,
        }
    } else {
        CheckResultView {
            status: CheckStatus::Warn,
            message: "No lockfile found (package-lock.json, yarn.lock, or pnpm-lock.yaml)"@,
            fix_hint: Some("Run `npm install` to generate package-lock.json"@),
        }
    }
}

/// The checks of a package: without a manifest, that alone is reported;
/// else the manifest, the dependencies and the lockfile.
pub open spec fn node_checks(f: NodeFacts) -> Seq<CheckResultView> {
    if !f.has_package_json {
        seq![
            CheckResultView {
                status: CheckStatus::Error,
                message: "package.json not found"@,
                fix_hint: Some("Run `npm init` to create package.json"@),
            },
        ]
    } else {
        seq![
            CheckResultView {
                status: CheckStatus::Okay,
                message: "package.json found"@,
                fix_hint: None,
            },
        ] + modules_checks(f) + seq![lockfile_check(f)]
    }
}

/// Whether the dependencies of a package are to be installed.
pub fn needs_npm_install(facts: &NodeFacts) -> (r: bool)
    ensures
        r == install_needed(*facts),
{
    facts.has_package_json && facts.node_modules.is_none() && facts.fix
}

/// The tool that installs the dependencies of a package.
pub fn install_tool(facts: &NodeFacts) -> (r: &'static str)
    ensures
        r@ == install_tool_name(*facts),
{
    if facts.has_pnpm_lock {
        "pnpm"
    } else if facts.has_yarn_lock {
        "yarn"
    } else {
        "npm"
    }
}

/// A message that counts packages.
fn counted_message(head: &str, n: usize) -> (r: String)
    ensures
        r@ == head@ + decimal(n as nat) + " packages)"@,
{
    let mut m = copy_text(head);
    push_decimal(&mut m, n as u64);
    m.append(" packages)");
    m
}

/// Adds the checks of a package to `results`.
pub fn check_nodejs_project(facts: &NodeFacts, results: &mut Vec<CheckResult>)
    ensures
        result_views(final(results)@) == result_views(old(results)@) + node_checks(*facts),
{
    let ghost before = result_views(results@);
    if !facts.has_package_json {
        results.push(
            hinted(
                CheckStatus::Error,
                "package.json not found",
                "Run `npm init` to create package.json",
            ),
        );
        assert(result_views(results@) =~= before + node_checks(*facts));
        return ;
    }
    results.push(plain(CheckStatus::Okay, "package.json found"));
    match facts.node_modules {
        Some(n) => {
            let m = counted_message("node_modules/ found (", n);
            results.push(plain(CheckStatus::Okay, m.as_str()));
        },
        None => {
            if facts.fix {
                results.push(plain(CheckStatus::Fixed, "Running npm install..."));
                match &facts.install {
                    InstallOutcome::NotRun => {},
                    InstallOutcome::Installed(n) => {
                        let m = counted_message("node_modules/ installed (", *n);
                        results.push(plain(CheckStatus::Okay, m.as_str()));
                    },
                    InstallOutcome::Failed(e) => {
                        let mut m = copy_text("npm install failed: ");
                        m.append(e.as_str());
                        results.push(
                            hinted(
                                CheckStatus::Error,
                                m.as_str(),
                                "Try running `npm install` manually",
                            ),
                        );
                    },
                }
            } else {
                results.push(
                    hinted(
                        CheckStatus::Warn,
                        "node_modules/ missing - run `npm install`",
                        "Use --fix to auto-install dependencies",
                    ),
                );
            }
        },
    }
    if facts.has_package_lock {
        results.push(plain(CheckStatus::Okay, "package-lock.json found"));
    } else if facts.has_yarn_lock {
        results.push(plain(CheckStatus::Okay, "yarn.lock found"));
    } else if facts.has_pnpm_lock {
        results.push(plain(CheckStatus::Okay, "pnpm-lock.yaml found"));
    } else {
        results.push(
            hinted(
                CheckStatus::Warn,
                "No lockfile found (package-lock.json, yarn.lock, or pnpm-lock.yaml)",
                "Run `npm install` to generate package-lock.json",
            ),
        );
    }
    assert(result_views(results@) =~= before + node_checks(*facts));
}

/// What copying the env template came to.
#[derive(Debug)]
pub enum CopyOutcome {
    /// It was not tried.
    NotRun,
    /// The template was copied.
    Copied,
    /// The copy failed; the detail says how.
    Failed(String),
}

/// What a look at a project's env files showed.
#[derive(Debug)]
pub struct EnvFacts {
    pub has_env: bool,
    pub has_example: bool,
    pub has_template: bool,
    pub has_local: bool,
    /// Whether a missing `.env` is to be created from its template.
    pub fix: bool,
    pub copy: CopyOutcome,
}

/// The template that `.env` is created from: `.env.example` before
/// `.env.template`.
pub open spec fn env_template(f: EnvFacts) -> Option<Seq<char>> {
    if f.has_example {
        Some(".env.example"@)
    } else if f.has_template {
        Some(".env.template"@)
    } else {
        None
    }
}

/// The template is to be copied to `.env`.
pub open spec fn copy_needed(f: EnvFacts) -> bool {
    !f.has_env && env_template(f) is Some && f.fix
}

/// The checks of `.env`.
pub open spec fn env_main_checks(f: EnvFacts) -> Seq<CheckResultView> {
    if f.has_env {
        seq![CheckResultView { status: CheckStatus::Okay, message: ".env found"@, fix_hint: None }]
    } else {
        match env_template(f) {
            None => seq![
                CheckResultView {
                    status: CheckStatus::Info,
                    message: ".env not found (no template available)"@,
                    fix_hint: None,
                },
            ],
            Some(t) => if !f.fix {
                seq![
                    CheckResultView {
                        status: CheckStatus::Warn,
                        message: ".env missing (template found: "@ + t + ")"@,
                        fix_hint: Some("Use --fix to create .env from template"@),
                    },
                ]
            } else {
                match f.copy {
                    CopyOutcome::NotRun => Seq::empty(),
                    CopyOutcome::Copied => seq![
                        CheckResultView {
                            status: CheckStatus::Fixed,
                            message: "Creating .env from "@ + t,
                            fix_hint: None,
                        },
                        CheckResultView {
                            status: CheckStatus::Okay,
                            message: ".env created"@,
                            fix_hint: None,
                        },
                    ],
                    CopyOutcome::Failed(e) => seq![
                        CheckResultView {
                            status: CheckStatus::Error,
                            message: "Failed to create .env: "@ + e@,
                            fix_hint: Some("Manually copy "@ + t + " to .env"@),
                        },
                    ],
                }
            },
        }
    }
}

/// The checks of a project's env files: `.env`, then a note on
/// `.env.local` if it is there.
pub open spec fn env_checks(f: EnvFacts) -> Seq<CheckResultView> {
    env_main_checks(f) + (if f.has_local {
        seq![
            CheckResultView {
                status: CheckStatus::Info,
                message: ".env.local found"@,
                fix_hint: None,
            },
        ]
    } else {
        Seq::empty()
    })
}

/// The template to copy to `.env`, if one is to be copied.
pub fn env_template_to_copy(facts: &EnvFacts) -> (r: Option<&'static str>)
    ensures
        crate::types::opt_str_text(r) == (if copy_needed(*facts) {
            env_template(*facts)
        } else {
            None
        }),
{
    if facts.has_env || !facts.fix {
        None
    } else if facts.has_example {
        Some(".env.example")
    } else if facts.has_template {
        Some(".env.template")
    } else {
        None
    }
}

/// Adds the checks of a project's env files to `results`.
pub fn check_env_files(facts: &EnvFacts, results: &mut Vec<CheckResult>)
    ensures
        result_views(final(results)@) == result_views(old(results)@) + env_checks(*facts),
{
    let ghost before = result_views(results@);
    if facts.has_env {
        results.push(plain(CheckStatus::Okay, ".env found"));
    } else {
        let template: Option<&'static str> = if facts.has_example {
            Some(".env.example")
        } else if facts.has_template {
            Some(".env.template")
        } else {
            None
        };
        match template {
            None => {
                results.push(plain(CheckStatus::Info, ".env not found (no template available)"));
            },
            Some(t) => {
                if !facts.fix {
                    let mut m = copy_text(".env missing (template found: ");
                    m.append(t);
                    m.append(")");
                    results.push(
                        hinted(
                            CheckStatus::Warn,
                            m.as_str(),
                            "Use --fix to create .env from template",
                        ),
                    );
                } else {
                    match &facts.copy {
                        CopyOutcome::NotRun => {},
                        CopyOutcome::Copied => {
                            let mut m = copy_text("Creating .env from ");
                            m.append(t);
                            results.push(plain(CheckStatus::Fixed, m.as_str()));
                            results.push(plain(CheckStatus::Okay, ".env created"));
                        },
                        CopyOutcome::Failed(e) => {
                            let mut m = copy_text("Failed to create .env: ");
                            m.append(e.as_str());
                            let mut h = copy_text("Manually copy ");
                            h.append(t);
                            h.append(" to .env");
                            results.push(hinted(CheckStatus::Error, m.as_str(), h.as_str()));
                        },
                    }
                }
            },
        }
    }
    if facts.has_local {
        results.push(plain(CheckStatus::Info, ".env.local found"));
    }
    assert(result_views(results@) =~= before + env_checks(*facts));
}

/// The key that a line of an env file sets, if it sets one.
pub open spec fn line_key(line: Seq<char>) -> Option<Seq<char>> {
    match crate::config::env_entry(line) {
        Some((k, _)) => Some(k),
        None => None,
    }
}

/// The index of the last of the lines `ls` that sets `key`, or -1.
pub open spec fn last_key_line(ls: Seq<Seq<char>>, key: Seq<char>) -> int
    decreases ls.len(),
{
    if ls.len() == 0 {
        -1
    } else if line_key(ls.last()) == Some(key) {
        ls.len() - 1
    } else {
        last_key_line(ls.drop_last(), key)
    }
}

/// The line that sets `key` to `value`.
pub open spec fn setting_line(key: Seq<char>, value: Seq<char>) -> Seq<char> {
    key + seq!['='] + value
}

/// The lines of an env file while variables are being set, and how many
/// variables were added and how many updated.
pub struct SetEnv {
    pub lines: Seq<Seq<char>>,
    pub added: nat,
    pub updated: nat,
}

/// Setting one variable: the last line of the file as it was found that
/// sets the key is overwritten; a key that the file did not set gets a new
/// line at the end.
pub open spec fn env_set_one(found: Seq<Seq<char>>, acc: SetEnv, key: Seq<char>, value: Seq<char>) -> SetEnv {
    let i = last_key_line(found, key);
    if 0 <= i && i < acc.lines.len() {
        SetEnv { lines: acc.lines.update(i, setting_line(key, value)), updated: acc.updated + 1, ..acc }
    } else {
        SetEnv { lines: acc.lines.push(setting_line(key, value)), added: acc.added + 1, ..acc }
    }
}

/// Setting the variables `envs`, in order, in a file with the lines
/// `found`.
pub open spec fn env_set_all(found: Seq<Seq<char>>, envs: Seq<(Seq<char>, Seq<char>)>) -> SetEnv
    decreases envs.len(),
{
    if envs.len() == 0 {
        SetEnv { lines: found, added: 0, updated: 0 }
    } else {
        env_set_one(
            found,
            env_set_all(found, envs.drop_last()),
            envs.last().0,
            envs.last().1,
        )
    }
}

/// The content of a file with the lines `ls`: the lines with line feeds
/// between them, and a line feed at the end.
pub open spec fn file_text(ls: Seq<Seq<char>>) -> Seq<char> {
    let j = joined(ls, seq!['\n']);
    if j.len() > 0 && j.last() == '\n' {
        j
    } else {
        j.push('\n')
    }
}

/// The key that a line of an env file sets.
fn key_of_line(line: &str) -> (r: Option<String>)
    ensures
        crate::text::opt_text(r) == line_key(line@),
{
    let v = chars_of(line);
    assert(v@.subrange(0, v.len() as int) =~= v@);
    let (a, b) = trim_bounds(&v, 0, v.len());
    let ghost t = v@.subrange(a as int, b as int);
    if b > a {
        assert(t[0] == v[a as int]);
    }
    if b == a || v[a] == '#' {
        return None;
    }
    let eq = find_char(&v, a, b, '=');
    if eq >= b {
        return None;
    }
    let (ka, kb) = trim_bounds(&v, a, eq);
    assert(v@.subrange(a as int, eq as int) =~= t.subrange(0, eq - a));
    Some(string_of(&v, ka, kb))
}

/// The index of the last of `ls` that sets `key`.
fn find_key_line(ls: &Vec<String>, key: &str) -> (r: Option<usize>)
    ensures
        match r {
            Some(i) => i < ls.len() && i == last_key_line(texts(ls@), key@),
            None => last_key_line(texts(ls@), key@) == -1,
        },
{
    let mut i: usize = ls.len();
    assert(texts(ls@).subrange(0, i as int) =~= texts(ls@));
    while i > 0
        invariant
            i <= ls.len(),
            last_key_line(texts(ls@), key@) == last_key_line(
                texts(ls@).subrange(0, i as int),
                key@,
            ),
        decreases i,
    {
        let ghost cur = texts(ls@).subrange(0, i as int);
        assert(cur.last() == ls[i - 1]@);
        assert(cur.drop_last() =~= texts(ls@).subrange(0, i - 1));
        match key_of_line(ls[i - 1].as_str()) {
            Some(k) => {
                if same_text(k.as_str(), key) {
                    return Some(i - 1);
                }
            },
            None => {},
        }
        i = i - 1;
    }
    assert(texts(ls@).subrange(0, 0) =~= Seq::<Seq<char>>::empty());
    None
}

/// Sets the variables `envs` in the content of an env file. Returns the
/// new content, the number of variables added and the number updated.
pub fn handle_set_env(existing: &str, envs: &Vec<(String, String)>) -> (r: (String, usize, usize))
    ensures
        ({
            let done = env_set_all(lines(existing@), crate::appspec::pairs(envs@));
            r.0@ == file_text(done.lines) && r.1 == done.added && r.2 == done.updated
        }),
{
    let found = split_lines(existing);
    let mut current = crate::text::copy_texts(&found);
    let mut added: usize = 0;
    let mut updated: usize = 0;
    let mut i: usize = 0;
    let ghost all = crate::appspec::pairs(envs@);
    assert(all.subrange(0, 0) =~= Seq::<(Seq<char>, Seq<char>)>::empty());
    assert(texts(current@).len() == current.len());
    assert(texts(found@).len() == found.len());
    while i < envs.len()
        invariant
            i <= envs.len(),
            all == crate::appspec::pairs(envs@),
            texts(found@) == lines(existing@),
            current.len() >= found.len(),
            added + updated == i,
            env_set_all(texts(found@), all.subrange(0, i as int)) == (SetEnv {
                lines: texts(current@),
                added: added as nat,
                updated: updated as nat,
            }),
        decreases envs.len() - i,
    {
        proof {
            let next = all.subrange(0, i + 1);
            assert(next.drop_last() =~= all.subrange(0, i as int));
            assert(next.last() == (envs[i as int].0@, envs[i as int].1@));
        }
        let mut line = envs[i].0.clone();
        push_char(&mut line, '=');
        line.append(envs[i].1.as_str());
        assert(line@ =~= setting_line(envs[i as int].0@, envs[i as int].1@));
        let ghost earlier = texts(current@);
        match find_key_line(&found, envs[i].0.as_str()) {
            Some(k) => {
                current[k] = line;
                assert(texts(current@) =~= earlier.update(k as int, line@));
                updated = updated + 1;
            },
            None => {
                current.push(line);
                assert(texts(current@) =~= earlier.push(line@));
                added = added + 1;
            },
        }
        i = i + 1;
    }
    assert(all.subrange(0, envs.len() as int) =~= all);
    proof {
        reveal_strlit("\n");
        assert("\n"@ =~= seq!['\n']);
    }
    let mut content = join_texts(&current, "\n");
    let chars = chars_of(content.as_str());
    if !(chars.len() > 0 && chars[chars.len() - 1] == '\n') {
        push_char(&mut content, '\n');
    }
    (content, added, updated)
}

/// What is reported once the variables are written, where `error` is the
/// detail of a failed write.
pub open spec fn set_env_checks(added: usize, updated: usize, error: Option<Seq<char>>) -> Seq<
    CheckResultView,
> {
    match error {
        Some(e) => seq![
            CheckResultView {
                status: CheckStatus::Error,
                message: "Failed to write .env: "@ + e,
                fix_hint: None,
            },
        ],
        None => (if added > 0 {
            seq![
                CheckResultView {
                    status: CheckStatus::Fixed,
                    message: "Added "@ + decimal(added as nat)
                        + " environment variable(s) to .env"@,
                    fix_hint: None,
                },
            ]
        } else {
            Seq::empty()
        }) + (if updated > 0 {
            seq![
                CheckResultView {
                    status: CheckStatus::Fixed,
                    message: "Updated "@ + decimal(updated as nat)
                        + " environment variable(s) in .env"@,
                    fix_hint: None,
                },
            ]
        } else {
            Seq::empty()
        }),
    }
}

/// Adds to `results` what is reported once the variables are written.
pub fn report_set_env(added: usize, updated: usize, error: Option<&str>, results: &mut Vec<CheckResult>)
    ensures
        result_views(final(results)@) == result_views(old(results)@) + set_env_checks(
            added,
            updated,
            crate::types::opt_str_text(error),
        ),
{
    let ghost before = result_views(results@);
    match error {
        Some(e) => {
            let mut m = copy_text("Failed to write .env: ");
            m.append(e);
            results.push(plain(CheckStatus::Error, m.as_str()));
        },
        None => {
            if added > 0 {
                let mut m = copy_text("Added ");
                push_decimal(&mut m, added as u64);
                m.append(" environment variable(s) to .env");
                results.push(plain(CheckStatus::Fixed, m.as_str()));
            }
            if updated > 0 {
                let mut m = copy_text("Updated ");
                push_decimal(&mut m, updated as u64);
                m.append(" environment variable(s) in .env");
                results.push(plain(CheckStatus::Fixed, m.as_str()));
            }
        },
    }
    assert(result_views(results@) =~= before + set_env_checks(
        added,
        updated,
        crate::types::opt_str_text(error),
    ));
}

} // verus!
