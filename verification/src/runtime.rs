//! Runners: what preparing a launch came to, and the command line that each
//! mode runs.

use crate::appspec::{AppSpec, AppSpecView};
use crate::check::{strip_bounds, strip_both, strip_end};
use crate::error::Error;
use crate::logs::split_lines;
use crate::text::{
    find_char, first_index, has_prefix, lines, matches_at, occurs_at, same_text, trim,
    trim_bounds,
};
use crate::constants::{join, join_path};
use crate::logs::{file_part, last_index};
use crate::text::{
    chars_of,
    copy_text,
    join_texts,
    joined,
    opt_text,
    split_words,
    string_of,
    texts,
    words,
};
use crate::types::{mode_name, AppMode};
use vstd::prelude::*;
use vstd::string::*;

verus! {

/// What the prepare step of a runner came to.
#[derive(Debug)]
pub struct PrepareResult {
    pub success: bool,
    pub output: String,
    /// The binary to run, where preparing built one.
    pub binary_path: Option<String>,
}

impl PrepareResult {
    pub fn success(output: &str) -> (r: PrepareResult)
        ensures
            r.success,
            r.output@ == output@,
            r.binary_path is None,
    {
        PrepareResult { success: true, output: copy_text(output), binary_path: None }
    }

    pub fn success_with_binary(output: &str, path: String) -> (r: PrepareResult)
        ensures
            r.success,
            r.output@ == output@,
            opt_text(r.binary_path) == Some(path@),
    {
        PrepareResult { success: true, output: copy_text(output), binary_path: Some(path) }
    }

    pub fn failure(output: &str) -> (r: PrepareResult)
        ensures
            !r.success,
            r.output@ == output@,
            r.binary_path is None,
    {
        PrepareResult { success: false, output: copy_text(output), binary_path: None }
    }
}

/// The command line of a program and its arguments, for display.
pub open spec fn command_line(head: Seq<Seq<char>>, args: Seq<Seq<char>>) -> Seq<char> {
    joined(head + args, seq![' '])
}

/// The head and the arguments as one command line.
fn line_of(head: Vec<String>, args: &Vec<String>) -> (r: String)
    ensures
        r@ == command_line(texts(head@), texts(args@)),
{
    let mut parts = head;
    let mut i: usize = 0;
    while i < args.len()
        invariant
            i <= args.len(),
            texts(parts@) == texts(head@) + texts(args@).subrange(0, i as int),
        decreases args.len() - i,
    {
        let ghost earlier = texts(parts@);
        parts.push(args[i].clone());
        assert(texts(parts@) =~= earlier.push(args[i as int]@));
        i = i + 1;
        assert(texts(args@).subrange(0, i as int) =~= texts(args@).subrange(0, i - 1).push(
            args[i - 1]@,
        ));
        assert(texts(parts@) =~= texts(head@) + texts(args@).subrange(0, i as int));
    }
    assert(texts(args@).subrange(0, args.len() as int) =~= texts(args@));
    proof {
        reveal_strlit(" ");
        assert(" "@ =~= seq![' ']);
    }
    join_texts(&parts, " ")
}

/// Runs a raw command.
#[derive(Debug, Clone, Copy)]
pub struct CmdRunner;

/// Runs a script with node.
#[derive(Debug, Clone, Copy)]
pub struct NodeRunner;

/// Runs a package script with npm, pnpm or yarn.
#[derive(Debug, Clone, Copy)]
pub struct NpmRunner {
    pub tool: &'static str,
}

/// Runs the release binary of a cargo project.
#[derive(Debug, Clone, Copy)]
pub struct CargoRunner;

/// Compiles and runs a single Rust source file.
#[derive(Debug, Clone, Copy)]
pub struct RustRunner;

/// What looking for a program came to.
#[derive(Debug)]
pub enum ProgramLookup {
    /// Found on the search path, at this place.
    Found(String),
    /// Not on the search path, but a file of this name exists.
    Exists,
    /// Neither.
    Missing,
}

/// The program of a command: its first word, if it has one.
pub open spec fn program_of(command: Seq<char>) -> Option<Seq<char>> {
    if words(command).len() == 0 {
        None
    } else {
        Some(words(command)[0])
    }
}

impl CmdRunner {
    /// The program that `command` runs.
    pub fn program(command: &str) -> (r: Option<String>)
        ensures
            opt_text(r) == program_of(command@),
    {
        let w = split_words(command);
        if w.len() == 0 {
            None
        } else {
            assert(texts(w@)[0] == w[0]@);
            Some(w[0].clone())
        }
    }

    /// What preparing comes to, given what looking for the command's
    /// program came to. A command without a program fails.
    pub fn prepare(&self, spec: &AppSpec, lookup: &ProgramLookup) -> (r: PrepareResult)
        ensures
            r.binary_path is None,
            match program_of(spec@.command) {
                None => !r.success && r.output@ == "Empty command"@,
                Some(p) => match *lookup {
                    ProgramLookup::Found(at) => r.success && r.output@ == "Found "@ + p + " at "@
                        + at@,
                    ProgramLookup::Exists => r.success && r.output@ == "Using "@ + p,
                    ProgramLookup::Missing => !r.success && r.output@ == "Command not found: "@
                        + p,
                },
            },
    {
        match CmdRunner::program(spec.command.as_str()) {
            None => PrepareResult::failure("Empty command"),
            Some(p) => match lookup {
                ProgramLookup::Found(at) => {
                    let mut m = copy_text("Found ");
                    m.append(p.as_str());
                    m.append(" at ");
                    m.append(at.as_str());
                    PrepareResult::success(m.as_str())
                },
                ProgramLookup::Exists => {
                    let mut m = copy_text("Using ");
                    m.append(p.as_str());
                    PrepareResult::success(m.as_str())
                },
                ProgramLookup::Missing => {
                    let mut m = copy_text("Command not found: ");
                    m.append(p.as_str());
                    PrepareResult::failure(m.as_str())
                },
            },
        }
    }

    /// The command line: the command alone, or the command and its
    /// arguments.
    pub fn command_string(&self, spec: &AppSpec) -> (r: String)
        ensures
            r@ == command_line(seq![spec@.command], spec@.args),
    {
        let mut head: Vec<String> = Vec::new();
        head.push(spec.command.clone());
        assert(texts(head@) =~= seq![spec@.command]);
        line_of(head, &spec.args)
    }

    pub fn mode_name(&self) -> (r: &'static str)
        ensures
            r@ == mode_name(AppMode::Cmd),
    {
        "cmd"
    }
}

impl NodeRunner {
    /// The command line: node, the script, the arguments.
    pub fn command_string(&self, spec: &AppSpec) -> (r: String)
        ensures
            r@ == command_line(seq!["node"@, spec@.command], spec@.args),
    {
        let mut head: Vec<String> = Vec::new();
        head.push(copy_text("node"));
        head.push(spec.command.clone());
        assert(texts(head@) =~= seq!["node"@, spec@.command]);
        line_of(head, &spec.args)
    }

    pub fn mode_name(&self) -> (r: &'static str)
        ensures
            r@ == mode_name(AppMode::Node),
    {
        "node"
    }
}

impl NpmRunner {
    pub fn new(tool: &'static str) -> (r: NpmRunner)
        ensures
            r.tool@ == tool@,
    {
        NpmRunner { tool }
    }

    /// The command line: the tool, `run`, the script, the arguments.
    pub fn command_string(&self, spec: &AppSpec) -> (r: String)
        ensures
            r@ == command_line(seq![self.tool@, "run"@, spec@.command], spec@.args),
    {
        let mut head: Vec<String> = Vec::new();
        head.push(copy_text(self.tool));
        head.push(copy_text("run"));
        head.push(spec.command.clone());
        assert(texts(head@) =~= seq![self.tool@, "run"@, spec@.command]);
        line_of(head, &spec.args)
    }

    pub fn mode_name(&self) -> (r: &'static str)
        ensures
            r@ == self.tool@,
    {
        self.tool
    }
}

/// The release binary of the cargo project in `cwd`.
pub open spec fn release_binary(cwd: Seq<char>, binary_name: Seq<char>) -> Seq<char> {
    join_path(join_path(cwd, "target/release"@), binary_name)
}

impl CargoRunner {
    /// The command line: the release binary `binary_name` of the project,
    /// and the arguments.
    pub fn command_string(&self, spec: &AppSpec, binary_name: &str) -> (r: String)
        ensures
            r@ == command_line(seq![release_binary(spec@.cwd, binary_name@)], spec@.args),
    {
        let dir = join(spec.cwd.as_str(), "target/release");
        let path = join(dir.as_str(), binary_name);
        let mut head: Vec<String> = Vec::new();
        head.push(path);
        assert(texts(head@) =~= seq![release_binary(spec@.cwd, binary_name@)]);
        line_of(head, &spec.args)
    }

    pub fn mode_name(&self) -> (r: &'static str)
        ensures
            r@ == mode_name(AppMode::Cargo),
    {
        "cargo"
    }
}

/// The stem of a path's file name: the name without its last extension. A
/// name without a dot, or with its only dot in front, is its own stem. A
/// path without a file name, or one that ends in `..`, has the stem `app`.
pub open spec fn stem_of(path: Seq<char>) -> Seq<char> {
    let file = file_part(path);
    let dot = last_index(file, '.');
    if file.len() == 0 || file == seq!['.', '.'] {
        "app"@
    } else if dot <= 0 {
        file
    } else {
        file.subrange(0, dot)
    }
}

/// The binary that a single Rust source file is compiled to.
pub open spec fn compiled_binary(spec: AppSpecView) -> Seq<char> {
    join_path(join_path(spec.cwd, ".oxidepm/bin"@), stem_of(join_path(spec.cwd, spec.command)))
}

/// The index of the last `c` in `v[from..]`, if there is one.
fn last_of(v: &Vec<char>, from: usize, c: char) -> (r: Option<usize>)
    requires
        from <= v.len(),
    ensures
        match r {
            Some(i) => from <= i < v.len() && i - from == last_index(
                v@.subrange(from as int, v.len() as int),
                c,
            ),
            None => last_index(v@.subrange(from as int, v.len() as int), c) == -1,
        },
{
    let ghost s = v@.subrange(from as int, v.len() as int);
    let mut i: usize = v.len();
    assert(s.subrange(0, v.len() - from) =~= s);
    while i > from
        invariant
            from <= i <= v.len(),
            s == v@.subrange(from as int, v.len() as int),
            last_index(s, c) == last_index(s.subrange(0, i - from), c),
        decreases i,
    {
        let ghost cur = s.subrange(0, i - from);
        assert(cur.last() == v[i - 1]);
        if v[i - 1] == c {
            return Some(i - 1);
        }
        assert(cur.drop_last() =~= s.subrange(0, i - 1 - from));
        i = i - 1;
    }
    assert(s.subrange(0, 0) =~= Seq::<char>::empty());
    None
}

impl RustRunner {
    /// The stem of the file name of `path`.
    pub fn file_stem(path: &str) -> (r: String)
        ensures
            r@ == stem_of(path@),
    {
        let v = chars_of(path);
        assert(v@.subrange(0, v.len() as int) =~= v@);
        let start: usize = match last_of(&v, 0, '/') {
            Some(i) => i + 1,
            None => 0,
        };
        let ghost file = file_part(path@);
        assert(v@.subrange(start as int, v.len() as int) =~= file);
        if start == v.len() {
            return copy_text("app");
        }
        if v.len() - start == 2 && v[start] == '.' && v[start + 1] == '.' {
            assert(file =~= seq!['.', '.']);
            return copy_text("app");
        }
        assert(file != seq!['.', '.']) by {
            if file == seq!['.', '.'] {
                assert(file.len() == 2);
                assert(file[0] == v[start as int]);
                assert(file[1] == v[start + 1]);
            }
        }
        match last_of(&v, start, '.') {
            Some(d) => {
                if d == start {
                    let r = string_of(&v, start, v.len());
                    assert(r@ =~= file);
                    r
                } else {
                    let r = string_of(&v, start, d);
                    assert(r@ =~= file.subrange(0, d - start));
                    r
                }
            },
            None => {
                let r = string_of(&v, start, v.len());
                assert(r@ =~= file);
                r
            },
        }
    }

    /// The command line: the compiled binary, and the arguments.
    pub fn command_string(&self, spec: &AppSpec) -> (r: String)
        ensures
            r@ == command_line(seq![compiled_binary(spec@)], spec@.args),
    {
        let source = join(spec.cwd.as_str(), spec.command.as_str());
        let stem = RustRunner::file_stem(source.as_str());
        let dir = join(spec.cwd.as_str(), ".oxidepm/bin");
        let path = join(dir.as_str(), stem.as_str());
        let mut head: Vec<String> = Vec::new();
        head.push(path);
        assert(texts(head@) =~= seq![compiled_binary(spec@)]);
        line_of(head, &spec.args)
    }

    pub fn mode_name(&self) -> (r: &'static str)
        ensures
            r@ == mode_name(AppMode::Rust),
    {
        "rust"
    }
}

/// The runner of a mode.
#[derive(Debug, Clone, Copy)]
pub enum AnyRunner {
    Cmd(CmdRunner),
    Node(NodeRunner),
    Npm(NpmRunner),
    Cargo(CargoRunner),
    Rust(RustRunner),
}

/// The name under which the runner of a mode goes: the mode's own name.
pub open spec fn runner_name(r: AnyRunner) -> Seq<char> {
    match r {
        AnyRunner::Cmd(_) => "cmd"@,
        AnyRunner::Node(_) => "node"@,
        AnyRunner::Npm(n) => n.tool@,
        AnyRunner::Cargo(_) => "cargo"@,
        AnyRunner::Rust(_) => "rust"@,
    }
}

/// The runner for `mode`.
pub fn get_runner(mode: AppMode) -> (r: AnyRunner)
    ensures
        runner_name(r) == mode_name(mode),
        match mode {
            AppMode::Cmd => r is Cmd,
            AppMode::Node => r is Node,
            AppMode::Npm => r is Npm,
            AppMode::Pnpm => r is Npm,
            AppMode::Yarn => r is Npm,
            AppMode::Cargo => r is Cargo,
            AppMode::Rust => r is Rust,
        },
{
    match mode {
        AppMode::Cmd => AnyRunner::Cmd(CmdRunner),
        AppMode::Node => AnyRunner::Node(NodeRunner),
        AppMode::Npm => AnyRunner::Npm(NpmRunner::new("npm")),
        AppMode::Pnpm => AnyRunner::Npm(NpmRunner::new("pnpm")),
        AppMode::Yarn => AnyRunner::Npm(NpmRunner::new("yarn")),
        AppMode::Cargo => AnyRunner::Cargo(CargoRunner),
        AppMode::Rust => AnyRunner::Rust(RustRunner),
    }
}

impl AnyRunner {
    /// The name of the runner's mode.
    pub fn mode_name(&self) -> (r: &'static str)
        ensures
            r@ == runner_name(*self),
    {
        match self {
            AnyRunner::Cmd(r) => r.mode_name(),
            AnyRunner::Node(r) => r.mode_name(),
            AnyRunner::Npm(r) => r.mode_name(),
            AnyRunner::Cargo(r) => r.mode_name(),
            AnyRunner::Rust(r) => r.mode_name(),
        }
    }
}

/// The package name that a line of a cargo manifest gives: the line starts
/// with `name`, and the name is what stands between its first `=` and its
/// second, white space and quotes around it left out.
pub open spec fn line_package_name(line: Seq<char>) -> Option<Seq<char>> {
    let t = trim(line);
    let eq = first_index(t, '=');
    if !has_prefix(t, "name"@) || eq >= t.len() || eq < 0 {
        None
    } else {
        let rest = t.subrange(eq + 1, t.len() as int);
        let value = rest.subrange(0, first_index(rest, '='));
        Some(strip_both(strip_both(trim(value), '"'), '\''))
    }
}

/// The package name that the first of the lines `ls` to give one gives.
pub open spec fn package_name(ls: Seq<Seq<char>>) -> Option<Seq<char>>
    decreases ls.len(),
{
    if ls.len() == 0 {
        None
    } else {
        match line_package_name(ls[0]) {
            Some(n) => Some(n),
            None => package_name(ls.drop_first()),
        }
    }
}

/// The name of a directory: the last component of its path, slashes at the
/// end left out; none for a path that ends in `.` or `..` or has no
/// component.
pub open spec fn dir_name(path: Seq<char>) -> Option<Seq<char>> {
    let f = file_part(strip_end(path, '/'));
    if f.len() == 0 || f == seq!['.'] || f == seq!['.', '.'] {
        None
    } else {
        Some(f)
    }
}

/// `hint` names a binary: it is not empty and not the current directory.
pub open spec fn is_binary_hint(hint: Seq<char>) -> bool {
    hint.len() > 0 && hint != "."@ && hint != "./"@
}

/// The name of the binary of the cargo project in `cwd`: the hint if it
/// names one; else the package name of the manifest; else the name of the
/// directory.
pub open spec fn binary_name(cwd: Seq<char>, hint: Seq<char>, manifest: Option<Seq<char>>) -> Option<
    Seq<char>,
> {
    if is_binary_hint(hint) {
        Some(hint)
    } else {
        let named = match manifest {
            Some(m) => package_name(lines(m)),
            None => None,
        };
        match named {
            Some(n) => Some(n),
            None => dir_name(cwd),
        }
    }
}

/// The package name that a line of a cargo manifest gives.
fn name_in_line(line: &str) -> (r: Option<String>)
    ensures
        opt_text(r) == line_package_name(line@),
{
    proof {
        reveal_strlit("name");
    }
    let key = chars_of("name");
    let v = chars_of(line);
    assert(v@.subrange(0, v.len() as int) =~= v@);
    let (a, b) = trim_bounds(&v, 0, v.len());
    let mut t: Vec<char> = Vec::new();
    let mut k: usize = a;
    while k < b
        invariant
            a <= k <= b <= v.len(),
            t@ == v@.subrange(a as int, k as int),
        decreases b - k,
    {
        t.push(v[k]);
        k = k + 1;
        assert(t@ =~= v@.subrange(a as int, k as int));
    }
    assert(t@ == trim(line@));
    assert(t@.subrange(0, t.len() as int) =~= t@);
    if !matches_at(&t, &key, 0) {
        assert(!has_prefix(t@, "name"@)) by {
            if has_prefix(t@, "name"@) {
                assert(occurs_at(t@, "name"@, 0));
            }
        }
        return None;
    }
    assert(t@.subrange(0, 4) =~= "name"@);
    let eq = find_char(&t, 0, t.len(), '=');
    if eq >= t.len() {
        return None;
    }
    let ghost rest = t@.subrange(eq + 1, t.len() as int);
    let e2 = find_char(&t, eq + 1, t.len(), '=');
    assert(t@.subrange(eq + 1, e2 as int) =~= rest.subrange(0, e2 - eq - 1));
    let (va, vb) = trim_bounds(&t, eq + 1, e2);
    let (qa, qb) = strip_bounds(&t, va, vb, '"');
    let (sa, sb) = strip_bounds(&t, qa, qb, '\'');
    Some(string_of(&t, sa, sb))
}

/// The name of the directory `path`.
pub fn name_of_dir(path: &str) -> (r: Option<String>)
    ensures
        opt_text(r) == dir_name(path@),
{
    let v = chars_of(path);
    let mut end: usize = v.len();
    assert(v@.subrange(0, v.len() as int) =~= v@);
    while end > 0 && v[end - 1] == '/'
        invariant
            end <= v.len(),
            v@ == path@,
            strip_end(v@, '/') == strip_end(v@.subrange(0, end as int), '/'),
        decreases end,
    {
        let ghost cur = v@.subrange(0, end as int);
        assert(cur.last() == v[end - 1]);
        assert(cur.drop_last() =~= v@.subrange(0, end - 1));
        end = end - 1;
    }
    proof {
        let cur = v@.subrange(0, end as int);
        if end > 0 {
            assert(cur.last() == v[end - 1]);
        }
    }
    let mut base: Vec<char> = Vec::new();
    let mut k: usize = 0;
    while k < end
        invariant
            k <= end <= v.len(),
            base@ == v@.subrange(0, k as int),
        decreases end - k,
    {
        base.push(v[k]);
        k = k + 1;
        assert(base@ =~= v@.subrange(0, k as int));
    }
    assert(base@ == strip_end(path@, '/'));
    let start: usize = match last_of(&base, 0, '/') {
        Some(i) => i + 1,
        None => 0,
    };
    assert(base@.subrange(0, base.len() as int) =~= base@);
    let ghost f = file_part(base@);
    assert(base@.subrange(start as int, base.len() as int) =~= f);
    let n = base.len() - start;
    if n == 0 {
        return None;
    }
    if n == 1 && base[start] == '.' {
        assert(f =~= seq!['.']);
        return None;
    }
    if n == 2 && base[start] == '.' && base[start + 1] == '.' {
        assert(f =~= seq!['.', '.']);
        return None;
    }
    assert(f != seq!['.'] && f != seq!['.', '.']) by {
        assert(f[0] == base[start as int]);
        if n >= 2 {
            assert(f[1] == base[start + 1]);
        }
    }
    Some(string_of(&base, start, base.len()))
}

/// The name of the binary of the cargo project in `cwd`, where `manifest`
/// is the content of its `Cargo.toml` if that can be read. A `ConfigError`
/// if neither the hint, nor the manifest, nor the directory gives a name.
pub fn find_binary_name(cwd: &str, hint: &str, manifest: Option<&str>) -> (r: Result<String, Error>)
    ensures
        match binary_name(cwd@, hint@, crate::types::opt_str_text(manifest)) {
            Some(n) => r matches Ok(name) && name@ == n,
            None => r matches Err(Error::ConfigError(d)) && d@
                == "Could not determine binary name"@,
        },
{
    if !hint.is_empty() && !same_text(hint, ".") && !same_text(hint, "./") {
        return Ok(copy_text(hint));
    }
    match manifest {
        Some(m) => {
            let ls = split_lines(m);
            let mut i: usize = 0;
            assert(texts(ls@).subrange(0, ls.len() as int) =~= texts(ls@));
            while i < ls.len()
                invariant
                    i <= ls.len(),
                    !is_binary_hint(hint@),
                    manifest == Some(m),
                    texts(ls@) == lines(m@),
                    package_name(texts(ls@)) == package_name(
                        texts(ls@).subrange(i as int, ls.len() as int),
                    ),
                decreases ls.len() - i,
            {
                let ghost rest = texts(ls@).subrange(i as int, ls.len() as int);
                proof {
                    assert(rest[0] == ls[i as int]@);
                    assert(rest.drop_first() =~= texts(ls@).subrange(i + 1, ls.len() as int));
                }
                match name_in_line(ls[i].as_str()) {
                    Some(n) => {
                        return Ok(n);
                    },
                    None => {},
                }
                i = i + 1;
            }
        },
        None => {},
    }
    match name_of_dir(cwd) {
        Some(n) => Ok(n),
        None => Err(Error::ConfigError(copy_text("Could not determine binary name"))),
    }
}

} // verus!
