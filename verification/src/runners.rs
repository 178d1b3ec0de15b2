//! What the runners decide: whether a launch is ready, what is built
//! before it, and what is spawned. Looking for programs, building and
//! spawning are done by the caller between two of these decisions.

use crate::appspec::{AppSpec, AppSpecView};
use crate::config::{extension, extension_of};
use crate::constants::{join, join_path};
use crate::error::Error;
use crate::logs::file_part;
use crate::runtime::{
    binary_name, compiled_binary, find_binary_name, release_binary, CargoRunner,
    CmdRunner, NodeRunner, NpmRunner, PrepareResult, RustRunner,
};
use crate::text::{copy_text, opt_text, same_text, texts};
use crate::types::opt_str_text;
use vstd::prelude::*;
use vstd::string::*;

verus! {

/// The mathematical value of [`PrepareResult`].
pub struct PrepareView {
    pub success: bool,
    pub output: Seq<char>,
    pub binary_path: Option<Seq<char>>,
}

impl View for PrepareResult {
    type V = PrepareView;

    open spec fn view(&self) -> PrepareView {
        PrepareView {
            success: self.success,
            output: self.output@,
            binary_path: opt_text(self.binary_path),
        }
    }
}

/// A launch that is not ready, and why.
pub open spec fn refused(why: Seq<char>) -> PrepareView {
    PrepareView { success: false, output: why, binary_path: None }
}

/// A launch that is ready.
pub open spec fn ready(note: Seq<char>) -> PrepareView {
    PrepareView { success: true, output: note, binary_path: None }
}

/// A launch that is ready to run the binary at `path`.
pub open spec fn built(note: Seq<char>, path: Seq<char>) -> PrepareView {
    PrepareView { success: true, output: note, binary_path: Some(path) }
}

/// The program to spawn and its arguments; the working directory and the
/// environment are those of the specification.
#[derive(Debug)]
pub struct Launch {
    pub program: String,
    pub args: Vec<String>,
}

/// The mathematical value of [`Launch`].
pub struct LaunchView {
    pub program: Seq<char>,
    pub args: Seq<Seq<char>>,
}

impl View for Launch {
    type V = LaunchView;

    open spec fn view(&self) -> LaunchView {
        LaunchView { program: self.program@, args: texts(self.args@) }
    }
}

fn launch_of(program: String, head: Vec<String>, args: &Vec<String>) -> (r: Launch)
    ensures
        r@ == (LaunchView { program: program@, args: texts(head@) + texts(args@) }),
{
    let mut all = head;
    let mut i: usize = 0;
    assert(texts(all@) =~= texts(head@) + texts(args@).subrange(0, 0));
    while i < args.len()
        invariant
            i <= args.len(),
            texts(all@) == texts(head@) + texts(args@).subrange(0, i as int),
        decreases args.len() - i,
    {
        let ghost earlier = texts(all@);
        all.push(args[i].clone());
        assert(texts(all@) =~= earlier.push(args[i as int]@));
        i = i + 1;
        assert(texts(all@) =~= texts(head@) + texts(args@).subrange(0, i as int));
    }
    assert(texts(args@).subrange(0, args.len() as int) =~= texts(args@));
    Launch { program, args: all }
}

/// The error of a spawn that failed: what was to be started, and why it
/// was not.
pub open spec fn spawn_failure(what: Seq<char>, why: Seq<char>) -> Seq<char> {
    "Failed to start "@ + what + ": "@ + why
}

/// The error of a spawn that gave no pid.
pub open spec fn pid_failure(who: Seq<char>) -> Seq<char> {
    who + "rocess started but no PID available"@
}

fn start_failed(what: &str, why: &str) -> (r: Error)
    ensures
        r matches Error::ProcessStartFailed(d) && d@ == spawn_failure(what@, why@),
{
    let mut d = copy_text("Failed to start ");
    d.append(what);
    d.append(": ");
    d.append(why);
    assert(d@ =~= spawn_failure(what@, why@));
    Error::ProcessStartFailed(d)
}

fn no_pid(who: &str) -> (r: Error)
    ensures
        r matches Error::ProcessStartFailed(d) && d@ == pid_failure(who@),
{
    let mut d = copy_text(who);
    d.append("rocess started but no PID available");
    Error::ProcessStartFailed(d)
}

impl CmdRunner {
    /// What is spawned: the command, with the arguments.
    pub fn launch(&self, spec: &AppSpec) -> (r: Launch)
        ensures
            r@ == (LaunchView { program: spec@.command, args: spec@.args }),
    {
        let r = launch_of(spec.command.clone(), Vec::new(), &spec.args);
        assert(r@.args =~= spec@.args);
        r
    }

    /// The error of a spawn that failed because of `why`.
    pub fn spawn_failed(&self, spec: &AppSpec, why: &str) -> (r: Error)
        ensures
            r matches Error::ProcessStartFailed(d) && d@ == spawn_failure(
                "'"@ + spec@.command + "'"@,
                why@,
            ),
    {
        let mut what = copy_text("'");
        what.append(spec.command.as_str());
        what.append("'");
        start_failed(what.as_str(), why)
    }

    /// The error of a spawn that gave no pid.
    pub fn pid_missing(&self) -> (r: Error)
        ensures
            r matches Error::ProcessStartFailed(d) && d@ == pid_failure("P"@),
    {
        no_pid("P")
    }
}

/// Whether node runs a script with the extension `ext`.
pub open spec fn is_script_extension(ext: Seq<char>) -> bool {
    ext == "js"@ || ext == "mjs"@ || ext == "cjs"@ || ext == "ts"@ || ext == "mts"@ || ext
        == "cts"@
}

/// The extension of `path`, or nothing where it has none.
pub open spec fn extension_or_none(path: Seq<char>) -> Seq<char> {
    match extension_of(path) {
        Some(e) => e,
        None => Seq::empty(),
    }
}

/// What preparing a script for node comes to, where `node` is the place of
/// node on the search path, if it is there, and `script_exists` says
/// whether the script is on disk: node must be there, the script must
/// exist, and its extension must be one that node runs.
pub open spec fn node_prepared(spec: AppSpecView, node: Option<Seq<char>>, script_exists: bool) -> PrepareView {
    let script = join_path(spec.cwd, spec.command);
    match node {
        None => refused("Node.js not found in PATH. Please install Node.js."@),
        Some(at) => if !script_exists {
            refused("Script not found: "@ + script)
        } else if !is_script_extension(extension_or_none(script)) {
            refused(
                "Invalid script extension: ."@ + extension_or_none(script)
                    + " (expected .js, .mjs, .cjs, .ts)"@,
            )
        } else {
            ready("Using node at "@ + at)
        },
    }
}

fn extension_text(path: &str) -> (r: String)
    ensures
        r@ == extension_or_none(path@),
{
    match extension(path) {
        Some(e) => e,
        None => String::new(),
    }
}

impl NodeRunner {
    /// The script that is run: the command, taken in the working directory
    /// unless it is absolute.
    pub fn script_path(spec: &AppSpec) -> (r: String)
        ensures
            r@ == join_path(spec@.cwd, spec@.command),
    {
        join(spec.cwd.as_str(), spec.command.as_str())
    }

    /// What preparing comes to.
    pub fn prepare(&self, spec: &AppSpec, node: Option<&str>, script_exists: bool) -> (r:
        PrepareResult)
        ensures
            r@ == node_prepared(spec@, opt_str_text(node), script_exists),
    {
        let at = match node {
            None => {
                return PrepareResult::failure("Node.js not found in PATH. Please install Node.js.");
            },
            Some(at) => at,
        };
        let script = NodeRunner::script_path(spec);
        if !script_exists {
            let mut m = copy_text("Script not found: ");
            m.append(script.as_str());
            return PrepareResult::failure(m.as_str());
        }
        let ext = extension_text(script.as_str());
        let e = ext.as_str();
        let runs = same_text(e, "js") || same_text(e, "mjs") || same_text(e, "cjs") || same_text(
            e,
            "ts",
        ) || same_text(e, "mts") || same_text(e, "cts");
        if !runs {
            let mut m = copy_text("Invalid script extension: .");
            m.append(e);
            m.append(" (expected .js, .mjs, .cjs, .ts)");
            assert(m@ =~= "Invalid script extension: ."@ + ext@
                + " (expected .js, .mjs, .cjs, .ts)"@);
            return PrepareResult::failure(m.as_str());
        }
        let mut m = copy_text("Using node at ");
        m.append(at);
        PrepareResult::success(m.as_str())
    }

    /// What is spawned: node, with the script and the arguments.
    pub fn launch(&self, spec: &AppSpec) -> (r: Launch)
        ensures
            r@ == (LaunchView {
                program: "node"@,
                args: seq![join_path(spec@.cwd, spec@.command)] + spec@.args,
            }),
    {
        let mut head: Vec<String> = Vec::new();
        head.push(NodeRunner::script_path(spec));
        assert(texts(head@) =~= seq![join_path(spec@.cwd, spec@.command)]);
        launch_of(copy_text("node"), head, &spec.args)
    }

    /// The error of a spawn that failed because of `why`.
    pub fn spawn_failed(&self, why: &str) -> (r: Error)
        ensures
            r matches Error::ProcessStartFailed(d) && d@ == spawn_failure("node"@, why@),
    {
        start_failed("node", why)
    }

    /// The error of a spawn that gave no pid.
    pub fn pid_missing(&self) -> (r: Error)
        ensures
            r matches Error::ProcessStartFailed(d) && d@ == pid_failure("Node p"@),
    {
        no_pid("Node p")
    }
}

/// What was found of `package.json` in the working directory.
#[derive(Debug)]
pub enum PackageFile {
    /// There is none.
    Missing,
    /// It could not be read; the detail says why.
    Unreadable(String),
    /// It is not JSON; the detail says why.
    Invalid(String),
    /// It was read; `has_script` says whether it defines the script that
    /// is to be run.
    Read { has_script: bool },
}

/// What preparing a package script comes to, where `at` is the place of
/// the tool on the search path, if it is there: the tool must be there,
/// and `package.json` must exist and define the script. A `package.json`
/// that cannot be read or is not JSON is an error of the configuration.
pub open spec fn package_prepared(
    tool: Seq<char>,
    spec: AppSpecView,
    at: Option<Seq<char>>,
    package: PackageFile,
) -> Result<PrepareView, Seq<char>> {
    match at {
        None => Ok(refused(tool + " not found in PATH. Please install "@ + tool + "."@)),
        Some(place) => match package {
            PackageFile::Missing => Ok(refused("package.json not found in "@ + spec.cwd)),
            PackageFile::Unreadable(why) => Err("Failed to read package.json: "@ + why@),
            PackageFile::Invalid(why) => Err("Invalid package.json: "@ + why@),
            PackageFile::Read { has_script } => if has_script {
                Ok(
                    ready(
                        "Using "@ + tool + " at "@ + place + " to run script '"@ + spec.command
                            + "'"@,
                    ),
                )
            } else {
                Ok(refused("Script '"@ + spec.command + "' not found in package.json scripts"@))
            },
        },
    }
}

impl NpmRunner {
    /// What preparing comes to.
    pub fn prepare(&self, spec: &AppSpec, at: Option<&str>, package: &PackageFile) -> (r: Result<
        PrepareResult,
        Error,
    >)
        ensures
            match package_prepared(self.tool@, spec@, opt_str_text(at), *package) {
                Ok(p) => r matches Ok(v) && v@ == p,
                Err(d) => r matches Err(Error::ConfigError(e)) && e@ == d,
            },
    {
        let place = match at {
            None => {
                let mut m = copy_text(self.tool);
                m.append(" not found in PATH. Please install ");
                m.append(self.tool);
                m.append(".");
                assert(m@ =~= self.tool@ + " not found in PATH. Please install "@ + self.tool@
                    + "."@);
                return Ok(PrepareResult::failure(m.as_str()));
            },
            Some(place) => place,
        };
        match package {
            PackageFile::Missing => {
                let mut m = copy_text("package.json not found in ");
                m.append(spec.cwd.as_str());
                Ok(PrepareResult::failure(m.as_str()))
            },
            PackageFile::Unreadable(why) => {
                let mut m = copy_text("Failed to read package.json: ");
                m.append(why.as_str());
                Err(Error::ConfigError(m))
            },
            PackageFile::Invalid(why) => {
                let mut m = copy_text("Invalid package.json: ");
                m.append(why.as_str());
                Err(Error::ConfigError(m))
            },
            PackageFile::Read { has_script } => {
                if *has_script {
                    let mut m = copy_text("Using ");
                    m.append(self.tool);
                    m.append(" at ");
                    m.append(place);
                    m.append(" to run script '");
                    m.append(spec.command.as_str());
                    m.append("'");
                    assert(m@ =~= "Using "@ + self.tool@ + " at "@ + place@
                        + " to run script '"@ + spec@.command + "'"@);
                    Ok(PrepareResult::success(m.as_str()))
                } else {
                    let mut m = copy_text("Script '");
                    m.append(spec.command.as_str());
                    m.append("' not found in package.json scripts");
                    assert(m@ =~= "Script '"@ + spec@.command
                        + "' not found in package.json scripts"@);
                    Ok(PrepareResult::failure(m.as_str()))
                }
            },
        }
    }

    /// What is spawned: the tool, with `run`, the script and the
    /// arguments.
    pub fn launch(&self, spec: &AppSpec) -> (r: Launch)
        ensures
            r@ == (LaunchView {
                program: self.tool@,
                args: seq!["run"@, spec@.command] + spec@.args,
            }),
    {
        let mut head: Vec<String> = Vec::new();
        head.push(copy_text("run"));
        head.push(spec.command.clone());
        assert(texts(head@) =~= seq!["run"@, spec@.command]);
        launch_of(copy_text(self.tool), head, &spec.args)
    }

    /// The error of a spawn that failed because of `why`.
    pub fn spawn_failed(&self, why: &str) -> (r: Error)
        ensures
            r matches Error::ProcessStartFailed(d) && d@ == spawn_failure(self.tool@, why@),
    {
        start_failed(self.tool, why)
    }

    /// The error of a spawn that gave no pid.
    pub fn pid_missing(&self) -> (r: Error)
        ensures
            r matches Error::ProcessStartFailed(d) && d@ == pid_failure(self.tool@ + " p"@),
    {
        let mut who = copy_text(self.tool);
        who.append(" p");
        no_pid(who.as_str())
    }
}

/// The compiler or build tool to run, and its arguments; it runs in the
/// working directory of the specification.
#[derive(Debug)]
pub struct Build {
    pub program: String,
    pub args: Vec<String>,
}

/// The first step of preparing a launch that is built.
#[derive(Debug)]
pub enum BuildStep {
    /// Nothing is built: the launch is not ready, and this is why.
    Refuse(PrepareResult),
    /// This is to be run.
    Run(Build),
}

/// What running the build came to.
#[derive(Debug)]
pub enum BuildOutcome {
    /// It could not be run; the detail says why.
    NotRun(String),
    /// It ran and failed; this is what it wrote to its error stream.
    Failed(String),
    /// It ran and succeeded; this is what it wrote to its output stream.
    Built(String),
}

/// The first step of preparing a cargo project, where `cargo` is the
/// place of cargo on the search path, if it is there: cargo must be there,
/// and the working directory must hold a manifest; then the release build
/// is run.
pub open spec fn cargo_begun(spec: AppSpecView, cargo: Option<Seq<char>>, has_manifest: bool) -> Result<
    LaunchView,
    PrepareView,
> {
    match cargo {
        None => Err(refused("Cargo not found in PATH. Please install Rust."@)),
        Some(at) => if !has_manifest {
            Err(refused("Cargo.toml not found in "@ + spec.cwd))
        } else {
            Ok(LaunchView { program: at, args: seq!["build"@, "--release"@] })
        },
    }
}

/// The release binary of a cargo project, once its name is settled.
pub open spec fn cargo_binary(spec: AppSpecView, manifest: Option<Seq<char>>) -> Option<Seq<char>> {
    match binary_name(spec.cwd, spec.command, manifest) {
        Some(name) => Some(release_binary(spec.cwd, name)),
        None => None,
    }
}

/// What preparing came to: a result, or an error of the build or of the
/// configuration.
pub enum Prepared {
    Done(PrepareView),
    BuildError(Seq<char>),
    ConfigError(Seq<char>),
}

/// The outcome `r` is what `p` says.
pub open spec fn prepared_is(r: Result<PrepareResult, Error>, p: Prepared) -> bool {
    match p {
        Prepared::Done(v) => r matches Ok(got) && got@ == v,
        Prepared::BuildError(d) => r matches Err(Error::BuildFailed(e)) && e@ == d,
        Prepared::ConfigError(d) => r matches Err(Error::ConfigError(e)) && e@ == d,
    }
}

/// What preparing a cargo project comes to once the build was run, where
/// `manifest` is the text of the manifest, if it could be read,
/// `binary_exists` says whether the release binary is on disk, and
/// `available` lists the binaries that are: a build that could not be run
/// is an error; a failed build refuses the launch with what the build
/// wrote; after a build the binary must be there.
pub open spec fn cargo_prepared(
    spec: AppSpecView,
    outcome: BuildOutcome,
    manifest: Option<Seq<char>>,
    binary_exists: bool,
    available: Seq<char>,
) -> Prepared {
    match outcome {
        BuildOutcome::NotRun(why) => Prepared::BuildError("Failed to run cargo build: "@ + why@),
        BuildOutcome::Failed(stderr) => Prepared::Done(refused("Build failed:\n"@ + stderr@)),
        BuildOutcome::Built(stdout) => match cargo_binary(spec, manifest) {
            None => Prepared::ConfigError("Could not determine binary name"@),
            Some(path) => if binary_exists {
                Prepared::Done(built("Build successful\n"@ + stdout@, path))
            } else {
                Prepared::Done(
                    refused(
                        "Binary not found at "@ + path + ". Available binaries: "@ + available,
                    ),
                )
            },
        },
    }
}

/// What a launch came to: what is spawned, or an error of the start or of
/// the configuration.
pub enum Launched {
    Spawn(LaunchView),
    StartError(Seq<char>),
    ConfigError(Seq<char>),
}

/// The outcome `r` is what `l` says.
pub open spec fn launched_is(r: Result<Launch, Error>, l: Launched) -> bool {
    match l {
        Launched::Spawn(v) => r matches Ok(got) && got@ == v,
        Launched::StartError(d) => r matches Err(Error::ProcessStartFailed(e)) && e@ == d,
        Launched::ConfigError(d) => r matches Err(Error::ConfigError(e)) && e@ == d,
    }
}

/// The error of a launch whose binary is not there.
pub open spec fn binary_missing(path: Seq<char>) -> Seq<char> {
    "Binary not found: "@ + path + ". Run prepare first."@
}

/// What is spawned for a cargo project: its release binary, which must
/// be there, with the arguments.
pub open spec fn cargo_launched(spec: AppSpecView, manifest: Option<Seq<char>>, binary_exists: bool) -> Launched {
    match cargo_binary(spec, manifest) {
        None => Launched::ConfigError("Could not determine binary name"@),
        Some(path) => if binary_exists {
            Launched::Spawn(LaunchView { program: path, args: spec.args })
        } else {
            Launched::StartError(binary_missing(path))
        },
    }
}

fn binary_not_found(path: &str) -> (r: Error)
    ensures
        r matches Error::ProcessStartFailed(d) && d@ == binary_missing(path@),
{
    let mut d = copy_text("Binary not found: ");
    d.append(path);
    d.append(". Run prepare first.");
    assert(d@ =~= binary_missing(path@));
    Error::ProcessStartFailed(d)
}

impl CargoRunner {
    /// The first step of preparing.
    pub fn begin_prepare(&self, spec: &AppSpec, cargo: Option<&str>, has_manifest: bool) -> (r:
        BuildStep)
        ensures
            match cargo_begun(spec@, opt_str_text(cargo), has_manifest) {
                Ok(b) => r matches BuildStep::Run(build) && build.program@ == b.program && texts(
                    build.args@,
                ) == b.args,
                Err(p) => r matches BuildStep::Refuse(got) && got@ == p,
            },
    {
        let at = match cargo {
            None => {
                return BuildStep::Refuse(
                    PrepareResult::failure("Cargo not found in PATH. Please install Rust."),
                );
            },
            Some(at) => at,
        };
        if !has_manifest {
            let mut m = copy_text("Cargo.toml not found in ");
            m.append(spec.cwd.as_str());
            return BuildStep::Refuse(PrepareResult::failure(m.as_str()));
        }
        let mut args: Vec<String> = Vec::new();
        args.push(copy_text("build"));
        args.push(copy_text("--release"));
        assert(texts(args@) =~= seq!["build"@, "--release"@]);
        BuildStep::Run(Build { program: copy_text(at), args })
    }

    /// The release binary of the project, where `manifest` is the text of
    /// its manifest, if it could be read.
    pub fn binary_path(spec: &AppSpec, manifest: Option<&str>) -> (r: Result<String, Error>)
        ensures
            match cargo_binary(spec@, opt_str_text(manifest)) {
                Some(path) => r matches Ok(p) && p@ == path,
                None => r matches Err(Error::ConfigError(d)) && d@
                    == "Could not determine binary name"@,
            },
    {
        match find_binary_name(spec.cwd.as_str(), spec.command.as_str(), manifest) {
            Ok(name) => {
                let dir = join(spec.cwd.as_str(), "target/release");
                Ok(join(dir.as_str(), name.as_str()))
            },
            Err(e) => Err(e),
        }
    }

    /// What preparing comes to once the build was run.
    pub fn finish_prepare(
        &self,
        spec: &AppSpec,
        outcome: &BuildOutcome,
        manifest: Option<&str>,
        binary_exists: bool,
        available: &str,
    ) -> (r: Result<PrepareResult, Error>)
        ensures
            prepared_is(
                r,
                cargo_prepared(spec@, *outcome, opt_str_text(manifest), binary_exists, available@),
            ),
    {
        match outcome {
            BuildOutcome::NotRun(why) => {
                let mut m = copy_text("Failed to run cargo build: ");
                m.append(why.as_str());
                Err(Error::BuildFailed(m))
            },
            BuildOutcome::Failed(stderr) => {
                let mut m = copy_text("Build failed:\n");
                m.append(stderr.as_str());
                Ok(PrepareResult::failure(m.as_str()))
            },
            BuildOutcome::Built(stdout) => {
                let path = match CargoRunner::binary_path(spec, manifest) {
                    Ok(p) => p,
                    Err(e) => {
                        return Err(e);
                    },
                };
                if binary_exists {
                    let mut m = copy_text("Build successful\n");
                    m.append(stdout.as_str());
                    Ok(PrepareResult::success_with_binary(m.as_str(), path))
                } else {
                    let mut m = copy_text("Binary not found at ");
                    m.append(path.as_str());
                    m.append(". Available binaries: ");
                    m.append(available);
                    assert(m@ =~= "Binary not found at "@ + path@ + ". Available binaries: "@
                        + available@);
                    Ok(PrepareResult::failure(m.as_str()))
                }
            },
        }
    }

    /// What is spawned.
    pub fn launch(&self, spec: &AppSpec, manifest: Option<&str>, binary_exists: bool) -> (r: Result<
        Launch,
        Error,
    >)
        ensures
            launched_is(r, cargo_launched(spec@, opt_str_text(manifest), binary_exists)),
    {
        let path = match CargoRunner::binary_path(spec, manifest) {
            Ok(p) => p,
            Err(e) => {
                return Err(e);
            },
        };
        if !binary_exists {
            return Err(binary_not_found(path.as_str()));
        }
        let r = launch_of(path, Vec::new(), &spec.args);
        assert(r@.args =~= spec@.args);
        Ok(r)
    }

    /// The error of a spawn of the binary at `path` that failed because
    /// of `why`.
    pub fn spawn_failed(&self, path: &str, why: &str) -> (r: Error)
        ensures
            r matches Error::ProcessStartFailed(d) && d@ == spawn_failure(path@, why@),
    {
        start_failed(path, why)
    }

    /// The error of a spawn that gave no pid.
    pub fn pid_missing(&self) -> (r: Error)
        ensures
            r matches Error::ProcessStartFailed(d) && d@ == pid_failure("Cargo p"@),
    {
        no_pid("Cargo p")
    }
}

/// The directory that holds the binaries compiled from single source
/// files.
pub open spec fn compiled_dir(spec: AppSpecView) -> Seq<char> {
    join_path(spec.cwd, ".oxidepm/bin"@)
}

/// The first step of preparing a single Rust source file, where `rustc`
/// is the place of the compiler on the search path, if it is there, and
/// `source_exists` says whether the source is on disk: the compiler must be
/// there, the source must exist and end in `.rs`; then it is compiled,
/// optimised, to its binary.
pub open spec fn rust_begun(spec: AppSpecView, rustc: Option<Seq<char>>, source_exists: bool) -> Result<
    LaunchView,
    PrepareView,
> {
    let source = join_path(spec.cwd, spec.command);
    match rustc {
        None => Err(refused("rustc not found in PATH. Please install Rust."@)),
        Some(at) => if !source_exists {
            Err(refused("Source file not found: "@ + source))
        } else if extension_or_none(source) != "rs"@ {
            Err(
                refused(
                    "Invalid file extension: ."@ + extension_or_none(source) + " (expected .rs)"@,
                ),
            )
        } else {
            Ok(
                LaunchView {
                    program: at,
                    args: seq![source, "-o"@, compiled_binary(spec), "-O"@],
                },
            )
        },
    }
}

/// What preparing a single Rust source file comes to once the compiler
/// was run.
pub open spec fn rust_prepared(spec: AppSpecView, outcome: BuildOutcome) -> Prepared {
    match outcome {
        BuildOutcome::NotRun(why) => Prepared::BuildError("Failed to run rustc: "@ + why@),
        BuildOutcome::Failed(stderr) => Prepared::Done(
            refused("Compilation failed:\n"@ + stderr@),
        ),
        BuildOutcome::Built(_) => Prepared::Done(
            built(
                "Compiled "@ + file_part(join_path(spec.cwd, spec.command)) + " successfully"@,
                compiled_binary(spec),
            ),
        ),
    }
}

/// What is spawned for a single Rust source file: its compiled binary,
/// which must be there, with the arguments.
pub open spec fn rust_launched(spec: AppSpecView, binary_exists: bool) -> Launched {
    if binary_exists {
        Launched::Spawn(LaunchView { program: compiled_binary(spec), args: spec.args })
    } else {
        Launched::StartError(binary_missing(compiled_binary(spec)))
    }
}

/// The file name of `path`.
fn file_name(path: &str) -> (r: String)
    ensures
        r@ == file_part(path@),
{
    let v = crate::text::chars_of(path);
    assert(v@.subrange(0, v.len() as int) =~= v@);
    let mut start: usize = v.len();
    while start > 0 && v[start - 1] != '/'
        invariant
            start <= v.len(),
            v@ == path@,
            forall|j: int| start <= j < v.len() ==> v@[j] != '/',
        decreases start,
    {
        start = start - 1;
    }
    proof {
        lemma_last_index_is(v@, '/', start as int - 1);
    }
    let r = crate::text::string_of(&v, start, v.len());
    assert(r@ =~= file_part(path@));
    r
}

/// The last `c` of `s` stands at index `i`, or nowhere if `i` is -1.
proof fn lemma_last_index_is(s: Seq<char>, c: char, i: int)
    requires
        -1 <= i < s.len(),
        i >= 0 ==> s[i] == c,
        forall|j: int| i < j < s.len() ==> s[j] != c,
    ensures
        crate::logs::last_index(s, c) == i,
    decreases s.len(),
{
    if s.len() > 0 && i < s.len() - 1 {
        let rest = s.drop_last();
        assert(s.last() == s[s.len() - 1]);
        assert forall|j: int| i < j < rest.len() implies rest[j] != c by {
            assert(rest[j] == s[j]);
        }
        lemma_last_index_is(rest, c, i);
    }
}

impl RustRunner {
    /// The source file: the command, taken in the working directory unless
    /// it is absolute.
    pub fn source_path(spec: &AppSpec) -> (r: String)
        ensures
            r@ == join_path(spec@.cwd, spec@.command),
    {
        join(spec.cwd.as_str(), spec.command.as_str())
    }

    /// The directory that holds the compiled binary.
    pub fn output_dir(spec: &AppSpec) -> (r: String)
        ensures
            r@ == compiled_dir(spec@),
    {
        join(spec.cwd.as_str(), ".oxidepm/bin")
    }

    /// The binary that the source file is compiled to.
    pub fn binary_path(spec: &AppSpec) -> (r: String)
        ensures
            r@ == compiled_binary(spec@),
    {
        let source = RustRunner::source_path(spec);
        let stem = RustRunner::file_stem(source.as_str());
        let dir = RustRunner::output_dir(spec);
        join(dir.as_str(), stem.as_str())
    }

    /// The first step of preparing.
    pub fn begin_prepare(&self, spec: &AppSpec, rustc: Option<&str>, source_exists: bool) -> (r:
        BuildStep)
        ensures
            match rust_begun(spec@, opt_str_text(rustc), source_exists) {
                Ok(b) => r matches BuildStep::Run(build) && build.program@ == b.program && texts(
                    build.args@,
                ) == b.args,
                Err(p) => r matches BuildStep::Refuse(got) && got@ == p,
            },
    {
        let at = match rustc {
            None => {
                return BuildStep::Refuse(
                    PrepareResult::failure("rustc not found in PATH. Please install Rust."),
                );
            },
            Some(at) => at,
        };
        let source = RustRunner::source_path(spec);
        if !source_exists {
            let mut m = copy_text("Source file not found: ");
            m.append(source.as_str());
            return BuildStep::Refuse(PrepareResult::failure(m.as_str()));
        }
        let ext = extension_text(source.as_str());
        if !same_text(ext.as_str(), "rs") {
            let mut m = copy_text("Invalid file extension: .");
            m.append(ext.as_str());
            m.append(" (expected .rs)");
            assert(m@ =~= "Invalid file extension: ."@ + ext@ + " (expected .rs)"@);
            return BuildStep::Refuse(PrepareResult::failure(m.as_str()));
        }
        let mut args: Vec<String> = Vec::new();
        args.push(source);
        args.push(copy_text("-o"));
        args.push(RustRunner::binary_path(spec));
        args.push(copy_text("-O"));
        assert(texts(args@) =~= seq![
            join_path(spec@.cwd, spec@.command),
            "-o"@,
            compiled_binary(spec@),
            "-O"@,
        ]);
        BuildStep::Run(Build { program: copy_text(at), args })
    }

    /// What preparing comes to once the compiler was run.
    pub fn finish_prepare(&self, spec: &AppSpec, outcome: &BuildOutcome) -> (r: Result<
        PrepareResult,
        Error,
    >)
        ensures
            prepared_is(r, rust_prepared(spec@, *outcome)),
    {
        match outcome {
            BuildOutcome::NotRun(why) => {
                let mut m = copy_text("Failed to run rustc: ");
                m.append(why.as_str());
                Err(Error::BuildFailed(m))
            },
            BuildOutcome::Failed(stderr) => {
                let mut m = copy_text("Compilation failed:\n");
                m.append(stderr.as_str());
                Ok(PrepareResult::failure(m.as_str()))
            },
            BuildOutcome::Built(_) => {
                let source = RustRunner::source_path(spec);
                let name = file_name(source.as_str());
                let mut m = copy_text("Compiled ");
                m.append(name.as_str());
                m.append(" successfully");
                assert(m@ =~= "Compiled "@ + file_part(join_path(spec@.cwd, spec@.command))
                    + " successfully"@);
                Ok(PrepareResult::success_with_binary(m.as_str(), RustRunner::binary_path(spec)))
            },
        }
    }

    /// What is spawned.
    pub fn launch(&self, spec: &AppSpec, binary_exists: bool) -> (r: Result<Launch, Error>)
        ensures
            launched_is(r, rust_launched(spec@, binary_exists)),
    {
        let path = RustRunner::binary_path(spec);
        if !binary_exists {
            return Err(binary_not_found(path.as_str()));
        }
        let r = launch_of(path, Vec::new(), &spec.args);
        assert(r@.args =~= spec@.args);
        Ok(r)
    }

    /// The error of a spawn of the binary at `path` that failed because
    /// of `why`.
    pub fn spawn_failed(&self, path: &str, why: &str) -> (r: Error)
        ensures
            r matches Error::ProcessStartFailed(d) && d@ == spawn_failure(path@, why@),
    {
        start_failed(path, why)
    }

    /// The error of a spawn that gave no pid.
    pub fn pid_missing(&self) -> (r: Error)
        ensures
            r matches Error::ProcessStartFailed(d) && d@ == pid_failure("Rust p"@),
    {
        no_pid("Rust p")
    }
}

} // verus!
