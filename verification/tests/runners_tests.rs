use oxidepm::appspec::AppSpec;
use oxidepm::error::Error;
use oxidepm::runners::{Build, BuildOutcome, BuildStep, Launch, PackageFile};
use oxidepm::runtime::{CargoRunner, CmdRunner, NodeRunner, NpmRunner, PrepareResult, RustRunner};
use oxidepm::types::AppMode;

fn spec(mode: AppMode, command: &str, cwd: &str) -> AppSpec {
    AppSpec::try_new_at("test".to_string(), mode, command.to_string(), cwd.to_string(), 0)
        .unwrap()
        .with_args(vec!["--a".to_string(), "b".to_string()])
}

fn shown(r: &PrepareResult) -> (bool, &str, Option<&str>) {
    (r.success, r.output.as_str(), r.binary_path.as_deref())
}

fn run_of(step: BuildStep) -> Build {
    match step {
        BuildStep::Run(b) => b,
        BuildStep::Refuse(r) => panic!("{:?}", r),
    }
}

fn refusal_of(step: BuildStep) -> PrepareResult {
    match step {
        BuildStep::Refuse(r) => r,
        BuildStep::Run(b) => panic!("{:?}", b),
    }
}

fn detail(e: Error) -> String {
    match e {
        Error::ProcessStartFailed(d) | Error::BuildFailed(d) | Error::ConfigError(d) => d,
        other => panic!("{:?}", other),
    }
}

fn parts(l: &Launch) -> (&str, Vec<&str>) {
    (l.program.as_str(), l.args.iter().map(|a| a.as_str()).collect())
}

#[test]
fn test_prepare_missing_node() {
    let result = NodeRunner.prepare(&spec(AppMode::Node, "app.js", "/tmp"), None, true);
    assert!(!result.success);
    assert!(result.output.contains("not found"));
    assert_eq!(
        shown(&result),
        (false, "Node.js not found in PATH. Please install Node.js.", None)
    );
}

#[test]
fn node_test_prepare_missing_script() {
    let s = spec(AppMode::Node, "nonexistent.js", "/tmp");
    let result = NodeRunner.prepare(&s, Some("/usr/bin/node"), false);
    assert!(!result.success);
    assert_eq!(shown(&result), (false, "Script not found: /tmp/nonexistent.js", None));
}

#[test]
fn node_test_prepare_valid_script() {
    let s = spec(AppMode::Node, "/tmp/x/hello.js", "/tmp");
    let result = NodeRunner.prepare(&s, Some("/usr/bin/node"), true);
    assert!(result.success);
    assert_eq!(shown(&result), (true, "Using node at /usr/bin/node", None));
    for command in ["a.mjs", "a.cjs", "a.ts", "a.mts", "a.cts"] {
        assert!(NodeRunner.prepare(&spec(AppMode::Node, command, "/w"), Some("n"), true).success);
    }
}

#[test]
fn node_refuses_other_extensions() {
    let result = NodeRunner.prepare(&spec(AppMode::Node, "app.py", "/w"), Some("n"), true);
    assert_eq!(
        shown(&result),
        (false, "Invalid script extension: .py (expected .js, .mjs, .cjs, .ts)", None)
    );
    let result = NodeRunner.prepare(&spec(AppMode::Node, "server", "/w"), Some("n"), true);
    assert_eq!(
        shown(&result),
        (false, "Invalid script extension: . (expected .js, .mjs, .cjs, .ts)", None)
    );
    let result = NodeRunner.prepare(&spec(AppMode::Node, "app.JS", "/w"), Some("n"), true);
    assert!(!result.success);
}

#[test]
fn node_launch() {
    let launch = NodeRunner.launch(&spec(AppMode::Node, "app.js", "/srv"));
    assert_eq!(parts(&launch), ("node", vec!["/srv/app.js", "--a", "b"]));
    let launch = NodeRunner.launch(&spec(AppMode::Node, "/abs/app.js", "/srv"));
    assert_eq!(parts(&launch), ("node", vec!["/abs/app.js", "--a", "b"]));
    assert_eq!(NodeRunner::script_path(&spec(AppMode::Node, "a.js", "/srv/")), "/srv/a.js");
    assert_eq!(detail(NodeRunner.spawn_failed("denied")), "Failed to start node: denied");
    assert_eq!(detail(NodeRunner.pid_missing()), "Node process started but no PID available");
}

#[test]
fn test_prepare_no_package_json() {
    let s = spec(AppMode::Npm, "start", "/proj");
    let result = NpmRunner::new("npm").prepare(&s, Some("/bin/npm"), &PackageFile::Missing).unwrap();
    assert!(!result.success);
    assert!(result.output.contains("package.json not found"));
    assert_eq!(shown(&result), (false, "package.json not found in /proj", None));
}

#[test]
fn npm_test_prepare_missing_script() {
    let s = spec(AppMode::Npm, "start", "/proj");
    let package = PackageFile::Read { has_script: false };
    let result = NpmRunner::new("npm").prepare(&s, Some("/bin/npm"), &package).unwrap();
    assert!(!result.success);
    assert!(result.output.contains("not found in package.json"));
    assert_eq!(shown(&result), (false, "Script 'start' not found in package.json scripts", None));
}

#[test]
fn npm_test_prepare_valid_script() {
    let s = spec(AppMode::Npm, "start", "/proj");
    let package = PackageFile::Read { has_script: true };
    let result = NpmRunner::new("npm").prepare(&s, Some("/bin/npm"), &package).unwrap();
    assert!(result.success);
    assert_eq!(shown(&result), (true, "Using npm at /bin/npm to run script 'start'", None));
}

#[test]
fn npm_other_outcomes() {
    let s = spec(AppMode::Yarn, "dev", "/proj");
    let yarn = NpmRunner::new("yarn");
    let result = yarn.prepare(&s, None, &PackageFile::Read { has_script: true }).unwrap();
    assert_eq!(shown(&result), (false, "yarn not found in PATH. Please install yarn.", None));
    let unreadable = PackageFile::Unreadable("denied".to_string());
    assert_eq!(
        yarn.prepare(&s, Some("y"), &unreadable).unwrap_err(),
        Error::ConfigError("Failed to read package.json: denied".to_string())
    );
    let invalid = PackageFile::Invalid("EOF".to_string());
    assert_eq!(
        yarn.prepare(&s, Some("y"), &invalid).unwrap_err(),
        Error::ConfigError("Invalid package.json: EOF".to_string())
    );
    assert!(yarn.prepare(&s, None, &invalid).is_ok());
    assert_eq!(parts(&yarn.launch(&s)), ("yarn", vec!["run", "dev", "--a", "b"]));
    assert_eq!(detail(yarn.spawn_failed("x")), "Failed to start yarn: x");
    assert_eq!(detail(yarn.pid_missing()), "yarn process started but no PID available");
}

#[test]
fn test_prepare_no_cargo_toml() {
    let s = spec(AppMode::Cargo, "myapp", "/proj");
    let result = refusal_of(CargoRunner.begin_prepare(&s, Some("/bin/cargo"), false));
    assert!(!result.success);
    assert!(result.output.contains("Cargo.toml not found"));
    assert_eq!(shown(&result), (false, "Cargo.toml not found in /proj", None));
    let result = refusal_of(CargoRunner.begin_prepare(&s, None, true));
    assert_eq!(shown(&result), (false, "Cargo not found in PATH. Please install Rust.", None));
}

#[test]
fn cargo_build_and_launch() {
    let s = spec(AppMode::Cargo, ".", "/proj/api");
    let build = run_of(CargoRunner.begin_prepare(&s, Some("/bin/cargo"), true));
    assert_eq!(build.program, "/bin/cargo");
    assert_eq!(build.args, vec!["build", "--release"]);

    let manifest = Some("[package]\nname = \"server\"\n");
    let built = BuildOutcome::Built("done".to_string());
    let result = CargoRunner.finish_prepare(&s, &built, manifest, true, "[]").unwrap();
    assert_eq!(
        shown(&result),
        (true, "Build successful\ndone", Some("/proj/api/target/release/server"))
    );
    let result = CargoRunner.finish_prepare(&s, &built, manifest, false, "[\"other\"]").unwrap();
    assert_eq!(
        shown(&result),
        (
            false,
            "Binary not found at /proj/api/target/release/server. Available binaries: [\"other\"]",
            None
        )
    );
    let result = CargoRunner.finish_prepare(&s, &built, None, true, "[]").unwrap();
    assert_eq!(result.binary_path.as_deref(), Some("/proj/api/target/release/api"));
    let failed = BuildOutcome::Failed("error[E0308]".to_string());
    let result = CargoRunner.finish_prepare(&s, &failed, manifest, true, "[]").unwrap();
    assert_eq!(shown(&result), (false, "Build failed:\nerror[E0308]", None));
    let not_run = BuildOutcome::NotRun("no such file".to_string());
    assert_eq!(
        CargoRunner.finish_prepare(&s, &not_run, manifest, true, "[]").unwrap_err(),
        Error::BuildFailed("Failed to run cargo build: no such file".to_string())
    );
    let nameless = spec(AppMode::Cargo, "", "/");
    assert_eq!(
        CargoRunner.finish_prepare(&nameless, &built, None, true, "[]").unwrap_err(),
        Error::ConfigError("Could not determine binary name".to_string())
    );

    let launch = CargoRunner.launch(&s, manifest, true).unwrap();
    assert_eq!(parts(&launch), ("/proj/api/target/release/server", vec!["--a", "b"]));
    assert_eq!(
        detail(CargoRunner.launch(&s, manifest, false).unwrap_err()),
        "Binary not found: /proj/api/target/release/server. Run prepare first."
    );
    assert!(matches!(CargoRunner.launch(&nameless, None, true), Err(Error::ConfigError(_))));
    assert_eq!(detail(CargoRunner.spawn_failed("/b", "x")), "Failed to start /b: x");
    assert_eq!(detail(CargoRunner.pid_missing()), "Cargo process started but no PID available");
}

#[test]
fn test_prepare_missing_file() {
    let s = spec(AppMode::Rust, "nonexistent.rs", "/w");
    let result = refusal_of(RustRunner.begin_prepare(&s, Some("/bin/rustc"), false));
    assert!(!result.success);
    assert!(result.output.contains("not found"));
    assert_eq!(shown(&result), (false, "Source file not found: /w/nonexistent.rs", None));
    let result = refusal_of(RustRunner.begin_prepare(&s, None, true));
    assert_eq!(shown(&result), (false, "rustc not found in PATH. Please install Rust.", None));
}

#[test]
fn test_prepare_wrong_extension() {
    let s = spec(AppMode::Rust, "app.txt", "/w");
    let result = refusal_of(RustRunner.begin_prepare(&s, Some("/bin/rustc"), true));
    assert!(!result.success);
    assert!(result.output.contains("Invalid file extension"));
    assert_eq!(shown(&result), (false, "Invalid file extension: .txt (expected .rs)", None));
}

#[test]
fn test_prepare_valid_rust_file() {
    let s = spec(AppMode::Rust, "app.rs", "/w");
    let build = run_of(RustRunner.begin_prepare(&s, Some("/bin/rustc"), true));
    assert_eq!(build.program, "/bin/rustc");
    assert_eq!(build.args, vec!["/w/app.rs", "-o", "/w/.oxidepm/bin/app", "-O"]);
    assert_eq!(RustRunner::output_dir(&s), "/w/.oxidepm/bin");
    let result = RustRunner.finish_prepare(&s, &BuildOutcome::Built(String::new())).unwrap();
    assert!(result.success, "Failed: {}", result.output);
    assert!(result.binary_path.is_some());
    assert_eq!(shown(&result), (true, "Compiled app.rs successfully", Some("/w/.oxidepm/bin/app")));
}

#[test]
fn rust_other_outcomes() {
    let s = spec(AppMode::Rust, "/src/tool.rs", "/w");
    assert_eq!(RustRunner::source_path(&s), "/src/tool.rs");
    assert_eq!(RustRunner::binary_path(&s), "/w/.oxidepm/bin/tool");
    let failed = BuildOutcome::Failed("error: x".to_string());
    let result = RustRunner.finish_prepare(&s, &failed).unwrap();
    assert_eq!(shown(&result), (false, "Compilation failed:\nerror: x", None));
    assert_eq!(
        RustRunner.finish_prepare(&s, &BuildOutcome::NotRun("gone".to_string())).unwrap_err(),
        Error::BuildFailed("Failed to run rustc: gone".to_string())
    );
    let launch = RustRunner.launch(&s, true).unwrap();
    assert_eq!(parts(&launch), ("/w/.oxidepm/bin/tool", vec!["--a", "b"]));
    assert_eq!(
        detail(RustRunner.launch(&s, false).unwrap_err()),
        "Binary not found: /w/.oxidepm/bin/tool. Run prepare first."
    );
    assert_eq!(detail(RustRunner.spawn_failed("/b", "x")), "Failed to start /b: x");
    assert_eq!(detail(RustRunner.pid_missing()), "Rust process started but no PID available");
}

#[test]
fn test_start_echo() {
    let s = AppSpec::try_new_at(
        "test".to_string(),
        AppMode::Cmd,
        "sleep".to_string(),
        "/tmp".to_string(),
        0,
    )
    .unwrap()
    .with_args(vec!["1".to_string()]);
    let launch = CmdRunner.launch(&s);
    assert_eq!(parts(&launch), ("sleep", vec!["1"]));
    assert_eq!(detail(CmdRunner.spawn_failed(&s, "x")), "Failed to start 'sleep': x");
    assert_eq!(detail(CmdRunner.pid_missing()), "Process started but no PID available");
}

#[test]
fn test_prepare_valid_command() {
    let s = AppSpec::try_new_at(
        "test".to_string(),
        AppMode::Cmd,
        "echo".to_string(),
        "/tmp".to_string(),
        0,
    )
    .unwrap();
    let lookup = oxidepm::runtime::ProgramLookup::Found("/bin/echo".to_string());
    let result = CmdRunner.prepare(&s, &lookup);
    assert!(result.success);
    assert_eq!(result.output, "Found echo at /bin/echo");
}

#[test]
fn test_prepare_invalid_command() {
    let s = AppSpec::try_new_at(
        "test".to_string(),
        AppMode::Cmd,
        "nonexistent_command_12345".to_string(),
        "/tmp".to_string(),
        0,
    )
    .unwrap();
    let result = CmdRunner.prepare(&s, &oxidepm::runtime::ProgramLookup::Missing);
    assert!(!result.success);
    assert_eq!(result.output, "Command not found: nonexistent_command_12345");
}
