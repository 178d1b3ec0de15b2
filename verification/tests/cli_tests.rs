use oxidepm::appspec::AppSpec;
use oxidepm::check::{
    check_env_files, check_nodejs_project, env_template_to_copy, handle_set_env, install_tool,
    needs_npm_install, report_set_env, CheckResult, CheckStatus, CopyOutcome, EnvFacts,
    InstallOutcome, NodeFacts,
};
use oxidepm::cli::{build_app_spec, build_app_spec_at, overlay_env, StartArgs, TargetFacts};
use oxidepm::config::extension;
use oxidepm::error::Error;
use oxidepm::registry::{sequence_for, Registry};
use oxidepm::runtime::name_of_dir;
use oxidepm::supervisor::Supervisor;
use oxidepm::types::AppMode;

fn start_args(target: Option<&str>) -> StartArgs {
    StartArgs {
        target: target.map(String::from),
        git: None,
        branch: None,
        clone_dir: None,
        name: None,
        cwd: None,
        envs: Vec::new(),
        env_file: None,
        watch: false,
        ignore: Vec::new(),
        restart_delay: 500,
        max_restarts: 15,
        kill_timeout: 3000,
        no_autorestart: false,
        mode: None,
        script: None,
        bin: None,
        tag: Vec::new(),
        max_uptime: None,
        startup_delay: None,
        env_inherit: false,
        on_start: None,
        on_stop: None,
        on_restart: None,
        on_crash: None,
        setup: false,
        no_check: false,
        args: Vec::new(),
    }
}

fn target_facts(cwd: &str) -> TargetFacts {
    TargetFacts {
        is_dir: false,
        has_cargo_toml: false,
        has_package_json: false,
        cwd: cwd.to_string(),
        inherited_env: Vec::new(),
        env_file: None,
    }
}

fn pair(k: &str, v: &str) -> (String, String) {
    (k.to_string(), v.to_string())
}

fn shown(results: &[CheckResult]) -> Vec<(CheckStatus, String, Option<String>)> {
    results.iter().map(|r| (r.status, r.message.clone(), r.fix_hint.clone())).collect()
}

#[test]
fn start_of_a_script_file() {
    let mut args = start_args(Some("src/server.js"));
    args.args = vec!["--fast".to_string()];
    args.ignore = vec!["tmp".to_string()];
    args.tag = vec!["web".to_string()];
    args.watch = true;
    args.max_uptime = Some(3600);
    args.startup_delay = Some(250);
    args.on_crash = Some("notify.sh".to_string());
    let spec = build_app_spec_at(&args, &target_facts("/srv/app/src"), 77).unwrap();
    assert_eq!(spec.id, 0);
    assert_eq!(spec.name, "server");
    assert_eq!(spec.mode, AppMode::Node);
    assert_eq!(spec.command, "server.js");
    assert_eq!(spec.args, vec!["--fast"]);
    assert_eq!(spec.cwd, "/srv/app/src");
    assert!(spec.env.is_empty());
    assert!(spec.watch);
    assert_eq!(
        spec.ignore_patterns,
        vec!["target", "node_modules", ".git", ".oxidepm", "*.swp", "*.swo", ".DS_Store", "tmp"]
    );
    assert!(spec.restart_policy.auto_restart);
    assert_eq!(spec.restart_policy.max_restarts, 15);
    assert_eq!(spec.restart_policy.restart_delay_ms, 500);
    assert_eq!(spec.restart_policy.crash_window_secs, 60);
    assert_eq!(spec.kill_timeout_ms, 3000);
    assert_eq!(spec.created_at, 77);
    assert_eq!(spec.instances, 1);
    assert_eq!(spec.port, None);
    assert_eq!(spec.startup_delay_ms, Some(250));
    assert_eq!(spec.max_uptime_secs, Some(3600));
    assert_eq!(spec.hooks.on_crash, Some("notify.sh".to_string()));
    assert_eq!(spec.hooks.on_start, None);
    assert_eq!(spec.tags, vec!["web"]);
}

#[test]
fn start_of_a_directory() {
    let args = start_args(Some("projects/api"));
    let mut facts = target_facts("/home/u/projects/api");
    facts.is_dir = true;
    facts.has_cargo_toml = true;
    let spec = build_app_spec_at(&args, &facts, 0).unwrap();
    assert_eq!(spec.name, "api");
    assert_eq!(spec.mode, AppMode::Cargo);
    assert_eq!(spec.command, ".");

    let mut named = start_args(Some("projects/api"));
    named.bin = Some("server".to_string());
    named.name = Some("backend".to_string());
    named.no_autorestart = true;
    let spec = build_app_spec_at(&named, &facts, 0).unwrap();
    assert_eq!(spec.name, "backend");
    assert_eq!(spec.command, "server");
    assert!(!spec.restart_policy.auto_restart);

    facts.has_cargo_toml = false;
    facts.has_package_json = true;
    let spec = build_app_spec_at(&args, &facts, 0).unwrap();
    assert_eq!(spec.mode, AppMode::Npm);
    assert_eq!(spec.command, "start");
}

#[test]
fn start_with_a_script_or_a_mode() {
    let mut args = start_args(Some("."));
    args.script = Some("dev".to_string());
    args.name = Some("site".to_string());
    let mut facts = target_facts("/w");
    facts.is_dir = true;
    let spec = build_app_spec_at(&args, &facts, 0).unwrap();
    assert_eq!(spec.mode, AppMode::Npm);
    assert_eq!(spec.command, "dev");

    args.mode = Some("yarn".to_string());
    let spec = build_app_spec_at(&args, &facts, 0).unwrap();
    assert_eq!(spec.mode, AppMode::Yarn);
    assert_eq!(spec.command, "dev");

    let mut raw = start_args(Some("/usr/bin/sleep"));
    raw.args = vec!["30".to_string()];
    let spec = build_app_spec_at(&raw, &target_facts("/usr/bin"), 0).unwrap();
    assert_eq!(spec.mode, AppMode::Cmd);
    assert_eq!(spec.command, "/usr/bin/sleep");
    assert_eq!(spec.name, "sleep");
}

#[test]
fn start_that_is_refused() {
    let none = start_args(None);
    assert!(matches!(
        build_app_spec_at(&none, &target_facts("/w"), 0),
        Err(Error::ConfigError(_))
    ));
    let mut bad_mode = start_args(Some("app.js"));
    bad_mode.mode = Some("python".to_string());
    assert_eq!(
        build_app_spec_at(&bad_mode, &target_facts("/w"), 0).err(),
        Some(Error::InvalidMode("python".to_string()))
    );
    let mut bad_name = start_args(Some("app.js"));
    bad_name.name = Some("../etc".to_string());
    assert!(matches!(
        build_app_spec_at(&bad_name, &target_facts("/w"), 0),
        Err(Error::ConfigError(_))
    ));
    let mut dotted = start_args(Some("app.js"));
    dotted.name = Some("a/b".to_string());
    assert!(build_app_spec(&dotted, &target_facts("/w")).is_err());
}

#[test]
fn start_environment_layers() {
    let mut args = start_args(Some("app.js"));
    args.envs = vec![pair("B", "cli"), pair("D", "4")];
    args.env_inherit = true;
    let mut facts = target_facts("/w");
    facts.inherited_env = vec![pair("A", "1"), pair("B", "2"), pair("C", "3")];
    facts.env_file = Some("# settings\nC=\"file\"\nE=5\n".to_string());
    let spec = build_app_spec_at(&args, &facts, 0).unwrap();
    let value = |k: &str| spec.env.iter().find(|(key, _)| key == k).map(|(_, v)| v.clone());
    assert_eq!(value("A"), Some("1".to_string()));
    assert_eq!(value("B"), Some("cli".to_string()));
    assert_eq!(value("C"), Some("file".to_string()));
    assert_eq!(value("D"), Some("4".to_string()));
    assert_eq!(value("E"), Some("5".to_string()));
    assert_eq!(spec.env.len(), 5);
    assert!(spec.env_inherit);

    args.env_inherit = false;
    let spec = build_app_spec_at(&args, &facts, 0).unwrap();
    assert_eq!(spec.env.len(), 4);
    assert!(spec.env.iter().all(|(k, _)| k != "A"));
}

#[test]
fn start_now_is_start_at_its_time() {
    let args = start_args(Some("app.js"));
    let spec: AppSpec = build_app_spec(&args, &target_facts("/w")).unwrap();
    assert_eq!(spec.name, "app");
    assert!(spec.created_at > 1_600_000_000);
}

#[test]
fn overlay_sets_in_order() {
    let mut env = vec![pair("A", "1"), pair("B", "2")];
    overlay_env(&mut env, &vec![pair("B", "x"), pair("C", "3"), pair("B", "y")]);
    assert_eq!(env, vec![pair("A", "1"), pair("B", "y"), pair("C", "3")]);
    let mut same = vec![pair("A", "1")];
    overlay_env(&mut same, &Vec::new());
    assert_eq!(same, vec![pair("A", "1")]);
}

fn node_facts() -> NodeFacts {
    NodeFacts {
        has_package_json: true,
        node_modules: Some(12),
        fix: false,
        install: InstallOutcome::NotRun,
        has_package_lock: true,
        has_yarn_lock: false,
        has_pnpm_lock: false,
    }
}

#[test]
fn node_project_that_is_ready() {
    let mut results = Vec::new();
    check_nodejs_project(&node_facts(), &mut results);
    assert_eq!(
        shown(&results),
        vec![
            (CheckStatus::Okay, "package.json found".to_string(), None),
            (CheckStatus::Okay, "node_modules/ found (12 packages)".to_string(), None),
            (CheckStatus::Okay, "package-lock.json found".to_string(), None),
        ]
    );
}

#[test]
fn node_project_without_a_manifest() {
    let mut facts = node_facts();
    facts.has_package_json = false;
    let mut results = Vec::new();
    check_nodejs_project(&facts, &mut results);
    assert_eq!(
        shown(&results),
        vec![(
            CheckStatus::Error,
            "package.json not found".to_string(),
            Some("Run `npm init` to create package.json".to_string())
        )]
    );
    assert!(!needs_npm_install(&facts));
}

#[test]
fn node_project_without_dependencies() {
    let mut facts = node_facts();
    facts.node_modules = None;
    facts.has_package_lock = false;
    assert!(!needs_npm_install(&facts));
    let mut results = Vec::new();
    check_nodejs_project(&facts, &mut results);
    assert_eq!(
        shown(&results),
        vec![
            (CheckStatus::Okay, "package.json found".to_string(), None),
            (
                CheckStatus::Warn,
                "node_modules/ missing - run `npm install`".to_string(),
                Some("Use --fix to auto-install dependencies".to_string())
            ),
            (
                CheckStatus::Warn,
                "No lockfile found (package-lock.json, yarn.lock, or pnpm-lock.yaml)".to_string(),
                Some("Run `npm install` to generate package-lock.json".to_string())
            ),
        ]
    );
}

#[test]
fn node_project_that_is_fixed() {
    let mut facts = node_facts();
    facts.node_modules = None;
    facts.fix = true;
    assert!(needs_npm_install(&facts));
    facts.install = InstallOutcome::Installed(40);
    let mut results = Vec::new();
    check_nodejs_project(&facts, &mut results);
    assert_eq!(
        shown(&results)[1..3],
        [
            (CheckStatus::Fixed, "Running npm install...".to_string(), None),
            (CheckStatus::Okay, "node_modules/ installed (40 packages)".to_string(), None),
        ]
    );
    facts.install = InstallOutcome::Failed("no network".to_string());
    let mut results = Vec::new();
    check_nodejs_project(&facts, &mut results);
    assert_eq!(
        shown(&results)[2],
        (
            CheckStatus::Error,
            "npm install failed: no network".to_string(),
            Some("Try running `npm install` manually".to_string())
        )
    );
}

#[test]
fn install_tool_follows_the_lockfile() {
    let mut facts = node_facts();
    assert_eq!(install_tool(&facts), "npm");
    facts.has_yarn_lock = true;
    assert_eq!(install_tool(&facts), "yarn");
    facts.has_pnpm_lock = true;
    assert_eq!(install_tool(&facts), "pnpm");
}

fn env_facts() -> EnvFacts {
    EnvFacts {
        has_env: false,
        has_example: false,
        has_template: false,
        has_local: false,
        fix: false,
        copy: CopyOutcome::NotRun,
    }
}

#[test]
fn env_file_that_is_there() {
    let mut facts = env_facts();
    facts.has_env = true;
    facts.has_example = true;
    facts.has_local = true;
    facts.fix = true;
    assert_eq!(env_template_to_copy(&facts), None);
    let mut results = Vec::new();
    check_env_files(&facts, &mut results);
    assert_eq!(
        shown(&results),
        vec![
            (CheckStatus::Okay, ".env found".to_string(), None),
            (CheckStatus::Info, ".env.local found".to_string(), None),
        ]
    );
}

#[test]
fn env_file_without_a_template() {
    let mut results = Vec::new();
    check_env_files(&env_facts(), &mut results);
    assert_eq!(
        shown(&results),
        vec![(CheckStatus::Info, ".env not found (no template available)".to_string(), None)]
    );
}

#[test]
fn env_file_that_is_missing() {
    let mut facts = env_facts();
    facts.has_template = true;
    assert_eq!(env_template_to_copy(&facts), None);
    let mut results = Vec::new();
    check_env_files(&facts, &mut results);
    assert_eq!(
        shown(&results),
        vec![(
            CheckStatus::Warn,
            ".env missing (template found: .env.template)".to_string(),
            Some("Use --fix to create .env from template".to_string())
        )]
    );
}

#[test]
fn env_file_that_is_created() {
    let mut facts = env_facts();
    facts.has_example = true;
    facts.has_template = true;
    facts.fix = true;
    assert_eq!(env_template_to_copy(&facts), Some(".env.example"));
    facts.copy = CopyOutcome::Copied;
    let mut results = Vec::new();
    check_env_files(&facts, &mut results);
    assert_eq!(
        shown(&results),
        vec![
            (CheckStatus::Fixed, "Creating .env from .env.example".to_string(), None),
            (CheckStatus::Okay, ".env created".to_string(), None),
        ]
    );
    facts.copy = CopyOutcome::Failed("denied".to_string());
    let mut results = Vec::new();
    check_env_files(&facts, &mut results);
    assert_eq!(
        shown(&results),
        vec![(
            CheckStatus::Error,
            "Failed to create .env: denied".to_string(),
            Some("Manually copy .env.example to .env".to_string())
        )]
    );
}

#[test]
fn set_env_adds_and_updates() {
    let existing = "# db\nHOST=a\n  PORT = 1 \nHOST=b\n";
    let (content, added, updated) =
        handle_set_env(existing, &vec![pair("PORT", "8080"), pair("MODE", "dev"), pair("HOST", "c")]);
    assert_eq!(content, "# db\nHOST=a\nPORT=8080\nHOST=c\nMODE=dev\n");
    assert_eq!((added, updated), (1, 2));
}

#[test]
fn set_env_in_an_empty_file() {
    let (content, added, updated) = handle_set_env("", &vec![pair("A", "1"), pair("A", "2")]);
    assert_eq!(content, "A=1\nA=2\n");
    assert_eq!((added, updated), (2, 0));
    let (content, added, updated) = handle_set_env("", &Vec::new());
    assert_eq!(content, "\n");
    assert_eq!((added, updated), (0, 0));
    let (content, _, _) = handle_set_env("X=1", &Vec::new());
    assert_eq!(content, "X=1\n");
}

#[test]
fn set_env_report() {
    let mut results = Vec::new();
    report_set_env(2, 1, None, &mut results);
    assert_eq!(
        shown(&results),
        vec![
            (CheckStatus::Fixed, "Added 2 environment variable(s) to .env".to_string(), None),
            (CheckStatus::Fixed, "Updated 1 environment variable(s) in .env".to_string(), None),
        ]
    );
    let mut results = Vec::new();
    report_set_env(0, 0, None, &mut results);
    assert!(results.is_empty());
    report_set_env(3, 3, Some("read-only"), &mut results);
    assert_eq!(
        shown(&results),
        vec![(CheckStatus::Error, "Failed to write .env: read-only".to_string(), None)]
    );
}

#[test]
fn extension_of_a_path() {
    assert_eq!(extension("conf/oxidepm.toml"), Some("toml".to_string()));
    assert_eq!(extension("a.b/c"), None);
    assert_eq!(extension("archive.tar.gz"), Some("gz".to_string()));
    assert_eq!(extension("Makefile"), None);
}

#[test]
fn name_of_a_directory() {
    assert_eq!(name_of_dir("/home/u/api"), Some("api".to_string()));
    assert_eq!(name_of_dir("api"), Some("api".to_string()));
    assert_eq!(name_of_dir("/"), None);
    assert_eq!(name_of_dir(""), None);
}

#[test]
fn registry_restored_from_rows() {
    let mut reg = Registry::new();
    let a = AppSpec::try_new("a".to_string(), AppMode::Cmd, "x".to_string(), "/".to_string()).unwrap();
    let b = AppSpec::try_new("b".to_string(), AppMode::Cmd, "y".to_string(), "/".to_string()).unwrap();
    assert_eq!(reg.insert(&a).unwrap(), 1);
    assert_eq!(reg.insert(&b).unwrap(), 2);
    assert!(reg.delete(1));
    let rows = reg.get_all();
    let back = Registry::restore(rows, reg.sequence()).unwrap();
    assert_eq!(back.len(), 1);
    assert_eq!(back.sequence(), 3);
    assert_eq!(back.get_by_name("b").unwrap().id, 2);

    let twice = vec![reg.get_by_id(2).unwrap(), reg.get_by_id(2).unwrap()];
    assert!(Registry::restore(twice, 3).is_none());
    assert!(Registry::restore(reg.get_all(), 2).is_none());
    assert!(Registry::restore(Vec::new(), 0).is_none());
    assert!(Registry::restore(Vec::new(), 1).is_some());
}

#[test]
fn supervisor_over_a_restored_registry() {
    let mut reg = Registry::new();
    let a = AppSpec::try_new("a".to_string(), AppMode::Cmd, "x".to_string(), "/".to_string()).unwrap();
    reg.insert(&a).unwrap();
    let sup = Supervisor::with_registry(reg);
    assert_eq!(sup.process_count(), 0);
    assert_eq!(sup.registry().len(), 1);
    assert_eq!(sup.status().len(), 1);
    assert_eq!(sup.status()[0].spec.name, "a");
}

#[test]
fn sequence_of_restored_rows() {
    let mut reg = Registry::new();
    for name in ["a", "b", "c"] {
        let spec = AppSpec::try_new_at(
            name.to_string(),
            AppMode::Cmd,
            "x".to_string(),
            "/".to_string(),
            0,
        )
        .unwrap();
        reg.insert(&spec).unwrap();
    }
    assert!(reg.delete(3));
    let rows = reg.get_all();
    assert_eq!(sequence_for(&rows, None), 3);
    assert_eq!(sequence_for(&rows, Some(2)), 3);
    assert_eq!(sequence_for(&rows, Some(4)), 4);
    assert_eq!(sequence_for(&Vec::new(), None), 1);
    assert_eq!(sequence_for(&Vec::new(), Some(0)), 1);
    assert_eq!(sequence_for(&Vec::new(), Some(9)), 9);
    assert!(Registry::restore(rows, 4).is_some());
}
