use oxidepm::check::{detect_project_port, parse_port_from_env, parse_port_from_script, PortFacts};
use oxidepm::cli::extract_repo_name;
use oxidepm::error::Error;
use oxidepm::history::{MetricsRepository, RunsRepository};
use oxidepm::ipc::get_client;
use oxidepm::notify::{notify_config_path, notify_config_path_in};
use oxidepm::runtime::find_binary_name;
use oxidepm::types::{AppStatus, RunState};
use oxidepm::web::api_key_auth;

#[test]
fn port_from_env_file() {
    assert_eq!(parse_port_from_env("PORT=3001\n"), Some(3001));
    assert_eq!(parse_port_from_env("# PORT=1\nA=2\n  PORT= \"'8080'\" \nPORT=9\n"), Some(8080));
    assert_eq!(parse_port_from_env("PORT=70000\nPORT=+81\n"), Some(81));
    assert_eq!(parse_port_from_env("PORT=\nport=80\nPORTS=80\n"), None);
    assert_eq!(parse_port_from_env("PORT=65535"), Some(65535));
    assert_eq!(parse_port_from_env("PORT=65536"), None);
    assert_eq!(parse_port_from_env("PORT=\"\"80\"\""), Some(80));
    assert_eq!(parse_port_from_env("PORT=8 0"), None);
    assert_eq!(parse_port_from_env(""), None);
}

#[test]
fn port_from_script() {
    assert_eq!(parse_port_from_script("PORT=3001 react-scripts start"), Some(3001));
    assert_eq!(parse_port_from_script("node app --port 3002"), Some(3002));
    assert_eq!(parse_port_from_script("node app -p 3003 --port 1"), Some(3003));
    assert_eq!(parse_port_from_script("node app --port x -p 4"), Some(4));
    assert_eq!(parse_port_from_script("X_PORT=12ab --port 5"), Some(12));
    assert_eq!(parse_port_from_script("PORT=abc --port 6 PORT=7"), Some(6));
    assert_eq!(parse_port_from_script("PORT=99999 -p 8"), Some(8));
    assert_eq!(parse_port_from_script("node app --port"), None);
    assert_eq!(parse_port_from_script("node app --port=9"), None);
    assert_eq!(parse_port_from_script(""), None);
}

fn facts() -> PortFacts {
    PortFacts {
        env: None,
        env_local: None,
        has_package_json: false,
        start_script: None,
        dev_script: None,
        cargo_toml: None,
    }
}

#[test]
fn project_port_detection() {
    assert_eq!(detect_project_port(&facts()), None);
    let mut f = facts();
    f.env = Some("A=1\n".to_string());
    f.env_local = Some("PORT=4000\n".to_string());
    f.has_package_json = true;
    f.start_script = Some("node a --port 5000".to_string());
    assert_eq!(detect_project_port(&f), Some(4000));
    f.env = Some("PORT=3500".to_string());
    assert_eq!(detect_project_port(&f), Some(3500));
    f.env = None;
    f.env_local = None;
    assert_eq!(detect_project_port(&f), Some(5000));
    f.start_script = Some("node a".to_string());
    f.dev_script = Some("PORT=5001 vite".to_string());
    assert_eq!(detect_project_port(&f), Some(5001));
    f.dev_script = None;
    assert_eq!(detect_project_port(&f), Some(3000));
    let mut c = facts();
    c.cargo_toml = Some("[dependencies]\naxum = \"0.7\"\n".to_string());
    assert_eq!(detect_project_port(&c), Some(8080));
    c.cargo_toml = Some("[dependencies]\nserde = \"1\"\n".to_string());
    assert_eq!(detect_project_port(&c), None);
    c.start_script = Some("--port 1".to_string());
    assert_eq!(detect_project_port(&c), None);
}

#[test]
fn repo_names() {
    assert_eq!(extract_repo_name("https://github.com/user/repo.git"), Ok("repo".to_string()));
    assert_eq!(extract_repo_name("https://github.com/user/repo"), Ok("repo".to_string()));
    assert_eq!(extract_repo_name("git@github.com:user/repo.git"), Ok("repo".to_string()));
    assert_eq!(extract_repo_name("user/repo"), Ok("repo".to_string()));
    assert_eq!(extract_repo_name("user/repo.git.git///"), Ok("repo".to_string()));
    assert_eq!(extract_repo_name("repo"), Ok("repo".to_string()));
    assert_eq!(extract_repo_name("git@host:repo.git"), Ok("git@host:repo".to_string()));
    assert_eq!(
        extract_repo_name("https://host/.git"),
        Err("Could not extract repository name from URL: https://host/".to_string())
    );
    assert_eq!(
        extract_repo_name(""),
        Err("Could not extract repository name from URL: ".to_string())
    );
}

#[test]
fn test_find_binary_name_with_hint() {
    let result = find_binary_name("/tmp/project", "myapp", None).unwrap();
    assert_eq!(result, "myapp");
}

#[test]
fn test_find_binary_name_from_cargo_toml() {
    let manifest = "[package]\nname = \"test-app\"\nversion = \"0.1.0\"\nedition = \"2021\"\n";
    let result = find_binary_name("/tmp/project", "", Some(manifest)).unwrap();
    assert_eq!(result, "test-app");
}

#[test]
fn binary_name_fallbacks() {
    assert_eq!(find_binary_name("/srv/api/", ".", None), Ok("api".to_string()));
    assert_eq!(find_binary_name("/srv/api", "./", Some("[package]\n")), Ok("api".to_string()));
    assert_eq!(find_binary_name("/srv/api", "", Some("name='x' = y\n")), Ok("x".to_string()));
    assert_eq!(find_binary_name("/srv/api", "", Some("  named = \"q\"")), Ok("q".to_string()));
    assert_eq!(find_binary_name("/srv/api", "", Some("name\nname=")), Ok(String::new()));
    assert_eq!(
        find_binary_name("/", "", None),
        Err(Error::ConfigError("Could not determine binary name".to_string()))
    );
    assert!(find_binary_name("a/..", "", None).is_err());
    assert!(find_binary_name(".", "", None).is_err());
    assert_eq!(find_binary_name("rel", "", None), Ok("rel".to_string()));
}

#[test]
fn api_keys() {
    assert!(api_key_auth(None, None));
    assert!(api_key_auth(None, Some("anything")));
    assert!(api_key_auth(Some("k"), Some("k")));
    assert!(!api_key_auth(Some("k"), Some("K")));
    assert!(!api_key_auth(Some("k"), None));
    assert!(!api_key_auth(Some(""), None));
    assert!(api_key_auth(Some(""), Some("")));
}

#[test]
fn usual_places() {
    assert!(get_client().socket_path().ends_with("daemon.sock"));
    assert!(notify_config_path().ends_with(".oxidepm/notify.toml"));
    assert_eq!(notify_config_path_in(&Some("/home/u".to_string())), "/home/u/.oxidepm/notify.toml");
    assert_eq!(notify_config_path_in(&None), "./.oxidepm/notify.toml");
}

#[test]
fn run_history() {
    let mut runs = RunsRepository::new();
    let a = runs.insert(1, &RunState::running_at(1, 100, 5), 10).unwrap();
    let b = runs.insert(2, &RunState::running_at(2, 200, 5), 11).unwrap();
    let c = runs.insert(1, &RunState::running_at(1, 101, 5), 12).unwrap();
    assert_eq!((a, b, c), (1, 2, 3));
    let latest = runs.get_latest(1).unwrap();
    assert_eq!(latest.id, 3);
    assert_eq!(latest.pid, Some(101));
    assert_eq!(latest.status, AppStatus::Running);
    assert_eq!(latest.start_time, 12);
    assert_eq!(latest.stop_time, None);
    runs.update_status(1, AppStatus::Stopping);
    runs.update_stop(1, Some(0), 20);
    runs.increment_restarts(3);
    runs.increment_restarts(3);
    runs.update_status(3, AppStatus::Errored);
    let all = runs.get_by_app(1, 10);
    assert_eq!(all.len(), 2);
    assert_eq!(all[0].id, 3);
    assert_eq!(all[0].restarts, 2);
    assert_eq!(all[0].status, AppStatus::Errored);
    assert_eq!(all[1].id, 1);
    assert_eq!(all[1].status, AppStatus::Stopped);
    assert_eq!(all[1].stop_time, Some(20));
    assert_eq!(all[1].exit_code, Some(0));
    assert_eq!(runs.get_by_app(1, 1).len(), 1);
    assert!(runs.get_by_app(1, 0).is_empty());
    assert!(runs.get_latest(9).is_none());
    assert_eq!(runs.delete_by_app(1), 2);
    assert_eq!(runs.delete_by_app(1), 0);
    assert_eq!(runs.get_latest(2).unwrap().id, 2);
    assert_eq!(runs.insert(1, &RunState::new(1), 30).unwrap(), 4);
}

#[test]
fn metrics_samples_and_cleanup() {
    let mut m = MetricsRepository::new();
    for t in 0..5 {
        m.insert(1, 100 * t, 1000 + t as u64, t as i64);
        if t % 2 == 0 {
            m.insert(2, 7, 7, t as i64);
        }
    }
    assert_eq!(m.get_latest(1).unwrap().timestamp, 4);
    assert_eq!(m.get_latest(1).unwrap().cpu_centipercent, 400);
    assert_eq!(m.get_latest(1).unwrap().memory_bytes, 1004);
    assert!(m.get_latest(3).is_none());
    let h: Vec<i64> = m.get_history(1, 3).iter().map(|s| s.timestamp).collect();
    assert_eq!(h, vec![4, 3, 2]);
    assert_eq!(m.cleanup(2), 4);
    let h: Vec<i64> = m.get_history(1, 10).iter().map(|s| s.timestamp).collect();
    assert_eq!(h, vec![4, 3]);
    let h: Vec<i64> = m.get_history(2, 10).iter().map(|s| s.timestamp).collect();
    assert_eq!(h, vec![4, 2]);
    assert_eq!(m.cleanup(2), 0);
    assert_eq!(m.delete_by_app(2), 2);
    assert_eq!(m.cleanup(0), 2);
    assert!(m.get_latest(1).is_none());
}

#[test]
fn port_probing_stops_at_a_free_port_or_at_the_last() {
    assert_eq!(oxidepm::check::next_probe(3000, true), Some(3001));
    assert_eq!(oxidepm::check::next_probe(3000, false), None);
    assert_eq!(oxidepm::check::next_probe(65534, true), Some(65535));
    assert_eq!(oxidepm::check::next_probe(65535, true), None);
    assert_eq!(oxidepm::check::next_probe(65535, false), None);
    // Probing as next_probe says gives the flags that the search needs.
    let taken = |port: u16| port < 3003;
    let mut in_use = Vec::new();
    let mut at = Some(3000);
    while let Some(port) = at {
        in_use.push(taken(port));
        at = oxidepm::check::next_probe(port, taken(port));
    }
    assert_eq!(in_use, vec![true, true, true, false]);
    assert_eq!(oxidepm::check::find_available_port(3000, &in_use), Some(3003));
}
