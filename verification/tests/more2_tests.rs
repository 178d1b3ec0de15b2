use oxidepm::check::{
    check_cargo_project, check_config_files, check_env_files, check_nodejs_project,
    detect_project_type, env_template_to_copy, handle_set_env, needs_npm_install,
    project_config_files, CargoFacts, CheckStatus, CopyOutcome, EnvFacts, InstallOutcome,
    NodeFacts, ProjectType,
};
use oxidepm::logs::{LogReader, LogWriter, RotationConfig};
use oxidepm::output::{format_bytes, format_cpu};
use oxidepm::watch::{FileWatcher, WatchConfig, WatchEventKind};

#[test]
fn output_test_format_bytes() {
    assert_eq!(format_bytes(0), "0B");
    assert_eq!(format_bytes(512), "512B");
    assert_eq!(format_bytes(1024), "1K");
    assert_eq!(format_bytes(1024 * 1024), "1.0M");
    assert_eq!(format_bytes(1024 * 1024 * 1024), "1.0G");
    assert_eq!(format_bytes(128 * 1024 * 1024), "128.0M");
}

#[test]
fn lib_test_format_bytes() {
    assert_eq!(oxidepm::tui::format_bytes(500), "500B");
    assert_eq!(oxidepm::tui::format_bytes(2048), "2K");
    assert_eq!(oxidepm::tui::format_bytes(1_500_000), "1.4M");
    assert_eq!(oxidepm::tui::format_bytes(2_000_000_000), "1.9G");
}

#[test]
fn bytes_round_half_to_even() {
    assert_eq!(format_bytes(1023), "1023B");
    assert_eq!(format_bytes(1024 + 511), "1K");
    assert_eq!(format_bytes(1024 + 512), "2K");
    assert_eq!(format_bytes(2 * 1024 + 512), "2K");
    assert_eq!(format_bytes(2 * 1024 + 513), "3K");
    assert_eq!(format_bytes(1_048_575), "1024K");
    assert_eq!(format_bytes(1_048_576 + 262_144), "1.2M");
    assert_eq!(format_bytes(1_048_576 + 786_432), "1.8M");
    assert_eq!(format_bytes(1_073_741_823), "1024.0M");
    assert_eq!(format_bytes(1_073_741_824 + 268_435_456), "1.2G");
    assert_eq!(format_bytes(u64::MAX), "17179869184.0G");
}

fn float_bytes(bytes: u64) -> String {
    if bytes >= 1_073_741_824 {
        format!("{:.1}G", bytes as f64 / 1_073_741_824.0)
    } else if bytes >= 1_048_576 {
        format!("{:.1}M", bytes as f64 / 1_048_576.0)
    } else if bytes >= 1024 {
        format!("{:.0}K", bytes as f64 / 1024.0)
    } else {
        format!("{}B", bytes)
    }
}

#[test]
fn bytes_print_as_the_double_quotient() {
    let mut x: u64 = 88172645463325252;
    for _ in 0..20000 {
        x ^= x << 13;
        x ^= x >> 7;
        x ^= x << 17;
        for shift in [0u32, 11, 20, 30, 34, 44, 54] {
            let bytes = x >> shift;
            assert_eq!(format_bytes(bytes), float_bytes(bytes), "{}", bytes);
        }
    }
    let tenth: u64 = 1_073_741_824 / 4;
    for k in 0..4000u64 {
        for d in [0u64, 1] {
            let near = (4 + k) * tenth;
            assert_eq!(format_bytes(near + d), float_bytes(near + d));
            assert_eq!(format_bytes(near - d), float_bytes(near - d));
        }
    }
    for k in 0..3000u64 {
        let wide = (1u64 << 53) + k * 53_687_091 + k;
        assert_eq!(format_bytes(wide), float_bytes(wide));
        let top = u64::MAX - k * 107_374_183;
        assert_eq!(format_bytes(top), float_bytes(top));
    }
    for bytes in 0..70000u64 {
        assert_eq!(format_bytes(bytes), float_bytes(bytes));
    }
}

#[test]
fn cpu_share_with_one_decimal() {
    assert_eq!(format_cpu(0), "0.0%");
    assert_eq!(format_cpu(150), "1.5%");
    assert_eq!(format_cpu(1550), "15.5%");
    assert_eq!(format_cpu(1554), "15.5%");
    assert_eq!(format_cpu(1555), "15.6%");
    assert_eq!(format_cpu(1545), "15.4%");
    assert_eq!(format_cpu(9996), "100.0%");
    assert_eq!(format_cpu(u32::MAX), "42949673.0%");
}

#[test]
fn test_detect_project_type_nodejs() {
    assert_eq!(detect_project_type(true, false), ProjectType::NodeJs);
}

#[test]
fn test_detect_project_type_cargo() {
    assert_eq!(detect_project_type(false, true), ProjectType::Cargo);
}

fn template_only(fix: bool) -> EnvFacts {
    EnvFacts {
        has_env: false,
        has_example: true,
        has_template: false,
        has_local: false,
        fix,
        copy: CopyOutcome::NotRun,
    }
}

#[test]
fn test_check_env_files_with_template() {
    let mut results = Vec::new();
    check_env_files(&template_only(false), &mut results);
    assert!(results.iter().any(|r| r.status == CheckStatus::Warn));
    assert!(results.iter().any(|r| r.message.contains(".env missing")));
}

#[test]
fn test_check_env_files_with_fix() {
    let mut facts = template_only(true);
    assert_eq!(env_template_to_copy(&facts), Some(".env.example"));
    facts.copy = CopyOutcome::Copied;
    let mut results = Vec::new();
    check_env_files(&facts, &mut results);
    assert!(results.iter().any(|r| r.status == CheckStatus::Fixed));
}

#[test]
fn test_handle_set_env_new_file() {
    let (content, added, updated) = handle_set_env(
        "",
        &vec![
            ("DATABASE_URL".to_string(), "postgres://localhost/mydb".to_string()),
            ("PORT".to_string(), "3000".to_string()),
        ],
    );
    assert!(content.contains("DATABASE_URL=postgres://localhost/mydb"));
    assert!(content.contains("PORT=3000"));
    assert_eq!(content, "DATABASE_URL=postgres://localhost/mydb\nPORT=3000\n");
    assert_eq!((added, updated), (2, 0));
}

#[test]
fn test_handle_set_env_update_existing() {
    let (content, added, updated) = handle_set_env(
        "DATABASE_URL=old_value\nOTHER_VAR=keep_me\n",
        &vec![("DATABASE_URL".to_string(), "new_value".to_string())],
    );
    assert!(content.contains("DATABASE_URL=new_value"));
    assert!(content.contains("OTHER_VAR=keep_me"));
    assert!(!content.contains("old_value"));
    assert_eq!((added, updated), (0, 1));
}

#[test]
fn test_check_nodejs_project_missing_node_modules() {
    let facts = NodeFacts {
        has_package_json: true,
        node_modules: None,
        fix: false,
        install: InstallOutcome::NotRun,
        has_package_lock: false,
        has_yarn_lock: false,
        has_pnpm_lock: false,
    };
    assert!(!needs_npm_install(&facts));
    let mut results = Vec::new();
    check_nodejs_project(&facts, &mut results);
    assert!(results.iter().any(|r| r.message.contains("package.json found")));
    assert!(results.iter().any(|r| r.message.contains("node_modules/ missing")));
}

#[test]
fn test_check_cargo_project() {
    let facts = CargoFacts {
        has_cargo_toml: true,
        has_cargo_lock: false,
        has_target_dir: false,
        has_debug: false,
        has_release: false,
    };
    let mut results = Vec::new();
    check_cargo_project(facts, &mut results);
    assert!(results.iter().any(|r| r.message.contains("Cargo.toml found")));
    assert!(results.iter().any(|r| r.message.contains("Cargo.lock missing")));
}

#[test]
fn test_check_config_files() {
    let names = project_config_files();
    let found: Vec<bool> =
        names.iter().map(|n| n == "config.json" || n == "config.toml").collect();
    let mut results = Vec::new();
    check_config_files(&found, &mut results);
    assert!(results.iter().any(|r| r.message.contains("config.json")));
    assert!(results.iter().any(|r| r.message.contains("config.toml")));
}

#[test]
fn test_log_writer_creation() {
    let writer = LogWriter::new("/tmp/logs/test.log".to_string(), RotationConfig::default(), 0);
    assert_eq!(writer.path(), "/tmp/logs/test.log");
    assert_eq!(writer.current_size(), 0);
}

#[test]
fn test_log_writer_write() {
    let mut writer = LogWriter::new("test.log".to_string(), RotationConfig::default(), 0);
    let content = LogWriter::write_line(1_700_000_000, "Hello, world!");
    assert!(content.contains("Hello, world!"));
    assert!(content.contains("[20"));
    assert!(!writer.record_write(content.len() as u64));
    assert_eq!(writer.current_size(), content.len() as u64);
}

#[test]
fn test_log_rotation() {
    let config = RotationConfig::new(100, 3);
    let mut writer = LogWriter::new("test.log".to_string(), config, 0);
    let mut rotations = 0;
    for i in 0..20 {
        let line = LogWriter::write_line(1_700_000_000, &format!("Line {} with some content", i));
        if writer.record_write(line.len() as u64) {
            rotations += 1;
            assert!(!writer.rotate(&vec![rotations > 1, rotations > 2, rotations > 3]).is_empty());
        }
    }
    assert_eq!(rotations, 6);
    assert!(writer.current_size() < 100);
}

#[test]
fn test_tail_nonexistent_file() {
    let reader = LogReader::new("/nonexistent/file.log".to_string());
    assert_eq!(reader.path(), "/nonexistent/file.log");
    let lines = reader.tail("", 10);
    assert!(lines.is_empty());
}

#[test]
fn test_watch_directory() {
    let mut watcher = FileWatcher::new(WatchConfig::default());
    watcher.watch("/tmp/project");
    assert_eq!(watcher.watched_paths().len(), 1);
}

#[test]
fn test_watch_event() {
    let mut watcher = FileWatcher::new(WatchConfig { ignore: vec![], debounce_ms: 50 });
    watcher.watch("/tmp/project");
    let event =
        watcher.on_change(&vec!["/tmp/project/test.txt".to_string()], WatchEventKind::Create, 10);
    let event = event.unwrap();
    assert!(!event.paths.is_empty());
    assert_eq!(event.paths, vec!["/tmp/project/test.txt"]);
}

#[test]
fn a_follower_takes_whole_lines_only() {
    use_follow(b"", 0);
    use_follow(b"no line feed yet", 0);
    use_follow(b"one\n", 4);
    use_follow(b"one\ntwo\nthr", 8);
    use_follow(b"\n", 1);
    use_follow(b"a\n\n", 3);
}

fn use_follow(content: &[u8], whole: usize) {
    assert_eq!(oxidepm::logs::follow_len(&content.to_vec()), whole);
}

#[test]
fn streams_of_a_logs_request() {
    assert_eq!(oxidepm::handlers::selected_streams(false, false), (true, true));
    assert_eq!(oxidepm::handlers::selected_streams(true, true), (true, true));
    assert_eq!(oxidepm::handlers::selected_streams(true, false), (true, false));
    assert_eq!(oxidepm::handlers::selected_streams(false, true), (false, true));
}

#[test]
fn history_written_down_comes_back() {
    let mut runs = oxidepm::history::RunsRepository::new();
    let state = oxidepm::types::RunState::running_at(7, 100, 5);
    assert_eq!(runs.insert(7, &state, 5), Ok(1));
    assert_eq!(runs.insert(8, &state, 6), Ok(2));
    runs.update_stop(1, Some(143), 9);
    let rows = runs.all();
    assert_eq!(rows.len(), 2);
    assert_eq!(rows[0].exit_code, Some(143));
    let mut back = oxidepm::history::RunsRepository::restore(rows.clone());
    assert_eq!(back.all(), rows);
    assert_eq!(back.insert(9, &state, 10), Ok(3));
    let mut empty = oxidepm::history::RunsRepository::restore(Vec::new());
    assert_eq!(empty.insert(1, &state, 0), Ok(1));

    let mut metrics = oxidepm::history::MetricsRepository::new();
    metrics.insert(7, 150, 1024, 1);
    metrics.insert(7, 160, 2048, 2);
    let samples = metrics.all();
    assert_eq!(samples.len(), 2);
    let back = oxidepm::history::MetricsRepository::restore(samples.clone());
    assert_eq!(back.all(), samples);
    assert_eq!(back.get_latest(7).unwrap().memory_bytes, 2048);
}
