use oxidepm::appspec::{env_lookup, AppSpec, Selector};
use oxidepm::error::Error;
use oxidepm::handlers::{Counted, RequestHandler, Tally};
use oxidepm::ipc::Response;
use oxidepm::metrics::{LimitKind, MetricSample};
use oxidepm::notify::ProcessEvent;
use oxidepm::process::{exit_code, ChildHandle, ChildPoll, ExitOutcome, SupervisedProcess};
use oxidepm::registry::Registry;
use oxidepm::supervisor::{
    HealthEffects, LaunchFailure, ReloadPlan, StartPlan, Supervisor, TickEffects, WaitNeed,
    WaitStep, RELOAD_HEALTH_TIMEOUT_MS, RELOAD_POLL_MS, RESTART_PAUSE_MS,
};
use oxidepm::types::{AppMode, AppStatus, HealthCheck, HookEvent, Hooks, RestartPolicy};

fn spec(name: &str) -> AppSpec {
    AppSpec::try_new_at(
        name.to_string(),
        AppMode::Cmd,
        "sleep".to_string(),
        "/tmp".to_string(),
        1_700_000_000,
    )
    .unwrap()
    .with_args(vec!["3600".to_string()])
}

/// Starts a single process through the start protocol and returns its id.
fn start_single(sup: &mut Supervisor, s: AppSpec, pid: u32) -> u32 {
    match sup.start(s).unwrap() {
        StartPlan::Single(launch) => {
            let launch = sup.prepare_single(launch).unwrap();
            sup.record_started(launch, pid, 1_700_000_100, 50).id
        }
        StartPlan::Cluster { .. } => panic!("a single process was expected"),
    }
}

/// Starts a cluster through the cluster protocol and returns the parent's id and the children's.
fn start_cluster(sup: &mut Supervisor, s: AppSpec, first_pid: u32) -> (u32, Vec<u32>) {
    match sup.start(s).unwrap() {
        StartPlan::Cluster { parent, instances } => {
            let mut ids = Vec::new();
            for (i, instance) in instances.into_iter().enumerate() {
                let launch = sup.prepare_single(instance).unwrap();
                ids.push(sup.record_started(launch, first_pid + i as u32, 1_700_000_100, 50).id);
            }
            let id = sup.finish_cluster_start(parent, ids.clone(), 1_700_000_100, 50);
            (id, ids)
        }
        StartPlan::Single(_) => panic!("a cluster was expected"),
    }
}

/// Stops one process: the stop begins, the child exits with `code`, the stop ends.
fn stop(sup: &mut Supervisor, id: u32, code: Option<i32>) -> Result<bool, Error> {
    let how = match code {
        Some(c) => ExitOutcome::Code(c),
        None => ExitOutcome::Killed,
    };
    stop_as(sup, id, how)
}

/// Stops one process whose child, and whose instances' children, end as `how` says.
fn stop_as(sup: &mut Supervisor, id: u32, how: ExitOutcome) -> Result<bool, Error> {
    match sup.begin_stop(id) {
        Some(ticket) => {
            for child in ticket.instances.clone() {
                stop_as(sup, child, how)?;
            }
            let ended = if ticket.child.is_some() { how } else { ExitOutcome::NoChild };
            sup.finish_stop(&ticket, ended);
            Ok(true)
        }
        None => Ok(false),
    }
}

#[test]
fn single_instance_lifecycle() {
    let mut sup = Supervisor::new();
    let mut s = spec("echo-srv");
    s.hooks = Hooks {
        on_start: Some("echo up".to_string()),
        on_stop: Some("echo down".to_string()),
        on_restart: None,
        on_crash: None,
        on_error: None,
    };
    let plan = sup.start(s).unwrap();
    let launch = match plan {
        StartPlan::Single(l) => l,
        _ => panic!("a single process was expected"),
    };
    assert_eq!(launch.id, 1);
    assert_eq!(Supervisor::startup_delay(&launch), 0);
    let effects = sup.record_started(launch, 4321, 1_700_000_100, 50);
    assert_eq!(effects.id, 1);
    assert!(matches!(&effects.event, ProcessEvent::Started { name, id: 1 } if name == "echo-srv"));
    let hook = effects.hook.unwrap();
    assert_eq!(hook.script, "echo up");
    assert_eq!(hook.event, HookEvent::Start);
    assert_eq!(hook.pid, Some(4321));
    assert!(!effects.health_task);
    assert!(!effects.watch_task);

    let state = sup.state_of(1).unwrap();
    assert_eq!(state.status, AppStatus::Running);
    assert_eq!(state.pid, Some(4321));
    assert!(state.pid.unwrap() > 0);
    assert_eq!(state.started_at, Some(1_700_000_100));
    assert_eq!(sup.process(1).unwrap().child, Some(ChildHandle { pid: 4321 }));

    let ticket = sup.begin_stop(1).unwrap();
    assert_eq!(ticket.name, "echo-srv");
    assert_eq!(ticket.kill_timeout_ms, 3000);
    assert_eq!(ticket.child, Some(ChildHandle { pid: 4321 }));
    assert_eq!(ticket.pid, Some(4321));
    assert_eq!(sup.state_of(1).unwrap().status, AppStatus::Stopping);
    assert_eq!(sup.process(1).unwrap().child, None);

    let effects = sup.finish_stop(&ticket, ExitOutcome::Code(0));
    assert!(matches!(
        &effects.event,
        ProcessEvent::Stopped { name, id: 1, exit_code: Some(0) } if name == "echo-srv"
    ));
    let hook = effects.hook.unwrap();
    assert_eq!(hook.script, "echo down");
    assert_eq!(hook.exit_code, Some(0));
    let state = sup.state_of(1).unwrap();
    assert_eq!(state.status, AppStatus::Stopped);
    assert_eq!(state.pid, None);
    assert!(state.last_exit_code.is_some());
    assert_eq!(state.started_at, Some(1_700_000_100));
    assert_eq!(sup.process(1).unwrap().started_at, None);
}

#[test]
fn stop_of_a_stopped_app_counts_nothing_and_changes_nothing() {
    let mut sup = Supervisor::new();
    let id = start_single(&mut sup, spec("a"), 10);
    assert_eq!(stop(&mut sup, id, Some(0)), Ok(true));
    let before = sup.process(id).unwrap();

    let mut tally = Tally::new();
    let outcome = stop(&mut sup, id, Some(7));
    tally.record(&outcome);
    assert!(matches!(tally.response(Counted::Stopped), Response::Stopped { count: 0 }));
    let after = sup.process(id).unwrap();
    assert_eq!(after.state, before.state);
    assert_eq!(after.child, before.child);
    assert_eq!(after.spec.name, before.spec.name);
    assert!(sup.begin_stop(99).is_none());
    tally.record(&Ok(true));
    tally.record(&Err(Error::HealthCheckFailed));
    assert!(matches!(tally.response(Counted::Deleted), Response::Deleted { count: 1 }));
}

#[test]
fn start_of_a_running_name_is_refused() {
    let mut sup = Supervisor::new();
    start_single(&mut sup, spec("a"), 10);
    match sup.start(spec("a")) {
        Err(Error::AppAlreadyExists(name)) => assert_eq!(name, "a"),
        other => panic!("unexpected: {:?}", other),
    }
    assert_eq!(stop(&mut sup, 1, None), Ok(true));
    // Once stopped, the name starts again under the id it has.
    assert_eq!(start_single(&mut sup, spec("a"), 11), 1);
    assert_eq!(sup.state_of(1).unwrap().pid, Some(11));
    assert_eq!(sup.process_count(), 1);
    assert_eq!(sup.registry().len(), 1);
}

#[test]
fn a_failed_launch_is_recorded_as_errored() {
    let mut sup = Supervisor::new();
    let launch = match sup.start(spec("a")).unwrap() {
        StartPlan::Single(l) => l,
        _ => panic!("a single process was expected"),
    };
    let e = sup.record_start_failed(launch.clone(), LaunchFailure::Prepare("no cargo".to_string()));
    assert!(matches!(e, Error::BuildFailed(d) if d == "no cargo"));
    let state = sup.state_of(1).unwrap();
    assert_eq!(state.status, AppStatus::Errored);
    assert_eq!(state.pid, None);
    let e = sup.record_start_failed(launch, LaunchFailure::Spawn("enoent".to_string()));
    assert!(matches!(e, Error::ProcessStartFailed(d) if d == "enoent"));
}

#[test]
fn cluster_of_three() {
    let mut sup = Supervisor::new();
    let mut s = spec("web");
    s.command = "./server".to_string();
    let (parent, children) = start_cluster(&mut sup, s.with_instances(3).with_port(3000), 100);
    assert_eq!(parent, 1);
    assert_eq!(children, vec![2, 3, 4]);

    for (i, id) in children.iter().enumerate() {
        let p = sup.process(*id).unwrap();
        assert_eq!(p.spec.name, format!("web-{}", i));
        assert_eq!(p.spec.instance_id, Some(i as u32));
        assert_eq!(env_lookup(&p.spec.env, "PORT"), Some(format!("{}", 3000 + i)));
        assert_eq!(p.spec.port, Some(3000 + i as u16));
        assert_eq!(p.state.port, Some(3000 + i as u16));
        assert_eq!(p.state.instance_id, Some(i as u32));
        assert_eq!(p.state.status, AppStatus::Running);
    }
    let p = sup.process(parent).unwrap();
    assert_eq!(p.cluster_instance_ids.len(), 3);
    assert_eq!(p.cluster_instance_ids, children);
    assert_eq!(p.spec.instances, 3);
    assert_eq!(p.state.status, AppStatus::Running);
    assert_eq!(p.state.pid, None);
    assert_eq!(p.child, None);
    assert!(p.state.healthy);

    let names: Vec<String> = sup.status().into_iter().map(|i| i.spec.name).collect();
    assert_eq!(names, vec!["web", "web-0", "web-1", "web-2"]);

    assert_eq!(stop(&mut sup, parent, Some(0)), Ok(true));
    for id in &children {
        assert_eq!(sup.state_of(*id).unwrap().status, AppStatus::Stopped);
        assert_eq!(sup.state_of(*id).unwrap().pid, None);
    }
    assert_eq!(sup.state_of(parent).unwrap().status, AppStatus::Stopped);
}

#[test]
fn instance_ports() {
    let base = spec("p").with_instances(4);
    assert_eq!(Supervisor::calculate_instance_port(&base, 0), None);
    let ranged = base.clone().with_port_range(4000, 4001).with_port(5000);
    assert_eq!(Supervisor::calculate_instance_port(&ranged, 0), Some(4000));
    assert_eq!(Supervisor::calculate_instance_port(&ranged, 1), Some(4001));
    assert_eq!(Supervisor::calculate_instance_port(&ranged, 2), Some(5002));
    let only_range = base.clone().with_port_range(4000, 4001);
    assert_eq!(Supervisor::calculate_instance_port(&only_range, 2), None);
    let high = base.clone().with_port(65534);
    assert_eq!(Supervisor::calculate_instance_port(&high, 1), Some(65535));
    assert_eq!(Supervisor::calculate_instance_port(&high, 2), None);
    assert_eq!(Supervisor::calculate_instance_port(&high, u32::MAX), None);
    let specs = Supervisor::instance_specs(&ranged);
    assert_eq!(specs.len(), 4);
    assert_eq!(specs[3].name, "p-3");
    assert_eq!(specs[3].port, Some(5003));
}

#[test]
fn graceful_reload_with_health_check() {
    let mut sup = Supervisor::new();
    let s = spec("api").with_health_check(HealthCheck::http("http://127.0.0.1:8080/h"));
    let old = start_single(&mut sup, s, 10);

    // A reload whose new instance never becomes healthy is rolled back.
    let (new_id, replacement) = match sup.begin_reload(old).unwrap().unwrap() {
        ReloadPlan::Single { old_id, replacement, old_name, wait_for_health } => {
            assert_eq!(old_id, old);
            assert_eq!(old_name, "api");
            assert!(wait_for_health);
            assert_eq!(replacement.name, "api-reload");
            (replacement.id, replacement)
        }
        _ => panic!("a single reload was expected"),
    };
    assert_eq!(new_id, 2);
    sup.record_started(replacement, 11, 1_700_000_200, 60);
    assert!(matches!(sup.wait_needed(new_id), WaitNeed::Probe(_)));
    let mut elapsed = 0;
    let mut healthy = false;
    while !Supervisor::reload_wait_expired(elapsed) {
        match sup.note_reload_probe(new_id, false, 1_700_000_200) {
            WaitStep::Healthy => {
                healthy = true;
                break;
            }
            WaitStep::Retry => elapsed += RELOAD_POLL_MS,
            WaitStep::Gone => break,
        }
        let names: Vec<String> = sup.status().into_iter().map(|i| i.spec.name).collect();
        assert!(names.contains(&"api".to_string()));
    }
    assert!(!healthy);
    assert_eq!(elapsed, RELOAD_HEALTH_TIMEOUT_MS);
    assert_eq!(stop(&mut sup, new_id, None), Ok(true));
    assert!(sup.delete(new_id));
    let failure = Error::HealthCheckFailed;
    assert_eq!(failure.to_string(), "Health check failed");
    assert_eq!(sup.state_of(old).unwrap().status, AppStatus::Running);
    assert_eq!(sup.state_of(old).unwrap().pid, Some(10));
    assert!(sup.process(new_id).is_none());
    assert!(sup.registry().get_by_name("api-reload").is_none());

    // A reload whose new instance is healthy takes over the name.
    let replacement = match sup.begin_reload(old).unwrap().unwrap() {
        ReloadPlan::Single { replacement, .. } => replacement,
        _ => panic!("a single reload was expected"),
    };
    let new_id = replacement.id;
    sup.record_started(replacement, 12, 1_700_000_300, 70);
    assert_eq!(sup.note_reload_probe(new_id, true, 1_700_000_301), WaitStep::Healthy);
    assert_eq!(stop(&mut sup, old, Some(0)), Ok(true));
    assert!(sup.finish_reload(old, new_id, "api"));
    let apps = sup.status();
    assert_eq!(apps.len(), 1);
    assert_eq!(apps[0].spec.name, "api");
    assert_eq!(apps[0].spec.id, new_id);
    assert_eq!(apps[0].state.status, AppStatus::Running);
    assert_eq!(apps[0].state.pid, Some(12));
    assert_eq!(sup.process(new_id).unwrap().spec.name, "api");
    assert_eq!(sup.resolve_selector(&Selector::parse("api")).unwrap(), vec![new_id]);
}

#[test]
fn reload_of_unknown_or_colliding_names() {
    let mut sup = Supervisor::new();
    assert!(matches!(sup.begin_reload(5), Ok(None)));
    assert!(matches!(sup.wait_needed(5), WaitNeed::Gone));
    assert_eq!(sup.note_reload_probe(5, true, 0), WaitStep::Gone);
    let a = start_single(&mut sup, spec("a"), 1);
    start_single(&mut sup, spec("a-reload"), 2);
    assert!(matches!(sup.begin_reload(a), Err(Error::DbError(_))));
    assert!(matches!(sup.wait_needed(a), WaitNeed::Nothing));
    assert!(!Supervisor::reload_wait_expired(29_999));
    assert!(Supervisor::reload_wait_expired(30_000));
    assert_eq!(RESTART_PAUSE_MS, 100);
}

#[test]
fn cluster_rolling_reload() {
    let mut sup = Supervisor::new();
    let (parent, children) = start_cluster(&mut sup, spec("web").with_instances(2).with_port(3000), 100);
    match sup.begin_reload(parent).unwrap().unwrap() {
        ReloadPlan::Cluster { parent_id, instance_ids, wait_for_health } => {
            assert_eq!(parent_id, parent);
            assert_eq!(instance_ids, children);
            assert!(!wait_for_health);
        }
        _ => panic!("a cluster reload was expected"),
    }
    for (i, old) in children.iter().enumerate() {
        let replacement = sup.begin_instance_reload(parent, i as u32).unwrap().unwrap();
        assert_eq!(replacement.name, format!("web-{}-reload", i));
        assert_eq!(replacement.port, Some(3000 + i as u16));
        assert_eq!(replacement.instance_id, Some(i as u32));
        let new_id = replacement.id;
        sup.record_started(replacement, 200 + i as u32, 1_700_000_500, 90);
        assert_eq!(stop(&mut sup, *old, Some(0)), Ok(true));
        assert!(sup.delete(*old));
        sup.finish_instance_reload(parent, *old, new_id, &format!("web-{}", i));
        assert_eq!(sup.process(new_id).unwrap().spec.name, format!("web-{}", i));
        assert_eq!(sup.process(parent).unwrap().cluster_instance_ids[i], new_id);
    }
    let p = sup.process(parent).unwrap();
    assert_eq!(p.cluster_instance_ids, vec![4, 5]);
    let names: Vec<String> = sup.status().into_iter().map(|i| i.spec.name).collect();
    assert_eq!(names, vec!["web", "web-0", "web-1"]);
    assert!(matches!(sup.begin_instance_reload(parent, 2), Ok(None)));
    assert!(matches!(sup.begin_instance_reload(77, 0), Ok(None)));
}

#[test]
fn memory_triggered_restart() {
    let mut sup = Supervisor::new();
    let mut s = spec("hog").with_max_memory(1);
    s.hooks.on_restart = Some("echo again".to_string());
    let id = start_single(&mut sup, s, 500);
    let high = vec![MetricSample { pid: 500, cpu_centipercent: 1250, memory_bytes: 2 * 1_048_576 }];

    let breaches = sup.on_metrics(&high);
    assert_eq!(breaches.len(), 1);
    assert_eq!(breaches[0].id, id);
    assert_eq!(breaches[0].name, "hog");
    assert_eq!(breaches[0].kind, LimitKind::Memory);
    assert_eq!(breaches[0].kind.as_str(), "memory_limit");
    assert!(matches!(
        &breaches[0].event,
        Some(ProcessEvent::MemoryLimit { name, id: 1, memory_mb: 2, limit_mb: 1 }) if name == "hog"
    ));
    assert_eq!(sup.state_of(id).unwrap().memory_bytes, 2 * 1_048_576);
    assert_eq!(sup.state_of(id).unwrap().cpu_centipercent, 1250);

    // While the stop is in flight and memory stays high, nothing more is reported.
    let mut events = 1;
    for _ in 0..5 {
        for b in sup.on_metrics(&high) {
            if b.event.is_some() {
                events += 1;
            }
        }
    }
    assert_eq!(events, 1);

    let limit_stop = sup.begin_limit_stop(id).unwrap();
    assert_eq!(limit_stop.ticket.child, Some(ChildHandle { pid: 500 }));
    assert_eq!(limit_stop.ticket.kill_timeout_ms, 3000);
    let hook = limit_stop.hook.unwrap();
    assert_eq!(hook.script, "echo again");
    assert_eq!(hook.event, HookEvent::Restart);
    assert_eq!(hook.pid, Some(500));
    assert_eq!(sup.state_of(id).unwrap().status, AppStatus::Stopping);
    assert!(sup.on_metrics(&high).is_empty());
    sup.finish_limit_stop(id, ExitOutcome::Signal(15));
    let state = sup.state_of(id).unwrap();
    assert_eq!(state.status, AppStatus::Stopped);
    assert_eq!(state.pid, None);
    assert!(sup.on_metrics(&high).is_empty());
    assert!(sup.begin_limit_stop(99).is_none());
}

#[test]
fn memory_at_the_limit_and_uptime_limits() {
    let mut sup = Supervisor::new();
    let a = start_single(&mut sup, spec("a").with_max_memory(2), 1);
    let b = start_single(&mut sup, spec("b").with_max_uptime(60), 2);
    let c = start_single(&mut sup, spec("c"), 3);
    // Exactly the limit, in whole megabytes, is not over it.
    let samples = vec![
        MetricSample { pid: 1, cpu_centipercent: 0, memory_bytes: 3 * 1_048_576 - 1 },
        MetricSample { pid: 3, cpu_centipercent: 0, memory_bytes: u64::MAX },
    ];
    assert!(sup.on_metrics(&samples).is_empty());
    assert!(matches!(sup.on_child_poll(b, ChildPoll::Alive, 109), TickEffects::Idle));
    assert_eq!(sup.state_of(b).unwrap().uptime_secs, 59);
    assert!(sup.on_metrics(&samples).is_empty());
    assert!(matches!(sup.on_child_poll(b, ChildPoll::Alive, 110), TickEffects::Idle));
    let breaches = sup.on_metrics(&samples);
    assert_eq!(breaches.len(), 1);
    assert_eq!(breaches[0].id, b);
    assert_eq!(breaches[0].kind, LimitKind::Uptime);
    assert!(breaches[0].event.is_none());
    assert_eq!(sup.state_of(a).unwrap().memory_bytes, 3 * 1_048_576 - 1);
    assert_eq!(sup.state_of(c).unwrap().memory_bytes, u64::MAX);
    assert_eq!(sup.state_of(b).unwrap().memory_bytes, 0);
}

#[test]
fn save_resurrect_round_trip() {
    let mut sup = Supervisor::new();
    let mut one = spec("one");
    one.mode = AppMode::Node;
    one.command = "server.js".to_string();
    one.cwd = "/srv/one".to_string();
    one.tags = vec!["web".to_string()];
    start_single(&mut sup, one, 1);
    start_single(&mut sup, spec("gone"), 2);
    start_single(&mut sup, spec("two").with_max_memory(64), 3);
    assert!(sup.delete(2));
    let saved = sup.save();
    assert_eq!(saved.len(), 2);
    assert_eq!(saved[1].id, 3);

    let mut fresh = Supervisor::new();
    let revived = fresh.resurrect(&saved);
    assert_eq!(revived.len(), 2);
    let back = fresh.save();
    assert_eq!(back.len(), 2);
    for (before, after) in saved.iter().zip(back.iter()) {
        assert_eq!(before.name, after.name);
        assert_eq!(before.mode, after.mode);
        assert_eq!(before.command, after.command);
        assert_eq!(before.cwd, after.cwd);
        assert_eq!(before.args, after.args);
        assert_eq!(before.tags, after.tags);
        assert_eq!(before.max_memory_mb, after.max_memory_mb);
        assert_eq!(before.created_at, after.created_at);
    }
    assert_eq!(back[0].id, 1);
    assert_eq!(back[1].id, 2);
    assert_eq!(revived[1].id, 2);
    assert_eq!(revived[1].name, "two");
    for s in revived {
        let pid = 100 + s.id;
        start_single(&mut fresh, s, pid);
    }
    assert_eq!(fresh.state_of(2).unwrap().status, AppStatus::Running);

    // Names that are registered are passed over.
    assert!(fresh.resurrect(&saved).is_empty());
    assert_eq!(fresh.registry().len(), 2);
}

#[test]
fn selector_semantics() {
    let mut sup = Supervisor::new();
    let a = start_single(&mut sup, spec("a").with_tags(vec!["web".to_string(), "prod".to_string()]), 1);
    let b = start_single(&mut sup, spec("b").with_tags(vec!["web".to_string()]), 2);
    let c = start_single(&mut sup, spec("c"), 3);

    let ids = sup.resolve_selector(&Selector::parse("@web")).unwrap();
    assert_eq!(ids, vec![a, b]);
    let mut tally = Tally::new();
    for id in ids {
        let outcome = stop(&mut sup, id, Some(0));
        tally.record(&outcome);
    }
    assert!(matches!(tally.response(Counted::Stopped), Response::Stopped { count: 2 }));
    assert_eq!(sup.state_of(a).unwrap().status, AppStatus::Stopped);
    assert_eq!(sup.state_of(b).unwrap().status, AppStatus::Stopped);
    assert_eq!(sup.state_of(c).unwrap().status, AppStatus::Running);

    match sup.resolve_selector(&Selector::parse("@staging")) {
        Err(Error::AppNotFound(d)) => assert_eq!(d, "@staging"),
        other => panic!("unexpected: {:?}", other),
    }

    let ids = sup.resolve_selector(&Selector::parse("all")).unwrap();
    assert_eq!(ids, vec![a, b, c]);
    let mut tally = Tally::new();
    for id in ids {
        let outcome = stop(&mut sup, id, Some(0));
        tally.record(&outcome);
    }
    assert!(matches!(tally.response(Counted::Stopped), Response::Stopped { count: 1 }));
    assert_eq!(sup.state_of(c).unwrap().status, AppStatus::Stopped);

    match sup.resolve_selector(&Selector::parse("0")) {
        Err(Error::AppNotFound(d)) => assert_eq!(d, "0"),
        other => panic!("unexpected: {:?}", other),
    }
    match sup.resolve_selector(&Selector::parse("nobody")) {
        Err(Error::AppNotFound(d)) => assert_eq!(d, "nobody"),
        other => panic!("unexpected: {:?}", other),
    }
    assert_eq!(sup.resolve_selector(&Selector::parse("b")).unwrap(), vec![b]);
    assert_eq!(sup.resolve_selector(&Selector::parse("3")).unwrap(), vec![c]);
    assert!(Supervisor::new().resolve_selector(&Selector::All).unwrap().is_empty());
}

#[test]
fn status_and_show() {
    let mut sup = Supervisor::new();
    let a = start_single(&mut sup, spec("a").with_tags(vec!["web".to_string()]), 1);
    let b = start_single(&mut sup, spec("b").with_tags(vec!["web".to_string()]), 2);
    // A registered application without a record is reported as stopped.
    match sup.start(spec("idle")).unwrap() {
        StartPlan::Single(s) => assert_eq!(s.id, 3),
        _ => panic!("a single process was expected"),
    }
    let apps = sup.status();
    assert_eq!(apps.len(), 3);
    assert_eq!(apps[2].spec.name, "idle");
    assert_eq!(apps[2].state.status, AppStatus::Stopped);
    assert_eq!(apps[2].state.app_id, 3);
    assert_eq!(apps[0].state.pid, Some(1));

    assert!(sup.show(&Selector::All).is_none());
    assert_eq!(sup.show(&Selector::ById(b)).unwrap().spec.name, "b");
    assert_eq!(sup.show(&Selector::ByName("a".to_string())).unwrap().spec.id, a);
    assert_eq!(sup.show(&Selector::ByTag("web".to_string())).unwrap().spec.id, a);
    assert!(sup.show(&Selector::ByTag("nope".to_string())).is_none());
    assert!(sup.show(&Selector::ById(9)).is_none());

    let handler = RequestHandler::new(sup);
    assert!(matches!(handler.status(), Response::Status { apps } if apps.len() == 3));
    assert!(matches!(handler.show(&Selector::ById(1)), Response::Show { app } if app.spec.name == "a"));
    assert!(matches!(
        handler.show(&Selector::All),
        Response::Error { message } if message == "App not found"
    ));
    match handler.describe(&Selector::ByName("b".to_string())) {
        Response::Described { name, command, args, cwd, env, mode } => {
            assert_eq!(name, "b");
            assert_eq!(command, "sleep");
            assert_eq!(args, vec!["3600"]);
            assert_eq!(cwd, "/tmp");
            assert!(env.is_empty());
            assert_eq!(mode, "cmd");
        }
        other => panic!("unexpected: {:?}", other),
    }
    assert!(handler.describe(&Selector::ById(9)).is_error());
    assert!(matches!(
        handler.logs_target(&Selector::All),
        Err(Error::InvalidSelector(d)) if d == "Cannot get logs for 'all'"
    ));
    assert!(matches!(
        handler.logs_target(&Selector::ByTag("x".to_string())),
        Err(Error::AppNotFound(d)) if d == "@x"
    ));
    assert_eq!(handler.logs_target(&Selector::ById(2)).unwrap().name, "b");
    assert_eq!(
        handler.flush_targets(1, "/l"),
        Some(("/l/a-out.log".to_string(), "/l/a-err.log".to_string()))
    );
    assert_eq!(handler.flush_targets(9, "/l"), None);
    assert!(matches!(RequestHandler::kill(), Response::Success { message } if message == "shutting down"));
    assert!(matches!(RequestHandler::ping(), Response::Pong));
    assert!(matches!(RequestHandler::save(2, "/s.json"), Response::Saved { count: 2, path } if path == "/s.json"));
    assert!(matches!(
        RequestHandler::start(Ok(4), "n".to_string()),
        Response::Started { id: 4, name } if name == "n"
    ));
    assert!(matches!(
        RequestHandler::start(Err(Error::AppAlreadyExists("n".to_string())), "n".to_string()),
        Response::Error { message } if message == "App already exists: n"
    ));
    assert!(matches!(
        RequestHandler::logs(Ok(vec!["l".to_string()])),
        Response::LogLines { lines } if lines == vec!["l"]
    ));
    assert!(RequestHandler::logs(Err(Error::HealthCheckFailed)).is_error());
}

fn crashy(max_restarts: u32, window: u64) -> AppSpec {
    let mut s = spec("crashy");
    s.restart_policy = RestartPolicy {
        auto_restart: true,
        max_restarts,
        restart_delay_ms: 250,
        crash_window_secs: window,
    };
    s.hooks.on_crash = Some("echo crashed".to_string());
    s
}

#[test]
fn crashes_beyond_the_limit_leave_the_app_errored() {
    let mut sup = Supervisor::new();
    let id = start_single(&mut sup, crashy(2, 60), 10);
    let mut spawned = 0;
    for n in 0..3u64 {
        let now = 100 + n * 10;
        match sup.on_child_poll(id, ChildPoll::Exited(ExitOutcome::Code(1)), now) {
            TickEffects::Crashed { event, hook, restart_delay_ms } => {
                assert!(matches!(
                    &event,
                    ProcessEvent::Crashed { name, id: 1, error } if name == "crashy" && error == "Exit code 1"
                ));
                let hook = hook.unwrap();
                assert_eq!(hook.event, HookEvent::Crash);
                assert_eq!(hook.exit_code, Some(1));
                assert_eq!(hook.pid, None);
                let state = sup.state_of(id).unwrap();
                assert_eq!(state.status, AppStatus::Errored);
                assert_eq!(state.pid, None);
                assert_eq!(state.last_exit_code, Some(1));
                if n < 2 {
                    assert_eq!(restart_delay_ms, Some(250));
                    let launch = sup.begin_auto_restart(id).unwrap();
                    assert_eq!(launch.name, "crashy");
                    assert_eq!(sup.state_of(id).unwrap().status, AppStatus::Starting);
                    let event = sup.record_restarted(id, 20 + n as u32, 1_700_000_000, now + 1);
                    assert!(matches!(
                        event,
                        Some(ProcessEvent::Restarted { restart_count, .. }) if restart_count as u64 == n + 1
                    ));
                    spawned += 1;
                } else {
                    assert_eq!(restart_delay_ms, None);
                }
            }
            other => panic!("unexpected: {:?}", other),
        }
    }
    assert_eq!(spawned, 2);
    let p = sup.process(id).unwrap();
    assert_eq!(p.state.status, AppStatus::Errored);
    assert_eq!(p.child, None);
    assert_eq!(p.state.restarts, 2);
    assert_eq!(p.restart_count, 2);
    // Nothing is left to look at: no further child is spawned.
    assert!(matches!(sup.on_child_poll(id, ChildPoll::Exited(ExitOutcome::Unknown), 200), TickEffects::Idle));
}

#[test]
fn crashes_outside_the_window_do_not_add_up() {
    let mut sup = Supervisor::new();
    let id = start_single(&mut sup, crashy(1, 60), 10);
    for n in 0..4u64 {
        let now = 100 + n * 60;
        match sup.on_child_poll(id, ChildPoll::Exited(ExitOutcome::Unknown), now) {
            TickEffects::Crashed { event, restart_delay_ms, .. } => {
                assert!(matches!(&event, ProcessEvent::Crashed { error, .. } if error == "Unknown error"));
                assert_eq!(restart_delay_ms, Some(250));
            }
            other => panic!("unexpected: {:?}", other),
        }
        assert!(sup.begin_auto_restart(id).is_some());
        assert!(sup.record_restarted(id, 11, 0, now).is_some());
    }
    assert_eq!(sup.process(id).unwrap().restart_count, 1);
    assert_eq!(sup.state_of(id).unwrap().restarts, 4);
}

#[test]
fn policies_without_restart() {
    let mut sup = Supervisor::new();
    let mut s = crashy(5, 60);
    s.restart_policy.auto_restart = false;
    let id = start_single(&mut sup, s, 10);
    assert!(matches!(
        sup.on_child_poll(id, ChildPoll::Exited(ExitOutcome::Code(2)), 100),
        TickEffects::Crashed { restart_delay_ms: None, .. }
    ));
    let zero = start_single(&mut sup, { let mut z = crashy(0, 60); z.name = "zero".to_string(); z }, 11);
    assert!(matches!(
        sup.on_child_poll(zero, ChildPoll::Exited(ExitOutcome::Code(2)), 100),
        TickEffects::Crashed { restart_delay_ms: None, .. }
    ));
    // A restart that fails leaves the record errored.
    assert!(sup.begin_auto_restart(zero).is_some());
    assert!(sup.record_restart_failed(zero));
    assert_eq!(sup.state_of(zero).unwrap().status, AppStatus::Errored);
    assert!(!sup.record_restart_failed(zero));
    assert!(sup.record_restarted(zero, 1, 0, 0).is_none());
    assert!(sup.begin_auto_restart(99).is_none());
}

#[test]
fn supervision_ticks() {
    let mut sup = Supervisor::new();
    let id = start_single(&mut sup, spec("t"), 10);
    assert!(matches!(sup.on_child_poll(99, ChildPoll::Alive, 0), TickEffects::Gone));
    assert!(matches!(sup.on_child_poll(id, ChildPoll::Alive, 75), TickEffects::Idle));
    assert_eq!(sup.state_of(id).unwrap().uptime_secs, 25);
    assert!(matches!(sup.on_child_poll(id, ChildPoll::Alive, 10), TickEffects::Idle));
    assert_eq!(sup.state_of(id).unwrap().uptime_secs, 0);
    assert!(matches!(sup.on_child_poll(id, ChildPoll::Failed, 80), TickEffects::Idle));
    assert_eq!(sup.state_of(id).unwrap().status, AppStatus::Running);
    // An exit that the supervision task sees while the record is stopping ends the stop.
    let mut p = SupervisedProcess::started(spec("u"), 1, 0, 0);
    p.state.status = AppStatus::Stopping;
    assert_eq!(p.on_poll(ChildPoll::Exited(ExitOutcome::Code(0)), 5), oxidepm::process::PollOutcome::Stopped);
    assert_eq!(p.state.status, AppStatus::Stopped);
    assert_eq!(p.state.pid, None);
    assert_eq!(p.child, None);
    assert_eq!(p.state.last_exit_code, Some(0));
    // After the child was handed out for a stop, there is nothing to look at.
    let ticket = sup.begin_stop(id).unwrap();
    assert!(matches!(sup.on_child_poll(id, ChildPoll::Exited(ExitOutcome::Code(0)), 90), TickEffects::Idle));
    sup.finish_stop(&ticket, ExitOutcome::Code(0));
    assert!(sup.delete(id));
    assert!(matches!(sup.on_child_poll(id, ChildPoll::Alive, 95), TickEffects::Gone));
}

#[test]
fn health_failures_mark_the_app_errored() {
    let mut sup = Supervisor::new();
    let mut s = spec("h").with_health_check(HealthCheck {
        retries: 2,
        ..HealthCheck::http("http://127.0.0.1:8080/h")
    });
    s.hooks.on_error = Some("echo sick".to_string());
    let id = start_single(&mut sup, s, 10);
    assert!(sup.should_probe(id));
    assert!(!sup.should_probe(99));
    assert!(matches!(sup.on_health_result(99, true, 0), HealthEffects::Gone));

    assert!(matches!(sup.on_health_result(id, false, 1000), HealthEffects::Failed));
    let state = sup.state_of(id).unwrap();
    assert!(!state.healthy);
    assert_eq!(state.health_check_failures, 1);
    assert_eq!(state.last_health_check, Some(1000));
    assert_eq!(state.status, AppStatus::Running);

    assert!(matches!(sup.on_health_result(id, true, 1001), HealthEffects::Passed));
    assert_eq!(sup.state_of(id).unwrap().health_check_failures, 0);
    assert!(sup.state_of(id).unwrap().healthy);

    assert!(matches!(sup.on_health_result(id, false, 1002), HealthEffects::Failed));
    match sup.on_health_result(id, false, 1003) {
        HealthEffects::Unhealthy { event, hook, child, kill_timeout_ms } => {
            assert!(matches!(
                &event,
                ProcessEvent::HealthCheckFailed { name, id: 1, endpoint }
                    if name == "h" && endpoint == "http://127.0.0.1:8080/h"
            ));
            let hook = hook.unwrap();
            assert_eq!(hook.script, "echo sick");
            assert_eq!(hook.event, HookEvent::Error);
            assert_eq!(hook.pid, Some(10));
            assert_eq!(child, Some(ChildHandle { pid: 10 }));
            assert_eq!(kill_timeout_ms, 3000);
        }
        other => panic!("unexpected: {:?}", other),
    }
    let state = sup.state_of(id).unwrap();
    assert_eq!(state.status, AppStatus::Errored);
    assert_eq!(state.pid, None);
    assert_eq!(sup.process(id).unwrap().child, None);
    assert!(!sup.should_probe(id));

    let script = start_single(
        &mut sup,
        spec("s").with_health_check(HealthCheck { retries: 1, ..HealthCheck::script("exit 1") }),
        11,
    );
    assert!(matches!(
        sup.on_health_result(script, false, 0),
        HealthEffects::Unhealthy { event: ProcessEvent::HealthCheckFailed { endpoint, .. }, .. }
            if endpoint == "unknown"
    ));
}

#[test]
fn restart_plan_and_delete() {
    let mut sup = Supervisor::new();
    let mut s = spec("r");
    s.hooks.on_restart = Some("echo again".to_string());
    let id = start_single(&mut sup, s, 10);
    let plan = sup.begin_restart(id).unwrap();
    assert_eq!(plan.spec.name, "r");
    assert_eq!(plan.spec.id, id);
    let hook = plan.hook.unwrap();
    assert_eq!(hook.event, HookEvent::Restart);
    assert_eq!(hook.pid, None);
    assert_eq!(hook.exit_code, None);
    assert!(sup.begin_restart(99).is_none());
    assert_eq!(stop(&mut sup, id, Some(0)), Ok(true));
    assert_eq!(start_single(&mut sup, plan.spec, 11), id);
    assert_eq!(sup.state_of(id).unwrap().status, AppStatus::Running);

    assert_eq!(stop(&mut sup, id, Some(0)), Ok(true));
    assert!(sup.delete(id));
    assert!(sup.process(id).is_none());
    assert!(sup.status().is_empty());
    assert!(sup.delete(id));
    // Ids are not given out again.
    assert_eq!(start_single(&mut sup, spec("r"), 12), 2);
}

#[test]
fn registry_rows() {
    let mut r = Registry::new();
    assert_eq!(r.next_id(), 1);
    assert_eq!(r.insert(&spec("a")).unwrap(), 1);
    assert_eq!(r.insert(&spec("b")).unwrap(), 2);
    match r.insert(&spec("a")) {
        Err(Error::DbError(d)) => assert_eq!(d, "UNIQUE constraint failed: apps.name"),
        other => panic!("unexpected: {:?}", other),
    }
    assert_eq!(r.len(), 2);
    assert!(r.contains_name("a"));
    assert!(!r.contains_name("c"));
    assert_eq!(r.get_by_id(2).unwrap().name, "b");
    assert_eq!(r.get_by_name("a").unwrap().id, 1);
    assert!(r.get_by_id(3).is_none());
    assert_eq!(r.next_id(), 3);
    assert!(!r.rename(1, "b"));
    assert!(r.rename(1, "a"));
    assert!(r.rename(1, "c"));
    assert!(!r.rename(9, "z"));
    assert_eq!(r.get_all().iter().map(|s| s.name.clone()).collect::<Vec<_>>(), vec!["c", "b"]);
    assert!(r.delete(2));
    assert!(!r.delete(2));
    assert_eq!(r.next_id(), 2);
    assert_eq!(r.insert(&spec("d")).unwrap(), 3);
    assert!(r.delete_by_name("c"));
    assert!(!r.delete_by_name("c"));
    assert_eq!(r.delete_all(), 1);
    assert_eq!(r.len(), 0);
    assert_eq!(r.insert(&spec("e")).unwrap(), 4);
}

#[test]
fn every_stop_leaves_an_exit_code() {
    assert_eq!(exit_code(ExitOutcome::Code(0)), 0);
    assert_eq!(exit_code(ExitOutcome::Code(-3)), -3);
    assert_eq!(exit_code(ExitOutcome::Signal(15)), 143);
    assert_eq!(exit_code(ExitOutcome::Signal(9)), 137);
    assert_eq!(exit_code(ExitOutcome::Signal(i32::MAX)), i32::MAX);
    assert_eq!(exit_code(ExitOutcome::Killed), 137);
    assert_eq!(exit_code(ExitOutcome::Unknown), -1);
    assert_eq!(exit_code(ExitOutcome::NoChild), 0);

    for (i, how) in [
        ExitOutcome::Code(0),
        ExitOutcome::Signal(15),
        ExitOutcome::Killed,
        ExitOutcome::Unknown,
    ]
    .into_iter()
    .enumerate()
    {
        let mut sup = Supervisor::new();
        let id = start_single(&mut sup, spec("echo-srv"), 100 + i as u32);
        let ticket = sup.begin_stop(id).unwrap();
        let effects = sup.finish_stop(&ticket, how);
        let state = sup.state_of(id).unwrap();
        assert_eq!(state.status, AppStatus::Stopped);
        assert_eq!(state.pid, None);
        assert!(state.last_exit_code.is_some());
        assert_eq!(state.last_exit_code, Some(exit_code(how)));
        assert!(matches!(
            effects.event,
            ProcessEvent::Stopped { exit_code: Some(c), .. } if c == exit_code(how)
        ));
    }

    // A stop that the supervision task sees end leaves a code as well.
    let mut sup = Supervisor::new();
    let id = start_single(&mut sup, spec("echo-srv"), 7);
    sup.begin_stop(id).unwrap();
    let mut p = sup.process(id).unwrap();
    p.child = Some(ChildHandle { pid: 7 });
    p.on_poll(ChildPoll::Exited(ExitOutcome::Signal(15)), 60);
    assert_eq!(p.state.status, AppStatus::Stopped);
    assert_eq!(p.state.last_exit_code, Some(143));
}

#[test]
fn a_stopped_cluster_starts_again_under_its_rows() {
    let mut sup = Supervisor::new();
    let mut web = spec("web");
    web.instances = 3;
    web.port = Some(3000);
    let (parent, ids) = start_cluster(&mut sup, web.clone(), 100);
    assert_eq!(stop(&mut sup, parent, Some(0)), Ok(true));
    for id in ids.iter() {
        assert_eq!(sup.state_of(*id).unwrap().status, AppStatus::Stopped);
    }
    let rows = sup.registry().len();

    // The restart: the same specification starts again, and every instance
    // takes over the row it has.
    let plan = sup.begin_restart(parent).unwrap();
    let (again, new_ids) = start_cluster(&mut sup, plan.spec, 200);
    assert_eq!(again, parent);
    assert_eq!(new_ids, ids);
    assert_eq!(sup.registry().len(), rows);
    for (i, id) in new_ids.iter().enumerate() {
        let p = sup.process(*id).unwrap();
        assert_eq!(p.state.status, AppStatus::Running);
        assert_eq!(p.state.pid, Some(200 + i as u32));
        assert_eq!(p.spec.name, format!("web-{}", i));
    }
    assert_eq!(sup.process(parent).unwrap().cluster_instance_ids, ids);

    // An instance that is up is not started a second time.
    let running = sup.process(ids[0]).unwrap().spec;
    assert_eq!(
        sup.prepare_single(running).unwrap_err(),
        Error::AppAlreadyExists("web-0".to_string())
    );
}

#[test]
fn a_saved_cluster_comes_back() {
    let mut sup = Supervisor::new();
    let mut web = spec("web");
    web.instances = 2;
    web.port = Some(3000);
    start_cluster(&mut sup, web, 100);
    let saved = sup.save();
    assert_eq!(saved.len(), 3);

    let mut fresh = Supervisor::new();
    let revived = fresh.resurrect(&saved);
    assert_eq!(revived.len(), 3);
    let mut started = 0;
    let mut refused = 0;
    for s in revived {
        match fresh.start(s) {
            Ok(StartPlan::Cluster { parent, instances }) => {
                let mut ids = Vec::new();
                for (i, instance) in instances.into_iter().enumerate() {
                    let launch = fresh.prepare_single(instance).unwrap();
                    ids.push(fresh.record_started(launch, 300 + i as u32, 1, 1).id);
                }
                assert!(Supervisor::cluster_complete(&parent, &ids));
                fresh.finish_cluster_start(parent, ids, 1, 1);
                started += 1;
            }
            Ok(StartPlan::Single(_)) => panic!("an instance of a running cluster was started"),
            Err(Error::AppAlreadyExists(_)) => refused += 1,
            Err(e) => panic!("{:?}", e),
        }
    }
    // The parent came back with its instances; the instances' own rows are
    // not started a second time.
    assert_eq!((started, refused), (1, 2));
    let parent = fresh.registry().get_by_name("web").unwrap().id;
    let p = fresh.process(parent).unwrap();
    assert_eq!(p.cluster_instance_ids.len(), 2);
    for (i, id) in p.cluster_instance_ids.iter().enumerate() {
        let c = fresh.process(*id).unwrap();
        assert_eq!(c.state.status, AppStatus::Running);
        assert_eq!(c.spec.name, format!("web-{}", i));
        assert_eq!(env_lookup(&c.spec.env, "PORT"), Some((3000 + i).to_string()));
    }
    assert_eq!(fresh.registry().len(), 3);
}

#[test]
fn a_failed_reload_wait_fails_the_reload() {
    assert_eq!(Supervisor::reload_settled(9, true), Ok(()));
    assert_eq!(
        Supervisor::reload_settled(9, false),
        Err(oxidepm::supervisor::ReloadFailure { roll_back: 9, error: Error::HealthCheckFailed })
    );
}

#[test]
fn a_failed_instance_ends_the_cluster_start() {
    let ids = Supervisor::cluster_step(Vec::new(), Ok(4)).unwrap();
    let ids = Supervisor::cluster_step(ids, Ok(5)).unwrap();
    assert_eq!(ids, vec![4, 5]);
    let failure = Error::BuildFailed("no".to_string());
    assert_eq!(
        Supervisor::cluster_step(ids, Err(failure)),
        Err(oxidepm::supervisor::ClusterAbort { stop: vec![4, 5], error: Error::BuildFailed("no".to_string()) })
    );
    let mut web = spec("web");
    web.instances = 3;
    assert!(Supervisor::cluster_complete(&web, &vec![1, 2, 3]));
    assert!(!Supervisor::cluster_complete(&web, &vec![1, 2]));
    assert!(!Supervisor::cluster_complete(&spec("one"), &vec![1]));
}
