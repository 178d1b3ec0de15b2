use oxidepm::appspec::{AppInfo, AppSpec, Selector};
use oxidepm::ipc::{Request, Response};
use oxidepm::tui::{App, Key, KeyEffect};
use oxidepm::types::{AppMode, RunState};
use oxidepm::web::{auth_status, reply, route_request, Payload, Route, StartRequest};

fn info(id: u32, name: &str) -> AppInfo {
    let mut spec = AppSpec::try_new_at(
        name.to_string(),
        AppMode::Cmd,
        "sleep".to_string(),
        "/".to_string(),
        0,
    )
    .unwrap();
    spec.id = id;
    AppInfo::new(spec, RunState::new(id))
}

fn three() -> App {
    let mut app = App::new("/tmp/daemon.sock".to_string());
    app.refresh(Ok(Response::Status { apps: vec![info(4, "a"), info(7, "b"), info(9, "c")] }));
    app
}

#[test]
fn dashboard_starts_empty() {
    let app = App::new("/tmp/daemon.sock".to_string());
    assert_eq!(app.client().socket_path(), "/tmp/daemon.sock");
    assert!(app.processes().is_empty());
    assert_eq!(app.selected_index(), 0);
    assert_eq!(app.tab_index(), 0);
    assert!(app.logs().is_empty());
    assert!(!app.should_quit());
    assert_eq!(app.last_error(), None);
    assert_eq!(app.selected(), None);
    assert!(app.refresh_logs().is_none());
    assert!(app.stop_selected().is_none());
    assert!(app.restart_selected().is_none());
}

#[test]
fn dashboard_selection_wraps() {
    let mut app = three();
    assert_eq!(app.selected(), Some(4));
    app.next();
    assert_eq!(app.selected(), Some(7));
    app.next();
    app.next();
    assert_eq!(app.selected_index(), 0);
    app.previous();
    assert_eq!(app.selected(), Some(9));
    app.previous();
    assert_eq!(app.selected_index(), 1);

    let mut empty = App::new("s".to_string());
    empty.next();
    empty.previous();
    assert_eq!(empty.selected_index(), 0);
}

#[test]
fn dashboard_tabs_wrap() {
    let mut app = three();
    app.next_tab();
    assert_eq!(app.tab_index(), 1);
    app.next_tab();
    app.next_tab();
    assert_eq!(app.tab_index(), 0);
    app.previous_tab();
    assert_eq!(app.tab_index(), 2);
    app.previous_tab();
    assert_eq!(app.tab_index(), 1);
}

#[test]
fn dashboard_refresh_keeps_selection_in_range() {
    let mut app = three();
    app.previous();
    assert_eq!(app.selected_index(), 2);
    app.refresh(Ok(Response::Status { apps: vec![info(4, "a")] }));
    assert_eq!(app.selected_index(), 0);
    app.refresh(Ok(Response::Status { apps: vec![info(4, "a"), info(7, "b")] }));
    app.next();
    app.refresh(Ok(Response::Status { apps: Vec::new() }));
    assert_eq!(app.selected_index(), 1);
    assert_eq!(app.selected(), None);
    app.refresh(Ok(Response::Status { apps: vec![info(4, "a")] }));
    assert_eq!(app.selected(), Some(4));
}

#[test]
fn dashboard_refresh_errors() {
    let mut app = three();
    app.refresh(Ok(Response::Error { message: "busy".to_string() }));
    assert_eq!(app.last_error(), Some("busy"));
    assert_eq!(app.processes().len(), 3);
    app.refresh(Err("refused".to_string()));
    assert_eq!(app.last_error(), Some("Connection error: refused"));
    app.refresh(Ok(Response::Pong));
    assert_eq!(app.last_error(), Some("Connection error: refused"));
    app.refresh(Ok(Response::Status { apps: Vec::new() }));
    assert_eq!(app.last_error(), None);
    assert!(app.processes().is_empty());
}

#[test]
fn dashboard_keys() {
    let mut app = three();
    assert!(matches!(app.on_key(Key::Down), KeyEffect::Nothing));
    assert_eq!(app.selected(), Some(7));
    match app.on_key(Key::Stop) {
        KeyEffect::SendThenRefresh(Request::Stop { selector }) => {
            assert_eq!(selector, Selector::ById(7))
        }
        other => panic!("{:?}", other),
    }
    match app.on_key(Key::Restart) {
        KeyEffect::SendThenRefresh(Request::Restart { selector }) => {
            assert_eq!(selector, Selector::ById(7))
        }
        other => panic!("{:?}", other),
    }
    match app.on_key(Key::Logs) {
        KeyEffect::FetchLogs(Request::Logs { selector, lines, follow, stdout, stderr }) => {
            assert_eq!(selector, Selector::ById(7));
            assert_eq!(lines, 50);
            assert!(!follow && stdout && stderr);
        }
        other => panic!("{:?}", other),
    }
    assert_eq!(app.tab_index(), 2);
    assert!(matches!(app.on_key(Key::NextTab), KeyEffect::Nothing));
    assert_eq!(app.tab_index(), 0);
    assert!(matches!(app.on_key(Key::PreviousTab), KeyEffect::Nothing));
    assert_eq!(app.tab_index(), 2);
    assert!(matches!(app.on_key(Key::Up), KeyEffect::Nothing));
    assert_eq!(app.selected(), Some(4));
    assert!(matches!(app.on_key(Key::Other), KeyEffect::Nothing));
    assert!(!app.should_quit());
    assert!(matches!(app.on_key(Key::Quit), KeyEffect::Nothing));
    assert!(app.should_quit());

    let mut empty = App::new("s".to_string());
    assert!(matches!(empty.on_key(Key::Stop), KeyEffect::Nothing));
    assert!(matches!(empty.on_key(Key::Logs), KeyEffect::Nothing));
    assert_eq!(empty.tab_index(), 2);
}

#[test]
fn dashboard_logs_and_ticks() {
    let mut app = three();
    app.on_logs(Ok(Response::LogLines { lines: vec!["x".to_string(), "y".to_string()] }));
    assert_eq!(app.logs(), &vec!["x".to_string(), "y".to_string()]);
    app.on_logs(Ok(Response::Error { message: "no".to_string() }));
    app.on_logs(Err("gone".to_string()));
    assert_eq!(app.logs().len(), 2);
    assert!(!App::refresh_due(999));
    assert!(App::refresh_due(1000));
}

#[test]
fn web_requests_of_routes() {
    assert!(matches!(route_request(Route::Ping, ""), Some(Request::Ping)));
    assert!(matches!(route_request(Route::List, ""), Some(Request::Status)));
    assert!(matches!(route_request(Route::Save, ""), Some(Request::Save)));
    assert!(matches!(route_request(Route::Resurrect, ""), Some(Request::Resurrect)));
    assert!(route_request(Route::Start, "x").is_none());
    match route_request(Route::Get, "@web") {
        Some(Request::Show { selector }) => {
            assert_eq!(selector, Selector::ByTag("web".to_string()))
        }
        other => panic!("{:?}", other),
    }
    match route_request(Route::Stop, "12") {
        Some(Request::Stop { selector }) => assert_eq!(selector, Selector::ById(12)),
        other => panic!("{:?}", other),
    }
    match route_request(Route::Restart, "ALL") {
        Some(Request::Restart { selector }) => assert_eq!(selector, Selector::All),
        other => panic!("{:?}", other),
    }
    match route_request(Route::Delete, "api") {
        Some(Request::Delete { selector }) => {
            assert_eq!(selector, Selector::ByName("api".to_string()))
        }
        other => panic!("{:?}", other),
    }
    match route_request(Route::Logs, "api") {
        Some(Request::Logs { selector, lines, follow, stdout, stderr }) => {
            assert_eq!(selector, Selector::ByName("api".to_string()));
            assert_eq!(lines, 100);
            assert!(!follow && stdout && stderr);
        }
        other => panic!("{:?}", other),
    }
}

#[test]
fn web_replies_on_success() {
    let r = reply(Route::Ping, Ok(Response::Pong));
    assert_eq!(r.status, 200);
    assert!(r.body.success);
    assert!(matches!(r.body.data, Some(Payload::Pong)));
    assert!(r.body.error.is_none());

    let r = reply(Route::List, Ok(Response::Status { apps: vec![info(1, "a")] }));
    assert_eq!(r.status, 200);
    match r.body.data {
        Some(Payload::Apps(apps)) => assert_eq!(apps[0].spec.name, "a"),
        other => panic!("{:?}", other),
    }
    let r = reply(Route::Get, Ok(Response::Show { app: info(3, "c") }));
    assert!(matches!(r.body.data, Some(Payload::App(ref a)) if a.spec.id == 3));
    let r = reply(Route::Start, Ok(Response::Started { id: 5, name: "n".to_string() }));
    assert!(matches!(r.body.data, Some(Payload::Started { id: 5, ref name }) if name == "n"));
    assert!(matches!(
        reply(Route::Stop, Ok(Response::Stopped { count: 2 })).body.data,
        Some(Payload::Stopped(2))
    ));
    assert!(matches!(
        reply(Route::Restart, Ok(Response::Restarted { count: 3 })).body.data,
        Some(Payload::Restarted(3))
    ));
    assert!(matches!(
        reply(Route::Delete, Ok(Response::Deleted { count: 1 })).body.data,
        Some(Payload::Deleted(1))
    ));
    assert!(matches!(
        reply(Route::Logs, Ok(Response::LogLines { lines: vec!["l".to_string()] })).body.data,
        Some(Payload::Lines(ref l)) if l.len() == 1
    ));
    assert!(matches!(
        reply(Route::Save, Ok(Response::Saved { count: 2, path: "p".to_string() })).body.data,
        Some(Payload::Saved { count: 2, ref path }) if path == "p"
    ));
    assert!(matches!(
        reply(Route::Resurrect, Ok(Response::Resurrected { count: 4 })).body.data,
        Some(Payload::Resurrected(4))
    ));
}

#[test]
fn web_replies_on_failure() {
    let refused = |route: Route| {
        let r = reply(route, Ok(Response::Error { message: "no".to_string() }));
        assert!(!r.body.success);
        assert!(r.body.data.is_none());
        assert_eq!(r.body.error, Some("no".to_string()));
        r.status
    };
    assert_eq!(refused(Route::Ping), 503);
    assert_eq!(refused(Route::List), 500);
    assert_eq!(refused(Route::Get), 404);
    assert_eq!(refused(Route::Start), 400);
    assert_eq!(refused(Route::Stop), 400);
    assert_eq!(refused(Route::Restart), 400);
    assert_eq!(refused(Route::Delete), 400);
    assert_eq!(refused(Route::Logs), 400);
    assert_eq!(refused(Route::Save), 500);
    assert_eq!(refused(Route::Resurrect), 500);

    let r = reply(Route::Ping, Err("down".to_string()));
    assert_eq!((r.status, r.body.error), (503, Some("down".to_string())));
    let r = reply(Route::Stop, Err("down".to_string()));
    assert_eq!((r.status, r.body.error), (500, Some("down".to_string())));

    let r = reply(Route::Stop, Ok(Response::Restarted { count: 1 }));
    assert_eq!(r.status, 500);
    assert!(!r.body.success);
    assert_eq!(r.body.error, Some("Unexpected response".to_string()));
    let r = reply(Route::Ping, Ok(Response::Status { apps: Vec::new() }));
    assert_eq!((r.status, r.body.error), (500, Some("Unexpected response".to_string())));
}

#[test]
fn web_key_check() {
    assert_eq!(auth_status(None, None), None);
    assert_eq!(auth_status(None, Some("x")), None);
    assert_eq!(auth_status(Some("k"), Some("k")), None);
    assert_eq!(auth_status(Some("k"), Some("K")), Some(401));
    assert_eq!(auth_status(Some("k"), None), Some(401));
}

fn start_request() -> StartRequest {
    StartRequest {
        name: "api".to_string(),
        command: "node".to_string(),
        cwd: None,
        args: None,
        env: None,
        instances: None,
        watch: None,
        port: None,
    }
}

#[test]
fn web_start_request_defaults() {
    let spec = start_request().into_spec(None, 9);
    assert_eq!(spec.name, "api");
    assert_eq!(spec.command, "node");
    assert_eq!(spec.cwd, ".");
    assert_eq!(spec.mode, AppMode::Cmd);
    assert_eq!(spec.id, 0);
    assert!(spec.args.is_empty());
    assert!(spec.env.is_empty());
    assert_eq!(spec.instances, 1);
    assert!(!spec.watch);
    assert_eq!(spec.port, None);
    assert_eq!(spec.created_at, 9);
}

#[test]
fn web_start_request_fields() {
    let mut req = start_request();
    req.cwd = Some("/srv/api".to_string());
    req.args = Some(vec!["server.js".to_string()]);
    req.env = Some(vec![
        ("A".to_string(), "1".to_string()),
        ("B".to_string(), "2".to_string()),
        ("A".to_string(), "3".to_string()),
    ]);
    req.instances = Some(3);
    req.watch = Some(true);
    req.port = Some(8080);
    let spec = req.into_spec(Some(AppMode::Npm), 0);
    assert_eq!(spec.cwd, "/srv/api");
    assert_eq!(spec.mode, AppMode::Npm);
    assert_eq!(spec.args, vec!["server.js"]);
    assert_eq!(
        spec.env,
        vec![("A".to_string(), "3".to_string()), ("B".to_string(), "2".to_string())]
    );
    assert_eq!(spec.instances, 3);
    assert!(spec.watch);
    assert_eq!(spec.port, Some(8080));
}
