//! The shapes that the HTTP interface answers and accepts.

use crate::appspec::{new_spec, pairs, parse_selector, AppInfo, AppSpec, AppSpecView, Selector};
use crate::cli::{env_overlaid, overlay_env};
use crate::ipc::{Request, Response};
use crate::text::{copy_text, opt_text, same_text, texts};
use crate::types::{opt_str_text, valid_app_name, AppMode};
use vstd::prelude::*;
use vstd::string::*;

verus! {

/// The envelope of every answer of the HTTP interface.
#[derive(Debug)]
pub struct ApiResponse<T> {
    pub success: bool,
    pub data: Option<T>,
    pub error: Option<String>,
}

impl<T> ApiResponse<T> {
    /// A success that carries `data`.
    pub fn ok(data: T) -> (r: ApiResponse<T>)
        ensures
            r.success,
            r.data == Some(data),
            r.error is None,
    {
        ApiResponse { success: true, data: Some(data), error: None }
    }

    /// A failure that carries `message`.
    pub fn err(message: &str) -> (r: ApiResponse<()>)
        ensures
            !r.success,
            r.data is None,
            r.error matches Some(m) && m@ == message@,
    {
        ApiResponse { success: false, data: None, error: Some(copy_text(message)) }
    }
}

/// The body of a request to start an application.
#[derive(Debug)]
pub struct StartRequest {
    pub name: String,
    pub command: String,
    pub cwd: Option<String>,
    pub args: Option<Vec<String>>,
    pub env: Option<Vec<(String, String)>>,
    pub instances: Option<u32>,
    pub watch: Option<bool>,
    pub port: Option<u16>,
}

/// Whether a request may pass: without a configured key every request
/// may; with one, only a request that provides exactly that key.
pub open spec fn key_accepted(expected: Option<Seq<char>>, provided: Option<Seq<char>>) -> bool {
    match expected {
        None => true,
        Some(e) => provided == Some(e),
    }
}

/// Whether a request with the key `provided` may pass.
pub fn api_key_auth(expected: Option<&str>, provided: Option<&str>) -> (r: bool)
    ensures
        r == key_accepted(opt_str_text(expected), opt_str_text(provided)),
{
    match expected {
        None => true,
        Some(e) => match provided {
            Some(p) => same_text(p, e),
            None => false,
        },
    }
}

/// The HTTP status of a success.
pub const STATUS_OK: u16 = 200;

/// The HTTP status of a request that the daemon refused.
pub const STATUS_BAD_REQUEST: u16 = 400;

/// The HTTP status of a request without the right key.
pub const STATUS_UNAUTHORIZED: u16 = 401;

/// The HTTP status for an application that is not there.
pub const STATUS_NOT_FOUND: u16 = 404;

/// The HTTP status of a failure on the server's side.
pub const STATUS_INTERNAL_ERROR: u16 = 500;

/// The HTTP status when the daemon cannot be reached.
pub const STATUS_UNAVAILABLE: u16 = 503;

/// The number of log lines that the HTTP interface asks for.
pub const WEB_LOG_LINES: usize = 100;

/// The HTTP status for a request with the key `provided`: unauthorized
/// unless the key is accepted.
pub fn auth_status(expected: Option<&str>, provided: Option<&str>) -> (r: Option<u16>)
    ensures
        key_accepted(opt_str_text(expected), opt_str_text(provided)) ==> r is None,
        !key_accepted(opt_str_text(expected), opt_str_text(provided)) ==> r == Some(
            STATUS_UNAUTHORIZED,
        ),
{
    if api_key_auth(expected, provided) {
        None
    } else {
        Some(STATUS_UNAUTHORIZED)
    }
}

/// The directory in which an application starts when the request names
/// none.
pub open spec fn request_cwd(cwd: Option<Seq<char>>) -> Seq<char> {
    match cwd {
        Some(c) => c,
        None => "."@,
    }
}

/// The mode of an application started over HTTP: the one detected for its
/// directory, a raw command otherwise.
pub open spec fn request_mode(detected: Option<AppMode>) -> AppMode {
    match detected {
        Some(m) => m,
        None => AppMode::Cmd,
    }
}

/// The specification that a start request stands for: a fresh one with
/// the request's name and command, on which each field that the request
/// gives is set.
pub open spec fn request_spec(req: StartRequest, detected: Option<AppMode>, created_at: i64) -> AppSpecView {
    let base = new_spec(
        req.name@,
        request_mode(detected),
        req.command@,
        request_cwd(opt_text(req.cwd)),
        created_at,
    );
    AppSpecView {
        args: match req.args {
            Some(a) => texts(a@),
            None => base.args,
        },
        env: match req.env {
            Some(e) => env_overlaid(Seq::empty(), pairs(e@)),
            None => base.env,
        },
        instances: match req.instances {
            Some(n) => n,
            None => base.instances,
        },
        watch: match req.watch {
            Some(w) => w,
            None => base.watch,
        },
        port: req.port,
        ..base
    }
}

impl StartRequest {
    /// The specification that this request stands for, created at
    /// `created_at`, where `detected` is the mode detected for its
    /// directory. The name is one known to be valid.
    pub fn into_spec(self, detected: Option<AppMode>, created_at: i64) -> (r: AppSpec)
        requires
            valid_app_name(self.name@),
        ensures
            r@ == request_spec(self, detected, created_at),
    {
        let cwd = match self.cwd {
            Some(c) => c,
            None => copy_text("."),
        };
        let mode = match detected {
            Some(m) => m,
            None => AppMode::Cmd,
        };
        let mut spec = match AppSpec::try_new_at(self.name, mode, self.command, cwd, created_at) {
            Ok(s) => s,
            Err(_) => {
                assert(false);
                vstd::pervasive::unreached()
            },
        };
        match self.args {
            Some(a) => {
                spec.args = a;
            },
            None => {},
        }
        match self.env {
            Some(e) => {
                assert(pairs(spec.env@) =~= Seq::empty());
                overlay_env(&mut spec.env, &e);
            },
            None => {},
        }
        match self.instances {
            Some(n) => {
                spec.instances = n;
            },
            None => {},
        }
        match self.watch {
            Some(w) => {
                spec.watch = w;
            },
            None => {},
        }
        match self.port {
            Some(p) => {
                spec.port = Some(p);
            },
            None => {},
        }
        spec
    }
}

/// A route of the HTTP interface that the daemon answers.
#[derive(Debug, Clone, Copy, PartialEq, Eq, Structural)]
pub enum Route {
    Ping,
    List,
    Get,
    Start,
    Stop,
    Restart,
    Delete,
    Logs,
    Save,
    Resurrect,
}

/// What a route hands to its client on success.
#[derive(Debug)]
pub enum Payload {
    Pong,
    Apps(Vec<AppInfo>),
    App(AppInfo),
    Started { id: u32, name: String },
    Stopped(usize),
    Restarted(usize),
    Deleted(usize),
    Lines(Vec<String>),
    Saved { count: usize, path: String },
    Resurrected(usize),
}

/// The answer of a route: the HTTP status and the envelope.
#[derive(Debug)]
pub struct Reply {
    pub status: u16,
    pub body: ApiResponse<Payload>,
}

/// The request that a route sends to the daemon for the selector text
/// `selector`. The route that starts an application has none: its request
/// carries the specification.
pub open spec fn route_request_ok(route: Route, selector: Seq<char>, r: Option<Request>) -> bool {
    match route {
        Route::Ping => r == Some(Request::Ping),
        Route::List => r == Some(Request::Status),
        Route::Save => r == Some(Request::Save),
        Route::Resurrect => r == Some(Request::Resurrect),
        Route::Start => r is None,
        Route::Get => r matches Some(Request::Show { selector: s }) && s@ == parse_selector(
            selector,
        ),
        Route::Stop => r matches Some(Request::Stop { selector: s }) && s@ == parse_selector(
            selector,
        ),
        Route::Restart => r matches Some(Request::Restart { selector: s }) && s@
            == parse_selector(selector),
        Route::Delete => r matches Some(Request::Delete { selector: s }) && s@
            == parse_selector(selector),
        Route::Logs => r matches Some(
            Request::Logs { selector: s, lines, follow, stdout, stderr },
        ) && s@ == parse_selector(selector) && lines == WEB_LOG_LINES && !follow && stdout
            && stderr,
    }
}

/// The request that `route` sends to the daemon.
pub fn route_request(route: Route, selector: &str) -> (r: Option<Request>)
    ensures
        route_request_ok(route, selector@, r),
{
    match route {
        Route::Ping => Some(Request::Ping),
        Route::List => Some(Request::Status),
        Route::Save => Some(Request::Save),
        Route::Resurrect => Some(Request::Resurrect),
        Route::Start => None,
        Route::Get => Some(Request::Show { selector: Selector::parse(selector) }),
        Route::Stop => Some(Request::Stop { selector: Selector::parse(selector) }),
        Route::Restart => Some(Request::Restart { selector: Selector::parse(selector) }),
        Route::Delete => Some(Request::Delete { selector: Selector::parse(selector) }),
        Route::Logs => Some(
            Request::Logs {
                selector: Selector::parse(selector),
                lines: WEB_LOG_LINES,
                follow: false,
                stdout: true,
                stderr: true,
            },
        ),
    }
}

/// What `route` hands out for the daemon's answer `response`, if that is
/// the answer the route waits for.
pub open spec fn payload_of(route: Route, response: Response) -> Option<Payload> {
    match (route, response) {
        (Route::Ping, Response::Pong) => Some(Payload::Pong),
        (Route::List, Response::Status { apps }) => Some(Payload::Apps(apps)),
        (Route::Get, Response::Show { app }) => Some(Payload::App(app)),
        (Route::Start, Response::Started { id, name }) => Some(Payload::Started { id, name }),
        (Route::Stop, Response::Stopped { count }) => Some(Payload::Stopped(count)),
        (Route::Restart, Response::Restarted { count }) => Some(Payload::Restarted(count)),
        (Route::Delete, Response::Deleted { count }) => Some(Payload::Deleted(count)),
        (Route::Logs, Response::LogLines { lines }) => Some(Payload::Lines(lines)),
        (Route::Save, Response::Saved { count, path }) => Some(Payload::Saved { count, path }),
        (Route::Resurrect, Response::Resurrected { count }) => Some(Payload::Resurrected(count)),
        _ => None,
    }
}

/// The HTTP status with which `route` passes on an error of the daemon.
pub open spec fn refusal_status(route: Route) -> u16 {
    match route {
        Route::Ping => STATUS_UNAVAILABLE,
        Route::Get => STATUS_NOT_FOUND,
        Route::List | Route::Save | Route::Resurrect => STATUS_INTERNAL_ERROR,
        _ => STATUS_BAD_REQUEST,
    }
}

/// The HTTP status of `route` when the daemon could not be reached.
pub open spec fn unreachable_status(route: Route) -> u16 {
    match route {
        Route::Ping => STATUS_UNAVAILABLE,
        _ => STATUS_INTERNAL_ERROR,
    }
}

/// The HTTP status of the answer of `route`.
pub open spec fn reply_status(route: Route, answer: Result<Response, String>) -> u16 {
    match answer {
        Ok(response) => if payload_of(route, response) is Some {
            STATUS_OK
        } else if response is Error {
            refusal_status(route)
        } else {
            STATUS_INTERNAL_ERROR
        },
        Err(_) => unreachable_status(route),
    }
}

/// The error in the answer of `route`: none on success; the daemon's
/// message; the reason why the daemon was not reached; or a note that the
/// daemon's answer was not the one waited for.
pub open spec fn reply_error(route: Route, answer: Result<Response, String>) -> Option<Seq<char>> {
    match answer {
        Ok(response) => if payload_of(route, response) is Some {
            None
        } else {
            match response {
                Response::Error { message } => Some(message@),
                _ => Some("Unexpected response"@),
            }
        },
        Err(e) => Some(e@),
    }
}

/// What `route` hands out for the daemon's answer.
pub open spec fn reply_payload(route: Route, answer: Result<Response, String>) -> Option<Payload> {
    match answer {
        Ok(response) => payload_of(route, response),
        Err(_) => None,
    }
}

fn refusal(status: u16, message: String) -> (r: Reply)
    ensures
        r.status == status,
        !r.body.success,
        r.body.data is None,
        opt_text(r.body.error) == Some(message@),
{
    Reply { status, body: ApiResponse { success: false, data: None, error: Some(message) } }
}

fn success(payload: Payload) -> (r: Reply)
    ensures
        r.status == STATUS_OK,
        r.body.success,
        r.body.data == Some(payload),
        r.body.error is None,
{
    Reply { status: STATUS_OK, body: ApiResponse { success: true, data: Some(payload), error: None } }
}

fn refusal_code(route: Route) -> (r: u16)
    ensures
        r == refusal_status(route),
{
    match route {
        Route::Ping => STATUS_UNAVAILABLE,
        Route::Get => STATUS_NOT_FOUND,
        Route::List | Route::Save | Route::Resurrect => STATUS_INTERNAL_ERROR,
        _ => STATUS_BAD_REQUEST,
    }
}

/// The answer of `route` to its client, for what came back from the
/// daemon: the payload with status 200 for the answer that the route waits
/// for; the daemon's error under the route's status for refusals; the
/// reason under 500, or 503 for a ping, when the daemon was not reached;
/// and 500 for any other answer.
pub fn reply(route: Route, answer: Result<Response, String>) -> (r: Reply)
    ensures
        r.status == reply_status(route, answer),
        r.body.data == reply_payload(route, answer),
        opt_text(r.body.error) == reply_error(route, answer),
        r.body.success == (reply_error(route, answer) is None),
{
    match answer {
        Err(e) => {
            let status = match route {
                Route::Ping => STATUS_UNAVAILABLE,
                _ => STATUS_INTERNAL_ERROR,
            };
            refusal(status, e)
        },
        Ok(response) => match (route, response) {
            (Route::Ping, Response::Pong) => success(Payload::Pong),
            (Route::List, Response::Status { apps }) => success(Payload::Apps(apps)),
            (Route::Get, Response::Show { app }) => success(Payload::App(app)),
            (Route::Start, Response::Started { id, name }) => success(
                Payload::Started { id, name },
            ),
            (Route::Stop, Response::Stopped { count }) => success(Payload::Stopped(count)),
            (Route::Restart, Response::Restarted { count }) => success(Payload::Restarted(count)),
            (Route::Delete, Response::Deleted { count }) => success(Payload::Deleted(count)),
            (Route::Logs, Response::LogLines { lines }) => success(Payload::Lines(lines)),
            (Route::Save, Response::Saved { count, path }) => success(
                Payload::Saved { count, path },
            ),
            (Route::Resurrect, Response::Resurrected { count }) => success(
                Payload::Resurrected(count),
            ),
            (_, Response::Error { message }) => refusal(refusal_code(route), message),
            _ => refusal(STATUS_INTERNAL_ERROR, copy_text("Unexpected response")),
        },
    }
}

} // verus!
