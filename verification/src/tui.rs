//! Texts for the dashboard.

use crate::appspec::{AppInfo, AppInfoView, Selector};
use crate::ipc::{IpcClient, Request, Response};
use crate::output::bytes_text;
use crate::supervisor::info_views;
use crate::text::{copy_text, decimal, decimal_string, push_decimal, texts};
use crate::types::AppStatus;
use vstd::prelude::*;
use vstd::string::*;

verus! {

/// A duration in its largest unit alone, rounded down.
pub open spec fn short_duration_text(secs: u64) -> Seq<char> {
    if secs >= 86400 {
        decimal((secs / 86400) as nat) + "d"@
    } else if secs >= 3600 {
        decimal((secs / 3600) as nat) + "h"@
    } else if secs >= 60 {
        decimal((secs / 60) as nat) + "m"@
    } else {
        decimal(secs as nat) + "s"@
    }
}

/// A duration in its largest unit alone, rounded down.
pub fn format_duration(secs: u64) -> (r: String)
    ensures
        r@ == short_duration_text(secs),
{
    let mut out = String::new();
    if secs >= 86400 {
        push_decimal(&mut out, secs / 86400);
        out.append("d");
    } else if secs >= 3600 {
        push_decimal(&mut out, secs / 3600);
        out.append("h");
    } else if secs >= 60 {
        push_decimal(&mut out, secs / 60);
        out.append("m");
    } else {
        push_decimal(&mut out, secs);
        out.append("s");
    }
    assert(out@ =~= short_duration_text(secs));
    out
}

/// A size in bytes in its largest binary unit, as the status table shows
/// it.
pub fn format_bytes(bytes: u64) -> (r: String)
    ensures
        r@ == bytes_text(bytes),
{
    crate::output::format_bytes(bytes)
}

/// The colour in which the dashboard shows a status.
#[derive(Debug, Clone, Copy, PartialEq, Eq, Structural)]
pub enum Tone {
    Green,
    Yellow,
    Red,
}

/// The colour of a status: green while running, yellow on the way up or
/// down, red when stopped or errored.
pub open spec fn tone_of(status: AppStatus) -> Tone {
    match status {
        AppStatus::Running => Tone::Green,
        AppStatus::Stopped | AppStatus::Errored => Tone::Red,
        AppStatus::Starting | AppStatus::Building | AppStatus::Stopping => Tone::Yellow,
    }
}

/// The colour in which the dashboard shows `status`.
pub fn status_tone(status: AppStatus) -> (r: Tone)
    ensures
        r == tone_of(status),
{
    match status {
        AppStatus::Running => Tone::Green,
        AppStatus::Stopped => Tone::Red,
        AppStatus::Errored => Tone::Red,
        AppStatus::Starting => Tone::Yellow,
        AppStatus::Building => Tone::Yellow,
        AppStatus::Stopping => Tone::Yellow,
    }
}

/// How the dashboard shows a port: the number, or a dash for none.
pub open spec fn port_label(port: Option<u16>) -> Seq<char> {
    match port {
        Some(p) => decimal(p as nat),
        None => "-"@,
    }
}

/// How the dashboard shows `port`.
pub fn port_text(port: Option<u16>) -> (r: String)
    ensures
        r@ == port_label(port),
{
    match port {
        Some(p) => decimal_string(p as u64),
        None => copy_text("-"),
    }
}

/// The filling of the gauge for a share of a processor given in
/// hundredths of a percent: the whole percents, at most 100.
pub open spec fn cpu_gauge_of(centipercent: u32) -> u16 {
    if centipercent >= 10000 {
        100
    } else {
        (centipercent / 100) as u16
    }
}

/// The filling of the processor gauge, in percent.
pub fn cpu_gauge(centipercent: u32) -> (r: u16)
    ensures
        r == cpu_gauge_of(centipercent),
        r <= 100,
{
    if centipercent >= 10000 {
        100
    } else {
        (centipercent / 100) as u16
    }
}

/// The size at which the memory gauge is full: 1 GiB.
pub const FULL_GAUGE_BYTES: u64 = 1_073_741_824;

/// The filling of the gauge for a size in bytes: the whole percents of
/// 1 GiB, at most 100.
pub open spec fn memory_gauge_of(bytes: u64) -> u16 {
    if bytes >= FULL_GAUGE_BYTES {
        100
    } else {
        ((bytes * 100) / (FULL_GAUGE_BYTES as int)) as u16
    }
}

/// The filling of the memory gauge, in percent.
pub fn memory_gauge(bytes: u64) -> (r: u16)
    ensures
        r == memory_gauge_of(bytes),
        r <= 100,
{
    if bytes >= FULL_GAUGE_BYTES {
        100
    } else {
        ((bytes * 100) / FULL_GAUGE_BYTES) as u16
    }
}

/// The keys that the help bar lists under a tab.
pub open spec fn help_of(tab: nat) -> Seq<char> {
    if tab == 0 {
        "↑/↓: Select | s: Stop | r: Restart | l: Logs | Tab: Switch | q: Quit"@
    } else if tab == 1 {
        "↑/↓: Select | Tab: Switch | q: Quit"@
    } else if tab == 2 {
        "↑/↓: Scroll | Tab: Switch | q: Quit"@
    } else {
        ""@
    }
}

/// The keys that the help bar lists under tab `tab`.
pub fn help_text(tab: usize) -> (r: &'static str)
    ensures
        r@ == help_of(tab as nat),
{
    if tab == 0 {
        "↑/↓: Select | s: Stop | r: Restart | l: Logs | Tab: Switch | q: Quit"
    } else if tab == 1 {
        "↑/↓: Select | Tab: Switch | q: Quit"
    } else if tab == 2 {
        "↑/↓: Scroll | Tab: Switch | q: Quit"
    } else {
        ""
    }
}

/// The number of lines that a frame takes from the height of its area.
pub const FRAME_LINES: usize = 2;

/// The log lines that fit into an area `height` lines high, its frame
/// counted: the last ones.
pub open spec fn visible_lines(logs: Seq<Seq<char>>, height: nat) -> Seq<Seq<char>> {
    crate::logs::last_n(logs, (height - FRAME_LINES) as nat)
}

/// The log lines that fit into an area `height` lines high.
pub fn visible_logs(logs: &Vec<String>, height: usize) -> (r: Vec<String>)
    requires
        height >= FRAME_LINES,
    ensures
        texts(r@) == visible_lines(texts(logs@), height as nat),
{
    crate::logs::tail_lines(crate::text::copy_texts(logs), height - FRAME_LINES)
}

/// The number of tabs of the dashboard.
pub const TAB_COUNT: usize = 3;

/// The tab that shows the log lines.
pub const LOGS_TAB: usize = 2;

/// The number of log lines that the dashboard asks for.
pub const LOG_LINES: usize = 50;

/// The time between two refreshes, in milliseconds.
pub const TICK_MS: u64 = 1000;

/// The state of the dashboard: the applications as the daemon last
/// reported them, the row and the tab that are selected, the log lines last
/// fetched, and the last error.
#[derive(Debug)]
pub struct App {
    client: IpcClient,
    processes: Vec<AppInfo>,
    selected_index: usize,
    tab_index: usize,
    logs: Vec<String>,
    should_quit: bool,
    last_error: Option<String>,
}

/// The mathematical value of [`App`].
pub struct AppView {
    pub socket_path: Seq<char>,
    pub processes: Seq<AppInfoView>,
    pub selected_index: nat,
    pub tab_index: nat,
    pub logs: Seq<Seq<char>>,
    pub should_quit: bool,
    pub last_error: Option<Seq<char>>,
}

impl View for App {
    type V = AppView;

    closed spec fn view(&self) -> AppView {
        AppView {
            socket_path: self.client.path_text(),
            processes: info_views(self.processes@),
            selected_index: self.selected_index as nat,
            tab_index: self.tab_index as nat,
            logs: texts(self.logs@),
            should_quit: self.should_quit,
            last_error: crate::text::opt_text(self.last_error),
        }
    }
}

/// A key that the dashboard listens to.
#[derive(Debug, Clone, Copy, PartialEq, Eq, Structural)]
pub enum Key {
    Quit,
    Down,
    Up,
    NextTab,
    PreviousTab,
    Stop,
    Restart,
    Logs,
    Other,
}

/// What the dashboard's caller is to do after a key.
#[derive(Debug)]
pub enum KeyEffect {
    /// Nothing.
    Nothing,
    /// Send the request, whatever the answer, and refresh.
    SendThenRefresh(Request),
    /// Send the request and hand the answer to [`App::on_logs`].
    FetchLogs(Request),
}

/// The selected row exists whenever there is a row, and the selected tab
/// exists.
pub open spec fn dashboard_ok(a: AppView) -> bool {
    (a.processes.len() > 0 ==> a.selected_index < a.processes.len()) && a.tab_index < TAB_COUNT
}

/// The dashboard before anything was fetched.
pub open spec fn fresh_dashboard(socket_path: Seq<char>) -> AppView {
    AppView {
        socket_path,
        processes: Seq::empty(),
        selected_index: 0,
        tab_index: 0,
        logs: Seq::empty(),
        should_quit: false,
        last_error: None,
    }
}

/// The id of the selected application, if there is a row.
pub open spec fn selected_id(a: AppView) -> Option<u32> {
    if a.processes.len() > 0 && a.selected_index < a.processes.len() {
        Some(a.processes[a.selected_index as int].spec.id)
    } else {
        None
    }
}

/// The title of the logs tab.
pub open spec fn logs_title_of(a: AppView) -> Seq<char> {
    if a.processes.len() > 0 && a.selected_index < a.processes.len() {
        "Logs"@ + " - "@ + a.processes[a.selected_index as int].spec.name
    } else {
        "Logs"@
    }
}

/// The selection one row down, from the last row back to the first.
pub open spec fn row_after(a: AppView) -> nat {
    if a.processes.len() > 0 {
        (a.selected_index + 1) % a.processes.len()
    } else {
        a.selected_index
    }
}

/// The selection one row up, from the first row on to the last.
pub open spec fn row_before(a: AppView) -> nat {
    if a.processes.len() == 0 {
        a.selected_index
    } else if a.selected_index > 0 {
        (a.selected_index - 1) as nat
    } else {
        (a.processes.len() - 1) as nat
    }
}

/// The tab to the right, from the last back to the first.
pub open spec fn tab_after(tab: nat) -> nat {
    (tab + 1) % (TAB_COUNT as nat)
}

/// The tab to the left, from the first on to the last.
pub open spec fn tab_before(tab: nat) -> nat {
    if tab > 0 {
        (tab - 1) as nat
    } else {
        (TAB_COUNT - 1) as nat
    }
}

/// The dashboard after the daemon reported `apps`: the error is cleared,
/// and a selection past the last row moves to the last row.
pub open spec fn with_status(a: AppView, apps: Seq<AppInfoView>) -> AppView {
    AppView {
        processes: apps,
        last_error: None,
        selected_index: if a.selected_index >= apps.len() && apps.len() > 0 {
            (apps.len() - 1) as nat
        } else {
            a.selected_index
        },
        ..a
    }
}

/// The error shown when the daemon cannot be reached.
pub open spec fn connection_error(detail: Seq<char>) -> Seq<char> {
    "Connection error: "@ + detail
}

/// The dashboard after a key: the selection, the tab and the wish to quit.
pub open spec fn after_key(a: AppView, key: Key) -> AppView {
    match key {
        Key::Quit => AppView { should_quit: true, ..a },
        Key::Down => AppView { selected_index: row_after(a), ..a },
        Key::Up => AppView { selected_index: row_before(a), ..a },
        Key::NextTab => AppView { tab_index: tab_after(a.tab_index), ..a },
        Key::PreviousTab => AppView { tab_index: tab_before(a.tab_index), ..a },
        Key::Logs => AppView { tab_index: LOGS_TAB as nat, ..a },
        _ => a,
    }
}

/// Moving the selection or the tab keeps the dashboard in order, whatever
/// the key.
pub proof fn lemma_keys_keep_order(a: AppView, key: Key)
    requires
        dashboard_ok(a),
    ensures
        dashboard_ok(after_key(a, key)),
{
    if a.processes.len() > 0 {
        assert(row_after(a) < a.processes.len()) by (nonlinear_arith)
            requires
                row_after(a) == (a.selected_index + 1) % a.processes.len(),
                a.processes.len() > 0,
        ;
    }
}

/// One row down and then one row up, or the other way round, comes back
/// to the same row.
pub proof fn lemma_down_then_up(a: AppView)
    requires
        dashboard_ok(a),
    ensures
        row_before(AppView { selected_index: row_after(a), ..a }) == a.selected_index,
        row_after(AppView { selected_index: row_before(a), ..a }) == a.selected_index,
{
    let n = a.processes.len();
    if n > 0 {
        let i = a.selected_index;
        if i + 1 < n {
            vstd::arithmetic::div_mod::lemma_small_mod((i + 1) as nat, n);
        } else {
            vstd::arithmetic::div_mod::lemma_mod_self_0(n as int);
        }
        if i > 0 {
            vstd::arithmetic::div_mod::lemma_small_mod(i, n);
        } else {
            vstd::arithmetic::div_mod::lemma_mod_self_0(n as int);
        }
    }
}

impl App {
    /// Whether the dashboard is in order.
    pub open spec fn wf(&self) -> bool {
        dashboard_ok(self@)
    }

    /// The dashboard of the daemon behind `socket_path`, before anything
    /// was fetched.
    pub fn new(socket_path: String) -> (r: App)
        ensures
            r@ == fresh_dashboard(socket_path@),
            r.wf(),
    {
        let r = App {
            client: IpcClient::new(socket_path),
            processes: Vec::new(),
            selected_index: 0,
            tab_index: 0,
            logs: Vec::new(),
            should_quit: false,
            last_error: None,
        };
        assert(r@.processes =~= Seq::empty());
        assert(r@.logs =~= Seq::empty());
        r
    }

    /// The client through which the dashboard reaches the daemon.
    pub fn client(&self) -> (r: &IpcClient)
        ensures
            r.path_text() == self@.socket_path,
    {
        &self.client
    }

    /// The applications as last reported.
    pub fn processes(&self) -> (r: &Vec<AppInfo>)
        ensures
            info_views(r@) == self@.processes,
    {
        &self.processes
    }

    /// The index of the selected row.
    pub fn selected_index(&self) -> (r: usize)
        ensures
            r == self@.selected_index,
    {
        self.selected_index
    }

    /// The index of the selected tab.
    pub fn tab_index(&self) -> (r: usize)
        ensures
            r == self@.tab_index,
    {
        self.tab_index
    }

    /// The log lines last fetched.
    pub fn logs(&self) -> (r: &Vec<String>)
        ensures
            texts(r@) == self@.logs,
    {
        &self.logs
    }

    /// Whether the user asked to quit.
    pub fn should_quit(&self) -> (r: bool)
        ensures
            r == self@.should_quit,
    {
        self.should_quit
    }

    /// The last error, if the last refresh failed.
    pub fn last_error(&self) -> (r: Option<&str>)
        ensures
            crate::types::opt_str_text(r) == self@.last_error,
    {
        match &self.last_error {
            Some(e) => Some(e.as_str()),
            None => None,
        }
    }

    /// Whether a refresh is due, `elapsed_ms` after the last one.
    pub fn refresh_due(elapsed_ms: u64) -> (r: bool)
        ensures
            r == (elapsed_ms >= TICK_MS),
    {
        elapsed_ms >= TICK_MS
    }

    /// Takes in the answer to a status request: the applications that the
    /// daemon reported, or the error that came in their place. Any other
    /// answer changes nothing.
    pub fn refresh(&mut self, answer: Result<Response, String>)
        requires
            old(self).wf(),
        ensures
            final(self).wf(),
            match answer {
                Ok(Response::Status { apps }) => final(self)@ == with_status(
                    old(self)@,
                    info_views(apps@),
                ),
                Ok(Response::Error { message }) => final(self)@ == (AppView {
                    last_error: Some(message@),
                    ..old(self)@
                }),
                Err(e) => final(self)@ == (AppView {
                    last_error: Some(connection_error(e@)),
                    ..old(self)@
                }),
                _ => final(self)@ == old(self)@,
            },
    {
        match answer {
            Ok(Response::Status { apps }) => {
                self.processes = apps;
                self.last_error = None;
                if self.selected_index >= self.processes.len() && self.processes.len() > 0 {
                    self.selected_index = self.processes.len() - 1;
                }
            },
            Ok(Response::Error { message }) => {
                self.last_error = Some(message);
            },
            Err(e) => {
                let mut m = copy_text("Connection error: ");
                m.append(e.as_str());
                assert(m@ =~= connection_error(e@));
                self.last_error = Some(m);
            },
            _ => {},
        }
    }

    /// The id of the selected application, if there is a row.
    pub fn selected(&self) -> (r: Option<u32>)
        ensures
            r == selected_id(self@),
    {
        if self.processes.len() > 0 && self.selected_index < self.processes.len() {
            Some(self.processes[self.selected_index].spec.id)
        } else {
            None
        }
    }

    /// The request for the log lines of the selected application: the last
    /// 50 of both streams. `None` without a row.
    pub fn refresh_logs(&self) -> (r: Option<Request>)
        ensures
            match selected_id(self@) {
                Some(id) => r == Some(
                    Request::Logs {
                        selector: Selector::ById(id),
                        lines: LOG_LINES,
                        follow: false,
                        stdout: true,
                        stderr: true,
                    },
                ),
                None => r is None,
            },
    {
        match self.selected() {
            Some(id) => Some(
                Request::Logs {
                    selector: Selector::ById(id),
                    lines: LOG_LINES,
                    follow: false,
                    stdout: true,
                    stderr: true,
                },
            ),
            None => None,
        }
    }

    /// Takes in the answer to a request for log lines: the lines replace
    /// those shown; any other answer changes nothing.
    pub fn on_logs(&mut self, answer: Result<Response, String>)
        ensures
            match answer {
                Ok(Response::LogLines { lines }) => final(self)@ == (AppView {
                    logs: texts(lines@),
                    ..old(self)@
                }),
                _ => final(self)@ == old(self)@,
            },
    {
        match answer {
            Ok(Response::LogLines { lines }) => {
                self.logs = lines;
            },
            _ => {},
        }
    }

    /// Selects the next row, from the last back to the first.
    pub fn next(&mut self)
        requires
            old(self).wf(),
        ensures
            final(self)@ == after_key(old(self)@, Key::Down),
            final(self).wf(),
    {
        proof {
            lemma_keys_keep_order(self@, Key::Down);
        }
        if self.processes.len() > 0 {
            self.selected_index = (self.selected_index + 1) % self.processes.len();
        }
    }

    /// Selects the row before, from the first on to the last.
    pub fn previous(&mut self)
        requires
            old(self).wf(),
        ensures
            final(self)@ == after_key(old(self)@, Key::Up),
            final(self).wf(),
    {
        if self.processes.len() > 0 {
            self.selected_index = if self.selected_index > 0 {
                self.selected_index - 1
            } else {
                self.processes.len() - 1
            };
        }
    }

    /// Selects the tab to the right, from the last back to the first.
    pub fn next_tab(&mut self)
        requires
            old(self).wf(),
        ensures
            final(self)@ == after_key(old(self)@, Key::NextTab),
            final(self).wf(),
    {
        self.tab_index = (self.tab_index + 1) % TAB_COUNT;
    }

    /// Selects the tab to the left, from the first on to the last.
    pub fn previous_tab(&mut self)
        requires
            old(self).wf(),
        ensures
            final(self)@ == after_key(old(self)@, Key::PreviousTab),
            final(self).wf(),
    {
        self.tab_index = if self.tab_index > 0 {
            self.tab_index - 1
        } else {
            TAB_COUNT - 1
        };
    }

    /// The title of the logs tab: with the name of the selected
    /// application, if there is a row.
    pub fn logs_title(&self) -> (r: String)
        ensures
            r@ == logs_title_of(self@),
    {
        let mut out = copy_text("Logs");
        if self.processes.len() > 0 && self.selected_index < self.processes.len() {
            out.append(" - ");
            out.append(self.processes[self.selected_index].spec.name.as_str());
        }
        assert(out@ =~= logs_title_of(self@));
        out
    }

    /// The request that stops the selected application. `None` without a
    /// row.
    pub fn stop_selected(&self) -> (r: Option<Request>)
        ensures
            match selected_id(self@) {
                Some(id) => r == Some(Request::Stop { selector: Selector::ById(id) }),
                None => r is None,
            },
    {
        match self.selected() {
            Some(id) => Some(Request::Stop { selector: Selector::ById(id) }),
            None => None,
        }
    }

    /// The request that restarts the selected application. `None` without
    /// a row.
    pub fn restart_selected(&self) -> (r: Option<Request>)
        ensures
            match selected_id(self@) {
                Some(id) => r == Some(Request::Restart { selector: Selector::ById(id) }),
                None => r is None,
            },
    {
        match self.selected() {
            Some(id) => Some(Request::Restart { selector: Selector::ById(id) }),
            None => None,
        }
    }

    /// Takes in a key: moves the selection or the tab, notes the wish to
    /// quit, and says what is to be sent to the daemon. The key for the
    /// logs also selects the logs tab.
    pub fn on_key(&mut self, key: Key) -> (r: KeyEffect)
        requires
            old(self).wf(),
        ensures
            final(self)@ == after_key(old(self)@, key),
            final(self).wf(),
            match key {
                Key::Stop => match selected_id(old(self)@) {
                    Some(id) => r == KeyEffect::SendThenRefresh(
                        Request::Stop { selector: Selector::ById(id) },
                    ),
                    None => r is Nothing,
                },
                Key::Restart => match selected_id(old(self)@) {
                    Some(id) => r == KeyEffect::SendThenRefresh(
                        Request::Restart { selector: Selector::ById(id) },
                    ),
                    None => r is Nothing,
                },
                Key::Logs => match selected_id(old(self)@) {
                    Some(id) => r == KeyEffect::FetchLogs(
                        Request::Logs {
                            selector: Selector::ById(id),
                            lines: LOG_LINES,
                            follow: false,
                            stdout: true,
                            stderr: true,
                        },
                    ),
                    None => r is Nothing,
                },
                _ => r is Nothing,
            },
    {
        match key {
            Key::Quit => {
                self.should_quit = true;
                KeyEffect::Nothing
            },
            Key::Down => {
                self.next();
                KeyEffect::Nothing
            },
            Key::Up => {
                self.previous();
                KeyEffect::Nothing
            },
            Key::NextTab => {
                self.next_tab();
                KeyEffect::Nothing
            },
            Key::PreviousTab => {
                self.previous_tab();
                KeyEffect::Nothing
            },
            Key::Stop => match self.stop_selected() {
                Some(request) => KeyEffect::SendThenRefresh(request),
                None => KeyEffect::Nothing,
            },
            Key::Restart => match self.restart_selected() {
                Some(request) => KeyEffect::SendThenRefresh(request),
                None => KeyEffect::Nothing,
            },
            Key::Logs => {
                let request = self.refresh_logs();
                self.tab_index = LOGS_TAB;
                match request {
                    Some(request) => KeyEffect::FetchLogs(request),
                    None => KeyEffect::Nothing,
                }
            },
            Key::Other => KeyEffect::Nothing,
        }
    }
}

} // verus!
