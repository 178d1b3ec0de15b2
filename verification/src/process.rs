//! One supervised process: its runtime record, the invariants that tie its
//! status to its pid and child handle, and the transitions of its state
//! machine.

use crate::appspec::{AppSpec, AppSpecView};
use crate::health::{
    monitor_after, monitor_unhealthy, new_monitor, opt_monitor, HealthMonitor, HealthMonitorView,
};
use crate::types::{
    running_state,
    status_is_running,
    stopped_state,
    AppStatus,
    HealthCheckView,
    RunState,
};
use vstd::prelude::*;

verus! {

/// The handle on a spawned child: the pid under which the operating system
/// knows it. Whoever holds the handle owns the child.
#[derive(Debug, Clone, Copy, PartialEq, Eq, Structural)]
pub struct ChildHandle {
    pub pid: u32,
}

/// The runtime record of one specification. Instants are seconds on a
/// monotonic clock.
#[derive(Debug)]
pub struct SupervisedProcess {
    pub spec: AppSpec,
    pub state: RunState,
    /// The child, while this record owns it.
    pub child: Option<ChildHandle>,
    /// Automatic restarts within the current crash window.
    pub restart_count: u32,
    /// When the last automatic restart was decided.
    pub last_restart: Option<u64>,
    pub started_at: Option<u64>,
    pub health_monitor: Option<HealthMonitor>,
    /// For a cluster parent: the ids of its instances, in cluster order.
    pub cluster_instance_ids: Vec<u32>,
    pub parent_id: Option<u32>,
}

/// The mathematical value of [`SupervisedProcess`].
pub struct ProcView {
    pub spec: AppSpecView,
    pub state: RunState,
    pub child: Option<ChildHandle>,
    pub restart_count: u32,
    pub last_restart: Option<u64>,
    pub started_at: Option<u64>,
    pub monitor: Option<HealthMonitorView>,
    pub cluster_instance_ids: Seq<u32>,
    pub parent_id: Option<u32>,
}

impl View for SupervisedProcess {
    type V = ProcView;

    open spec fn view(&self) -> ProcView {
        ProcView {
            spec: self.spec@,
            state: self.state,
            child: self.child,
            restart_count: self.restart_count,
            last_restart: self.last_restart,
            started_at: self.started_at,
            monitor: opt_monitor(self.health_monitor),
            cluster_instance_ids: self.cluster_instance_ids@,
            parent_id: self.parent_id,
        }
    }
}

/// The views of a list of records, in order.
pub open spec fn proc_views(v: Seq<SupervisedProcess>) -> Seq<ProcView> {
    v.map_values(|p: SupervisedProcess| p@)
}

/// The specification of a cluster parent: several instances, and no
/// instance index of its own.
pub open spec fn is_parent_spec(s: AppSpecView) -> bool {
    s.instances > 1 && s.instance_id is None
}

/// The invariants of one record.
///
/// - A record that is not a parent is Running exactly when it has both a
///   pid and a child.
/// - A Stopped or Errored record has neither.
/// - A parent never has a pid or a child of its own, and lists as many
///   instances as its specification asks for.
pub open spec fn proc_ok(p: ProcView) -> bool {
    &&& p.state.app_id == p.spec.id
    &&& (p.child is Some ==> p.state.pid is Some)
    &&& (p.state.pid is Some && p.child is Some ==> p.state.status == AppStatus::Running)
    &&& (!is_parent_spec(p.spec) && p.state.status == AppStatus::Running ==> p.state.pid is Some
        && p.child is Some)
    &&& (p.state.status == AppStatus::Stopped || p.state.status == AppStatus::Errored ==> p.state.pid
        is None && p.child is None)
    &&& (is_parent_spec(p.spec) ==> p.state.pid is None && p.child is None
        && p.cluster_instance_ids.len() == p.spec.instances)
    &&& (!is_parent_spec(p.spec) ==> p.cluster_instance_ids.len() == 0)
}

/// The monitor that a specification's health check asks for.
pub open spec fn monitor_for(h: Option<HealthCheckView>) -> Option<HealthMonitorView> {
    match h {
        Some(c) => Some(new_monitor(c)),
        None => None,
    }
}

/// The record of a specification whose child `pid` has just come up.
pub open spec fn proc_started(spec: AppSpecView, pid: u32, now_utc: i64, now: u64) -> ProcView {
    ProcView {
        spec,
        state: RunState {
            port: spec.port,
            instance_id: spec.instance_id,
            ..running_state(spec.id, pid, now_utc)
        },
        child: Some(ChildHandle { pid }),
        restart_count: 0,
        last_restart: None,
        started_at: Some(now),
        monitor: monitor_for(spec.health_check),
        cluster_instance_ids: Seq::empty(),
        parent_id: None,
    }
}

/// The record of a specification that could not be prepared or spawned.
pub open spec fn proc_failed(spec: AppSpecView) -> ProcView {
    ProcView {
        spec,
        state: RunState {
            status: AppStatus::Errored,
            port: spec.port,
            instance_id: spec.instance_id,
            ..stopped_state(spec.id)
        },
        child: None,
        restart_count: 0,
        last_restart: None,
        started_at: None,
        monitor: monitor_for(spec.health_check),
        cluster_instance_ids: Seq::empty(),
        parent_id: None,
    }
}

/// The record of a cluster parent whose instances `ids` are up: Running in
/// the aggregate, with no pid and no child of its own.
pub open spec fn proc_parent(spec: AppSpecView, ids: Seq<u32>, now_utc: i64, now: u64) -> ProcView {
    ProcView {
        spec,
        state: RunState {
            status: AppStatus::Running,
            started_at: Some(now_utc),
            healthy: true,
            ..stopped_state(spec.id)
        },
        child: None,
        restart_count: 0,
        last_restart: None,
        started_at: Some(now),
        monitor: None,
        cluster_instance_ids: ids,
        parent_id: None,
    }
}

/// A stop was asked for: the record is Stopping, and its child is handed out.
pub open spec fn proc_stopping(p: ProcView) -> ProcView {
    ProcView { state: RunState { status: AppStatus::Stopping, ..p.state }, child: None, ..p }
}

/// How the life of a child ended, as the wait on it showed.
#[derive(Debug, Clone, Copy, PartialEq, Eq, Structural)]
pub enum ExitOutcome {
    /// It exited with this code.
    Code(i32),
    /// This signal ended it.
    Signal(i32),
    /// It did not exit within its deadline and was killed.
    Killed,
    /// The wait itself failed, and nothing is known.
    Unknown,
    /// The record owned no child, as a cluster parent does: nothing had to
    /// end.
    NoChild,
}

/// The exit code of a child that a signal ended: 128 and the signal's
/// number, as a shell reports it.
pub const SIGNAL_CODE_BASE: i32 = 128;

/// The exit code of a child that was killed: that of the kill signal.
pub const KILLED_CODE: i32 = 137;

/// The exit code of a child of which nothing is known.
pub const UNKNOWN_CODE: i32 = -1;

/// The exit code that is stored for the end of a child: its own code where
/// it exited with one; for a signal, 128 and the signal's number; 137 where
/// it was killed; -1 where nothing is known; 0 where there was no child to
/// end. So every end leaves a code.
pub open spec fn exit_code_of(how: ExitOutcome) -> i32 {
    match how {
        ExitOutcome::Code(c) => c,
        ExitOutcome::Signal(n) => if n <= i32::MAX - SIGNAL_CODE_BASE {
            (SIGNAL_CODE_BASE + n) as i32
        } else {
            i32::MAX
        },
        ExitOutcome::Killed => KILLED_CODE,
        ExitOutcome::Unknown => UNKNOWN_CODE,
        ExitOutcome::NoChild => 0,
    }
}

/// The exit code that is stored for the end of a child.
pub fn exit_code(how: ExitOutcome) -> (r: i32)
    ensures
        r == exit_code_of(how),
{
    match how {
        ExitOutcome::Code(c) => c,
        ExitOutcome::Signal(n) => if n <= i32::MAX - SIGNAL_CODE_BASE {
            SIGNAL_CODE_BASE + n
        } else {
            i32::MAX
        },
        ExitOutcome::Killed => KILLED_CODE,
        ExitOutcome::Unknown => UNKNOWN_CODE,
        ExitOutcome::NoChild => 0,
    }
}

/// The stop is over: the record is Stopped with no pid, and holds the
/// exit code that stands for how its child ended.
pub open spec fn proc_stopped(p: ProcView, how: ExitOutcome) -> ProcView {
    ProcView {
        state: RunState {
            status: AppStatus::Stopped,
            pid: None,
            last_exit_code: Some(exit_code_of(how)),
            ..p.state
        },
        child: None,
        started_at: None,
        ..p
    }
}

/// What a look at the child showed.
#[derive(Debug, Clone, Copy, PartialEq, Eq, Structural)]
pub enum ChildPoll {
    /// The child is alive.
    Alive,
    /// The child has ended, in this way.
    Exited(ExitOutcome),
    /// The look itself failed.
    Failed,
}

/// The seconds from `from` to `now`; 0 if `now` lies before `from`.
pub open spec fn elapsed(now: u64, from: u64) -> u64 {
    if now >= from {
        (now - from) as u64
    } else {
        0
    }
}

/// The last automatic restart lies within the crash window that ends now.
pub open spec fn in_crash_window(p: ProcView, now: u64) -> bool {
    match p.last_restart {
        Some(t) => elapsed(now, t) < p.spec.restart_policy.crash_window_secs,
        None => false,
    }
}

/// The automatic restarts that count against the limit at `now`: those of
/// the current crash window.
pub open spec fn restarts_in_window(p: ProcView, now: u64) -> u32 {
    if in_crash_window(p, now) {
        p.restart_count
    } else {
        0
    }
}

/// An unexpected exit at `now` is answered by a restart: the policy asks
/// for automatic restarts and the window's limit is not used up.
pub open spec fn restart_allowed(p: ProcView, now: u64) -> bool {
    p.spec.restart_policy.auto_restart && restarts_in_window(p, now)
        < p.spec.restart_policy.max_restarts
}

/// The child was seen to have exited.
///
/// While Stopping, the exit is the expected end of a stop. Otherwise it is a
/// crash: the record is Errored, and where a restart is allowed it is counted
/// against the crash window.
pub open spec fn proc_exited(p: ProcView, how: ExitOutcome, now: u64) -> ProcView {
    let state = RunState { last_exit_code: Some(exit_code_of(how)), pid: None, ..p.state };
    if p.state.status == AppStatus::Stopping {
        ProcView { state: RunState { status: AppStatus::Stopped, ..state }, child: None, ..p }
    } else if restart_allowed(p, now) {
        ProcView {
            state: RunState { status: AppStatus::Errored, ..state },
            child: None,
            restart_count: (restarts_in_window(p, now) + 1) as u32,
            last_restart: Some(now),
            ..p
        }
    } else {
        ProcView { state: RunState { status: AppStatus::Errored, ..state }, child: None, ..p }
    }
}

/// The record after a look at its child. A record without a child is left
/// alone; a living child has its uptime brought up to date.
pub open spec fn proc_polled(p: ProcView, poll: ChildPoll, now: u64) -> ProcView {
    if p.child is None {
        p
    } else {
        match poll {
            ChildPoll::Alive => match p.started_at {
                Some(t) => ProcView {
                    state: RunState { uptime_secs: elapsed(now, t), ..p.state },
                    ..p
                },
                None => p,
            },
            ChildPoll::Exited(how) => proc_exited(p, how, now),
            ChildPoll::Failed => p,
        }
    }
}

/// An automatic restart begins: Errored becomes Starting.
pub open spec fn proc_restarting(p: ProcView) -> ProcView {
    ProcView { state: RunState { status: AppStatus::Starting, ..p.state }, ..p }
}

/// One more, unless the counter is at its maximum.
pub open spec fn next_count(n: u32) -> u32 {
    if n < u32::MAX {
        (n + 1) as u32
    } else {
        n
    }
}

/// An automatic restart succeeded: the record runs the child `pid`, one
/// restart richer; the crash window's count is kept.
pub open spec fn proc_restarted(p: ProcView, pid: u32, now_utc: i64, now: u64) -> ProcView {
    ProcView {
        state: RunState {
            status: AppStatus::Running,
            pid: Some(pid),
            restarts: next_count(p.state.restarts),
            uptime_secs: 0,
            started_at: Some(now_utc),
            healthy: true,
            health_check_failures: 0,
            ..p.state
        },
        child: Some(ChildHandle { pid }),
        started_at: Some(now),
        monitor: monitor_for(p.spec.health_check),
        ..p
    }
}

/// An automatic restart failed: the record is Errored again.
pub open spec fn proc_restart_failed(p: ProcView) -> ProcView {
    ProcView {
        state: RunState { status: AppStatus::Errored, pid: None, ..p.state },
        child: None,
        ..p
    }
}

/// The record after a health probe at `now_utc`. A success resets the
/// failure counts. A failure adds to them, and once the monitor counts as
/// unhealthy the record is Errored and gives up its pid and its child.
pub open spec fn proc_probed(p: ProcView, healthy: bool, now_utc: i64) -> ProcView {
    let monitor = match p.monitor {
        Some(m) => Some(monitor_after(m, healthy)),
        None => None,
    };
    let state = RunState { healthy, last_health_check: Some(now_utc), ..p.state };
    if healthy {
        ProcView { state: RunState { health_check_failures: 0, ..state }, monitor, ..p }
    } else if probe_fails_process(p) {
        ProcView {
            state: RunState {
                health_check_failures: next_count(p.state.health_check_failures),
                status: AppStatus::Errored,
                pid: None,
                ..state
            },
            child: None,
            monitor,
            ..p
        }
    } else {
        ProcView {
            state: RunState {
                health_check_failures: next_count(p.state.health_check_failures),
                ..state
            },
            monitor,
            ..p
        }
    }
}

/// One more failed probe makes the record's monitor count as unhealthy.
pub open spec fn probe_fails_process(p: ProcView) -> bool {
    match p.monitor {
        Some(m) => monitor_unhealthy(monitor_after(m, false)),
        None => false,
    }
}

/// The record with fresh metrics.
pub open spec fn proc_sampled(p: ProcView, cpu_centipercent: u32, memory_bytes: u64) -> ProcView {
    ProcView { state: RunState { cpu_centipercent, memory_bytes, ..p.state }, ..p }
}

/// The record under another name.
pub open spec fn proc_renamed(p: ProcView, name: Seq<char>) -> ProcView {
    ProcView { spec: AppSpecView { name, ..p.spec }, ..p }
}

/// The record with one entry of its instance list replaced.
pub open spec fn proc_patched(p: ProcView, index: int, id: u32) -> ProcView {
    if 0 <= index && index < p.cluster_instance_ids.len() {
        ProcView { cluster_instance_ids: p.cluster_instance_ids.update(index, id), ..p }
    } else {
        p
    }
}

/// Every transition of a record keeps its invariants.
pub proof fn lemma_transitions_keep_ok(
    p: ProcView,
    code: ExitOutcome,
    poll: ChildPoll,
    now: u64,
    now_utc: i64,
    pid: u32,
    healthy: bool,
    cpu: u32,
    mem: u64,
    name: Seq<char>,
    index: int,
    id: u32,
)
    requires
        proc_ok(p),
    ensures
        proc_ok(proc_stopping(p)),
        proc_ok(proc_stopped(p, code)),
        proc_ok(proc_exited(p, code, now)),
        proc_ok(proc_polled(p, poll, now)),
        p.state.pid is None && p.child is None ==> proc_ok(proc_restarting(p)),
        !is_parent_spec(p.spec) ==> proc_ok(proc_restarted(p, pid, now_utc, now)),
        proc_ok(proc_restart_failed(p)),
        proc_ok(proc_probed(p, healthy, now_utc)),
        proc_ok(proc_sampled(p, cpu, mem)),
        proc_ok(proc_renamed(p, name)),
        proc_ok(proc_patched(p, index, id)),
{
}

/// A started, a failed and a parent record satisfy the invariants.
pub proof fn lemma_new_records_ok(spec: AppSpecView, ids: Seq<u32>, pid: u32, now_utc: i64, now: u64)
    ensures
        !is_parent_spec(spec) ==> proc_ok(proc_started(spec, pid, now_utc, now)),
        !is_parent_spec(spec) ==> proc_ok(proc_failed(spec)),
        is_parent_spec(spec) && ids.len() == spec.instances ==> proc_ok(
            proc_parent(spec, ids, now_utc, now),
        ),
{
}

/// For a record that is not a cluster parent, Running means exactly that a
/// pid and a child are present.
pub proof fn lemma_running_iff_pid_and_child(p: ProcView)
    requires
        proc_ok(p),
        !is_parent_spec(p.spec),
    ensures
        p.state.status == AppStatus::Running <==> (p.state.pid is Some && p.child is Some),
{
}

/// A start followed by a stop ends in Stopped with no pid and with an exit
/// code, however the child ended.
pub proof fn lemma_start_then_stop(
    spec: AppSpecView,
    pid: u32,
    now_utc: i64,
    now: u64,
    code: ExitOutcome,
)
    ensures
        status_is_running(proc_started(spec, pid, now_utc, now).state.status),
        proc_stopped(proc_stopping(proc_started(spec, pid, now_utc, now)), code).state.status
            == AppStatus::Stopped,
        proc_stopped(proc_stopping(proc_started(spec, pid, now_utc, now)), code).state.pid is None,
        proc_stopped(proc_stopping(proc_started(spec, pid, now_utc, now)), code).child is None,
        proc_stopped(proc_stopping(proc_started(spec, pid, now_utc, now)), code).state.last_exit_code
            == Some(exit_code_of(code)),
{
}

/// A running record after the crash at `t`, in which its child ended as
/// `how` says, restarted as `pid` where the policy allows it.
pub open spec fn crash_cycle(p: ProcView, t: u64, how: ExitOutcome, pid: u32, now_utc: i64) -> ProcView {
    let crashed = proc_exited(p, how, t);
    if restart_allowed(p, t) {
        proc_restarted(proc_restarting(crashed), pid, now_utc, t)
    } else {
        crashed
    }
}

/// A running record after the crashes at the instants `times`, where
/// `hows(i)` says how the child ended in crash `i`.
pub open spec fn after_crashes(
    p: ProcView,
    times: Seq<u64>,
    hows: spec_fn(int) -> ExitOutcome,
    pid: u32,
    now_utc: i64,
) -> ProcView
    decreases times.len(),
{
    if times.len() == 0 {
        p
    } else {
        crash_cycle(
            after_crashes(p, times.drop_last(), hows, pid, now_utc),
            times.last(),
            hows(times.len() - 1),
            pid,
            now_utc,
        )
    }
}

/// The instants of `times` do not go back, and the last is less than
/// `window` after the first.
pub open spec fn within_window(times: Seq<u64>, window: u64) -> bool {
    &&& forall|i: int, j: int| 0 <= i <= j < times.len() ==> times[i] <= times[j]
    &&& times.len() > 0 ==> times.last() - times[0] < window
}

proof fn lemma_crashes_are_restarted(
    p: ProcView,
    times: Seq<u64>,
    hows: spec_fn(int) -> ExitOutcome,
    pid: u32,
    now_utc: i64,
)
    requires
        proc_ok(p),
        !is_parent_spec(p.spec),
        p.state.status == AppStatus::Running,
        p.restart_count == 0,
        p.last_restart is None,
        p.spec.restart_policy.auto_restart,
        times.len() <= p.spec.restart_policy.max_restarts,
        within_window(times, p.spec.restart_policy.crash_window_secs),
    ensures
        ({
            let q = after_crashes(p, times, hows, pid, now_utc);
            &&& proc_ok(q)
            &&& q.spec == p.spec
            &&& q.state.status == AppStatus::Running
            &&& q.restart_count == times.len()
            &&& (times.len() > 0 ==> q.last_restart == Some(times.last()))
            &&& (times.len() == 0 ==> q.last_restart is None)
        }),
    decreases times.len(),
{
    if times.len() > 0 {
        let earlier = times.drop_last();
        assert forall|i: int, j: int| 0 <= i <= j < earlier.len() implies earlier[i]
            <= earlier[j] by {
            assert(earlier[i] == times[i] && earlier[j] == times[j]);
        }
        if earlier.len() > 0 {
            assert(earlier.last() == times[times.len() - 2]);
            assert(earlier[0] == times[0]);
            assert(times[times.len() - 2] <= times.last());
        }
        lemma_crashes_are_restarted(p, earlier, hows, pid, now_utc);
        let before = after_crashes(p, earlier, hows, pid, now_utc);
        let t = times.last();
        if earlier.len() > 0 {
            assert(times[0] <= earlier.last());
            assert(elapsed(t, earlier.last()) < p.spec.restart_policy.crash_window_secs);
        }
        assert(restarts_in_window(before, t) == earlier.len());
        assert(restart_allowed(before, t));
    }
}

/// The crash window's limit: when a freshly started record crashes one time
/// more than its policy allows restarts, all within one crash window, then
/// every crash but the last is answered by a restart, and the last leaves
/// the record in Errored with no child and no restart to come.
pub proof fn lemma_crash_limit(
    p: ProcView,
    times: Seq<u64>,
    hows: spec_fn(int) -> ExitOutcome,
    pid: u32,
    now_utc: i64,
)
    requires
        proc_ok(p),
        !is_parent_spec(p.spec),
        p.state.status == AppStatus::Running,
        p.restart_count == 0,
        p.last_restart is None,
        p.spec.restart_policy.auto_restart,
        times.len() == p.spec.restart_policy.max_restarts + 1,
        within_window(times, p.spec.restart_policy.crash_window_secs),
    ensures
        ({
            let before = after_crashes(p, times.drop_last(), hows, pid, now_utc);
            let last = proc_exited(before, hows(times.len() - 1), times.last());
            &&& before.state.status == AppStatus::Running
            &&& !restart_allowed(before, times.last())
            &&& last.state.status == AppStatus::Errored
            &&& last.state.pid is None
            &&& last.child is None
            &&& last.state.last_exit_code is Some
            &&& last.restart_count == before.restart_count
        }),
{
    let earlier = times.drop_last();
    assert forall|i: int, j: int| 0 <= i <= j < earlier.len() implies earlier[i] <= earlier[j] by {
        assert(earlier[i] == times[i] && earlier[j] == times[j]);
    }
    if earlier.len() > 0 {
        assert(earlier.last() == times[times.len() - 2]);
        assert(earlier[0] == times[0]);
        assert(times[times.len() - 2] <= times.last());
        assert(times[0] <= earlier.last());
    }
    lemma_crashes_are_restarted(p, earlier, hows, pid, now_utc);
    let before = after_crashes(p, earlier, hows, pid, now_utc);
    if earlier.len() > 0 {
        assert(elapsed(times.last(), earlier.last()) < p.spec.restart_policy.crash_window_secs);
    }
    assert(restarts_in_window(before, times.last()) == earlier.len() || !in_crash_window(
        before,
        times.last(),
    ));
}

/// What a look at a record's child came to.
#[derive(Debug, Clone, Copy, PartialEq, Eq, Structural)]
pub enum PollOutcome {
    /// Nothing to report.
    Idle,
    /// The child's exit ended a stop.
    Stopped,
    /// The child crashed; `restart` says whether a restart is to follow.
    Crashed { restart: bool },
}

/// The outcome of a look at the child of `p`.
pub open spec fn poll_outcome(p: ProcView, poll: ChildPoll, now: u64) -> PollOutcome {
    if p.child is None {
        PollOutcome::Idle
    } else {
        match poll {
            ChildPoll::Exited(_) => if p.state.status == AppStatus::Stopping {
                PollOutcome::Stopped
            } else {
                PollOutcome::Crashed { restart: restart_allowed(p, now) }
            },
            _ => PollOutcome::Idle,
        }
    }
}

/// A copy of a list of ids.
pub fn copy_ids(v: &Vec<u32>) -> (r: Vec<u32>)
    ensures
        r@ == v@,
{
    let mut out: Vec<u32> = Vec::new();
    let mut i: usize = 0;
    while i < v.len()
        invariant
            i <= v.len(),
            out@ == v@.subrange(0, i as int),
        decreases v.len() - i,
    {
        out.push(v[i]);
        i = i + 1;
        assert(out@ =~= v@.subrange(0, i as int));
    }
    assert(v@.subrange(0, v.len() as int) =~= v@);
    out
}

/// A fresh monitor for a specification's health check, if it has one.
fn monitor_of(spec: &AppSpec) -> (r: Option<HealthMonitor>)
    ensures
        opt_monitor(r) == monitor_for(spec@.health_check),
{
    match &spec.health_check {
        Some(h) => Some(HealthMonitor::new(h.clone())),
        None => None,
    }
}

impl Clone for SupervisedProcess {
    fn clone(&self) -> (r: SupervisedProcess)
        ensures
            r@ == self@,
    {
        SupervisedProcess {
            spec: self.spec.clone(),
            state: self.state,
            child: self.child,
            restart_count: self.restart_count,
            last_restart: self.last_restart,
            started_at: self.started_at,
            health_monitor: match &self.health_monitor {
                Some(m) => Some(m.clone()),
                None => None,
            },
            cluster_instance_ids: copy_ids(&self.cluster_instance_ids),
            parent_id: self.parent_id,
        }
    }
}

impl SupervisedProcess {
    /// The record of `spec`, whose child `pid` has just come up.
    pub fn started(spec: AppSpec, pid: u32, now_utc: i64, now: u64) -> (r: SupervisedProcess)
        ensures
            r@ == proc_started(spec@, pid, now_utc, now),
    {
        let monitor = monitor_of(&spec);
        let mut state = RunState::running_at(spec.id, pid, now_utc);
        state.port = spec.port;
        state.instance_id = spec.instance_id;
        let r = SupervisedProcess {
            spec,
            state,
            child: Some(ChildHandle { pid }),
            restart_count: 0,
            last_restart: None,
            started_at: Some(now),
            health_monitor: monitor,
            cluster_instance_ids: Vec::new(),
            parent_id: None,
        };
        assert(r@.cluster_instance_ids =~= Seq::empty());
        r
    }

    /// The record of `spec`, which could not be prepared or spawned.
    pub fn failed(spec: AppSpec) -> (r: SupervisedProcess)
        ensures
            r@ == proc_failed(spec@),
    {
        let monitor = monitor_of(&spec);
        let mut state = RunState::new(spec.id);
        state.status = AppStatus::Errored;
        state.port = spec.port;
        state.instance_id = spec.instance_id;
        let r = SupervisedProcess {
            spec,
            state,
            child: None,
            restart_count: 0,
            last_restart: None,
            started_at: None,
            health_monitor: monitor,
            cluster_instance_ids: Vec::new(),
            parent_id: None,
        };
        assert(r@.cluster_instance_ids =~= Seq::empty());
        r
    }

    /// The record of the cluster parent `spec`, whose instances are `ids`.
    pub fn parent(spec: AppSpec, ids: Vec<u32>, now_utc: i64, now: u64) -> (r: SupervisedProcess)
        ensures
            r@ == proc_parent(spec@, ids@, now_utc, now),
    {
        let mut state = RunState::new(spec.id);
        state.status = AppStatus::Running;
        state.started_at = Some(now_utc);
        state.healthy = true;
        SupervisedProcess {
            spec,
            state,
            child: None,
            restart_count: 0,
            last_restart: None,
            started_at: Some(now),
            health_monitor: None,
            cluster_instance_ids: ids,
            parent_id: None,
        }
    }

    /// Marks the record as Stopping and hands its child out.
    pub fn begin_stop(&mut self) -> (r: Option<ChildHandle>)
        ensures
            final(self)@ == proc_stopping(old(self)@),
            r == old(self)@.child,
    {
        let child = self.child;
        self.state.status = AppStatus::Stopping;
        self.child = None;
        child
    }

    /// Marks the record as Stopped and stores the exit code that stands
    /// for how the child ended.
    pub fn finish_stop(&mut self, how: ExitOutcome)
        ensures
            final(self)@ == proc_stopped(old(self)@, how),
            final(self)@.state.last_exit_code is Some,
    {
        self.state.status = AppStatus::Stopped;
        self.state.pid = None;
        self.state.last_exit_code = Some(exit_code(how));
        self.child = None;
        self.started_at = None;
    }

    /// Whether an unexpected exit at `now` is answered by a restart.
    pub fn may_restart(&self, now: u64) -> (r: bool)
        ensures
            r == restart_allowed(self@, now),
    {
        if !self.spec.restart_policy.auto_restart {
            return false;
        }
        self.window_count(now) < self.spec.restart_policy.max_restarts
    }

    /// The automatic restarts in the crash window that ends at `now`.
    pub fn window_count(&self, now: u64) -> (r: u32)
        ensures
            r == restarts_in_window(self@, now),
    {
        match self.last_restart {
            Some(t) => {
                let gone: u64 = if now >= t {
                    now - t
                } else {
                    0
                };
                if gone < self.spec.restart_policy.crash_window_secs {
                    self.restart_count
                } else {
                    0
                }
            },
            None => 0,
        }
    }

    /// Takes note of a look at the child.
    pub fn on_poll(&mut self, poll: ChildPoll, now: u64) -> (r: PollOutcome)
        ensures
            final(self)@ == proc_polled(old(self)@, poll, now),
            r == poll_outcome(old(self)@, poll, now),
    {
        if self.child.is_none() {
            return PollOutcome::Idle;
        }
        match poll {
            ChildPoll::Alive => {
                match self.started_at {
                    Some(t) => {
                        self.state.uptime_secs = if now >= t {
                            now - t
                        } else {
                            0
                        };
                    },
                    None => {},
                }
                PollOutcome::Idle
            },
            ChildPoll::Failed => PollOutcome::Idle,
            ChildPoll::Exited(how) => {
                let restart = self.may_restart(now);
                let count = self.window_count(now);
                self.state.last_exit_code = Some(exit_code(how));
                self.state.pid = None;
                self.child = None;
                if self.state.status == AppStatus::Stopping {
                    self.state.status = AppStatus::Stopped;
                    PollOutcome::Stopped
                } else {
                    self.state.status = AppStatus::Errored;
                    if restart {
                        self.restart_count = count + 1;
                        self.last_restart = Some(now);
                    }
                    PollOutcome::Crashed { restart }
                }
            },
        }
    }

    /// Marks the record as Starting, for an automatic restart.
    pub fn begin_restart(&mut self)
        ensures
            final(self)@ == proc_restarting(old(self)@),
    {
        self.state.status = AppStatus::Starting;
    }

    /// Takes note that the automatic restart brought up the child `pid`.
    pub fn restarted(&mut self, pid: u32, now_utc: i64, now: u64)
        ensures
            final(self)@ == proc_restarted(old(self)@, pid, now_utc, now),
    {
        self.state.status = AppStatus::Running;
        self.state.pid = Some(pid);
        if self.state.restarts < 0xffff_ffff {
            self.state.restarts = self.state.restarts + 1;
        }
        self.state.uptime_secs = 0;
        self.state.started_at = Some(now_utc);
        self.state.healthy = true;
        self.state.health_check_failures = 0;
        self.child = Some(ChildHandle { pid });
        self.started_at = Some(now);
        self.health_monitor = monitor_of(&self.spec);
    }

    /// Takes note that the automatic restart failed.
    pub fn restart_failed(&mut self)
        ensures
            final(self)@ == proc_restart_failed(old(self)@),
    {
        self.state.status = AppStatus::Errored;
        self.state.pid = None;
        self.child = None;
    }

    /// Takes note of a health probe; hands out the child if the probe made
    /// the record Errored.
    pub fn on_probe(&mut self, healthy: bool, now_utc: i64) -> (r: Option<ChildHandle>)
        ensures
            final(self)@ == proc_probed(old(self)@, healthy, now_utc),
            r == (if !healthy && probe_fails_process(old(self)@) {
                old(self)@.child
            } else {
                None
            }),
    {
        let mut unhealthy = false;
        match &mut self.health_monitor {
            Some(m) => {
                m.record(healthy);
                unhealthy = m.is_unhealthy();
            },
            None => {},
        }
        self.state.healthy = healthy;
        self.state.last_health_check = Some(now_utc);
        if healthy {
            self.state.health_check_failures = 0;
            None
        } else {
            if self.state.health_check_failures < 0xffff_ffff {
                self.state.health_check_failures = self.state.health_check_failures + 1;
            }
            if unhealthy {
                let child = self.child;
                self.state.status = AppStatus::Errored;
                self.state.pid = None;
                self.child = None;
                child
            } else {
                None
            }
        }
    }
}

} // verus!
