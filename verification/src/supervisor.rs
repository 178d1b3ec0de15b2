//! The supervisor: the process map and the registry of one daemon, and the
//! decisions of the start, stop, restart, delete, cluster and reload
//! protocols. The supervisor decides and keeps state; spawning, signalling
//! and waiting are done by its caller between two of its steps.

use crate::appspec::{
    instance_name,
    instance_of,
    spec_views,
    AppInfo,
    AppInfoView,
    AppSpec,
    AppSpecView,
    Selector,
    SelectorView,
};
use crate::error::Error;
use crate::hooks::{call_for, opt_call, HookCall, HookCallView};
use crate::metrics::{
    breach_views,
    find_sample,
    lemma_measured_ok,
    limit_round,
    limit_step,
    measured,
    memory_mb,
    LimitBreach,
    LimitBreachView,
    LimitKind,
    LimitState,
    MetricSample,
    BYTES_PER_MB,
};
use crate::notify::{ProcessEvent, ProcessEventView};
use crate::process::{
    copy_ids,
    exit_code as exit_code_value,
    exit_code_of,
    is_parent_spec,
    lemma_new_records_ok,
    lemma_transitions_keep_ok,
    poll_outcome,
    proc_failed,
    proc_ok,
    proc_parent,
    proc_patched,
    proc_polled,
    proc_probed,
    proc_renamed,
    proc_restart_failed,
    proc_restarted,
    proc_restarting,
    proc_started,
    proc_stopped,
    proc_stopping,
    proc_views,
    probe_fails_process,
    ChildHandle,
    ChildPoll,
    ExitOutcome,
    PollOutcome,
    ProcView,
    SupervisedProcess,
};
use crate::registry::{
    can_insert,
    id_pos,
    insert_refused_detail,
    inserted,
    lemma_pos_bounds,
    opt_spec,
    registry_wf,
    renamed,
    row_by_id,
    row_by_name,
    without_row,
    Registry,
    RegistryView,
};
use crate::seqs::{
    first_of, first_where, lemma_first_of_is, lemma_first_where, lemma_first_where_is,
};
use crate::text::{copy_text, decimal, decimal_string, push_char, push_signed, signed_decimal};
use crate::types::{
    status_is_running,
    stopped_state,
    AppStatus,
    HealthCheck,
    HealthCheckView,
    HookEvent,
    Hooks,
    HooksView,
    RunState,
};
use std::collections::HashSet;
use vstd::prelude::*;
use vstd::string::*;

verus! {

broadcast use vstd::std_specs::hash::group_hash_axioms;

/// Milliseconds between the stop and the start of a restart.
pub const RESTART_PAUSE_MS: u64 = 100;

/// Milliseconds between two looks at a child.
pub const SUPERVISION_TICK_MS: u64 = 500;

/// Seconds that a health task waits before its first probe.
pub const HEALTH_STARTUP_WAIT_SECS: u64 = 5;

/// Milliseconds that a reload waits for its new instance to become healthy.
pub const RELOAD_HEALTH_TIMEOUT_MS: u64 = 30000;

/// Milliseconds between two probes of a reload, and the wait of a reload
/// without a health check.
pub const RELOAD_POLL_MS: u64 = 500;

/// The process map and the registry of one daemon.
///
/// The map keeps its records in the order in which their ids entered it:
/// a round over the records, such as the round of limit checks, goes in
/// that order, and the contracts state what the round does record by
/// record. The ids with a notification out and the ids with a stop in
/// flight are sets.
pub struct Supervisor {
    registry: Registry,
    processes: Vec<SupervisedProcess>,
    memory_limit_notified: HashSet<u32>,
    pending_restarts: HashSet<u32>,
}

/// The mathematical value of [`Supervisor`].
pub struct SupervisorView {
    pub registry: RegistryView,
    /// The records of the process map, in the order in which their ids
    /// entered it.
    pub processes: Seq<ProcView>,
    /// The ids for which a memory notification went out and memory has not
    /// fallen below the limit since.
    pub notified: Set<u32>,
    /// The ids whose limit-triggered stop is in flight.
    pub pending: Set<u32>,
}

/// The index of the record with the id `id`, or the number of records.
pub open spec fn proc_pos(procs: Seq<ProcView>, id: u32) -> int {
    first_where(procs, |p: ProcView| p.spec.id == id)
}

/// The record with the id `id`, if the map holds one.
pub open spec fn proc_of(procs: Seq<ProcView>, id: u32) -> Option<ProcView> {
    let i = proc_pos(procs, id);
    if 0 <= i && i < procs.len() {
        Some(procs[i])
    } else {
        None
    }
}

/// The map with `p` under its id: in place of the record that had the id,
/// or as a new last record.
pub open spec fn with_proc(procs: Seq<ProcView>, p: ProcView) -> Seq<ProcView> {
    let i = proc_pos(procs, p.spec.id);
    if 0 <= i && i < procs.len() {
        procs.update(i, p)
    } else {
        procs.push(p)
    }
}

/// The map without the record that has the id `id`.
pub open spec fn without_proc(procs: Seq<ProcView>, id: u32) -> Seq<ProcView> {
    let i = proc_pos(procs, id);
    if 0 <= i && i < procs.len() {
        procs.remove(i)
    } else {
        procs
    }
}

/// The map with the record `id` replaced by `p`, if the map holds `id`.
pub open spec fn replace_proc(procs: Seq<ProcView>, id: u32, p: ProcView) -> Seq<ProcView> {
    let i = proc_pos(procs, id);
    if 0 <= i && i < procs.len() {
        procs.update(i, p)
    } else {
        procs
    }
}

/// No two records of the map share an id.
pub open spec fn distinct_ids(procs: Seq<ProcView>) -> bool {
    forall|i: int, j: int|
        0 <= i < j < procs.len() ==> (#[trigger] procs[i]).spec.id != (#[trigger] procs[j]).spec.id
}

/// The supervisor's invariant: a well-formed registry, one record per id,
/// and every record within its own invariants.
pub open spec fn sup_wf(s: SupervisorView) -> bool {
    &&& registry_wf(s.registry)
    &&& distinct_ids(s.processes)
    &&& forall|i: int| 0 <= i < s.processes.len() ==> proc_ok(#[trigger] s.processes[i])
}

/// The supervisor of a daemon that manages nothing yet.
pub open spec fn empty_supervisor() -> SupervisorView {
    SupervisorView {
        registry: crate::registry::empty_registry(),
        processes: Seq::empty(),
        notified: Set::empty(),
        pending: Set::empty(),
    }
}

pub proof fn lemma_proc_pos(procs: Seq<ProcView>, id: u32)
    ensures
        0 <= proc_pos(procs, id) <= procs.len(),
        forall|j: int| 0 <= j < proc_pos(procs, id) ==> (#[trigger] procs[j]).spec.id != id,
        proc_pos(procs, id) < procs.len() ==> procs[proc_pos(procs, id)].spec.id == id,
{
    lemma_first_where(procs, |p: ProcView| p.spec.id == id);
}

/// Replacing a record by one of the same id keeps every id where it was.
pub proof fn lemma_update_keeps_positions(procs: Seq<ProcView>, i: int, p: ProcView, id: u32)
    requires
        0 <= i < procs.len(),
        p.spec.id == procs[i].spec.id,
    ensures
        proc_pos(procs.update(i, p), id) == proc_pos(procs, id),
        distinct_ids(procs) ==> distinct_ids(procs.update(i, p)),
{
    let after = procs.update(i, p);
    let f = |q: ProcView| q.spec.id == id;
    lemma_first_where(procs, f);
    let k = proc_pos(procs, id);
    assert forall|j: int| 0 <= j < k implies !f(#[trigger] after[j]) by {
        assert(!f(procs[j]));
    }
    if k < procs.len() {
        assert(f(procs[k]));
        assert(f(after[k]));
    }
    lemma_first_where_is(after, f, k);
    if distinct_ids(procs) {
        assert forall|a: int, b: int| 0 <= a < b < after.len() implies (#[trigger] after[a]).spec.id
            != (#[trigger] after[b]).spec.id by {
            assert(procs[a].spec.id != procs[b].spec.id);
        }
    }
}

/// Putting a record under its id keeps the invariant, makes the record the
/// one that its id finds, and leaves every other id as it was.
pub proof fn lemma_with_proc(s: SupervisorView, p: ProcView, other: u32)
    requires
        sup_wf(s),
        proc_ok(p),
    ensures
        sup_wf(SupervisorView { processes: with_proc(s.processes, p), ..s }),
        proc_of(with_proc(s.processes, p), p.spec.id) == Some(p),
        other != p.spec.id ==> proc_of(with_proc(s.processes, p), other) == proc_of(
            s.processes,
            other,
        ),
{
    let procs = s.processes;
    let after = with_proc(procs, p);
    let i = proc_pos(procs, p.spec.id);
    lemma_proc_pos(procs, p.spec.id);
    lemma_proc_pos(procs, other);
    if i < procs.len() {
        lemma_update_keeps_positions(procs, i, p, p.spec.id);
        lemma_update_keeps_positions(procs, i, p, other);
        assert forall|k: int| 0 <= k < after.len() implies proc_ok(#[trigger] after[k]) by {
            if k != i {
                assert(after[k] == procs[k]);
            }
        }
    } else {
        assert forall|a: int, b: int| 0 <= a < b < after.len() implies (#[trigger] after[a]).spec.id
            != (#[trigger] after[b]).spec.id by {
            if b < procs.len() {
                assert(procs[a].spec.id != procs[b].spec.id);
            } else {
                assert(after[a] == procs[a]);
            }
        }
        assert forall|k: int| 0 <= k < after.len() implies proc_ok(#[trigger] after[k]) by {
            if k < procs.len() {
                assert(after[k] == procs[k]);
            }
        }
        let f = |q: ProcView| q.spec.id == p.spec.id;
        assert forall|j: int| 0 <= j < procs.len() implies !f(#[trigger] after[j]) by {
            assert(after[j] == procs[j]);
        }
        assert(f(after[procs.len() as int]));
        lemma_first_where_is(after, f, procs.len() as int);
        if other != p.spec.id {
            let g = |q: ProcView| q.spec.id == other;
            let k = proc_pos(procs, other);
            assert forall|j: int| 0 <= j < k implies !g(#[trigger] after[j]) by {
                assert(after[j] == procs[j]);
            }
            if k < procs.len() {
                assert(after[k] == procs[k]);
                assert(g(after[k]));
                lemma_first_where_is(after, g, k);
            } else {
                assert(!g(after[procs.len() as int]));
                lemma_first_where_is(after, g, after.len() as int);
            }
        }
    }
}

/// Replacing the record of an id by a sound record of that id keeps the
/// invariant.
pub proof fn lemma_replace_proc(s: SupervisorView, id: u32, p: ProcView)
    requires
        sup_wf(s),
        proc_ok(p),
        p.spec.id == id,
    ensures
        sup_wf(SupervisorView { processes: replace_proc(s.processes, id, p), ..s }),
        proc_of(s.processes, id) is Some ==> proc_of(replace_proc(s.processes, id, p), id) == Some(
            p,
        ),
{
    let procs = s.processes;
    lemma_proc_pos(procs, id);
    let i = proc_pos(procs, id);
    if i < procs.len() {
        let after = procs.update(i, p);
        lemma_update_keeps_positions(procs, i, p, id);
        assert forall|k: int| 0 <= k < after.len() implies proc_ok(#[trigger] after[k]) by {
            if k != i {
                assert(after[k] == procs[k]);
            }
        }
    }
}

/// Removing the record of an id keeps the invariant.
pub proof fn lemma_without_proc(s: SupervisorView, id: u32)
    requires
        sup_wf(s),
    ensures
        sup_wf(SupervisorView { processes: without_proc(s.processes, id), ..s }),
        proc_of(without_proc(s.processes, id), id) is None,
{
    let procs = s.processes;
    lemma_proc_pos(procs, id);
    let i = proc_pos(procs, id);
    let after = without_proc(procs, id);
    let f = |q: ProcView| q.spec.id == id;
    if i < procs.len() {
        assert forall|a: int, b: int| 0 <= a < b < after.len() implies (#[trigger] after[a]).spec.id
            != (#[trigger] after[b]).spec.id by {
            let a0 = if a < i { a } else { a + 1 };
            let b0 = if b < i { b } else { b + 1 };
            assert(procs[a0].spec.id != procs[b0].spec.id);
        }
        assert forall|k: int| 0 <= k < after.len() implies proc_ok(#[trigger] after[k]) by {
            let k0 = if k < i { k } else { k + 1 };
            assert(after[k] == procs[k0]);
        }
        assert forall|k: int| 0 <= k < after.len() implies !f(#[trigger] after[k]) by {
            let k0 = if k < i { k } else { k + 1 };
            assert(after[k] == procs[k0]);
            if k0 > i {
                assert(procs[i].spec.id != procs[k0].spec.id);
            }
        }
        lemma_first_where_is(after, f, after.len() as int);
    }
}

impl View for Supervisor {
    type V = SupervisorView;

    closed spec fn view(&self) -> SupervisorView {
        SupervisorView {
            registry: self.registry@,
            processes: proc_views(self.processes@),
            notified: self.memory_limit_notified@,
            pending: self.pending_restarts@,
        }
    }
}

/// The port of instance `i` of a cluster: from the port range while the
/// range lasts, else counted up from the base port, else none. A port above
/// 65535 is none.
pub open spec fn instance_port(spec: AppSpecView, i: u32) -> Option<u16> {
    let from_range = match spec.port_range {
        Some((start, end)) => if start + i <= end {
            Some((start + i) as u16)
        } else {
            None
        },
        None => None,
    };
    match from_range {
        Some(p) => Some(p),
        None => match spec.port {
            Some(base) => if base + i <= 65535 {
                Some((base + i) as u16)
            } else {
                None
            },
            None => None,
        },
    }
}

/// The specifications of the instances of the cluster `spec`, in cluster
/// order.
pub open spec fn cluster_specs(spec: AppSpecView) -> Seq<AppSpecView> {
    Seq::new(spec.instances as nat, |i: int| instance_of(spec, i as u32, instance_port(spec, i as u32)))
}

/// What a start is to launch.
#[derive(Debug)]
pub enum StartPlan {
    /// One process.
    Single(AppSpec),
    /// The instances of a cluster, to be started in order, and then the
    /// parent to be recorded.
    Cluster { parent: AppSpec, instances: Vec<AppSpec> },
}

/// The mathematical value of [`StartPlan`].
pub enum StartPlanView {
    Single(AppSpecView),
    Cluster { parent: AppSpecView, instances: Seq<AppSpecView> },
}

impl View for StartPlan {
    type V = StartPlanView;

    open spec fn view(&self) -> StartPlanView {
        match self {
            StartPlan::Single(s) => StartPlanView::Single(s@),
            StartPlan::Cluster { parent, instances } => StartPlanView::Cluster {
                parent: parent@,
                instances: spec_views(instances@),
            },
        }
    }
}

/// The plan for a specification whose id is resolved.
pub open spec fn plan_for(spec: AppSpecView) -> StartPlanView {
    if is_parent_spec(spec) {
        StartPlanView::Cluster { parent: spec, instances: cluster_specs(spec) }
    } else {
        StartPlanView::Single(spec)
    }
}

/// An application of this name is registered and its process is up or on
/// its way up.
pub open spec fn running_by_name(s: SupervisorView, name: Seq<char>) -> bool {
    match row_by_name(s.registry.apps, name) {
        Some(row) => match proc_of(s.processes, row.id) {
            Some(p) => status_is_running(p.state.status),
            None => false,
        },
        None => false,
    }
}

/// The id under which `spec` starts: that of the registered row of its
/// name, or else the next that the registry assigns.
pub open spec fn resolved_id(s: SupervisorView, name: Seq<char>) -> u32 {
    match row_by_name(s.registry.apps, name) {
        Some(row) => row.id,
        None => s.registry.next,
    }
}

/// The registry after the id of `spec` was resolved.
pub open spec fn resolved_registry(s: SupervisorView, spec: AppSpecView) -> RegistryView {
    match row_by_name(s.registry.apps, spec.name) {
        Some(_) => s.registry,
        None => inserted(s.registry, spec),
    }
}

/// A start of this name can be given an id.
pub open spec fn id_available(s: SupervisorView, name: Seq<char>) -> bool {
    row_by_name(s.registry.apps, name) is Some || s.registry.next < u32::MAX
}

/// What a stop needs to know after the record is marked as Stopping.
#[derive(Debug)]
pub struct StopTicket {
    pub id: u32,
    pub name: String,
    pub kill_timeout_ms: u64,
    /// The child to terminate, if the record owned one.
    pub child: Option<ChildHandle>,
    pub pid: Option<u32>,
    pub hooks: Hooks,
    /// For a cluster parent: the instances to stop, in cluster order.
    pub instances: Vec<u32>,
}

/// The mathematical value of [`StopTicket`].
pub struct StopTicketView {
    pub id: u32,
    pub name: Seq<char>,
    pub kill_timeout_ms: u64,
    pub child: Option<ChildHandle>,
    pub pid: Option<u32>,
    pub hooks: HooksView,
    pub instances: Seq<u32>,
}

impl View for StopTicket {
    type V = StopTicketView;

    open spec fn view(&self) -> StopTicketView {
        StopTicketView {
            id: self.id,
            name: self.name@,
            kill_timeout_ms: self.kill_timeout_ms,
            child: self.child,
            pid: self.pid,
            hooks: self.hooks@,
            instances: self.instances@,
        }
    }
}

/// The view of an optional ticket.
pub open spec fn opt_ticket(o: Option<StopTicket>) -> Option<StopTicketView> {
    match o {
        Some(t) => Some(t@),
        None => None,
    }
}

/// The ticket for stopping the record `p`.
pub open spec fn ticket_of(p: ProcView) -> StopTicketView {
    StopTicketView {
        id: p.spec.id,
        name: p.spec.name,
        kill_timeout_ms: p.spec.kill_timeout_ms,
        child: p.child,
        pid: p.state.pid,
        hooks: p.spec.hooks,
        instances: p.cluster_instance_ids,
    }
}

/// The record `id` can be stopped: the map holds it, and it is up or on
/// its way up.
pub open spec fn can_stop(s: SupervisorView, id: u32) -> bool {
    match proc_of(s.processes, id) {
        Some(p) => status_is_running(p.state.status),
        None => false,
    }
}

/// The supervisor after a stop of `id` began.
pub open spec fn stop_begun(s: SupervisorView, id: u32) -> SupervisorView {
    if can_stop(s, id) {
        SupervisorView {
            processes: replace_proc(s.processes, id, proc_stopping(proc_of(s.processes, id)->0)),
            ..s
        }
    } else {
        s
    }
}

/// The supervisor after the stop of `id` ended with `exit_code`.
pub open spec fn stop_finished(s: SupervisorView, id: u32, exit_code: ExitOutcome) -> SupervisorView {
    match proc_of(s.processes, id) {
        Some(p) => SupervisorView {
            processes: replace_proc(s.processes, id, proc_stopped(p, exit_code)),
            ..s
        },
        None => s,
    }
}

/// What the end of a stop makes known: the notification to send, and the
/// hook to run.
#[derive(Debug)]
pub struct StopEffects {
    pub event: ProcessEvent,
    pub hook: Option<HookCall>,
}

/// The exit code that the end of a stop reports: the one stored, if the map
/// still holds the record.
pub open spec fn reported_code(s: SupervisorView, id: u32, exit_code: ExitOutcome) -> Option<i32> {
    if proc_of(s.processes, id) is Some {
        Some(exit_code_of(exit_code))
    } else {
        None
    }
}

/// What a start makes known: the notification to send, the hook to run, and
/// which tasks to spawn besides the supervision task.
#[derive(Debug)]
pub struct StartEffects {
    pub id: u32,
    pub event: ProcessEvent,
    pub hook: Option<HookCall>,
    pub health_task: bool,
    pub watch_task: bool,
}

/// Why a launch failed.
#[derive(Debug)]
pub enum LaunchFailure {
    /// The runner's prepare step did not succeed; its output says why.
    Prepare(String),
    /// The runner could not spawn the child.
    Spawn(String),
}

impl Supervisor {
    /// The supervisor's invariant holds of this value.
    pub open spec fn wf(&self) -> bool {
        sup_wf(self@)
    }

    /// The supervisor of a daemon that manages nothing yet.
    pub fn new() -> (r: Supervisor)
        ensures
            r@ == empty_supervisor(),
            r.wf(),
    {
        let r = Supervisor {
            registry: Registry::new(),
            processes: Vec::new(),
            memory_limit_notified: HashSet::new(),
            pending_restarts: HashSet::new(),
        };
        assert(r@.processes =~= Seq::empty());
        r
    }

    /// The supervisor of a daemon that has opened its registry and manages
    /// no process yet.
    pub fn with_registry(registry: Registry) -> (r: Supervisor)
        requires
            registry.wf(),
        ensures
            r@ == (SupervisorView { registry: registry@, ..empty_supervisor() }),
            r.wf(),
    {
        let r = Supervisor {
            registry,
            processes: Vec::new(),
            memory_limit_notified: HashSet::new(),
            pending_restarts: HashSet::new(),
        };
        assert(r@.processes =~= Seq::empty());
        r
    }

    /// The registry.
    pub fn registry(&self) -> (r: &Registry)
        ensures
            r@ == self@.registry,
    {
        &self.registry
    }

    /// The number of records in the process map.
    pub fn process_count(&self) -> (r: usize)
        ensures
            r == self@.processes.len(),
    {
        self.processes.len()
    }

    fn position(&self, id: u32) -> (r: usize)
        ensures
            r == proc_pos(self@.processes, id),
            r <= self.processes.len(),
            self.processes.len() == self@.processes.len(),
    {
        let ghost f = |p: ProcView| p.spec.id == id;
        let mut i: usize = 0;
        while i < self.processes.len()
            invariant
                i <= self.processes.len(),
                f == (|p: ProcView| p.spec.id == id),
                forall|j: int| 0 <= j < i ==> !f(#[trigger] proc_views(self.processes@)[j]),
            decreases self.processes.len() - i,
        {
            if self.processes[i].spec.id == id {
                proof {
                    assert(f(proc_views(self.processes@)[i as int]));
                    lemma_first_where_is(proc_views(self.processes@), f, i as int);
                }
                return i;
            }
            assert(!f(proc_views(self.processes@)[i as int]));
            i = i + 1;
        }
        proof {
            lemma_first_where_is(proc_views(self.processes@), f, i as int);
        }
        i
    }

    /// A copy of the record with the id `id`.
    pub fn process(&self, id: u32) -> (r: Option<SupervisedProcess>)
        ensures
            crate::supervisor::opt_proc(r) == proc_of(self@.processes, id),
    {
        let i = self.position(id);
        if i < self.processes.len() {
            Some(self.processes[i].clone())
        } else {
            None
        }
    }

    /// The state of the record with the id `id`.
    pub fn state_of(&self, id: u32) -> (r: Option<RunState>)
        ensures
            r == (match proc_of(self@.processes, id) {
                Some(p) => Some(p.state),
                None => None,
            }),
    {
        let i = self.position(id);
        if i < self.processes.len() {
            Some(self.processes[i].state)
        } else {
            None
        }
    }

    fn put(&mut self, p: SupervisedProcess)
        requires
            old(self).wf(),
            proc_ok(p@),
        ensures
            final(self).wf(),
            final(self)@ == (SupervisorView {
                processes: with_proc(old(self)@.processes, p@),
                ..old(self)@
            }),
    {
        let i = self.position(p.spec.id);
        proof {
            lemma_with_proc(self@, p@, 0);
        }
        if i < self.processes.len() {
            self.processes[i] = p;
            assert(self@.processes =~= with_proc(old(self)@.processes, p@));
        } else {
            self.processes.push(p);
            assert(self@.processes =~= with_proc(old(self)@.processes, p@));
        }
    }

    /// The port of instance `instance_index` of the cluster `spec`.
    pub fn calculate_instance_port(spec: &AppSpec, instance_index: u32) -> (r: Option<u16>)
        ensures
            r == instance_port(spec@, instance_index),
    {
        match spec.port_range {
            Some((start, end)) => {
                if (start as u64) + (instance_index as u64) <= end as u64 {
                    return Some((start as u64 + instance_index as u64) as u16);
                }
            },
            None => {},
        }
        match spec.port {
            Some(base) => {
                if (base as u64) + (instance_index as u64) <= 65535 {
                    Some((base as u64 + instance_index as u64) as u16)
                } else {
                    None
                }
            },
            None => None,
        }
    }

    /// The specifications of the instances of the cluster `spec`.
    pub fn instance_specs(spec: &AppSpec) -> (r: Vec<AppSpec>)
        ensures
            spec_views(r@) == cluster_specs(spec@),
    {
        let mut out: Vec<AppSpec> = Vec::new();
        let mut i: u32 = 0;
        while i < spec.instances
            invariant
                i <= spec.instances,
                out.len() == i,
                forall|j: int|
                    0 <= j < i ==> out[j]@ == instance_of(
                        spec@,
                        j as u32,
                        instance_port(spec@, j as u32),
                    ),
            decreases spec.instances - i,
        {
            let port = Supervisor::calculate_instance_port(spec, i);
            out.push(spec.for_instance(i, port));
            i = i + 1;
        }
        assert(spec_views(out@) =~= cluster_specs(spec@));
        out
    }

    /// Settles the id under which `spec` starts: that of the registered
    /// row of its name, unless that row's process is up or on its way up;
    /// for a new name, the id of the row that is inserted for it.
    fn resolve(&mut self, spec: AppSpec) -> (r: Result<AppSpec, Error>)
        requires
            old(self).wf(),
        ensures
            final(self).wf(),
            running_by_name(old(self)@, spec@.name) ==> final(self)@ == old(self)@ && (r matches Err(
                Error::AppAlreadyExists(d),
            ) && d@ == spec@.name),
            !running_by_name(old(self)@, spec@.name) && id_available(old(self)@, spec@.name) ==> (
            r matches Ok(s) && s@ == (AppSpecView {
                id: resolved_id(old(self)@, spec@.name),
                ..spec@
            })) && final(self)@ == (SupervisorView {
                registry: resolved_registry(old(self)@, spec@),
                ..old(self)@
            }),
            !running_by_name(old(self)@, spec@.name) && !id_available(old(self)@, spec@.name)
                ==> final(self)@ == old(self)@ && (r matches Err(Error::DbError(d)) && d@
                == insert_refused_detail(old(self)@.registry, spec@.name)),
    {
        let mut spec = spec;
        proof {
            lemma_pos_bounds(self@.registry.apps, spec@.name, 0);
        }
        match self.registry.get_by_name(spec.name.as_str()) {
            Some(existing) => {
                let i = self.position(existing.id);
                if i < self.processes.len() && self.processes[i].state.status.is_running() {
                    return Err(Error::AppAlreadyExists(spec.name.clone()));
                }
                spec.id = existing.id;
            },
            None => {
                match self.registry.insert(&spec) {
                    Ok(id) => {
                        spec.id = id;
                    },
                    Err(e) => {
                        return Err(e);
                    },
                }
            },
        }
        Ok(spec)
    }

    /// The first step of a start: resolves the id of `spec` and says what to
    /// launch.
    ///
    /// A specification whose name is registered takes over the registered
    /// id, unless its process is up or on its way up: then the start is
    /// refused with `AppAlreadyExists`. A new name is inserted into the
    /// registry. A specification with several instances and no instance
    /// index starts as a cluster.
    pub fn start(&mut self, spec: AppSpec) -> (r: Result<StartPlan, Error>)
        requires
            old(self).wf(),
        ensures
            final(self).wf(),
            running_by_name(old(self)@, spec@.name) ==> final(self)@ == old(self)@ && (r matches Err(
                Error::AppAlreadyExists(d),
            ) && d@ == spec@.name),
            !running_by_name(old(self)@, spec@.name) && id_available(old(self)@, spec@.name) ==> (
            r matches Ok(plan) && plan@ == plan_for(
                AppSpecView { id: resolved_id(old(self)@, spec@.name), ..spec@ },
            )) && final(self)@ == (SupervisorView {
                registry: resolved_registry(old(self)@, spec@),
                ..old(self)@
            }),
            !running_by_name(old(self)@, spec@.name) && !id_available(old(self)@, spec@.name)
                ==> final(self)@ == old(self)@ && (r matches Err(Error::DbError(d)) && d@
                == insert_refused_detail(old(self)@.registry, spec@.name)),
    {
        let spec = match self.resolve(spec) {
            Ok(s) => s,
            Err(e) => {
                return Err(e);
            },
        };
        if spec.instances > 1 && spec.instance_id.is_none() {
            let instances = Supervisor::instance_specs(&spec);
            Ok(StartPlan::Cluster { parent: spec, instances })
        } else {
            Ok(StartPlan::Single(spec))
        }
    }
}

/// What a restart needs to know before it stops the process.
#[derive(Debug)]
pub struct RestartPlan {
    /// The specification to start again after the stop.
    pub spec: AppSpec,
    /// The hook to run before the stop.
    pub hook: Option<HookCall>,
}

/// The detail of the error for a launch that failed.
pub open spec fn failure_detail(f: LaunchFailure) -> Seq<char> {
    match f {
        LaunchFailure::Prepare(d) => d@,
        LaunchFailure::Spawn(d) => d@,
    }
}

/// The supervisor after the application `id` was deleted: its record is
/// gone from the map and its row from the registry.
pub open spec fn deleted(s: SupervisorView, id: u32) -> SupervisorView {
    SupervisorView {
        processes: without_proc(s.processes, id),
        registry: without_row(s.registry, id_pos(s.registry.apps, id)),
        ..s
    }
}

impl Supervisor {
    /// The milliseconds to wait before the runner is asked to launch `spec`.
    pub fn startup_delay(spec: &AppSpec) -> (r: u64)
        ensures
            r == (match spec@.startup_delay_ms {
                Some(d) => d,
                None => 0,
            }),
    {
        match spec.startup_delay_ms {
            Some(d) => d,
            None => 0,
        }
    }

    /// Settles the id of a cluster instance before it is launched, as a
    /// start settles that of any application: an instance whose name is
    /// registered takes over the registered id, unless its process is up or
    /// on its way up, which is refused with `AppAlreadyExists`; a new name
    /// is inserted into the registry. So a cluster that was stopped, or
    /// brought back from a snapshot, starts again under the rows it has. Any
    /// other specification has its id already and is handed back as it is.
    pub fn prepare_single(&mut self, spec: AppSpec) -> (r: Result<AppSpec, Error>)
        requires
            old(self).wf(),
        ensures
            final(self).wf(),
            spec@.instance_id is None ==> final(self)@ == old(self)@ && (r matches Ok(s) && s@
                == spec@),
            spec@.instance_id is Some && running_by_name(old(self)@, spec@.name) ==> final(self)@
                == old(self)@ && (r matches Err(Error::AppAlreadyExists(d)) && d@ == spec@.name),
            spec@.instance_id is Some && !running_by_name(old(self)@, spec@.name) && id_available(
                old(self)@,
                spec@.name,
            ) ==> (r matches Ok(s) && s@ == (AppSpecView {
                id: resolved_id(old(self)@, spec@.name),
                ..spec@
            })) && final(self)@ == (SupervisorView {
                registry: resolved_registry(old(self)@, spec@),
                ..old(self)@
            }),
            spec@.instance_id is Some && !running_by_name(old(self)@, spec@.name) && !id_available(
                old(self)@,
                spec@.name,
            ) ==> final(self)@ == old(self)@ && (r matches Err(Error::DbError(d)) && d@
                == insert_refused_detail(old(self)@.registry, spec@.name)),
    {
        if spec.instance_id.is_some() {
            self.resolve(spec)
        } else {
            Ok(spec)
        }
    }

    /// Takes note that the runner brought up the child `pid` for `spec`: the
    /// record enters the map as Running, in place of any earlier record of
    /// that id.
    pub fn record_started(&mut self, spec: AppSpec, pid: u32, now_utc: i64, now: u64) -> (r:
        StartEffects)
        requires
            old(self).wf(),
            !is_parent_spec(spec@),
        ensures
            final(self).wf(),
            final(self)@ == (SupervisorView {
                processes: with_proc(old(self)@.processes, proc_started(spec@, pid, now_utc, now)),
                ..old(self)@
            }),
            r.id == spec@.id,
            r.event@ == (ProcessEventView::Started { name: spec@.name, id: spec@.id }),
            opt_call(r.hook) == call_for(
                spec@.hooks,
                HookEvent::Start,
                spec@.id,
                spec@.name,
                Some(pid),
                None,
            ),
            r.health_task == spec@.health_check is Some,
            r.watch_task == spec@.watch,
    {
        let effects = StartEffects {
            id: spec.id,
            event: ProcessEvent::Started { name: spec.name.clone(), id: spec.id },
            hook: HookCall::for_event(
                &spec.hooks,
                HookEvent::Start,
                spec.id,
                spec.name.as_str(),
                Some(pid),
                None,
            ),
            health_task: spec.health_check.is_some(),
            watch_task: spec.watch,
        };
        proof {
            lemma_new_records_ok(spec@, Seq::empty(), pid, now_utc, now);
        }
        self.put(SupervisedProcess::started(spec, pid, now_utc, now));
        effects
    }

    /// Takes note that `spec` could not be launched: the record enters the
    /// map as Errored. A failed prepare gives `BuildFailed`, a failed spawn
    /// `ProcessStartFailed`, each with the failure's detail.
    pub fn record_start_failed(&mut self, spec: AppSpec, failure: LaunchFailure) -> (r: Error)
        requires
            old(self).wf(),
            !is_parent_spec(spec@),
        ensures
            final(self).wf(),
            final(self)@ == (SupervisorView {
                processes: with_proc(old(self)@.processes, proc_failed(spec@)),
                ..old(self)@
            }),
            failure is Prepare ==> (r matches Error::BuildFailed(d) && d@ == failure_detail(
                failure,
            )),
            failure is Spawn ==> (r matches Error::ProcessStartFailed(d) && d@ == failure_detail(
                failure,
            )),
    {
        proof {
            lemma_new_records_ok(spec@, Seq::empty(), 0, 0, 0);
        }
        self.put(SupervisedProcess::failed(spec));
        match failure {
            LaunchFailure::Prepare(d) => Error::BuildFailed(d),
            LaunchFailure::Spawn(d) => Error::ProcessStartFailed(d),
        }
    }

    /// The first step of a stop: marks the record as Stopping and hands out
    /// its child with what the stop needs to know. A record that is not up
    /// or on its way up, or an id that the map does not hold, gives `None`
    /// and changes nothing.
    pub fn begin_stop(&mut self, id: u32) -> (r: Option<StopTicket>)
        requires
            old(self).wf(),
        ensures
            final(self).wf(),
            final(self)@ == stop_begun(old(self)@, id),
            opt_ticket(r) == (if can_stop(old(self)@, id) {
                Some(ticket_of(proc_of(old(self)@.processes, id)->0))
            } else {
                None
            }),
    {
        let i = self.position(id);
        if i >= self.processes.len() || !self.processes[i].state.status.is_running() {
            return None;
        }
        proof {
            let p = self@.processes[i as int];
            lemma_proc_pos(self@.processes, id);
            lemma_transitions_keep_ok(p, ExitOutcome::Unknown, ChildPoll::Alive, 0, 0, 0, true, 0, 0, p.spec.name, 0, 0);
            lemma_replace_proc(self@, id, proc_stopping(p));
        }
        let ticket = StopTicket {
            id,
            name: self.processes[i].spec.name.clone(),
            kill_timeout_ms: self.processes[i].spec.kill_timeout_ms,
            child: self.processes[i].child,
            pid: self.processes[i].state.pid,
            hooks: self.processes[i].spec.hooks.clone(),
            instances: copy_ids(&self.processes[i].cluster_instance_ids),
        };
        self.processes[i].begin_stop();
        assert(self@.processes =~= stop_begun(old(self)@, id).processes);
        Some(ticket)
    }

    /// The last step of a stop, after the child has exited or was killed:
    /// the record is Stopped, without a pid, and holds an exit code: the
    /// child's own, or the one that stands for the signal or the kill that
    /// ended it. Says which notification to send and which hook to run.
    pub fn finish_stop(&mut self, ticket: &StopTicket, exit_code: ExitOutcome) -> (r: StopEffects)
        requires
            old(self).wf(),
        ensures
            final(self).wf(),
            final(self)@ == stop_finished(old(self)@, ticket@.id, exit_code),
            proc_of(old(self)@.processes, ticket@.id) is Some ==> (proc_of(
                final(self)@.processes,
                ticket@.id,
            ) matches Some(p) && p.state.status == AppStatus::Stopped && p.state.pid is None
                && p.state.last_exit_code == Some(exit_code_of(exit_code))),
            r.event@ == (ProcessEventView::Stopped {
                name: ticket@.name,
                id: ticket@.id,
                exit_code: reported_code(old(self)@, ticket@.id, exit_code),
            }),
            opt_call(r.hook) == call_for(
                ticket@.hooks,
                HookEvent::Stop,
                ticket@.id,
                ticket@.name,
                ticket@.pid,
                reported_code(old(self)@, ticket@.id, exit_code),
            ),
    {
        let i = self.position(ticket.id);
        let mut code: Option<i32> = None;
        if i < self.processes.len() {
            proof {
                let p = self@.processes[i as int];
                lemma_proc_pos(self@.processes, ticket.id);
                lemma_transitions_keep_ok(
                    p,
                    exit_code,
                    ChildPoll::Alive,
                    0,
                    0,
                    0,
                    true,
                    0,
                    0,
                    p.spec.name,
                    0,
                    0,
                );
                lemma_replace_proc(self@, ticket.id, proc_stopped(p, exit_code));
            }
            self.processes[i].finish_stop(exit_code);
            assert(self@.processes =~= stop_finished(old(self)@, ticket@.id, exit_code).processes);
            code = Some(exit_code_value(exit_code));
        }
        StopEffects {
            event: ProcessEvent::Stopped { name: ticket.name.clone(), id: ticket.id, exit_code: code },
            hook: HookCall::for_event(
                &ticket.hooks,
                HookEvent::Stop,
                ticket.id,
                ticket.name.as_str(),
                ticket.pid,
                code,
            ),
        }
    }

    /// The first step of a restart: the specification to start again once
    /// the process is stopped, and the restart hook, which runs before the
    /// stop. `None` for an id that the map does not hold.
    pub fn begin_restart(&self, id: u32) -> (r: Option<RestartPlan>)
        ensures
            match proc_of(self@.processes, id) {
                Some(p) => r matches Some(plan) && plan.spec@ == p.spec && opt_call(plan.hook)
                    == call_for(p.spec.hooks, HookEvent::Restart, id, p.spec.name, None, None),
                None => r is None,
            },
    {
        let i = self.position(id);
        if i >= self.processes.len() {
            return None;
        }
        let spec = self.processes[i].spec.clone();
        let hook = HookCall::for_event(
            &spec.hooks,
            HookEvent::Restart,
            id,
            spec.name.as_str(),
            None,
            None,
        );
        Some(RestartPlan { spec, hook })
    }

    /// Deletes the application `id`, which its caller has stopped: its
    /// record leaves the map and its row the registry.
    pub fn delete(&mut self, id: u32) -> (r: bool)
        requires
            old(self).wf(),
        ensures
            final(self).wf(),
            final(self)@ == deleted(old(self)@, id),
            r,
    {
        let i = self.position(id);
        proof {
            lemma_without_proc(self@, id);
        }
        if i < self.processes.len() {
            self.processes.remove(i);
            assert(self@.processes =~= without_proc(old(self)@.processes, id));
        }
        self.registry.delete(id);
        true
    }
}

/// The views of a list of reports, in order.
pub open spec fn info_views(v: Seq<AppInfo>) -> Seq<AppInfoView> {
    v.map_values(|i: AppInfo| i@)
}

/// The view of an optional report.
pub open spec fn opt_info(o: Option<AppInfo>) -> Option<AppInfoView> {
    match o {
        Some(i) => Some(i@),
        None => None,
    }
}

/// The report on a registered application: its row, with the state of its
/// record, or the stopped state if the map holds no record of it.
pub open spec fn info_of(s: SupervisorView, row: AppSpecView) -> AppInfoView {
    AppInfoView {
        spec: row,
        state: match proc_of(s.processes, row.id) {
            Some(p) => p.state,
            None => stopped_state(row.id),
        },
    }
}

/// The status report: one entry per registered application, in the order
/// of the registry.
pub open spec fn status_of(s: SupervisorView) -> Seq<AppInfoView> {
    s.registry.apps.map_values(|row: AppSpecView| info_of(s, row))
}

/// The index of the first row that carries the tag `tag`, or the number of
/// rows.
pub open spec fn tag_pos(apps: Seq<AppSpecView>, tag: Seq<char>) -> int {
    first_where(apps, |a: AppSpecView| a.tags.contains(tag))
}

/// The one row that a selector shows: none for `All`, the first match for a
/// tag.
pub open spec fn shown_row(apps: Seq<AppSpecView>, sel: SelectorView) -> Option<AppSpecView> {
    match sel {
        SelectorView::All => None,
        SelectorView::ById(id) => row_by_id(apps, id),
        SelectorView::ByName(n) => row_by_name(apps, n),
        SelectorView::ByTag(t) => {
            let i = tag_pos(apps, t);
            if 0 <= i && i < apps.len() {
                Some(apps[i])
            } else {
                None
            }
        },
    }
}

/// The ids of all rows, in order.
pub open spec fn ids_of(apps: Seq<AppSpecView>) -> Seq<u32> {
    apps.map_values(|a: AppSpecView| a.id)
}

/// The ids of the rows that carry the tag `tag`, in order.
pub open spec fn tagged_ids(apps: Seq<AppSpecView>, tag: Seq<char>) -> Seq<u32>
    decreases apps.len(),
{
    if apps.len() == 0 {
        Seq::empty()
    } else {
        let rest = tagged_ids(apps.drop_last(), tag);
        if apps.last().tags.contains(tag) {
            rest.push(apps.last().id)
        } else {
            rest
        }
    }
}

/// The ids that a selector resolves to, or the detail of `AppNotFound`.
///
/// `All` resolves to every registered id, even if there is none. An id or a
/// name resolves to its one row or is not found. A tag resolves to the rows
/// that carry it, and is not found if no row does.
pub open spec fn resolved(apps: Seq<AppSpecView>, sel: SelectorView) -> Result<Seq<u32>, Seq<char>> {
    match sel {
        SelectorView::All => Ok(ids_of(apps)),
        SelectorView::ById(id) => match row_by_id(apps, id) {
            Some(_) => Ok(seq![id]),
            None => Err(decimal(id as nat)),
        },
        SelectorView::ByName(n) => match row_by_name(apps, n) {
            Some(row) => Ok(seq![row.id]),
            None => Err(n),
        },
        SelectorView::ByTag(t) => if tagged_ids(apps, t).len() == 0 {
            Err(seq!['@'] + t)
        } else {
            Ok(tagged_ids(apps, t))
        },
    }
}

/// The registry after the saved specifications `saved` were resurrected:
/// each whose name is free is inserted under a new id, in order.
pub open spec fn resurrected(r: RegistryView, saved: Seq<AppSpecView>) -> RegistryView
    decreases saved.len(),
{
    if saved.len() == 0 {
        r
    } else {
        let before = resurrected(r, saved.drop_last());
        if can_insert(before, saved.last().name) {
            inserted(before, saved.last())
        } else {
            before
        }
    }
}

/// The specifications that a resurrect is to start: those it inserted, each
/// with its new id, in order.
pub open spec fn revived(r: RegistryView, saved: Seq<AppSpecView>) -> Seq<AppSpecView>
    decreases saved.len(),
{
    if saved.len() == 0 {
        Seq::empty()
    } else {
        let before = resurrected(r, saved.drop_last());
        let rest = revived(r, saved.drop_last());
        if can_insert(before, saved.last().name) {
            rest.push(AppSpecView { id: before.next, ..saved.last() })
        } else {
            rest
        }
    }
}

proof fn lemma_resurrected_wf(r: RegistryView, saved: Seq<AppSpecView>)
    requires
        registry_wf(r),
    ensures
        registry_wf(resurrected(r, saved)),
    decreases saved.len(),
{
    if saved.len() > 0 {
        lemma_resurrected_wf(r, saved.drop_last());
        let before = resurrected(r, saved.drop_last());
        if can_insert(before, saved.last().name) {
            crate::registry::lemma_inserted_wf(before, saved.last());
        }
    }
}

impl Supervisor {
    /// The status of every registered application.
    pub fn status(&self) -> (r: Vec<AppInfo>)
        ensures
            info_views(r@) == status_of(self@),
    {
        let apps = self.registry.get_all();
        let mut out: Vec<AppInfo> = Vec::new();
        let mut i: usize = 0;
        while i < apps.len()
            invariant
                i <= apps.len(),
                out.len() == i,
                spec_views(apps@) == self@.registry.apps,
                forall|j: int| 0 <= j < i ==> out[j]@ == info_of(self@, self@.registry.apps[j]),
            decreases apps.len() - i,
        {
            assert(spec_views(apps@)[i as int] == apps[i as int]@);
            let info = self.info(&apps[i]);
            out.push(info);
            i = i + 1;
        }
        assert(info_views(out@) =~= status_of(self@));
        out
    }

    fn info(&self, row: &AppSpec) -> (r: AppInfo)
        ensures
            r@ == info_of(self@, row@),
    {
        let k = self.position(row.id);
        let state = if k < self.processes.len() {
            self.processes[k].state
        } else {
            RunState::new(row.id)
        };
        AppInfo::new(row.clone(), state)
    }

    /// The report on the one application that `selector` shows.
    pub fn show(&self, selector: &Selector) -> (r: Option<AppInfo>)
        ensures
            opt_info(r) == (match shown_row(self@.registry.apps, selector@) {
                Some(row) => Some(info_of(self@, row)),
                None => None,
            }),
    {
        let row: Option<AppSpec> = match selector {
            Selector::All => None,
            Selector::ById(id) => self.registry.get_by_id(*id),
            Selector::ByName(name) => self.registry.get_by_name(name.as_str()),
            Selector::ByTag(tag) => {
                let apps = self.registry.get_all();
                let ghost f = |a: AppSpecView| a.tags.contains(tag@);
                let mut found: Option<AppSpec> = None;
                let mut i: usize = 0;
                while i < apps.len() && found.is_none()
                    invariant
                        i <= apps.len(),
                        spec_views(apps@) == self@.registry.apps,
                        f == (|a: AppSpecView| a.tags.contains(tag@)),
                        found is None ==> forall|j: int|
                            0 <= j < i ==> !f(#[trigger] spec_views(apps@)[j]),
                        found matches Some(a) ==> tag_pos(self@.registry.apps, tag@)
                            < self@.registry.apps.len() && a@
                            == self@.registry.apps[tag_pos(self@.registry.apps, tag@)],
                    decreases apps.len() - i,
                {
                    assert(spec_views(apps@)[i as int] == apps[i as int]@);
                    if crate::text::contains_string(&apps[i].tags, tag.as_str()) {
                        proof {
                            assert(f(spec_views(apps@)[i as int]));
                            lemma_first_where_is(spec_views(apps@), f, i as int);
                        }
                        found = Some(apps[i].clone());
                        i = apps.len();
                    } else {
                        i = i + 1;
                    }
                }
                proof {
                    lemma_first_where(self@.registry.apps, f);
                    if found is None {
                        lemma_first_where_is(spec_views(apps@), f, apps.len() as int);
                    }
                }
                found
            },
        };
        assert(opt_spec(row) == shown_row(self@.registry.apps, selector@));
        match row {
            Some(spec) => Some(self.info(&spec)),
            None => None,
        }
    }

    /// The ids that `selector` addresses, or `AppNotFound`.
    pub fn resolve_selector(&self, selector: &Selector) -> (r: Result<Vec<u32>, Error>)
        ensures
            match resolved(self@.registry.apps, selector@) {
                Ok(ids) => r matches Ok(v) && v@ == ids,
                Err(detail) => r matches Err(Error::AppNotFound(d)) && d@ == detail,
            },
    {
        match selector {
            Selector::All => {
                let apps = self.registry.get_all();
                let mut out: Vec<u32> = Vec::new();
                let mut i: usize = 0;
                while i < apps.len()
                    invariant
                        i <= apps.len(),
                        out.len() == i,
                        spec_views(apps@) == self@.registry.apps,
                        forall|j: int| 0 <= j < i ==> out[j] == self@.registry.apps[j].id,
                    decreases apps.len() - i,
                {
                    assert(spec_views(apps@)[i as int] == apps[i as int]@);
                    out.push(apps[i].id);
                    i = i + 1;
                }
                assert(out@ =~= ids_of(self@.registry.apps));
                Ok(out)
            },
            Selector::ById(id) => {
                if self.registry.get_by_id(*id).is_some() {
                    let mut out: Vec<u32> = Vec::new();
                    out.push(*id);
                    assert(out@ =~= seq![*id]);
                    Ok(out)
                } else {
                    Err(Error::AppNotFound(decimal_string(*id as u64)))
                }
            },
            Selector::ByName(name) => {
                match self.registry.get_by_name(name.as_str()) {
                    Some(app) => {
                        let mut out: Vec<u32> = Vec::new();
                        out.push(app.id);
                        assert(out@ =~= seq![app.id]);
                        Ok(out)
                    },
                    None => Err(Error::AppNotFound(name.clone())),
                }
            },
            Selector::ByTag(tag) => {
                let apps = self.registry.get_all();
                let mut out: Vec<u32> = Vec::new();
                let mut i: usize = 0;
                while i < apps.len()
                    invariant
                        i <= apps.len(),
                        spec_views(apps@) == self@.registry.apps,
                        out@ == tagged_ids(self@.registry.apps.subrange(0, i as int), tag@),
                    decreases apps.len() - i,
                {
                    assert(spec_views(apps@)[i as int] == apps[i as int]@);
                    proof {
                        let next = self@.registry.apps.subrange(0, i + 1);
                        assert(next.drop_last() =~= self@.registry.apps.subrange(0, i as int));
                        assert(next.last() == self@.registry.apps[i as int]);
                    }
                    if crate::text::contains_string(&apps[i].tags, tag.as_str()) {
                        out.push(apps[i].id);
                    }
                    i = i + 1;
                }
                assert(self@.registry.apps.subrange(0, apps.len() as int) =~= self@.registry.apps);
                if out.len() == 0 {
                    let mut d = String::new();
                    push_char(&mut d, '@');
                    d.append(tag.as_str());
                    assert(d@ =~= seq!['@'] + tag@);
                    Err(Error::AppNotFound(d))
                } else {
                    Ok(out)
                }
            },
        }
    }

    /// The snapshot that a save writes: every registered specification.
    pub fn save(&self) -> (r: Vec<AppSpec>)
        ensures
            spec_views(r@) == self@.registry.apps,
    {
        self.registry.get_all()
    }

    /// Brings a snapshot back: every saved specification whose name is not
    /// registered is inserted under a new id. Returns the inserted
    /// specifications, which the caller is to start.
    pub fn resurrect(&mut self, saved: &Vec<AppSpec>) -> (r: Vec<AppSpec>)
        requires
            old(self).wf(),
        ensures
            final(self).wf(),
            final(self)@ == (SupervisorView {
                registry: resurrected(old(self)@.registry, spec_views(saved@)),
                ..old(self)@
            }),
            spec_views(r@) == revived(old(self)@.registry, spec_views(saved@)),
    {
        let mut out: Vec<AppSpec> = Vec::new();
        let mut i: usize = 0;
        while i < saved.len()
            invariant
                i <= saved.len(),
                self.wf(),
                self@ == (SupervisorView {
                    registry: resurrected(
                        old(self)@.registry,
                        spec_views(saved@).subrange(0, i as int),
                    ),
                    ..old(self)@
                }),
                spec_views(out@) == revived(
                    old(self)@.registry,
                    spec_views(saved@).subrange(0, i as int),
                ),
            decreases saved.len() - i,
        {
            proof {
                let next = spec_views(saved@).subrange(0, i + 1);
                assert(next.drop_last() =~= spec_views(saved@).subrange(0, i as int));
                assert(next.last() == saved[i as int]@);
                lemma_pos_bounds(self@.registry.apps, saved[i as int]@.name, 0);
            }
            let ghost before = spec_views(out@);
            match self.registry.insert(&saved[i]) {
                Ok(id) => {
                    let mut spec = saved[i].clone();
                    spec.id = id;
                    out.push(spec);
                    assert(spec_views(out@) =~= before.push(
                        AppSpecView { id, ..saved[i as int]@ },
                    ));
                },
                Err(_) => {},
            }
            i = i + 1;
        }
        assert(spec_views(saved@).subrange(0, saved.len() as int) =~= spec_views(saved@));
        out
    }
}

/// What a look at a child makes known.
#[derive(Debug)]
pub enum TickEffects {
    /// The map does not hold the record: the supervision task ends.
    Gone,
    /// Nothing to do.
    Idle,
    /// The child's exit ended a stop.
    Stopped,
    /// The child crashed: the notification to send, the hook to run, and
    /// the delay after which to restart, if a restart is allowed.
    Crashed { event: ProcessEvent, hook: Option<HookCall>, restart_delay_ms: Option<u64> },
}

/// The mathematical value of [`TickEffects`].
pub enum TickEffectsView {
    Gone,
    Idle,
    Stopped,
    Crashed { event: ProcessEventView, hook: Option<HookCallView>, restart_delay_ms: Option<u64> },
}

impl View for TickEffects {
    type V = TickEffectsView;

    open spec fn view(&self) -> TickEffectsView {
        match self {
            TickEffects::Gone => TickEffectsView::Gone,
            TickEffects::Idle => TickEffectsView::Idle,
            TickEffects::Stopped => TickEffectsView::Stopped,
            TickEffects::Crashed { event, hook, restart_delay_ms } => TickEffectsView::Crashed {
                event: event@,
                hook: opt_call(*hook),
                restart_delay_ms: *restart_delay_ms,
            },
        }
    }
}

/// How a crash names its cause: the exit code of a child that exited with
/// one; of any other end nothing is known.
pub open spec fn crash_text(poll: ChildPoll) -> Seq<char> {
    match poll {
        ChildPoll::Exited(ExitOutcome::Code(c)) => "Exit code "@ + signed_decimal(c as int),
        _ => "Unknown error"@,
    }
}

/// The exit code that is stored for what a look at a child showed.
pub open spec fn polled_code(poll: ChildPoll) -> Option<i32> {
    match poll {
        ChildPoll::Exited(how) => Some(exit_code_of(how)),
        _ => None,
    }
}

/// The supervisor after a look at the child of `id`.
pub open spec fn polled(s: SupervisorView, id: u32, poll: ChildPoll, now: u64) -> SupervisorView {
    match proc_of(s.processes, id) {
        Some(p) => SupervisorView {
            processes: replace_proc(s.processes, id, proc_polled(p, poll, now)),
            ..s
        },
        None => s,
    }
}

/// What a look at the child of `id` makes known.
pub open spec fn tick_effects(s: SupervisorView, id: u32, poll: ChildPoll, now: u64) -> TickEffectsView {
    match proc_of(s.processes, id) {
        None => TickEffectsView::Gone,
        Some(p) => match poll_outcome(p, poll, now) {
            PollOutcome::Idle => TickEffectsView::Idle,
            PollOutcome::Stopped => TickEffectsView::Stopped,
            PollOutcome::Crashed { restart } => TickEffectsView::Crashed {
                event: ProcessEventView::Crashed {
                    name: p.spec.name,
                    id,
                    error: crash_text(poll),
                },
                hook: call_for(
                    p.spec.hooks,
                    HookEvent::Crash,
                    id,
                    p.spec.name,
                    None,
                    polled_code(poll),
                ),
                restart_delay_ms: if restart {
                    Some(p.spec.restart_policy.restart_delay_ms)
                } else {
                    None
                },
            },
        },
    }
}

/// The record `id` awaits an automatic restart: it is Errored and no
/// cluster parent.
pub open spec fn awaits_restart(s: SupervisorView, id: u32) -> bool {
    match proc_of(s.processes, id) {
        Some(p) => p.state.status == AppStatus::Errored && !is_parent_spec(p.spec),
        None => false,
    }
}

/// The record `id` is in the middle of an automatic restart.
pub open spec fn is_restarting(s: SupervisorView, id: u32) -> bool {
    match proc_of(s.processes, id) {
        Some(p) => p.state.status == AppStatus::Starting && !is_parent_spec(p.spec),
        None => false,
    }
}

/// The supervisor with the record `id` changed by `f`, if the map holds it.
pub open spec fn changed(s: SupervisorView, id: u32, f: spec_fn(ProcView) -> ProcView) -> SupervisorView {
    match proc_of(s.processes, id) {
        Some(p) => SupervisorView { processes: replace_proc(s.processes, id, f(p)), ..s },
        None => s,
    }
}

/// What a health probe makes known.
#[derive(Debug)]
pub enum HealthEffects {
    /// The map does not hold the record: the health task ends.
    Gone,
    /// The probe passed.
    Passed,
    /// The probe failed, and the record stays as it is.
    Failed,
    /// The probe failed once too often: the record is Errored. The
    /// notification to send, the hook to run, and the child to terminate.
    Unhealthy {
        event: ProcessEvent,
        hook: Option<HookCall>,
        child: Option<ChildHandle>,
        kill_timeout_ms: u64,
    },
}

/// The mathematical value of [`HealthEffects`].
pub enum HealthEffectsView {
    Gone,
    Passed,
    Failed,
    Unhealthy {
        event: ProcessEventView,
        hook: Option<HookCallView>,
        child: Option<ChildHandle>,
        kill_timeout_ms: u64,
    },
}

impl View for HealthEffects {
    type V = HealthEffectsView;

    open spec fn view(&self) -> HealthEffectsView {
        match self {
            HealthEffects::Gone => HealthEffectsView::Gone,
            HealthEffects::Passed => HealthEffectsView::Passed,
            HealthEffects::Failed => HealthEffectsView::Failed,
            HealthEffects::Unhealthy {
                event,
                hook,
                child,
                kill_timeout_ms,
            } => HealthEffectsView::Unhealthy {
                event: event@,
                hook: opt_call(*hook),
                child: *child,
                kill_timeout_ms: *kill_timeout_ms,
            },
        }
    }
}

/// The endpoint that a failed health check names: the URL probed, or
/// `unknown`.
pub open spec fn probed_endpoint(spec: AppSpecView) -> Seq<char> {
    match spec.health_check {
        Some(h) => match h.http_url {
            Some(u) => u,
            None => "unknown"@,
        },
        None => "unknown"@,
    }
}

/// What a health probe of `id` makes known.
pub open spec fn health_effects(s: SupervisorView, id: u32, healthy: bool) -> HealthEffectsView {
    match proc_of(s.processes, id) {
        None => HealthEffectsView::Gone,
        Some(p) => if healthy {
            HealthEffectsView::Passed
        } else if probe_fails_process(p) {
            HealthEffectsView::Unhealthy {
                event: ProcessEventView::HealthCheckFailed {
                    name: p.spec.name,
                    id,
                    endpoint: probed_endpoint(p.spec),
                },
                hook: call_for(p.spec.hooks, HookEvent::Error, id, p.spec.name, p.state.pid, None),
                child: p.child,
                kill_timeout_ms: p.spec.kill_timeout_ms,
            }
        } else {
            HealthEffectsView::Failed
        },
    }
}

/// The supervisor after a round of metrics: the samples are written onto
/// the records, and the records are checked against their limits in order.
pub open spec fn metrics_applied(s: SupervisorView, samples: Seq<MetricSample>) -> SupervisorView {
    let round = limit_round(
        measured(s.processes, samples),
        LimitState { notified: s.notified, pending: s.pending, breaches: Seq::empty() },
    );
    SupervisorView {
        processes: measured(s.processes, samples),
        notified: round.notified,
        pending: round.pending,
        ..s
    }
}

/// The breaches that a round of metrics reports.
pub open spec fn metrics_breaches(s: SupervisorView, samples: Seq<MetricSample>) -> Seq<
    LimitBreachView,
> {
    limit_round(
        measured(s.processes, samples),
        LimitState { notified: s.notified, pending: s.pending, breaches: Seq::empty() },
    ).breaches
}

/// The supervisor after the limit-triggered stop of `id` began.
pub open spec fn limit_stop_begun(s: SupervisorView, id: u32) -> SupervisorView {
    match proc_of(s.processes, id) {
        Some(p) => SupervisorView {
            processes: replace_proc(s.processes, id, proc_stopping(p)),
            ..s
        },
        None => SupervisorView {
            pending: s.pending.remove(id),
            notified: s.notified.remove(id),
            ..s
        },
    }
}

/// The supervisor after the limit-triggered stop of `id` ended: the record
/// is Stopped, and the id is neither pending nor notified any more.
pub open spec fn limit_stop_finished(s: SupervisorView, id: u32, how: ExitOutcome) -> SupervisorView {
    SupervisorView {
        processes: match proc_of(s.processes, id) {
            Some(p) => replace_proc(s.processes, id, proc_stopped(p, how)),
            None => s.processes,
        },
        pending: s.pending.remove(id),
        notified: s.notified.remove(id),
        ..s
    }
}

/// What a limit-triggered stop needs to know after the record is marked as
/// Stopping.
#[derive(Debug)]
pub struct LimitStop {
    pub ticket: StopTicket,
    /// The restart hook, to run before the child is terminated.
    pub hook: Option<HookCall>,
}

proof fn lemma_measured_wf(s: SupervisorView, samples: Seq<MetricSample>)
    requires
        sup_wf(s),
    ensures
        distinct_ids(measured(s.processes, samples)),
        forall|i: int|
            0 <= i < s.processes.len() ==> proc_ok(#[trigger] measured(s.processes, samples)[i]),
{
    let after = measured(s.processes, samples);
    assert forall|i: int| 0 <= i < s.processes.len() implies proc_ok(#[trigger] after[i]) by {
        lemma_measured_ok(s.processes[i], samples);
    }
    assert forall|a: int, b: int| 0 <= a < b < after.len() implies (#[trigger] after[a]).spec.id
        != (#[trigger] after[b]).spec.id by {
        lemma_measured_ok(s.processes[a], samples);
        lemma_measured_ok(s.processes[b], samples);
        assert(s.processes[a].spec.id != s.processes[b].spec.id);
    }
}

impl Supervisor {
    /// Takes note of a look at the child of `id` at `now`, and says what to
    /// do about it. A living child has its uptime brought up to date. An
    /// exit while Stopping ends the stop. Any other exit is a crash: the
    /// record is Errored, and a restart follows if the policy allows one.
    pub fn on_child_poll(&mut self, id: u32, poll: ChildPoll, now: u64) -> (r: TickEffects)
        requires
            old(self).wf(),
        ensures
            final(self).wf(),
            final(self)@ == polled(old(self)@, id, poll, now),
            r@ == tick_effects(old(self)@, id, poll, now),
    {
        let i = self.position(id);
        if i >= self.processes.len() {
            return TickEffects::Gone;
        }
        proof {
            let p = self@.processes[i as int];
            lemma_proc_pos(self@.processes, id);
            lemma_transitions_keep_ok(p, ExitOutcome::Unknown, poll, now, 0, 0, true, 0, 0, p.spec.name, 0, 0);
            lemma_replace_proc(self@, id, proc_polled(p, poll, now));
        }
        let outcome = self.processes[i].on_poll(poll, now);
        assert(self@.processes =~= polled(old(self)@, id, poll, now).processes);
        match outcome {
            PollOutcome::Idle => TickEffects::Idle,
            PollOutcome::Stopped => TickEffects::Stopped,
            PollOutcome::Crashed { restart } => {
                let code: Option<i32> = match poll {
                    ChildPoll::Exited(how) => Some(exit_code_value(how)),
                    _ => None,
                };
                let error = match poll {
                    ChildPoll::Exited(ExitOutcome::Code(c)) => {
                        let mut e = copy_text("Exit code ");
                        push_signed(&mut e, c);
                        e
                    },
                    _ => copy_text("Unknown error"),
                };
                TickEffects::Crashed {
                    event: ProcessEvent::Crashed {
                        name: self.processes[i].spec.name.clone(),
                        id,
                        error,
                    },
                    hook: HookCall::for_event(
                        &self.processes[i].spec.hooks,
                        HookEvent::Crash,
                        id,
                        self.processes[i].spec.name.as_str(),
                        None,
                        code,
                    ),
                    restart_delay_ms: if restart {
                        Some(self.processes[i].spec.restart_policy.restart_delay_ms)
                    } else {
                        None
                    },
                }
            },
        }
    }

    /// The first step of an automatic restart: an Errored record becomes
    /// Starting, and its specification is handed out for the launch.
    pub fn begin_auto_restart(&mut self, id: u32) -> (r: Option<AppSpec>)
        requires
            old(self).wf(),
        ensures
            final(self).wf(),
            awaits_restart(old(self)@, id) ==> final(self)@ == changed(
                old(self)@,
                id,
                |p: ProcView| proc_restarting(p),
            ) && opt_spec(r) == Some(proc_of(old(self)@.processes, id)->0.spec),
            !awaits_restart(old(self)@, id) ==> final(self)@ == old(self)@ && r is None,
    {
        let i = self.position(id);
        if i >= self.processes.len() {
            return None;
        }
        let parent = self.processes[i].spec.instances > 1
            && self.processes[i].spec.instance_id.is_none();
        if parent || self.processes[i].state.status != AppStatus::Errored {
            return None;
        }
        proof {
            let p = self@.processes[i as int];
            lemma_proc_pos(self@.processes, id);
            lemma_transitions_keep_ok(
                p,
                ExitOutcome::Unknown,
                ChildPoll::Alive,
                0,
                0,
                0,
                true,
                0,
                0,
                p.spec.name,
                0,
                0,
            );
            lemma_replace_proc(self@, id, proc_restarting(p));
        }
        let spec = self.processes[i].spec.clone();
        self.processes[i].begin_restart();
        assert(self@.processes =~= changed(
            old(self)@,
            id,
            |p: ProcView| proc_restarting(p),
        ).processes);
        Some(spec)
    }

    /// Takes note that the automatic restart of `id` brought up the child
    /// `pid`. Gives the notification to send, or `None`, with nothing
    /// changed, if the record is not in the middle of a restart.
    pub fn record_restarted(&mut self, id: u32, pid: u32, now_utc: i64, now: u64) -> (r: Option<
        ProcessEvent,
    >)
        requires
            old(self).wf(),
        ensures
            final(self).wf(),
            is_restarting(old(self)@, id) ==> final(self)@ == changed(
                old(self)@,
                id,
                |p: ProcView| proc_restarted(p, pid, now_utc, now),
            ) && (r matches Some(e) && e@ == (ProcessEventView::Restarted {
                name: proc_of(old(self)@.processes, id)->0.spec.name,
                id,
                restart_count: crate::process::next_count(
                    proc_of(old(self)@.processes, id)->0.state.restarts,
                ),
            })),
            !is_restarting(old(self)@, id) ==> final(self)@ == old(self)@ && r is None,
    {
        let i = self.position(id);
        if i >= self.processes.len() {
            return None;
        }
        let parent = self.processes[i].spec.instances > 1
            && self.processes[i].spec.instance_id.is_none();
        if parent || self.processes[i].state.status != AppStatus::Starting {
            return None;
        }
        proof {
            let p = self@.processes[i as int];
            lemma_proc_pos(self@.processes, id);
            lemma_transitions_keep_ok(
                p,
                ExitOutcome::Unknown,
                ChildPoll::Alive,
                now,
                now_utc,
                pid,
                true,
                0,
                0,
                p.spec.name,
                0,
                0,
            );
            lemma_replace_proc(self@, id, proc_restarted(p, pid, now_utc, now));
        }
        self.processes[i].restarted(pid, now_utc, now);
        assert(self@.processes =~= changed(
            old(self)@,
            id,
            |p: ProcView| proc_restarted(p, pid, now_utc, now),
        ).processes);
        Some(
            ProcessEvent::Restarted {
                name: self.processes[i].spec.name.clone(),
                id,
                restart_count: self.processes[i].state.restarts,
            },
        )
    }

    /// Takes note that the automatic restart of `id` failed: the record is
    /// Errored again. Whether the record was in the middle of a restart.
    pub fn record_restart_failed(&mut self, id: u32) -> (r: bool)
        requires
            old(self).wf(),
        ensures
            final(self).wf(),
            r == is_restarting(old(self)@, id),
            r ==> final(self)@ == changed(old(self)@, id, |p: ProcView| proc_restart_failed(p)),
            !r ==> final(self)@ == old(self)@,
    {
        let i = self.position(id);
        if i >= self.processes.len() {
            return false;
        }
        let parent = self.processes[i].spec.instances > 1
            && self.processes[i].spec.instance_id.is_none();
        if parent || self.processes[i].state.status != AppStatus::Starting {
            return false;
        }
        proof {
            let p = self@.processes[i as int];
            lemma_proc_pos(self@.processes, id);
            lemma_transitions_keep_ok(
                p,
                ExitOutcome::Unknown,
                ChildPoll::Alive,
                0,
                0,
                0,
                true,
                0,
                0,
                p.spec.name,
                0,
                0,
            );
            lemma_replace_proc(self@, id, proc_restart_failed(p));
        }
        self.processes[i].restart_failed();
        assert(self@.processes =~= changed(
            old(self)@,
            id,
            |p: ProcView| proc_restart_failed(p),
        ).processes);
        true
    }

    /// Whether the health task of `id` is to probe: the record is in the
    /// map and up or on its way up.
    pub fn should_probe(&self, id: u32) -> (r: bool)
        ensures
            r == can_stop(self@, id),
    {
        let i = self.position(id);
        i < self.processes.len() && self.processes[i].state.status.is_running()
    }

    /// Takes note of a health probe of `id` at `now_utc`, and says what to
    /// do about it.
    pub fn on_health_result(&mut self, id: u32, healthy: bool, now_utc: i64) -> (r: HealthEffects)
        requires
            old(self).wf(),
        ensures
            final(self).wf(),
            final(self)@ == changed(old(self)@, id, |p: ProcView| proc_probed(p, healthy, now_utc)),
            r@ == health_effects(old(self)@, id, healthy),
    {
        let i = self.position(id);
        if i >= self.processes.len() {
            return HealthEffects::Gone;
        }
        proof {
            let p = self@.processes[i as int];
            lemma_proc_pos(self@.processes, id);
            lemma_transitions_keep_ok(
                p,
                ExitOutcome::Unknown,
                ChildPoll::Alive,
                0,
                now_utc,
                0,
                healthy,
                0,
                0,
                p.spec.name,
                0,
                0,
            );
            lemma_replace_proc(self@, id, proc_probed(p, healthy, now_utc));
        }
        let pid = self.processes[i].state.pid;
        let was_running = self.processes[i].state.status;
        let child = self.processes[i].on_probe(healthy, now_utc);
        assert(self@.processes =~= changed(
            old(self)@,
            id,
            |p: ProcView| proc_probed(p, healthy, now_utc),
        ).processes);
        if healthy {
            return HealthEffects::Passed;
        }
        let failed = match &self.processes[i].health_monitor {
            Some(m) => m.is_unhealthy(),
            None => false,
        };
        if !failed {
            return HealthEffects::Failed;
        }
        let endpoint = match &self.processes[i].spec.health_check {
            Some(h) => match &h.http_url {
                Some(u) => u.clone(),
                None => copy_text("unknown"),
            },
            None => copy_text("unknown"),
        };
        HealthEffects::Unhealthy {
            event: ProcessEvent::HealthCheckFailed {
                name: self.processes[i].spec.name.clone(),
                id,
                endpoint,
            },
            hook: HookCall::for_event(
                &self.processes[i].spec.hooks,
                HookEvent::Error,
                id,
                self.processes[i].spec.name.as_str(),
                pid,
                None,
            ),
            child,
            kill_timeout_ms: self.processes[i].spec.kill_timeout_ms,
        }
    }

    /// One round of metrics: writes the samples onto the records and checks
    /// every record against its memory and uptime limits. Returns the
    /// records to restart, each marked as pending until its stop is over.
    pub fn on_metrics(&mut self, samples: &Vec<MetricSample>) -> (r: Vec<LimitBreach>)
        requires
            old(self).wf(),
        ensures
            final(self).wf(),
            final(self)@ == metrics_applied(old(self)@, samples@),
            breach_views(r@) == metrics_breaches(old(self)@, samples@),
    {
        let ghost before = self@;
        let ghost target = measured(before.processes, samples@);
        let ghost start = LimitState {
            notified: before.notified,
            pending: before.pending,
            breaches: Seq::empty(),
        };
        let mut out: Vec<LimitBreach> = Vec::new();
        let n = self.processes.len();
        let mut i: usize = 0;
        assert(breach_views(out@) =~= Seq::empty());
        while i < n
            invariant
                i <= n,
                n == self.processes.len(),
                n == before.processes.len(),
                before == old(self)@,
                target == measured(before.processes, samples@),
                start == (LimitState {
                    notified: before.notified,
                    pending: before.pending,
                    breaches: Seq::empty(),
                }),
                self@.registry == before.registry,
                forall|j: int| 0 <= j < i ==> proc_views(self.processes@)[j] == target[j],
                forall|j: int| i <= j < n ==> proc_views(self.processes@)[j] == before.processes[j],
                limit_round(target.subrange(0, i as int), start) == (LimitState {
                    notified: self.memory_limit_notified@,
                    pending: self.pending_restarts@,
                    breaches: breach_views(out@),
                }),
            decreases n - i,
        {
            let ghost acc = LimitState {
                notified: self.memory_limit_notified@,
                pending: self.pending_restarts@,
                breaches: breach_views(out@),
            };
            proof {
                let next = target.subrange(0, i + 1);
                assert(next.drop_last() =~= target.subrange(0, i as int));
                assert(next.last() == target[i as int]);
                assert(proc_views(self.processes@)[i as int] == self.processes[i as int]@);
            }
            match self.processes[i].state.pid {
                Some(pid) => {
                    match find_sample(samples, pid) {
                        Some(m) => {
                            self.processes[i].state.cpu_centipercent = m.cpu_centipercent;
                            self.processes[i].state.memory_bytes = m.memory_bytes;
                        },
                        None => {},
                    }
                },
                None => {},
            }
            assert(self.processes[i as int]@ == target[i as int]);
            let id = self.processes[i].spec.id;
            if self.processes[i].state.status.is_running() && !self.pending_restarts.contains(&id) {
                let mb = self.processes[i].state.memory_bytes / BYTES_PER_MB;
                let mut over_mem = false;
                let mut event: Option<ProcessEvent> = None;
                match self.processes[i].spec.max_memory_mb {
                    Some(limit) => {
                        if mb > limit {
                            over_mem = true;
                            if !self.memory_limit_notified.contains(&id) {
                                event = Some(
                                    ProcessEvent::MemoryLimit {
                                        name: self.processes[i].spec.name.clone(),
                                        id,
                                        memory_mb: mb,
                                        limit_mb: limit,
                                    },
                                );
                            }
                            self.memory_limit_notified.insert(id);
                        } else if mb < limit {
                            self.memory_limit_notified.remove(&id);
                        }
                    },
                    None => {},
                }
                let over_up = match self.processes[i].spec.max_uptime_secs {
                    Some(max) => self.processes[i].state.uptime_secs >= max,
                    None => false,
                };
                if over_mem || over_up {
                    let ghost earlier = breach_views(out@);
                    let breach = LimitBreach {
                        id,
                        name: self.processes[i].spec.name.clone(),
                        kind: if over_mem {
                            LimitKind::Memory
                        } else {
                            LimitKind::Uptime
                        },
                        event,
                    };
                    out.push(breach);
                    self.pending_restarts.insert(id);
                    assert(breach_views(out@) =~= earlier.push(breach@));
                }
            }
            assert(limit_step(acc, target[i as int]) == (LimitState {
                notified: self.memory_limit_notified@,
                pending: self.pending_restarts@,
                breaches: breach_views(out@),
            }));
            i = i + 1;
        }
        proof {
            assert(target.subrange(0, n as int) =~= target);
            assert(self@.processes =~= target);
            lemma_measured_wf(before, samples@);
        }
        out
    }

    /// The first step of a limit-triggered stop: marks the record as
    /// Stopping and hands out its child, with the restart hook to run. If
    /// the map does not hold the record, the id is taken off the pending and
    /// the notified ids.
    pub fn begin_limit_stop(&mut self, id: u32) -> (r: Option<LimitStop>)
        requires
            old(self).wf(),
        ensures
            final(self).wf(),
            final(self)@ == limit_stop_begun(old(self)@, id),
            match proc_of(old(self)@.processes, id) {
                Some(p) => r matches Some(stop) && stop.ticket@ == ticket_of(p) && opt_call(
                    stop.hook,
                ) == call_for(p.spec.hooks, HookEvent::Restart, id, p.spec.name, p.state.pid, None),
                None => r is None,
            },
    {
        let i = self.position(id);
        if i >= self.processes.len() {
            self.pending_restarts.remove(&id);
            self.memory_limit_notified.remove(&id);
            return None;
        }
        proof {
            let p = self@.processes[i as int];
            lemma_proc_pos(self@.processes, id);
            lemma_transitions_keep_ok(
                p,
                ExitOutcome::Unknown,
                ChildPoll::Alive,
                0,
                0,
                0,
                true,
                0,
                0,
                p.spec.name,
                0,
                0,
            );
            lemma_replace_proc(self@, id, proc_stopping(p));
        }
        let ticket = StopTicket {
            id,
            name: self.processes[i].spec.name.clone(),
            kill_timeout_ms: self.processes[i].spec.kill_timeout_ms,
            child: self.processes[i].child,
            pid: self.processes[i].state.pid,
            hooks: self.processes[i].spec.hooks.clone(),
            instances: copy_ids(&self.processes[i].cluster_instance_ids),
        };
        let hook = HookCall::for_event(
            &self.processes[i].spec.hooks,
            HookEvent::Restart,
            id,
            self.processes[i].spec.name.as_str(),
            self.processes[i].state.pid,
            None,
        );
        self.processes[i].begin_stop();
        assert(self@.processes =~= limit_stop_begun(old(self)@, id).processes);
        Some(LimitStop { ticket, hook })
    }

    /// The last step of a limit-triggered stop, after the child has ended
    /// as `how` says: the record is Stopped with the exit code that stands
    /// for that, and its id is neither pending nor notified any more.
    pub fn finish_limit_stop(&mut self, id: u32, how: ExitOutcome)
        requires
            old(self).wf(),
        ensures
            final(self).wf(),
            final(self)@ == limit_stop_finished(old(self)@, id, how),
    {
        let i = self.position(id);
        if i < self.processes.len() {
            proof {
                let p = self@.processes[i as int];
                lemma_proc_pos(self@.processes, id);
                lemma_transitions_keep_ok(
                    p,
                    how,
                    ChildPoll::Alive,
                    0,
                    0,
                    0,
                    true,
                    0,
                    0,
                    p.spec.name,
                    0,
                    0,
                );
                lemma_replace_proc(self@, id, proc_stopped(p, how));
            }
            self.processes[i].finish_stop(how);
            assert(self@.processes =~= limit_stop_finished(old(self)@, id, how).processes);
        }
        self.pending_restarts.remove(&id);
        self.memory_limit_notified.remove(&id);
    }
}

/// The map holds the instances `ids` of the cluster `parent`: as many as
/// the parent asks for, each under its own id, with its cluster index and
/// its name derived from the parent's.
pub open spec fn children_recorded(procs: Seq<ProcView>, parent: AppSpecView, ids: Seq<u32>) -> bool {
    &&& ids.len() == parent.instances
    &&& forall|i: int|
        0 <= i < ids.len() ==> {
            &&& #[trigger] ids[i] != parent.id
            &&& proc_of(procs, ids[i]) matches Some(c) && c.spec.instance_id == Some(i as u32)
                && c.spec.name == instance_name(parent.name, i as u32)
        }
}

/// The record `parent_id` is a cluster parent whose instance list names
/// its instances: as many ids as its specification has instances, each the
/// id of a record with that cluster index and the name derived from the
/// parent's.
pub open spec fn cluster_ok(s: SupervisorView, parent_id: u32) -> bool {
    proc_of(s.processes, parent_id) matches Some(p) && is_parent_spec(p.spec)
        && p.cluster_instance_ids.len() == p.spec.instances && children_recorded(
        s.processes,
        p.spec,
        p.cluster_instance_ids,
    )
}

/// A cluster stays as it is while the map keeps its records' ids, names,
/// cluster indexes and instance lists.
pub proof fn lemma_cluster_kept(before: SupervisorView, after: SupervisorView, parent_id: u32)
    requires
        cluster_ok(before, parent_id),
        after.processes.len() == before.processes.len(),
        forall|i: int|
            0 <= i < before.processes.len() ==> (#[trigger] after.processes[i]).spec
                == before.processes[i].spec && after.processes[i].cluster_instance_ids
                == before.processes[i].cluster_instance_ids,
    ensures
        cluster_ok(after, parent_id),
{
    assert forall|id: u32| proc_pos(after.processes, id) == proc_pos(before.processes, id) by {
        lemma_proc_pos(before.processes, id);
        let k = proc_pos(before.processes, id);
        let f = |q: ProcView| q.spec.id == id;
        assert forall|j: int| 0 <= j < k implies !f(#[trigger] after.processes[j]) by {
            assert(after.processes[j].spec == before.processes[j].spec);
        }
        if k < before.processes.len() {
            assert(after.processes[k].spec == before.processes[k].spec);
        }
        lemma_first_where_is(after.processes, f, k);
    }
    let p = proc_of(before.processes, parent_id)->0;
    lemma_proc_pos(before.processes, parent_id);
    let ids = p.cluster_instance_ids;
    assert forall|i: int| 0 <= i < ids.len() implies (proc_of(after.processes, #[trigger] ids[i]) matches Some(
        c,
    ) && c.spec.instance_id == Some(i as u32) && c.spec.name == instance_name(
        p.spec.name,
        i as u32,
    )) by {
        lemma_proc_pos(before.processes, ids[i]);
        assert(proc_pos(after.processes, ids[i]) == proc_pos(before.processes, ids[i]));
    }
}

/// The name of the temporary instance that a reload starts.
pub open spec fn reload_name(name: Seq<char>) -> Seq<char> {
    name + "-reload"@
}

/// What a reload is to do.
#[derive(Debug)]
pub enum ReloadPlan {
    /// Start `replacement`; once it serves, stop `old_id` and give the
    /// replacement the name `old_name`.
    Single { old_id: u32, replacement: AppSpec, old_name: String, wait_for_health: bool },
    /// Replace the instances of the cluster one at a time, in cluster order.
    Cluster { parent_id: u32, instance_ids: Vec<u32>, wait_for_health: bool },
}

/// The mathematical value of [`ReloadPlan`].
pub enum ReloadPlanView {
    Single {
        old_id: u32,
        replacement: AppSpecView,
        old_name: Seq<char>,
        wait_for_health: bool,
    },
    Cluster { parent_id: u32, instance_ids: Seq<u32>, wait_for_health: bool },
}

impl View for ReloadPlan {
    type V = ReloadPlanView;

    open spec fn view(&self) -> ReloadPlanView {
        match self {
            ReloadPlan::Single {
                old_id,
                replacement,
                old_name,
                wait_for_health,
            } => ReloadPlanView::Single {
                old_id: *old_id,
                replacement: replacement@,
                old_name: old_name@,
                wait_for_health: *wait_for_health,
            },
            ReloadPlan::Cluster {
                parent_id,
                instance_ids,
                wait_for_health,
            } => ReloadPlanView::Cluster {
                parent_id: *parent_id,
                instance_ids: instance_ids@,
                wait_for_health: *wait_for_health,
            },
        }
    }
}

/// The specification under which a reload starts the replacement of `p`:
/// that of `p` under the temporary name and the next id of the registry.
pub open spec fn replacement_of(s: SupervisorView, p: ProcView) -> AppSpecView {
    AppSpecView { name: reload_name(p.spec.name), id: s.registry.next, ..p.spec }
}

/// The specification under which a rolling reload starts the replacement of
/// instance `index` of the cluster `parent`.
pub open spec fn instance_replacement_of(s: SupervisorView, parent: AppSpecView, index: u32) -> AppSpecView {
    AppSpecView {
        name: reload_name(instance_name(parent.name, index)),
        id: s.registry.next,
        ..instance_of(parent, index, instance_port(parent, index))
    }
}

/// The supervisor after a single reload ended: the old row is gone from the
/// registry, and the new instance carries the old one's name in the registry
/// and in the map.
pub open spec fn reload_finished(s: SupervisorView, old_id: u32, new_id: u32, name: Seq<char>) -> SupervisorView {
    SupervisorView {
        registry: renamed(without_row(s.registry, id_pos(s.registry.apps, old_id)), new_id, name),
        processes: match proc_of(s.processes, new_id) {
            Some(p) => replace_proc(s.processes, new_id, proc_renamed(p, name)),
            None => s.processes,
        },
        ..s
    }
}

/// The index of the first `id` in `ids`, or the length of `ids`.
pub open spec fn id_index(ids: Seq<u32>, id: u32) -> int {
    first_of(ids, id)
}

/// The supervisor after one instance of a rolling reload was replaced: the
/// new instance carries the instance's name in the registry and in the
/// map, and takes the old one's place in the parent's instance list.
pub open spec fn instance_reloaded(
    s: SupervisorView,
    parent_id: u32,
    old_id: u32,
    new_id: u32,
    name: Seq<char>,
) -> SupervisorView {
    let renamed_procs = match proc_of(s.processes, new_id) {
        Some(p) => replace_proc(s.processes, new_id, proc_renamed(p, name)),
        None => s.processes,
    };
    SupervisorView {
        registry: renamed(s.registry, new_id, name),
        processes: match proc_of(renamed_procs, parent_id) {
            Some(parent) => replace_proc(
                renamed_procs,
                parent_id,
                proc_patched(parent, id_index(parent.cluster_instance_ids, old_id), new_id),
            ),
            None => renamed_procs,
        },
        ..s
    }
}

/// A reload that failed: the replacement to stop and delete again, and the
/// error of the reload.
#[derive(Debug, PartialEq, Eq)]
pub struct ReloadFailure {
    pub roll_back: u32,
    pub error: Error,
}

/// A cluster start that failed: the instances to stop again, in order, and
/// the error of the start.
#[derive(Debug, PartialEq, Eq)]
pub struct ClusterAbort {
    pub stop: Vec<u32>,
    pub error: Error,
}

/// What a reload is to wait for before it stops the old instance.
#[derive(Debug)]
pub enum WaitNeed {
    /// The map does not hold the new instance: the reload has failed.
    Gone,
    /// No health check is configured: the instance counts as healthy.
    Nothing,
    /// Probe with this health check until it passes.
    Probe(HealthCheck),
}

/// The mathematical value of [`WaitNeed`].
pub enum WaitNeedView {
    Gone,
    Nothing,
    Probe(HealthCheckView),
}

impl View for WaitNeed {
    type V = WaitNeedView;

    open spec fn view(&self) -> WaitNeedView {
        match self {
            WaitNeed::Gone => WaitNeedView::Gone,
            WaitNeed::Nothing => WaitNeedView::Nothing,
            WaitNeed::Probe(h) => WaitNeedView::Probe(h@),
        }
    }
}

/// What a probe during a reload's wait came to.
#[derive(Debug, Clone, Copy, PartialEq, Eq, Structural)]
pub enum WaitStep {
    /// The instance is healthy: the reload goes on.
    Healthy,
    /// Probe again after the poll interval, unless the wait has expired.
    Retry,
    /// The map does not hold the instance any more: the reload has failed.
    Gone,
}

/// The record with the result of a reload's probe on its state.
pub open spec fn proc_checked(p: ProcView, healthy: bool, now_utc: i64) -> ProcView {
    ProcView { state: RunState { healthy, last_health_check: Some(now_utc), ..p.state }, ..p }
}

impl Supervisor {
    /// The last step of a cluster start: the parent aggregate enters the map
    /// under the cluster's id, Running, with no pid and no child of its own,
    /// and with the ids of its instances in cluster order.
    pub fn finish_cluster_start(
        &mut self,
        parent: AppSpec,
        instance_ids: Vec<u32>,
        now_utc: i64,
        now: u64,
    ) -> (r: u32)
        requires
            old(self).wf(),
            is_parent_spec(parent@),
            instance_ids@.len() == parent@.instances,
        ensures
            final(self).wf(),
            final(self)@ == (SupervisorView {
                processes: with_proc(
                    old(self)@.processes,
                    proc_parent(parent@, instance_ids@, now_utc, now),
                ),
                ..old(self)@
            }),
            r == parent@.id,
            children_recorded(old(self)@.processes, parent@, instance_ids@) ==> cluster_ok(
                final(self)@,
                parent@.id,
            ),
    {
        let id = parent.id;
        proof {
            let p = proc_parent(parent@, instance_ids@, now_utc, now);
            lemma_new_records_ok(parent@, instance_ids@, 0, now_utc, now);
            lemma_with_proc(self@, p, 0);
            if children_recorded(self@.processes, parent@, instance_ids@) {
                assert forall|i: int| 0 <= i < instance_ids@.len() implies (proc_of(
                    with_proc(self@.processes, p),
                    #[trigger] instance_ids@[i],
                ) matches Some(c) && c.spec.instance_id == Some(i as u32) && c.spec.name
                    == instance_name(parent@.name, i as u32)) by {
                    lemma_with_proc(self@, p, instance_ids@[i]);
                }
            }
        }
        self.put(SupervisedProcess::parent(parent, instance_ids, now_utc, now));
        id
    }

    /// The first step of a reload of `id`: says what the reload is to do. For
    /// a single process, the replacement is registered under the temporary
    /// name; the reload is refused with the registry's error if that name is
    /// taken. `None` for an id that the map does not hold.
    pub fn begin_reload(&mut self, id: u32) -> (r: Result<Option<ReloadPlan>, Error>)
        requires
            old(self).wf(),
        ensures
            final(self).wf(),
            match proc_of(old(self)@.processes, id) {
                None => final(self)@ == old(self)@ && r matches Ok(None),
                Some(p) => if p.cluster_instance_ids.len() > 0 {
                    final(self)@ == old(self)@ && (r matches Ok(Some(plan)) && plan@
                        == (ReloadPlanView::Cluster {
                        parent_id: id,
                        instance_ids: p.cluster_instance_ids,
                        wait_for_health: p.spec.health_check is Some,
                    }))
                } else if can_insert(old(self)@.registry, reload_name(p.spec.name)) {
                    final(self)@ == (SupervisorView {
                        registry: inserted(
                            old(self)@.registry,
                            AppSpecView { name: reload_name(p.spec.name), ..p.spec },
                        ),
                        ..old(self)@
                    }) && (r matches Ok(Some(plan)) && plan@ == (ReloadPlanView::Single {
                        old_id: id,
                        replacement: replacement_of(old(self)@, p),
                        old_name: p.spec.name,
                        wait_for_health: p.spec.health_check is Some,
                    }))
                } else {
                    final(self)@ == old(self)@ && (r matches Err(Error::DbError(d)) && d@
                        == insert_refused_detail(old(self)@.registry, reload_name(p.spec.name)))
                },
            },
    {
        let i = self.position(id);
        if i >= self.processes.len() {
            return Ok(None);
        }
        let wait_for_health = self.processes[i].spec.health_check.is_some();
        if self.processes[i].cluster_instance_ids.len() > 0 {
            return Ok(
                Some(
                    ReloadPlan::Cluster {
                        parent_id: id,
                        instance_ids: copy_ids(&self.processes[i].cluster_instance_ids),
                        wait_for_health,
                    },
                ),
            );
        }
        let old_name = self.processes[i].spec.name.clone();
        let mut replacement = self.processes[i].spec.clone();
        let mut name = old_name.clone();
        name.append("-reload");
        replacement.name = name;
        match self.registry.insert(&replacement) {
            Ok(new_id) => {
                replacement.id = new_id;
                Ok(
                    Some(
                        ReloadPlan::Single { old_id: id, replacement, old_name, wait_for_health },
                    ),
                )
            },
            Err(e) => Err(e),
        }
    }

    /// The last step of a single reload, after the old instance was stopped:
    /// the old row leaves the registry, and the new instance takes the
    /// old one's name in the registry and in the map.
    pub fn finish_reload(&mut self, old_id: u32, new_id: u32, old_name: &str) -> (r: bool)
        requires
            old(self).wf(),
        ensures
            final(self).wf(),
            final(self)@ == reload_finished(old(self)@, old_id, new_id, old_name@),
            r,
    {
        self.registry.delete(old_id);
        self.registry.rename(new_id, old_name);
        let i = self.position(new_id);
        if i < self.processes.len() {
            proof {
                let p = self@.processes[i as int];
                lemma_proc_pos(self@.processes, new_id);
                lemma_transitions_keep_ok(
                    p,
                    ExitOutcome::Unknown,
                    ChildPoll::Alive,
                    0,
                    0,
                    0,
                    true,
                    0,
                    0,
                    old_name@,
                    0,
                    0,
                );
                lemma_replace_proc(self@, new_id, proc_renamed(p, old_name@));
            }
            self.processes[i].spec.name = copy_text(old_name);
            assert(self@.processes =~= reload_finished(
                old(self)@,
                old_id,
                new_id,
                old_name@,
            ).processes);
        }
        true
    }

    /// The specification under which a rolling reload starts the replacement
    /// of instance `index` of the cluster `parent_id`, registered under its
    /// temporary name. `None` if the map does not hold the parent, the
    /// parent has no such instance, or the map does not hold the instance.
    pub fn begin_instance_reload(&mut self, parent_id: u32, index: u32) -> (r: Result<
        Option<AppSpec>,
        Error,
    >)
        requires
            old(self).wf(),
        ensures
            final(self).wf(),
            match proc_of(old(self)@.processes, parent_id) {
                None => final(self)@ == old(self)@ && r matches Ok(None),
                Some(p) => if index >= p.cluster_instance_ids.len() || proc_of(
                    old(self)@.processes,
                    p.cluster_instance_ids[index as int],
                ) is None {
                    final(self)@ == old(self)@ && r matches Ok(None)
                } else if can_insert(
                    old(self)@.registry,
                    reload_name(instance_name(p.spec.name, index)),
                ) {
                    final(self)@ == (SupervisorView {
                        registry: inserted(
                            old(self)@.registry,
                            instance_replacement_of(old(self)@, p.spec, index),
                        ),
                        ..old(self)@
                    }) && (r matches Ok(Some(spec)) && spec@ == instance_replacement_of(
                        old(self)@,
                        p.spec,
                        index,
                    ))
                } else {
                    final(self)@ == old(self)@ && (r matches Err(Error::DbError(d)) && d@
                        == insert_refused_detail(
                        old(self)@.registry,
                        reload_name(instance_name(p.spec.name, index)),
                    ))
                },
            },
    {
        let i = self.position(parent_id);
        if i >= self.processes.len() {
            return Ok(None);
        }
        if index as usize >= self.processes[i].cluster_instance_ids.len() {
            return Ok(None);
        }
        let old_instance = self.processes[i].cluster_instance_ids[index as usize];
        let k = self.position(old_instance);
        if k >= self.processes.len() {
            return Ok(None);
        }
        let port = Supervisor::calculate_instance_port(&self.processes[i].spec, index);
        let mut spec = self.processes[i].spec.for_instance(index, port);
        let mut name = spec.name.clone();
        name.append("-reload");
        spec.name = name;
        match self.registry.insert(&spec) {
            Ok(new_id) => {
                spec.id = new_id;
                Ok(Some(spec))
            },
            Err(e) => Err(e),
        }
    }

    /// The last step of replacing one instance in a rolling reload, after
    /// the old instance was stopped and deleted: the new instance takes the
    /// instance's name, and the old one's place in the parent's list.
    pub fn finish_instance_reload(&mut self, parent_id: u32, old_id: u32, new_id: u32, name: &str)
        requires
            old(self).wf(),
        ensures
            final(self).wf(),
            final(self)@ == instance_reloaded(old(self)@, parent_id, old_id, new_id, name@),
    {
        self.registry.rename(new_id, name);
        let i = self.position(new_id);
        if i < self.processes.len() {
            proof {
                let p = self@.processes[i as int];
                lemma_proc_pos(self@.processes, new_id);
                lemma_transitions_keep_ok(
                    p,
                    ExitOutcome::Unknown,
                    ChildPoll::Alive,
                    0,
                    0,
                    0,
                    true,
                    0,
                    0,
                    name@,
                    0,
                    0,
                );
                lemma_replace_proc(self@, new_id, proc_renamed(p, name@));
            }
            self.processes[i].spec.name = copy_text(name);
            assert(self@.processes =~= replace_proc(
                old(self)@.processes,
                new_id,
                proc_renamed(old(self)@.processes[i as int], name@),
            ));
        }
        let ghost mid = self@;
        let k = self.position(parent_id);
        if k < self.processes.len() {
            let pos = Supervisor::index_of_id(&self.processes[k].cluster_instance_ids, old_id);
            proof {
                let p = self@.processes[k as int];
                lemma_proc_pos(self@.processes, parent_id);
                lemma_transitions_keep_ok(
                    p,
                    ExitOutcome::Unknown,
                    ChildPoll::Alive,
                    0,
                    0,
                    0,
                    true,
                    0,
                    0,
                    name@,
                    pos as int,
                    new_id,
                );
                lemma_replace_proc(self@, parent_id, proc_patched(p, pos as int, new_id));
            }
            if pos < self.processes[k].cluster_instance_ids.len() {
                self.processes[k].cluster_instance_ids[pos] = new_id;
            }
            assert(self@.processes =~= replace_proc(
                mid.processes,
                parent_id,
                proc_patched(mid.processes[k as int], pos as int, new_id),
            ));
        }
    }

    fn index_of_id(ids: &Vec<u32>, id: u32) -> (r: usize)
        ensures
            r == id_index(ids@, id),
            r <= ids.len(),
    {
        let mut i: usize = 0;
        while i < ids.len()
            invariant
                i <= ids.len(),
                forall|j: int| 0 <= j < i ==> ids@[j] != id,
            decreases ids.len() - i,
        {
            if ids[i] == id {
                proof {
                    lemma_first_of_is(ids@, id, i as int);
                }
                return i;
            }
            i = i + 1;
        }
        proof {
            lemma_first_of_is(ids@, id, i as int);
        }
        i
    }

    /// What a reload is to wait for before it goes on with the new instance
    /// `id`.
    pub fn wait_needed(&self, id: u32) -> (r: WaitNeed)
        ensures
            r@ == (match proc_of(self@.processes, id) {
                None => WaitNeedView::Gone,
                Some(p) => match p.spec.health_check {
                    Some(h) => WaitNeedView::Probe(h),
                    None => WaitNeedView::Nothing,
                },
            }),
    {
        let i = self.position(id);
        if i >= self.processes.len() {
            return WaitNeed::Gone;
        }
        match &self.processes[i].spec.health_check {
            Some(h) => WaitNeed::Probe(h.clone()),
            None => WaitNeed::Nothing,
        }
    }

    /// What a reload comes to once the wait for its replacement `new_id`
    /// is over: a replacement that serves lets the reload go on; one that
    /// did not become healthy is to be rolled back, that is stopped and
    /// deleted, and the reload fails with `HealthCheckFailed`, the old
    /// instance still running.
    pub fn reload_settled(new_id: u32, healthy: bool) -> (r: Result<(), ReloadFailure>)
        ensures
            healthy ==> r is Ok,
            !healthy ==> r == Err::<(), ReloadFailure>(
                ReloadFailure { roll_back: new_id, error: Error::HealthCheckFailed },
            ),
    {
        if healthy {
            Ok(())
        } else {
            Err(ReloadFailure { roll_back: new_id, error: Error::HealthCheckFailed })
        }
    }

    /// Takes note of the launch of one instance in a cluster start, where
    /// `started` are the ids of the instances launched before it, in
    /// cluster order: a launched instance joins them; a failed launch ends
    /// the start, the instances launched before are to be stopped, in
    /// order, and the start fails with that launch's error.
    pub fn cluster_step(started: Vec<u32>, launch: Result<u32, Error>) -> (r: Result<
        Vec<u32>,
        ClusterAbort,
    >)
        ensures
            match launch {
                Ok(id) => r matches Ok(ids) && ids@ == started@.push(id),
                Err(e) => r matches Err(abort) && abort.stop@ == started@ && abort.error == e,
            },
    {
        match launch {
            Ok(id) => {
                let mut ids = started;
                ids.push(id);
                Ok(ids)
            },
            Err(e) => Err(ClusterAbort { stop: started, error: e }),
        }
    }

    /// Whether every instance of the cluster `parent` was launched, so that
    /// the parent can be recorded with `ids`.
    pub fn cluster_complete(parent: &AppSpec, ids: &Vec<u32>) -> (r: bool)
        ensures
            r == (is_parent_spec(parent@) && ids@.len() == parent@.instances),
    {
        parent.instances > 1 && parent.instance_id.is_none() && ids.len() as u64
            == parent.instances as u64
    }

    /// Whether a reload's wait has expired after `elapsed_ms`.
    pub fn reload_wait_expired(elapsed_ms: u64) -> (r: bool)
        ensures
            r == (elapsed_ms >= RELOAD_HEALTH_TIMEOUT_MS),
    {
        elapsed_ms >= RELOAD_HEALTH_TIMEOUT_MS
    }

    /// Takes note of a probe during a reload's wait for `id`, and says how
    /// the wait goes on.
    pub fn note_reload_probe(&mut self, id: u32, healthy: bool, now_utc: i64) -> (r: WaitStep)
        requires
            old(self).wf(),
        ensures
            final(self).wf(),
            final(self)@ == changed(old(self)@, id, |p: ProcView| proc_checked(p, healthy, now_utc)),
            r == (match proc_of(old(self)@.processes, id) {
                None => WaitStep::Gone,
                Some(_) => if healthy {
                    WaitStep::Healthy
                } else {
                    WaitStep::Retry
                },
            }),
    {
        let i = self.position(id);
        if i >= self.processes.len() {
            return WaitStep::Gone;
        }
        proof {
            let p = self@.processes[i as int];
            lemma_proc_pos(self@.processes, id);
            lemma_replace_proc(self@, id, proc_checked(p, healthy, now_utc));
        }
        self.processes[i].state.healthy = healthy;
        self.processes[i].state.last_health_check = Some(now_utc);
        assert(self@.processes =~= changed(
            old(self)@,
            id,
            |p: ProcView| proc_checked(p, healthy, now_utc),
        ).processes);
        if healthy {
            WaitStep::Healthy
        } else {
            WaitStep::Retry
        }
    }
}

/// Status, pid and child agree: every record of the map that is not a
/// cluster parent is Running exactly when it has both a pid and a child.
pub proof fn lemma_running_means_pid_and_child(s: SupervisorView, i: int)
    requires
        sup_wf(s),
        0 <= i < s.processes.len(),
        !is_parent_spec(s.processes[i].spec),
    ensures
        s.processes[i].state.status == AppStatus::Running <==> (s.processes[i].state.pid is Some
            && s.processes[i].child is Some),
{
    assert(proc_ok(s.processes[i]));
}

/// Start, then stop: after a start was recorded, the record can be stopped,
/// and once the stop has begun and ended the record is exactly Stopped,
/// with no pid and no child, and with an exit code, however the child
/// ended.
pub proof fn lemma_start_then_stop_is_stopped(
    s: SupervisorView,
    spec: AppSpecView,
    pid: u32,
    now_utc: i64,
    now: u64,
    code: ExitOutcome,
)
    requires
        sup_wf(s),
        !is_parent_spec(spec),
    ensures
        ({
            let started = SupervisorView {
                processes: with_proc(s.processes, proc_started(spec, pid, now_utc, now)),
                ..s
            };
            let stopped = stop_finished(stop_begun(started, spec.id), spec.id, code);
            &&& can_stop(started, spec.id)
            &&& sup_wf(stopped)
            &&& proc_of(stopped.processes, spec.id) matches Some(p) && p.state.status
                == AppStatus::Stopped && p.state.pid is None && p.child is None
                && p.state.last_exit_code == Some(exit_code_of(code))
        }),
{
    let fresh = proc_started(spec, pid, now_utc, now);
    lemma_new_records_ok(spec, Seq::empty(), pid, now_utc, now);
    lemma_with_proc(s, fresh, 0);
    let started = SupervisorView { processes: with_proc(s.processes, fresh), ..s };
    let going = proc_stopping(fresh);
    lemma_transitions_keep_ok(fresh, code, ChildPoll::Alive, 0, 0, 0, true, 0, 0, fresh.spec.name, 0, 0);
    lemma_replace_proc(started, spec.id, going);
    let stopping = stop_begun(started, spec.id);
    let ended = proc_stopped(going, code);
    lemma_transitions_keep_ok(going, code, ChildPoll::Alive, 0, 0, 0, true, 0, 0, going.spec.name, 0, 0);
    lemma_replace_proc(stopping, spec.id, ended);
}

/// A stop of a record that is not up changes nothing: the stop does not
/// begin, and the supervisor is as it was.
pub proof fn lemma_stop_of_stopped_changes_nothing(s: SupervisorView, id: u32)
    requires
        proc_of(s.processes, id) matches Some(p) && !status_is_running(p.state.status),
    ensures
        !can_stop(s, id),
        stop_begun(s, id) == s,
{
}

proof fn lemma_ids_from_one(r: RegistryView, i: int)
    requires
        registry_wf(r),
        0 <= i < r.apps.len(),
    ensures
        r.apps[i].id >= i + 1,
    decreases i,
{
    if i > 0 {
        lemma_ids_from_one(r, i - 1);
        assert(r.apps[i - 1].id < r.apps[i].id);
    }
}

proof fn lemma_resurrect_prefix(r: RegistryView, k: int)
    requires
        registry_wf(r),
        0 <= k <= r.apps.len(),
    ensures
        ({
            let saved = r.apps.subrange(0, k);
            let back = resurrected(crate::registry::empty_registry(), saved);
            &&& back.apps.len() == k
            &&& back.next == k + 1
            &&& forall|i: int|
                0 <= i < k ==> #[trigger] back.apps[i] == (AppSpecView {
                    id: (i + 1) as u32,
                    ..r.apps[i]
                })
            &&& revived(crate::registry::empty_registry(), saved) == back.apps
        }),
    decreases k,
{
    let empty = crate::registry::empty_registry();
    if k == 0 {
        assert(r.apps.subrange(0, 0) =~= Seq::empty());
        assert(revived(empty, r.apps.subrange(0, 0)) =~= resurrected(
            empty,
            r.apps.subrange(0, 0),
        ).apps);
    } else {
        lemma_resurrect_prefix(r, k - 1);
        let saved = r.apps.subrange(0, k);
        let earlier = r.apps.subrange(0, k - 1);
        assert(saved.drop_last() =~= earlier);
        assert(saved.last() == r.apps[k - 1]);
        let before = resurrected(empty, earlier);
        let name = r.apps[k - 1].name;
        let f = |a: AppSpecView| a.name == name;
        assert forall|j: int| 0 <= j < before.apps.len() implies !f(#[trigger] before.apps[j]) by {
            assert(before.apps[j].name == r.apps[j].name);
            assert(r.apps[j].name != r.apps[k - 1].name);
        }
        lemma_first_where_is(before.apps, f, before.apps.len() as int);
        lemma_ids_from_one(r, r.apps.len() - 1);
        assert(can_insert(before, name));
        let back = resurrected(empty, saved);
        assert(back == inserted(before, r.apps[k - 1]));
        assert forall|i: int| 0 <= i < k implies #[trigger] back.apps[i] == (AppSpecView {
            id: (i + 1) as u32,
            ..r.apps[i]
        }) by {
            if i < k - 1 {
                assert(back.apps[i] == before.apps[i]);
            }
        }
        assert(revived(empty, saved) =~= back.apps);
    }
}

/// Save, then resurrect on an empty daemon: the registry holds the same
/// specifications under the same names as before, in the same order; only
/// the ids are given out anew, from 1 on. All of them are handed out to be
/// started.
pub proof fn lemma_save_then_resurrect(r: RegistryView)
    requires
        registry_wf(r),
    ensures
        ({
            let back = resurrected(crate::registry::empty_registry(), r.apps);
            &&& back.apps.len() == r.apps.len()
            &&& forall|i: int|
                0 <= i < r.apps.len() ==> #[trigger] back.apps[i] == (AppSpecView {
                    id: (i + 1) as u32,
                    ..r.apps[i]
                })
            &&& revived(crate::registry::empty_registry(), r.apps) == back.apps
        }),
{
    lemma_resurrect_prefix(r, r.apps.len() as int);
    assert(r.apps.subrange(0, r.apps.len() as int) =~= r.apps);
}

/// The supervisor after the first `k` instances of the cluster `parent`
/// were launched: each was given its registry row and id, and was recorded
/// as started with the pid that `pids` holds for it.
pub open spec fn instances_started(
    s: SupervisorView,
    parent: AppSpecView,
    k: nat,
    pids: Seq<u32>,
    now_utc: i64,
    now: u64,
) -> SupervisorView
    decreases k,
{
    if k == 0 {
        s
    } else {
        let before = instances_started(s, parent, (k - 1) as nat, pids, now_utc, now);
        let instance = cluster_specs(parent)[k - 1];
        SupervisorView {
            registry: inserted(before.registry, instance),
            processes: with_proc(
                before.processes,
                proc_started(
                    AppSpecView { id: before.registry.next, ..instance },
                    pids[k - 1],
                    now_utc,
                    now,
                ),
            ),
            ..before
        }
    }
}

/// The ids that the `k` instances launched from the supervisor `s` on were
/// given: the `k` ids from the registry's next id on.
pub open spec fn started_ids(s: SupervisorView, k: nat) -> Seq<u32> {
    Seq::new(k, |i: int| (s.registry.next + i) as u32)
}

/// Every instance of the cluster `parent` can be registered when its turn
/// comes: its name is free and an id is left.
pub open spec fn instances_insertable(
    s: SupervisorView,
    parent: AppSpecView,
    pids: Seq<u32>,
    now_utc: i64,
    now: u64,
) -> bool {
    forall|i: nat|
        i < parent.instances ==> can_insert(
            (#[trigger] instances_started(s, parent, i, pids, now_utc, now)).registry,
            instance_name(parent.name, i as u32),
        )
}

proof fn lemma_instances_started(
    s: SupervisorView,
    parent: AppSpecView,
    k: nat,
    pids: Seq<u32>,
    now_utc: i64,
    now: u64,
)
    requires
        sup_wf(s),
        is_parent_spec(parent),
        parent.id < s.registry.next,
        k <= parent.instances,
        instances_insertable(s, parent, pids, now_utc, now),
    ensures
        ({
            let after = instances_started(s, parent, k, pids, now_utc, now);
            &&& sup_wf(after)
            &&& after.registry.next == s.registry.next + k
            &&& forall|i: int|
                0 <= i < k ==> (proc_of(after.processes, #[trigger] started_ids(s, k)[i]) matches Some(
                    c,
                ) && c.spec.instance_id == Some(i as u32) && c.spec.name == instance_name(
                    parent.name,
                    i as u32,
                ))
        }),
    decreases k,
{
    if k > 0 {
        let j = (k - 1) as nat;
        lemma_instances_started(s, parent, j, pids, now_utc, now);
        let before = instances_started(s, parent, j, pids, now_utc, now);
        let after = instances_started(s, parent, k, pids, now_utc, now);
        let instance = cluster_specs(parent)[k - 1];
        assert(instance == instance_of(parent, j as u32, instance_port(parent, j as u32)));
        assert(can_insert(before.registry, instance.name));
        crate::registry::lemma_inserted_wf(before.registry, instance);
        let launched = AppSpecView { id: before.registry.next, ..instance };
        let p = proc_started(launched, pids[k - 1], now_utc, now);
        lemma_new_records_ok(launched, Seq::empty(), pids[k - 1], now_utc, now);
        let mid = SupervisorView { registry: inserted(before.registry, instance), ..before };
        lemma_with_proc(mid, p, 0);
        assert forall|i: int| 0 <= i < k implies (proc_of(
            after.processes,
            #[trigger] started_ids(s, k)[i],
        ) matches Some(c) && c.spec.instance_id == Some(i as u32) && c.spec.name == instance_name(
            parent.name,
            i as u32,
        )) by {
            if i < k - 1 {
                assert(started_ids(s, k)[i] == started_ids(s, j)[i]);
                lemma_with_proc(mid, p, started_ids(s, k)[i]);
            }
        }
    }
}

/// A cluster start gives a cluster: when the instances of a registered
/// cluster parent are launched in order, each under the next id of the
/// registry, and the parent aggregate is then recorded with their ids, the
/// parent lists as many ids as it has instances, and each id is that of a
/// record with its cluster index and the name derived from the parent's.
pub proof fn lemma_cluster_start_gives_cluster(
    s: SupervisorView,
    parent: AppSpecView,
    pids: Seq<u32>,
    now_utc: i64,
    now: u64,
)
    requires
        sup_wf(s),
        is_parent_spec(parent),
        parent.id < s.registry.next,
        instances_insertable(s, parent, pids, now_utc, now),
    ensures
        ({
            let launched = instances_started(s, parent, parent.instances as nat, pids, now_utc, now);
            let ids = started_ids(s, parent.instances as nat);
            let done = SupervisorView {
                processes: with_proc(
                    launched.processes,
                    proc_parent(parent, ids, now_utc, now),
                ),
                ..launched
            };
            &&& children_recorded(launched.processes, parent, ids)
            &&& sup_wf(done)
            &&& cluster_ok(done, parent.id)
        }),
{
    let n = parent.instances as nat;
    lemma_instances_started(s, parent, n, pids, now_utc, now);
    let launched = instances_started(s, parent, n, pids, now_utc, now);
    let ids = started_ids(s, n);
    let p = proc_parent(parent, ids, now_utc, now);
    lemma_new_records_ok(parent, ids, 0, now_utc, now);
    lemma_with_proc(launched, p, 0);
    assert forall|i: int| 0 <= i < ids.len() implies (proc_of(
        with_proc(launched.processes, p),
        #[trigger] ids[i],
    ) matches Some(c) && c.spec.instance_id == Some(i as u32) && c.spec.name == instance_name(
        parent.name,
        i as u32,
    )) by {
        lemma_with_proc(launched, p, ids[i]);
    }
}

/// The supervisor once a single reload began and its replacement came up
/// as the child `pid`.
pub open spec fn reload_started(s: SupervisorView, p: ProcView, pid: u32, now_utc: i64, now: u64) -> SupervisorView {
    SupervisorView {
        registry: inserted(s.registry, AppSpecView { name: reload_name(p.spec.name), ..p.spec }),
        processes: with_proc(s.processes, proc_started(replacement_of(s, p), pid, now_utc, now)),
        ..s
    }
}

/// A reload that is rolled back leaves everything as it was: when the
/// replacement of a single process came up but did not become healthy, and
/// was stopped and deleted again, the map holds the records it held before
/// the reload, the old instance among them as it was, and the registry the
/// rows it held.
pub proof fn lemma_rolled_back_reload_changes_nothing(
    s: SupervisorView,
    id: u32,
    pid: u32,
    now_utc: i64,
    now: u64,
    code: ExitOutcome,
)
    requires
        sup_wf(s),
        proc_of(s.processes, id) matches Some(p) && p.cluster_instance_ids.len() == 0
            && !is_parent_spec(p.spec) && can_insert(s.registry, reload_name(p.spec.name)),
        proc_of(s.processes, s.registry.next) is None,
    ensures
        ({
            let p = proc_of(s.processes, id)->0;
            let new_id = s.registry.next;
            let started = reload_started(s, p, pid, now_utc, now);
            let stopped = stop_finished(stop_begun(started, new_id), new_id, code);
            let back = deleted(stopped, new_id);
            &&& can_stop(started, new_id)
            &&& proc_of(started.processes, id) == Some(p)
            &&& back.processes == s.processes
            &&& back.registry.apps == s.registry.apps
            &&& proc_of(back.processes, id) == Some(p)
        }),
{
    let p = proc_of(s.processes, id)->0;
    let new_id = s.registry.next;
    let n = s.processes.len() as int;
    let f = |q: ProcView| q.spec.id == new_id;
    lemma_proc_pos(s.processes, new_id);
    lemma_proc_pos(s.processes, id);
    assert(proc_pos(s.processes, new_id) == n);
    let fresh = proc_started(replacement_of(s, p), pid, now_utc, now);
    let procs1 = s.processes.push(fresh);
    assert(with_proc(s.processes, fresh) == procs1);
    assert forall|j: int| 0 <= j < n implies !f(#[trigger] procs1[j]) by {
        assert(procs1[j] == s.processes[j]);
    }
    assert(f(procs1[n]));
    lemma_first_where_is(procs1, f, n);
    assert(proc_pos(procs1, new_id) == n);
    let g = |q: ProcView| q.spec.id == id;
    let k = proc_pos(s.processes, id);
    assert forall|j: int| 0 <= j < k implies !g(#[trigger] procs1[j]) by {
        assert(procs1[j] == s.processes[j]);
    }
    assert(procs1[k] == s.processes[k]);
    lemma_first_where_is(procs1, g, k);
    let started = reload_started(s, p, pid, now_utc, now);
    assert(started.processes == procs1);
    let going = proc_stopping(fresh);
    let procs2 = procs1.update(n, going);
    assert(stop_begun(started, new_id).processes == procs2);
    assert forall|j: int| 0 <= j < n implies !f(#[trigger] procs2[j]) by {
        assert(procs2[j] == s.processes[j]);
    }
    assert(f(procs2[n]));
    lemma_first_where_is(procs2, f, n);
    let ended = proc_stopped(going, code);
    let procs3 = procs2.update(n, ended);
    let stopped = stop_finished(stop_begun(started, new_id), new_id, code);
    assert(stopped.processes == procs3);
    assert forall|j: int| 0 <= j < n implies !f(#[trigger] procs3[j]) by {
        assert(procs3[j] == s.processes[j]);
    }
    assert(f(procs3[n]));
    lemma_first_where_is(procs3, f, n);
    assert(procs3.remove(n) =~= s.processes);
    let apps = s.registry.apps;
    let row = AppSpecView { id: new_id, name: reload_name(p.spec.name), ..p.spec };
    let apps1 = apps.push(row);
    assert(started.registry.apps == apps1);
    let h = |a: AppSpecView| a.id == new_id;
    assert forall|j: int| 0 <= j < apps.len() implies !h(#[trigger] apps1[j]) by {
        assert(apps1[j] == apps[j]);
        assert(apps[j].id < s.registry.next);
    }
    assert(h(apps1[apps.len() as int]));
    lemma_first_where_is(apps1, h, apps.len() as int);
    assert(apps1.remove(apps.len() as int) =~= apps);
}

/// Every instance of a cluster carries its index and the name derived from
/// the cluster's; one that is assigned a port carries that port, in its
/// specification and as `PORT` in its environment.
pub proof fn lemma_instances_carry_their_port(spec: AppSpecView, i: int)
    requires
        0 <= i < spec.instances,
    ensures
        ({
            let c = cluster_specs(spec)[i];
            &&& c.instance_id == Some(i as u32)
            &&& c.name == instance_name(spec.name, i as u32)
            &&& instance_port(spec, i as u32) matches Some(p) ==> c.port == Some(p)
                && crate::appspec::env_get(c.env, "PORT"@) == Some(
                crate::text::decimal(p as nat),
            )
        }),
{
    match instance_port(spec, i as u32) {
        Some(p) => {
            crate::appspec::lemma_env_set_get(
                spec.env,
                "PORT"@,
                crate::text::decimal(p as nat),
                "PORT"@,
            );
        },
        None => {},
    }
}

/// The supervisor after the first `k` instances of the cluster `parent`
/// were launched again under the ids `ids` that their rows have, each
/// recorded as started with the pid that `pids` holds for it.
pub open spec fn instances_restarted(
    s: SupervisorView,
    parent: AppSpecView,
    ids: Seq<u32>,
    k: nat,
    pids: Seq<u32>,
    now_utc: i64,
    now: u64,
) -> SupervisorView
    decreases k,
{
    if k == 0 {
        s
    } else {
        let before = instances_restarted(s, parent, ids, (k - 1) as nat, pids, now_utc, now);
        SupervisorView {
            processes: with_proc(
                before.processes,
                proc_started(
                    AppSpecView { id: ids[k - 1], ..cluster_specs(parent)[k - 1] },
                    pids[k - 1],
                    now_utc,
                    now,
                ),
            ),
            ..before
        }
    }
}

/// The instances of the cluster `parent` are registered under the ids
/// `ids`, one row and one id for each, and none of them is up.
pub open spec fn instances_at_rest(s: SupervisorView, parent: AppSpecView, ids: Seq<u32>) -> bool {
    &&& ids.len() == parent.instances
    &&& forall|i: int|
        0 <= i < ids.len() ==> {
            &&& #[trigger] ids[i] != parent.id
            &&& row_by_name(s.registry.apps, instance_name(parent.name, i as u32)) matches Some(
                row,
            ) && row.id == ids[i]
            &&& !can_stop(s, ids[i])
        }
    &&& forall|i: int, j: int| 0 <= i < j < ids.len() ==> #[trigger] ids[i] != #[trigger] ids[j]
}

proof fn lemma_instances_restarted(
    s: SupervisorView,
    parent: AppSpecView,
    ids: Seq<u32>,
    k: nat,
    pids: Seq<u32>,
    now_utc: i64,
    now: u64,
)
    requires
        sup_wf(s),
        is_parent_spec(parent),
        instances_at_rest(s, parent, ids),
        k <= parent.instances,
    ensures
        ({
            let after = instances_restarted(s, parent, ids, k, pids, now_utc, now);
            &&& sup_wf(after)
            &&& after.registry == s.registry
            &&& forall|i: int|
                0 <= i < k ==> (proc_of(after.processes, #[trigger] ids[i]) matches Some(c)
                    && c.spec.instance_id == Some(i as u32) && c.spec.name == instance_name(
                    parent.name,
                    i as u32,
                ) && c.state.status == AppStatus::Running)
            &&& forall|i: int|
                k <= i < ids.len() ==> proc_of(after.processes, #[trigger] ids[i]) == proc_of(
                    s.processes,
                    ids[i],
                )
            &&& proc_of(after.processes, parent.id) == proc_of(s.processes, parent.id)
        }),
    decreases k,
{
    if k > 0 {
        let j = (k - 1) as nat;
        lemma_instances_restarted(s, parent, ids, j, pids, now_utc, now);
        let before = instances_restarted(s, parent, ids, j, pids, now_utc, now);
        let after = instances_restarted(s, parent, ids, k, pids, now_utc, now);
        let instance = cluster_specs(parent)[k - 1];
        assert(instance == instance_of(parent, j as u32, instance_port(parent, j as u32)));
        let launched = AppSpecView { id: ids[k - 1], ..instance };
        let p = proc_started(launched, pids[k - 1], now_utc, now);
        lemma_new_records_ok(launched, Seq::empty(), pids[k - 1], now_utc, now);
        lemma_with_proc(before, p, parent.id);
        assert forall|i: int| 0 <= i < k implies (proc_of(after.processes, #[trigger] ids[i]) matches Some(
            c,
        ) && c.spec.instance_id == Some(i as u32) && c.spec.name == instance_name(
            parent.name,
            i as u32,
        ) && c.state.status == AppStatus::Running) by {
            if i < k - 1 {
                lemma_with_proc(before, p, ids[i]);
            }
        }
        assert forall|i: int| k <= i < ids.len() implies proc_of(
            after.processes,
            #[trigger] ids[i],
        ) == proc_of(s.processes, ids[i]) by {
            lemma_with_proc(before, p, ids[i]);
        }
    }
}

/// A cluster that was stopped, or brought back from a snapshot, starts
/// again: where every instance of the cluster `parent` is registered under
/// its name and none is up, each instance in its turn is given the id that
/// its row has and is not refused; and once all are launched and the
/// parent aggregate is recorded with these ids, the registry holds the rows
/// it held, every instance is Running under its index and its name, and the
/// parent lists them in cluster order.
pub proof fn lemma_cluster_starts_again(
    s: SupervisorView,
    parent: AppSpecView,
    ids: Seq<u32>,
    pids: Seq<u32>,
    now_utc: i64,
    now: u64,
)
    requires
        sup_wf(s),
        is_parent_spec(parent),
        instances_at_rest(s, parent, ids),
    ensures
        forall|k: nat|
            k < parent.instances ==> {
                let before = #[trigger] instances_restarted(s, parent, ids, k, pids, now_utc, now);
                &&& !running_by_name(before, instance_name(parent.name, k as u32))
                &&& id_available(before, instance_name(parent.name, k as u32))
                &&& resolved_id(before, instance_name(parent.name, k as u32)) == ids[k as int]
                &&& resolved_registry(before, cluster_specs(parent)[k as int]) == s.registry
            },
        ({
            let launched = instances_restarted(
                s,
                parent,
                ids,
                parent.instances as nat,
                pids,
                now_utc,
                now,
            );
            let done = SupervisorView {
                processes: with_proc(
                    launched.processes,
                    proc_parent(parent, ids, now_utc, now),
                ),
                ..launched
            };
            &&& sup_wf(done)
            &&& done.registry == s.registry
            &&& cluster_ok(done, parent.id)
            &&& forall|i: int|
                0 <= i < ids.len() ==> (proc_of(done.processes, #[trigger] ids[i]) matches Some(c)
                    && c.state.status == AppStatus::Running)
        }),
{
    assert forall|k: nat| k < parent.instances implies {
        let before = #[trigger] instances_restarted(s, parent, ids, k, pids, now_utc, now);
        &&& !running_by_name(before, instance_name(parent.name, k as u32))
        &&& id_available(before, instance_name(parent.name, k as u32))
        &&& resolved_id(before, instance_name(parent.name, k as u32)) == ids[k as int]
        &&& resolved_registry(before, cluster_specs(parent)[k as int]) == s.registry
    } by {
        lemma_instances_restarted(s, parent, ids, k, pids, now_utc, now);
        let before = instances_restarted(s, parent, ids, k, pids, now_utc, now);
        assert(proc_of(before.processes, ids[k as int]) == proc_of(s.processes, ids[k as int]));
        assert(!can_stop(s, ids[k as int]));
        assert(cluster_specs(parent)[k as int].name == instance_name(parent.name, k as u32));
    }
    let n = parent.instances as nat;
    lemma_instances_restarted(s, parent, ids, n, pids, now_utc, now);
    let launched = instances_restarted(s, parent, ids, n, pids, now_utc, now);
    let p = proc_parent(parent, ids, now_utc, now);
    lemma_new_records_ok(parent, ids, 0, now_utc, now);
    lemma_with_proc(launched, p, 0);
    assert forall|i: int| 0 <= i < ids.len() implies (proc_of(
        with_proc(launched.processes, p),
        #[trigger] ids[i],
    ) matches Some(c) && c.spec.instance_id == Some(i as u32) && c.spec.name == instance_name(
        parent.name,
        i as u32,
    ) && c.state.status == AppStatus::Running) by {
        lemma_with_proc(launched, p, ids[i]);
    }
}

/// The view of an optional record.
pub open spec fn opt_proc(o: Option<SupervisedProcess>) -> Option<ProcView> {
    match o {
        Some(p) => Some(p@),
        None => None,
    }
}

} // verus!
