//! Metrics and limit enforcement: fresh samples are written onto the run
//! states, and processes over their memory or uptime limit are marked for a
//! restart, once per breach.

use crate::notify::{ProcessEvent, ProcessEventView};
use crate::process::{proc_ok, proc_sampled, ProcView};
use crate::types::status_is_running;
use vstd::prelude::*;
use vstd::string::*;

verus! {

/// Seconds between two rounds of metrics.
pub const METRICS_TICK_SECS: u64 = 2;

/// The bytes of one megabyte, as the memory limit counts them.
pub const BYTES_PER_MB: u64 = 1048576;

/// What the system reports of one process. The CPU share is in hundredths
/// of a percent.
#[derive(Debug, Clone, Copy, PartialEq, Eq, Structural)]
pub struct MetricSample {
    pub pid: u32,
    pub cpu_centipercent: u32,
    pub memory_bytes: u64,
}

/// Which limit a process is over.
#[derive(Debug, Clone, Copy, PartialEq, Eq, Structural)]
pub enum LimitKind {
    Memory,
    Uptime,
}

/// The name of a limit, as the log gives the reason of a restart.
pub open spec fn limit_name(k: LimitKind) -> Seq<char> {
    match k {
        LimitKind::Memory => "memory_limit"@,
        LimitKind::Uptime => "max_uptime"@,
    }
}

impl LimitKind {
    pub fn as_str(&self) -> (r: &'static str)
        ensures
            r@ == limit_name(*self),
    {
        match self {
            LimitKind::Memory => "memory_limit",
            LimitKind::Uptime => "max_uptime",
        }
    }
}

/// A process that is to be restarted because it is over a limit.
#[derive(Debug)]
pub struct LimitBreach {
    pub id: u32,
    pub name: String,
    pub kind: LimitKind,
    /// The notification to send, if none went out for this breach yet.
    pub event: Option<ProcessEvent>,
}

/// The mathematical value of [`LimitBreach`].
pub struct LimitBreachView {
    pub id: u32,
    pub name: Seq<char>,
    pub kind: LimitKind,
    pub event: Option<ProcessEventView>,
}

impl View for LimitBreach {
    type V = LimitBreachView;

    open spec fn view(&self) -> LimitBreachView {
        LimitBreachView {
            id: self.id,
            name: self.name@,
            kind: self.kind,
            event: match self.event {
                Some(e) => Some(e@),
                None => None,
            },
        }
    }
}

/// The views of a list of breaches, in order.
pub open spec fn breach_views(v: Seq<LimitBreach>) -> Seq<LimitBreachView> {
    v.map_values(|b: LimitBreach| b@)
}

/// The index of the first sample for `pid`, or the number of samples.
pub open spec fn sample_pos(samples: Seq<MetricSample>, pid: u32) -> int {
    crate::seqs::first_where(samples, |m: MetricSample| m.pid == pid)
}

/// The record with the sample of its pid written onto its state, if it has a
/// pid and there is a sample for it.
pub open spec fn proc_measured(p: ProcView, samples: Seq<MetricSample>) -> ProcView {
    match p.state.pid {
        Some(pid) => {
            let i = sample_pos(samples, pid);
            if 0 <= i && i < samples.len() {
                proc_sampled(p, samples[i].cpu_centipercent, samples[i].memory_bytes)
            } else {
                p
            }
        },
        None => p,
    }
}

/// The records with their samples written onto them.
pub open spec fn measured(procs: Seq<ProcView>, samples: Seq<MetricSample>) -> Seq<ProcView> {
    procs.map_values(|p: ProcView| proc_measured(p, samples))
}

/// The memory of the record in whole megabytes.
pub open spec fn memory_mb(p: ProcView) -> u64 {
    p.state.memory_bytes / BYTES_PER_MB
}

/// The record uses more megabytes than its limit allows.
pub open spec fn over_memory(p: ProcView) -> bool {
    p.spec.max_memory_mb matches Some(limit) && memory_mb(p) > limit
}

/// The record uses fewer megabytes than its limit.
pub open spec fn under_memory(p: ProcView) -> bool {
    p.spec.max_memory_mb matches Some(limit) && memory_mb(p) < limit
}

/// The record has been up for as long as its limit allows, or longer.
pub open spec fn over_uptime(p: ProcView) -> bool {
    p.spec.max_uptime_secs matches Some(max) && p.state.uptime_secs >= max
}

/// The limit that the record is over; memory goes first.
pub open spec fn breach_kind(p: ProcView) -> Option<LimitKind> {
    if over_memory(p) {
        Some(LimitKind::Memory)
    } else if over_uptime(p) {
        Some(LimitKind::Uptime)
    } else {
        None
    }
}

/// What a round of limit checks has gathered so far.
pub struct LimitState {
    /// The ids with a memory notification out.
    pub notified: Set<u32>,
    /// The ids whose limit-triggered stop is in flight.
    pub pending: Set<u32>,
    /// The breaches found in this round.
    pub breaches: Seq<LimitBreachView>,
}

/// The notification for a record over its memory limit.
pub open spec fn memory_event(p: ProcView) -> ProcessEventView {
    ProcessEventView::MemoryLimit {
        name: p.spec.name,
        id: p.spec.id,
        memory_mb: memory_mb(p),
        limit_mb: match p.spec.max_memory_mb {
            Some(l) => l,
            None => 0,
        },
    }
}

/// The check of one record against its limits.
///
/// A record that is not up, or whose stop is already in flight, is passed
/// over. Memory over the limit is notified once, until memory has fallen
/// below the limit again. A record over a limit is marked as pending and
/// reported as a breach, once per round.
pub open spec fn limit_step(acc: LimitState, p: ProcView) -> LimitState {
    if !status_is_running(p.state.status) || acc.pending.contains(p.spec.id) {
        acc
    } else {
        let notified = if over_memory(p) {
            acc.notified.insert(p.spec.id)
        } else if under_memory(p) {
            acc.notified.remove(p.spec.id)
        } else {
            acc.notified
        };
        match breach_kind(p) {
            Some(kind) => LimitState {
                notified,
                pending: acc.pending.insert(p.spec.id),
                breaches: acc.breaches.push(
                    LimitBreachView {
                        id: p.spec.id,
                        name: p.spec.name,
                        kind,
                        event: if kind == LimitKind::Memory && !acc.notified.contains(p.spec.id) {
                            Some(memory_event(p))
                        } else {
                            None
                        },
                    },
                ),
            },
            None => LimitState { notified, ..acc },
        }
    }
}

/// The checks of the records `procs`, in order.
pub open spec fn limit_round(procs: Seq<ProcView>, start: LimitState) -> LimitState
    decreases procs.len(),
{
    if procs.len() == 0 {
        start
    } else {
        limit_step(limit_round(procs.drop_last(), start), procs.last())
    }
}

/// Writing a sample onto a record keeps its invariants, its
/// specification and its status.
pub proof fn lemma_measured_ok(p: ProcView, samples: Seq<MetricSample>)
    requires
        proc_ok(p),
    ensures
        proc_ok(proc_measured(p, samples)),
        proc_measured(p, samples).spec == p.spec,
        proc_measured(p, samples).state.status == p.state.status,
        proc_measured(p, samples).state.pid == p.state.pid,
        proc_measured(p, samples).child == p.child,
{
}

/// A record whose stop is in flight is passed over: while its id is
/// pending, a round neither notifies nor reports it again.
pub proof fn lemma_pending_is_passed_over(acc: LimitState, p: ProcView)
    requires
        acc.pending.contains(p.spec.id),
    ensures
        limit_step(acc, p) == acc,
{
}

/// Memory over the limit is notified once: a record whose id is among the
/// notified is reported without a notification.
pub proof fn lemma_notified_once(acc: LimitState, p: ProcView)
    requires
        status_is_running(p.state.status),
        !acc.pending.contains(p.spec.id),
        over_memory(p),
    ensures
        limit_step(acc, p).breaches.len() == acc.breaches.len() + 1,
        limit_step(acc, p).breaches.last().event is Some <==> !acc.notified.contains(p.spec.id),
        limit_step(acc, p).notified.contains(p.spec.id),
        limit_step(acc, p).pending.contains(p.spec.id),
{
}

/// The sample for `pid`, if there is one.
pub fn find_sample(samples: &Vec<MetricSample>, pid: u32) -> (r: Option<MetricSample>)
    ensures
        r == (if 0 <= sample_pos(samples@, pid) && sample_pos(samples@, pid) < samples.len() {
            Some(samples@[sample_pos(samples@, pid)])
        } else {
            None
        }),
{
    let ghost f = |m: MetricSample| m.pid == pid;
    let mut i: usize = 0;
    while i < samples.len()
        invariant
            i <= samples.len(),
            f == (|m: MetricSample| m.pid == pid),
            forall|j: int| 0 <= j < i ==> !f(#[trigger] samples@[j]),
        decreases samples.len() - i,
    {
        if samples[i].pid == pid {
            proof {
                assert(f(samples@[i as int]));
                crate::seqs::lemma_first_where_is(samples@, f, i as int);
            }
            return Some(samples[i]);
        }
        i = i + 1;
    }
    proof {
        crate::seqs::lemma_first_where_is(samples@, f, i as int);
    }
    None
}

} // verus!
