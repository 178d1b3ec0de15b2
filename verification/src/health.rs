//! Health probing: how a probe's outcome is judged, and the monitor that
//! counts consecutive failures.

use crate::text::{copy_text, decimal, push_decimal, push_signed, signed_decimal};
use crate::types::{utc_now_secs, HealthCheck, HealthCheckView};
use vstd::prelude::*;
use vstd::string::*;

verus! {

/// The result of one health probe. The timestamp is in seconds since the
/// Unix epoch.
#[derive(Debug)]
pub struct HealthCheckResult {
    pub healthy: bool,
    pub timestamp: i64,
    pub duration_ms: u64,
    pub message: Option<String>,
}

/// The mathematical value of [`HealthCheckResult`].
pub struct HealthCheckResultView {
    pub healthy: bool,
    pub timestamp: i64,
    pub duration_ms: u64,
    pub message: Option<Seq<char>>,
}

impl View for HealthCheckResult {
    type V = HealthCheckResultView;

    open spec fn view(&self) -> HealthCheckResultView {
        HealthCheckResultView {
            healthy: self.healthy,
            timestamp: self.timestamp,
            duration_ms: self.duration_ms,
            message: crate::text::opt_text(self.message),
        }
    }
}

/// What an HTTP probe observed.
#[derive(Debug)]
pub enum HttpOutcome {
    /// The endpoint answered with this status code.
    Status(u16),
    /// The request failed; the detail says how.
    Failed(String),
    /// No answer within the timeout.
    TimedOut,
}

/// What a script probe observed.
#[derive(Debug)]
pub enum ScriptOutcome {
    /// The script exited; with status 0 if `success`.
    Exited { success: bool, code: Option<i32> },
    /// The script could not be run; the detail says why.
    Failed(String),
    /// The script did not exit within the timeout.
    TimedOut,
}

/// Which probe a health check asks for.
#[derive(Debug, Clone, Copy, PartialEq, Eq, Structural)]
pub enum ProbeKind {
    Http,
    Script,
    /// Nothing to probe: the process counts as healthy.
    Nothing,
}

/// The probe that a health check asks for: HTTP if a URL is given, else a
/// script if one is given.
pub open spec fn probe_kind_of(c: HealthCheckView) -> ProbeKind {
    if c.http_url is Some {
        ProbeKind::Http
    } else if c.script is Some {
        ProbeKind::Script
    } else {
        ProbeKind::Nothing
    }
}

/// Whether the status code `status` counts as healthy: it is among the
/// expected codes, or none is expected and it is 200.
pub open spec fn status_accepted(expected: Seq<u16>, status: u16) -> bool {
    expected.contains(status) || (expected.len() == 0 && status == 200)
}

/// The judgement of an HTTP probe: healthy or not, and the message if not.
pub open spec fn http_judgement(expected: Seq<u16>, o: HttpOutcome) -> (bool, Option<Seq<char>>) {
    match o {
        HttpOutcome::Status(s) => if status_accepted(expected, s) {
            (true, None)
        } else {
            (false, Some("Unexpected status: "@ + decimal(s as nat)))
        },
        HttpOutcome::Failed(d) => (false, Some("Request failed: "@ + d@)),
        HttpOutcome::TimedOut => (false, Some("Timeout"@)),
    }
}

/// The judgement of a script probe: healthy on exit status 0; a missing exit
/// code reads as -1.
pub open spec fn script_judgement(o: ScriptOutcome) -> (bool, Option<Seq<char>>) {
    match o {
        ScriptOutcome::Exited { success, code } => if success {
            (true, None)
        } else {
            (false, Some("Exit code: "@ + signed_decimal(match code {
                Some(c) => c as int,
                None => -1,
            })))
        },
        ScriptOutcome::Failed(d) => (false, Some("Script error: "@ + d@)),
        ScriptOutcome::TimedOut => (false, Some("Timeout"@)),
    }
}

impl HealthCheckResult {
    /// A healthy result taken at `timestamp`.
    pub fn healthy_at(duration_ms: u64, timestamp: i64) -> (r: HealthCheckResult)
        ensures
            r@ == (HealthCheckResultView { healthy: true, timestamp, duration_ms, message: None }),
    {
        HealthCheckResult { healthy: true, timestamp, duration_ms, message: None }
    }

    /// An unhealthy result taken at `timestamp`.
    pub fn unhealthy_at(duration_ms: u64, message: &str, timestamp: i64) -> (r: HealthCheckResult)
        ensures
            r@ == (HealthCheckResultView {
                healthy: false,
                timestamp,
                duration_ms,
                message: Some(message@),
            }),
    {
        HealthCheckResult {
            healthy: false,
            timestamp,
            duration_ms,
            message: Some(copy_text(message)),
        }
    }

    /// A healthy result taken now.
    pub fn healthy(duration_ms: u64) -> (r: HealthCheckResult)
        ensures
            r.healthy,
            r.duration_ms == duration_ms,
            r.message is None,
    {
        HealthCheckResult::healthy_at(duration_ms, utc_now_secs())
    }

    /// An unhealthy result taken now.
    pub fn unhealthy(duration_ms: u64, message: &str) -> (r: HealthCheckResult)
        ensures
            !r.healthy,
            r.duration_ms == duration_ms,
            r@.message == Some(message@),
    {
        HealthCheckResult::unhealthy_at(duration_ms, message, utc_now_secs())
    }
}

/// Whether `status` is in `expected`.
fn has_code(expected: &Vec<u16>, status: u16) -> (r: bool)
    ensures
        r == expected@.contains(status),
{
    let mut i: usize = 0;
    while i < expected.len()
        invariant
            i <= expected.len(),
            forall|j: int| 0 <= j < i ==> expected[j] != status,
        decreases expected.len() - i,
    {
        if expected[i] == status {
            return true;
        }
        i = i + 1;
    }
    false
}

/// Judges what probes observed, as the health check configuration says.
#[derive(Debug)]
pub struct HealthChecker {}

impl HealthChecker {
    pub fn new() -> (r: HealthChecker) {
        HealthChecker {  }
    }

    /// The probe that `config` asks for.
    pub fn probe_kind(&self, config: &HealthCheck) -> (r: ProbeKind)
        ensures
            r == probe_kind_of(config@),
    {
        if config.http_url.is_some() {
            ProbeKind::Http
        } else if config.script.is_some() {
            ProbeKind::Script
        } else {
            ProbeKind::Nothing
        }
    }

    /// The result of an HTTP probe that took `duration_ms` and ended at
    /// `timestamp`.
    pub fn check_http(
        &self,
        expected_status: &Vec<u16>,
        outcome: &HttpOutcome,
        duration_ms: u64,
        timestamp: i64,
    ) -> (r: HealthCheckResult)
        ensures
            r@ == (HealthCheckResultView {
                healthy: http_judgement(expected_status@, *outcome).0,
                timestamp,
                duration_ms,
                message: http_judgement(expected_status@, *outcome).1,
            }),
    {
        match outcome {
            HttpOutcome::Status(s) => {
                if has_code(expected_status, *s) || (expected_status.len() == 0 && *s == 200) {
                    HealthCheckResult::healthy_at(duration_ms, timestamp)
                } else {
                    let mut m = copy_text("Unexpected status: ");
                    push_decimal(&mut m, *s as u64);
                    HealthCheckResult::unhealthy_at(duration_ms, m.as_str(), timestamp)
                }
            },
            HttpOutcome::Failed(d) => {
                let mut m = copy_text("Request failed: ");
                m.append(d.as_str());
                HealthCheckResult::unhealthy_at(duration_ms, m.as_str(), timestamp)
            },
            HttpOutcome::TimedOut => HealthCheckResult::unhealthy_at(
                duration_ms,
                "Timeout",
                timestamp,
            ),
        }
    }

    /// The result of a script probe that took `duration_ms` and ended at
    /// `timestamp`.
    pub fn check_script(&self, outcome: &ScriptOutcome, duration_ms: u64, timestamp: i64) -> (r:
        HealthCheckResult)
        ensures
            r@ == (HealthCheckResultView {
                healthy: script_judgement(*outcome).0,
                timestamp,
                duration_ms,
                message: script_judgement(*outcome).1,
            }),
    {
        match outcome {
            ScriptOutcome::Exited { success, code } => {
                if *success {
                    HealthCheckResult::healthy_at(duration_ms, timestamp)
                } else {
                    let c: i32 = match code {
                        Some(c) => *c,
                        None => -1,
                    };
                    let mut m = copy_text("Exit code: ");
                    push_signed(&mut m, c);
                    HealthCheckResult::unhealthy_at(duration_ms, m.as_str(), timestamp)
                }
            },
            ScriptOutcome::Failed(d) => {
                let mut m = copy_text("Script error: ");
                m.append(d.as_str());
                HealthCheckResult::unhealthy_at(duration_ms, m.as_str(), timestamp)
            },
            ScriptOutcome::TimedOut => HealthCheckResult::unhealthy_at(
                duration_ms,
                "Timeout",
                timestamp,
            ),
        }
    }
}

/// Counts the consecutive failed probes of one process.
#[derive(Debug)]
pub struct HealthMonitor {
    pub config: HealthCheck,
    pub consecutive_failures: u32,
}

/// The mathematical value of [`HealthMonitor`].
pub struct HealthMonitorView {
    pub config: HealthCheckView,
    pub consecutive_failures: u32,
}

impl View for HealthMonitor {
    type V = HealthMonitorView;

    open spec fn view(&self) -> HealthMonitorView {
        HealthMonitorView {
            config: self.config@,
            consecutive_failures: self.consecutive_failures,
        }
    }
}

/// The view of an optional monitor.
pub open spec fn opt_monitor(o: Option<HealthMonitor>) -> Option<HealthMonitorView> {
    match o {
        Some(m) => Some(m@),
        None => None,
    }
}

/// A fresh monitor for `config`.
pub open spec fn new_monitor(config: HealthCheckView) -> HealthMonitorView {
    HealthMonitorView { config, consecutive_failures: 0 }
}

/// One more, unless the counter is at its maximum.
pub open spec fn bump(n: u32) -> u32 {
    if n < u32::MAX {
        (n + 1) as u32
    } else {
        n
    }
}

/// The monitor after a probe: a success resets the counter, a failure adds
/// one to it.
pub open spec fn monitor_after(m: HealthMonitorView, healthy: bool) -> HealthMonitorView {
    HealthMonitorView {
        consecutive_failures: if healthy {
            0
        } else {
            bump(m.consecutive_failures)
        },
        ..m
    }
}

/// The process counts as unhealthy: the failure count has reached the
/// configured number of retries.
pub open spec fn monitor_unhealthy(m: HealthMonitorView) -> bool {
    m.consecutive_failures >= m.config.retries
}

impl Clone for HealthMonitor {
    fn clone(&self) -> (r: HealthMonitor)
        ensures
            r@ == self@,
    {
        HealthMonitor {
            config: self.config.clone(),
            consecutive_failures: self.consecutive_failures,
        }
    }
}

impl HealthMonitor {
    pub fn new(config: HealthCheck) -> (r: HealthMonitor)
        ensures
            r@ == new_monitor(config@),
    {
        HealthMonitor { config, consecutive_failures: 0 }
    }

    /// Takes note of a probe's result.
    pub fn record(&mut self, healthy: bool)
        ensures
            final(self)@ == monitor_after(old(self)@, healthy),
    {
        if healthy {
            self.consecutive_failures = 0;
        } else if self.consecutive_failures < 0xffff_ffff {
            self.consecutive_failures = self.consecutive_failures + 1;
        }
    }

    /// Whether the process counts as unhealthy.
    pub fn is_unhealthy(&self) -> (r: bool)
        ensures
            r == monitor_unhealthy(self@),
    {
        self.consecutive_failures >= self.config.retries
    }

    /// The seconds between two probes.
    pub fn interval(&self) -> (r: u64)
        ensures
            r == self@.config.interval_secs,
    {
        self.config.interval_secs
    }

    /// Forgets the failures counted so far.
    pub fn reset(&mut self)
        ensures
            final(self)@ == (HealthMonitorView { consecutive_failures: 0, ..old(self)@ }),
    {
        self.consecutive_failures = 0;
    }
}

/// A monitor that has seen `k` failed probes in a row since its last reset
/// counts as unhealthy exactly when `k` has reached the retries.
pub proof fn lemma_failures_reach_retries(m: HealthMonitorView, k: nat)
    requires
        m.consecutive_failures == 0,
        k < u32::MAX,
    ensures
        monitor_unhealthy(after_failures(m, k)) == (k >= m.config.retries),
        after_failures(m, k).consecutive_failures == k,
        after_failures(m, k).config == m.config,
    decreases k,
{
    if k > 0 {
        lemma_failures_reach_retries(m, (k - 1) as nat);
    }
}

/// The monitor after `k` failed probes in a row.
pub open spec fn after_failures(m: HealthMonitorView, k: nat) -> HealthMonitorView
    decreases k,
{
    if k == 0 {
        m
    } else {
        monitor_after(after_failures(m, (k - 1) as nat), false)
    }
}

} // verus!
