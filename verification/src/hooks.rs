//! Event hooks: which script runs on a lifecycle event, the environment it
//! runs in, what its outcome means, and what goes to the hook log.

use crate::appspec::pairs;
use crate::text::{
    copy_text, decimal, decimal_string, push_signed, signed_decimal, trim, trimmed,
};
use crate::types::{hook_event_name, hook_for, HookEvent, Hooks};
use vstd::prelude::*;
use vstd::string::*;

verus! {

/// Seconds after which a running hook script is given up.
pub const HOOK_TIMEOUT_SECS: u64 = 30;

/// One run of a hook script: the script and the context it runs in.
#[derive(Debug)]
pub struct HookCall {
    pub script: String,
    pub app_id: u32,
    pub app_name: String,
    pub event: HookEvent,
    pub pid: Option<u32>,
    pub exit_code: Option<i32>,
}

/// The mathematical value of [`HookCall`].
pub struct HookCallView {
    pub script: Seq<char>,
    pub app_id: u32,
    pub app_name: Seq<char>,
    pub event: HookEvent,
    pub pid: Option<u32>,
    pub exit_code: Option<i32>,
}

impl View for HookCall {
    type V = HookCallView;

    open spec fn view(&self) -> HookCallView {
        HookCallView {
            script: self.script@,
            app_id: self.app_id,
            app_name: self.app_name@,
            event: self.event,
            pid: self.pid,
            exit_code: self.exit_code,
        }
    }
}

/// The view of an optional hook call.
pub open spec fn opt_call(o: Option<HookCall>) -> Option<HookCallView> {
    match o {
        Some(c) => Some(c@),
        None => None,
    }
}

/// The hook call that `event` gives rise to: one exists exactly when a
/// script is configured for the event.
pub open spec fn call_for(
    hooks: crate::types::HooksView,
    event: HookEvent,
    app_id: u32,
    app_name: Seq<char>,
    pid: Option<u32>,
    exit_code: Option<i32>,
) -> Option<HookCallView> {
    match hook_for(hooks, event) {
        Some(script) => Some(HookCallView { script, app_id, app_name, event, pid, exit_code }),
        None => None,
    }
}

/// The environment of a hook script: the application's id and name and the
/// event always; the pid and the exit code when known. In this order.
pub open spec fn hook_env(c: HookCallView) -> Seq<(Seq<char>, Seq<char>)> {
    let base = seq![
        ("OPM_APP_ID"@, decimal(c.app_id as nat)),
        ("OPM_APP_NAME"@, c.app_name),
        ("OPM_EVENT"@, hook_event_name(c.event)),
    ];
    let with_pid = match c.pid {
        Some(p) => base.push(("OPM_PID"@, decimal(p as nat))),
        None => base,
    };
    match c.exit_code {
        Some(code) => with_pid.push(("OPM_EXIT_CODE"@, signed_decimal(code as int))),
        None => with_pid,
    }
}

/// What running a hook script came to.
#[derive(Debug)]
pub enum HookOutcome {
    /// The script exited; with status 0 if `success`.
    Exited { success: bool, code: Option<i32>, stdout: String, stderr: String },
    /// The script could not be run; the detail says why.
    Failed(String),
    /// The script did not exit within the timeout.
    TimedOut,
}

/// An optional exit code as the failure message shows it.
pub open spec fn code_text(code: Option<i32>) -> Seq<char> {
    match code {
        Some(c) => "Some("@ + signed_decimal(c as int) + ")"@,
        None => "None"@,
    }
}

/// What a hook's outcome means: its trimmed output on success, else the
/// reason for the failure.
pub open spec fn hook_verdict(o: HookOutcome) -> Result<Seq<char>, Seq<char>> {
    match o {
        HookOutcome::Exited { success, code, stdout, stderr } => if success {
            Ok(trim(stdout@))
        } else {
            Err("Hook exited with code "@ + code_text(code) + ": "@ + trim(stderr@))
        },
        HookOutcome::Failed(d) => Err("Failed to execute hook: "@ + d@),
        HookOutcome::TimedOut => Err("Hook timed out after 30 seconds"@),
    }
}

/// The views inside a verdict.
pub open spec fn verdict_text(r: Result<String, String>) -> Result<Seq<char>, Seq<char>> {
    match r {
        Ok(s) => Ok(s@),
        Err(s) => Err(s@),
    }
}

/// The entry that one hook run adds to the hook log: a header with the time
/// and the event, then the trimmed output of each stream that is not empty.
pub open spec fn hook_log_text(
    timestamp: Seq<char>,
    event: Seq<char>,
    stdout: Seq<char>,
    stderr: Seq<char>,
) -> Seq<char> {
    "["@ + timestamp + "] Event: "@ + event + "\n"@ + (if stdout.len() > 0 {
        "  stdout: "@ + trim(stdout) + "\n"@
    } else {
        Seq::empty()
    }) + (if stderr.len() > 0 {
        "  stderr: "@ + trim(stderr) + "\n"@
    } else {
        Seq::empty()
    })
}

impl Clone for HookCall {
    fn clone(&self) -> (r: HookCall)
        ensures
            r@ == self@,
    {
        HookCall {
            script: self.script.clone(),
            app_id: self.app_id,
            app_name: self.app_name.clone(),
            event: self.event,
            pid: self.pid,
            exit_code: self.exit_code,
        }
    }
}

impl HookCall {
    /// The call for `event`, if `hooks` configures a script for it.
    pub fn for_event(
        hooks: &Hooks,
        event: HookEvent,
        app_id: u32,
        app_name: &str,
        pid: Option<u32>,
        exit_code: Option<i32>,
    ) -> (r: Option<HookCall>)
        ensures
            opt_call(r) == call_for(hooks@, event, app_id, app_name@, pid, exit_code),
    {
        match hooks.get(event) {
            Some(script) => Some(
                HookCall {
                    script: copy_text(script),
                    app_id,
                    app_name: copy_text(app_name),
                    event,
                    pid,
                    exit_code,
                },
            ),
            None => None,
        }
    }

    /// The environment variables that the script runs with.
    pub fn environment(&self) -> (r: Vec<(String, String)>)
        ensures
            pairs(r@) == hook_env(self@),
    {
        let mut env: Vec<(String, String)> = Vec::new();
        env.push((copy_text("OPM_APP_ID"), decimal_string(self.app_id as u64)));
        env.push((copy_text("OPM_APP_NAME"), self.app_name.clone()));
        env.push((copy_text("OPM_EVENT"), self.event.to_string()));
        match self.pid {
            Some(p) => {
                env.push((copy_text("OPM_PID"), decimal_string(p as u64)));
            },
            None => {},
        }
        match self.exit_code {
            Some(code) => {
                let mut t = String::new();
                push_signed(&mut t, code);
                assert(t@ =~= signed_decimal(code as int));
                env.push((copy_text("OPM_EXIT_CODE"), t));
            },
            None => {},
        }
        assert(pairs(env@) =~= hook_env(self@));
        env
    }
}

/// What a hook's outcome means, as [`hook_verdict`] says.
pub fn hook_result(outcome: &HookOutcome) -> (r: Result<String, String>)
    ensures
        verdict_text(r) == hook_verdict(*outcome),
{
    match outcome {
        HookOutcome::Exited { success, code, stdout, stderr } => {
            if *success {
                Ok(trimmed(stdout.as_str()))
            } else {
                let mut m = copy_text("Hook exited with code ");
                match code {
                    Some(c) => {
                        m.append("Some(");
                        push_signed(&mut m, *c);
                        m.append(")");
                    },
                    None => {
                        m.append("None");
                    },
                }
                m.append(": ");
                let t = trimmed(stderr.as_str());
                m.append(t.as_str());
                assert(m@ =~= "Hook exited with code "@ + code_text(*code) + ": "@ + trim(stderr@));
                Err(m)
            }
        },
        HookOutcome::Failed(d) => {
            let mut m = copy_text("Failed to execute hook: ");
            m.append(d.as_str());
            Err(m)
        },
        HookOutcome::TimedOut => Err(copy_text("Hook timed out after 30 seconds")),
    }
}

/// The entry that one hook run adds to the hook log.
pub fn log_hook_output(timestamp: &str, event: &str, stdout: &str, stderr: &str) -> (r: String)
    ensures
        r@ == hook_log_text(timestamp@, event@, stdout@, stderr@),
{
    let mut out = copy_text("[");
    out.append(timestamp);
    out.append("] Event: ");
    out.append(event);
    out.append("\n");
    if !stdout.is_empty() {
        out.append("  stdout: ");
        let t = trimmed(stdout);
        out.append(t.as_str());
        out.append("\n");
    }
    if !stderr.is_empty() {
        out.append("  stderr: ");
        let t = trimmed(stderr);
        out.append(t.as_str());
        out.append("\n");
    }
    assert(out@ =~= hook_log_text(timestamp@, event@, stdout@, stderr@));
    out
}

} // verus!
