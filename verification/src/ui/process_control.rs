//! Terminating a process with protection for critical processes and an audit
//! record of every outcome. SIGTERM is tried first, SIGKILL when it fails.
//!
//! The caller runs `ps` and `kill`, reports back, and appends each audit
//! record to the incident log.
use vstd::prelude::*;
use crate::text::{concat2, owned, has_infix, str_contains};
use crate::bindings::{path_join, path_joined, trimmed, utf8_lossy, utf8_lossy_decode};
use crate::guardian_ui::process_control::{KillOutcome, exit_code_debug, exit_code_text};

verus! {

/// The answer to a termination request.
#[derive(Debug, Clone)]
pub struct ProcessControlResult {
    pub success: bool,
    pub pid: u32,
    pub message: String,
}

/// An audit record for the incident log (module `ProcessControl`).
#[derive(Debug, Clone)]
pub struct AuditEvent {
    pub pid: u32,
    pub success: bool,
    pub message: String,
}

/// The severity an audit record is logged with.
pub open spec fn audit_severity_spec(success: bool) -> Seq<char> {
    if success {
        "WARNING"@
    } else {
        "ERROR"@
    }
}

impl AuditEvent {
    /// `WARNING` for a success, `ERROR` otherwise.
    pub fn severity(&self) -> (s: &'static str)
        ensures
            s@ == audit_severity_spec(self.success),
    {
        if self.success {
            "WARNING"
        } else {
            "ERROR"
        }
    }
}

/// What to do next.
#[derive(Debug)]
pub enum TerminateStep {
    /// Send `kill -<signal> <pid>` and report the outcome.
    Kill { signal: u32 },
    /// The request is answered; log `audit`.
    Finish { result: ProcessControlResult, audit: AuditEvent },
}

/// Process names that are never terminated.
pub open spec fn names_protected_process(name: Seq<char>) -> bool {
    ||| has_infix(name, "kernel_task"@)
    ||| has_infix(name, "launchd"@)
    ||| has_infix(name, "WindowServer"@)
    ||| has_infix(name, "loginwindow"@)
    ||| has_infix(name, "syslogd"@)
}

/// Why `pid` must not be terminated, if it must not: PID 0 and 1, the
/// guardian's own process `own_pid`, and processes whose command name (the
/// output of `ps -p <pid> -o comm=`, when it could be run) names a protected
/// system process.
pub open spec fn protection_reason(pid: u32, own_pid: u32, ps_output: Option<Seq<char>>) -> Option<
    Seq<char>,
> {
    if pid == 0 || pid == 1 {
        Some("Cannot terminate critical system process (PID 0 or 1)."@)
    } else if pid == own_pid {
        Some("Cannot terminate the guardian UI process."@)
    } else {
        match ps_output {
            Some(name) => if names_protected_process(name) {
                Some("Cannot terminate protected process: "@ + trimmed(name))
            } else {
                None
            },
            None => None,
        }
    }
}

/// Whether the command name of `pid` is needed to decide on it: PID 0, PID 1
/// and the guardian itself are refused without asking `ps`.
pub fn needs_ps_lookup(pid: u32, own_pid: u32) -> (b: bool)
    ensures
        b == (pid != 0 && pid != 1 && pid != own_pid),
        !b ==> forall|o: Option<Seq<char>>|
            #[trigger] protection_reason(pid, own_pid, o) == protection_reason(pid, own_pid, None),
{
    pid != 0 && pid != 1 && pid != own_pid
}

/// The decoded `ps` output.
pub open spec fn decoded(ps_stdout: Option<Seq<u8>>) -> Option<Seq<char>> {
    match ps_stdout {
        Some(b) => Some(utf8_lossy(b)),
        None => None,
    }
}

/// The view of optional bytes.
pub open spec fn opt_bytes(o: Option<&[u8]>) -> Option<Seq<u8>> {
    match o {
        Some(b) => Some(b@),
        None => None,
    }
}

/// Why `pid` must not be terminated, if it must not. `ps_stdout` is the
/// standard output of `ps -p <pid> -o comm=`, or `None` where `ps` is not
/// consulted or could not run.
pub fn protected_pid_reason(pid: u32, own_pid: u32, ps_stdout: Option<&[u8]>) -> (r: Option<String>)
    ensures
        match r {
            Some(m) => protection_reason(pid, own_pid, decoded(opt_bytes(ps_stdout))) == Some(m@),
            None => protection_reason(pid, own_pid, decoded(opt_bytes(ps_stdout))) is None,
        },
{
    if pid == 0 || pid == 1 {
        return Some(owned("Cannot terminate critical system process (PID 0 or 1)."));
    }
    if pid == own_pid {
        return Some(owned("Cannot terminate the guardian UI process."));
    }
    match ps_stdout {
        Some(bytes) => {
            let name = utf8_lossy_decode(bytes);
            let n = name.as_str();
            if str_contains(n, "kernel_task") || str_contains(n, "launchd") || str_contains(
                n,
                "WindowServer",
            ) || str_contains(n, "loginwindow") || str_contains(n, "syslogd") {
                let t = n.trim();
                Some(concat2("Cannot terminate protected process: ", t))
            } else {
                None
            }
        },
        None => None,
    }
}

/// The step's answer and audit record, if it is one: (success, pid,
/// message) of the answer, then (pid, success, message) of the record.
pub open spec fn finished(step: TerminateStep) -> Option<(bool, u32, Seq<char>, u32, bool, Seq<char>)> {
    match step {
        TerminateStep::Finish { result, audit } => Some(
            (result.success, result.pid, result.message@, audit.pid, audit.success, audit.message@),
        ),
        TerminateStep::Kill { .. } => None,
    }
}

fn finish(pid: u32, success: bool, message: String) -> (step: TerminateStep)
    ensures
        finished(step) == Some((success, pid, message@, pid, success, message@)),
{
    let audit = AuditEvent { pid, success, message: message.clone() };
    TerminateStep::Finish { result: ProcessControlResult { success, pid, message }, audit }
}

/// Starts a termination request. A protected process is refused with
/// `Action denied: <reason>` (audited as `Process termination denied:
/// <reason>`); any other is first sent SIGTERM.
pub fn terminate_process(pid: u32, own_pid: u32, ps_stdout: Option<&[u8]>) -> (step: TerminateStep)
    ensures
        match protection_reason(pid, own_pid, decoded(opt_bytes(ps_stdout))) {
            Some(reason) => finished(step) == Some(
                (
                    false,
                    pid,
                    "Action denied: "@ + reason,
                    pid,
                    false,
                    "Process termination denied: "@ + reason,
                ),
            ),
            None => step == (TerminateStep::Kill { signal: 15 }),
        },
{
    match protected_pid_reason(pid, own_pid, ps_stdout) {
        Some(reason) => {
            let audit = AuditEvent {
                pid,
                success: false,
                message: concat2("Process termination denied: ", reason.as_str()),
            };
            TerminateStep::Finish {
                result: ProcessControlResult {
                    success: false,
                    pid,
                    message: concat2("Action denied: ", reason.as_str()),
                },
                audit,
            }
        },
        None => TerminateStep::Kill { signal: 15 },
    }
}

/// The next step once SIGTERM was sent.
pub fn after_sigterm(pid: u32, outcome: KillOutcome) -> (step: TerminateStep)
    ensures
        match outcome {
            KillOutcome::Exited { success: true, .. } => finished(step) == Some(
                (
                    true,
                    pid,
                    "Process terminated successfully (SIGTERM)."@,
                    pid,
                    true,
                    "Process terminated successfully (SIGTERM)."@,
                ),
            ),
            KillOutcome::Exited { success: false, .. } => step == (TerminateStep::Kill { signal: 9 }),
            KillOutcome::SpawnFailed(e) => finished(step) == Some(
                (
                    false,
                    pid,
                    "Failed to execute kill command: "@ + e@,
                    pid,
                    false,
                    "Failed to execute kill command: "@ + e@,
                ),
            ),
        },
{
    match outcome {
        KillOutcome::Exited { success: true, .. } => finish(
            pid,
            true,
            owned("Process terminated successfully (SIGTERM)."),
        ),
        KillOutcome::Exited { success: false, .. } => TerminateStep::Kill { signal: 9 },
        KillOutcome::SpawnFailed(e) => finish(
            pid,
            false,
            concat2("Failed to execute kill command: ", e.as_str()),
        ),
    }
}

/// The answer and audit record once SIGKILL was sent.
pub fn after_sigkill(pid: u32, outcome: KillOutcome) -> (step: TerminateStep)
    ensures
        match outcome {
            KillOutcome::Exited { success: true, .. } => finished(step) == Some(
                (
                    true,
                    pid,
                    "Process force-terminated (SIGKILL)."@,
                    pid,
                    true,
                    "Process force-terminated (SIGKILL)."@,
                ),
            ),
            KillOutcome::Exited { success: false, code } => finished(step) == Some(
                (
                    false,
                    pid,
                    "Failed to force-terminate. Exit code: "@ + exit_code_debug(code),
                    pid,
                    false,
                    "Failed to force-terminate. Exit code: "@ + exit_code_debug(code),
                ),
            ),
            KillOutcome::SpawnFailed(e) => finished(step) == Some(
                (
                    false,
                    pid,
                    "Failed to execute kill -9: "@ + e@,
                    pid,
                    false,
                    "Failed to execute kill -9: "@ + e@,
                ),
            ),
        },
{
    match outcome {
        KillOutcome::Exited { success: true, .. } => finish(
            pid,
            true,
            owned("Process force-terminated (SIGKILL)."),
        ),
        KillOutcome::Exited { success: false, code } => {
            let c = exit_code_text(code);
            finish(pid, false, concat2("Failed to force-terminate. Exit code: ", c.as_str()))
        },
        KillOutcome::SpawnFailed(e) => finish(
            pid,
            false,
            concat2("Failed to execute kill -9: ", e.as_str()),
        ),
    }
}

/// The answer on platforms where termination is not supported (not audited).
pub fn unsupported_platform(pid: u32) -> (r: ProcessControlResult)
    ensures
        !r.success,
        r.pid == pid,
        r.message@
            == "Process termination currently only supported on macOS target inside this module."@,
{
    ProcessControlResult {
        success: false,
        pid,
        message: owned(
            "Process termination currently only supported on macOS target inside this module.",
        ),
    }
}

/// Where audit records go: `<root>/logs/incidents.json` for the project root
/// `root` (the nearest directory holding `config.yaml`), else
/// `../logs/incidents.json`.
pub open spec fn incident_log_path(root: Option<Seq<char>>) -> Seq<char> {
    match root {
        Some(r) => path_joined(path_joined(r, "logs"@), "incidents.json"@),
        None => "../logs/incidents.json"@,
    }
}

/// The incident log for project root `root`, if one was found.
pub fn incident_log_under(root: Option<String>) -> (p: String)
    ensures
        p@ == incident_log_path(
            match root {
                Some(r) => Some(r@),
                None => None,
            },
        ),
{
    match root {
        Some(r) => {
            let logs = path_join(r.as_str(), "logs");
            path_join(logs.as_str(), "incidents.json")
        },
        None => owned("../logs/incidents.json"),
    }
}

/// PID 0, PID 1 and the guardian's own process are never sent a signal,
/// whatever `ps` reports.
pub proof fn lemma_critical_processes_never_signalled(
    pid: u32,
    own_pid: u32,
    ps_output: Option<Seq<char>>,
)
    requires
        pid == 0 || pid == 1 || pid == own_pid,
    ensures
        protection_reason(pid, own_pid, ps_output) is Some,
{
}

/// A process whose `ps` command name contains `kernel_task`, `launchd`,
/// `WindowServer`, `loginwindow` or `syslogd` is refused with its trimmed
/// name, and is never sent a signal.
pub proof fn lemma_protected_system_processes_refused(
    pid: u32,
    own_pid: u32,
    name: Seq<char>,
)
    requires
        pid != 0,
        pid != 1,
        pid != own_pid,
        has_infix(name, "kernel_task"@) || has_infix(name, "launchd"@) || has_infix(
            name,
            "WindowServer"@,
        ) || has_infix(name, "loginwindow"@) || has_infix(name, "syslogd"@),
    ensures
        protection_reason(pid, own_pid, Some(name)) == Some(
            "Cannot terminate protected process: "@ + trimmed(name),
        ),
{
}

} // verus!
