//! Terminating a process: SIGTERM first, SIGKILL when SIGTERM fails.
//!
//! The caller runs `kill` and reports back; these functions decide what to
//! run next and what to answer.
use vstd::prelude::*;
use crate::text::{concat2, concat3, owned, signed_decimal, i64_to_decimal};

verus! {

/// The answer to a termination request.
#[derive(Debug, Clone)]
pub struct ProcessControlResult {
    pub success: bool,
    pub pid: u32,
    pub message: String,
}

/// How a `kill` invocation went.
#[derive(Debug, Clone)]
pub enum KillOutcome {
    /// `kill` ran; whether it exited successfully, and its exit code if any.
    Exited { success: bool, code: Option<i32> },
    /// `kill` could not be run; the error as text.
    SpawnFailed(String),
}

/// What to do next.
#[derive(Debug)]
pub enum TerminateStep {
    /// Send `kill -<signal> <pid>` and report the outcome.
    Kill { signal: u32 },
    /// The request is answered.
    Finish(ProcessControlResult),
}

/// `{:?}` of an exit code: `Some(<code>)` or `None`.
pub open spec fn exit_code_debug(code: Option<i32>) -> Seq<char> {
    match code {
        Some(c) => "Some("@ + signed_decimal(c as int) + ")"@,
        None => "None"@,
    }
}

/// `{:?}` of an exit code.
pub fn exit_code_text(code: Option<i32>) -> (s: String)
    ensures
        s@ == exit_code_debug(code),
{
    match code {
        Some(c) => {
            let n = i64_to_decimal(c as i64);
            concat3("Some(", n.as_str(), ")")
        },
        None => owned("None"),
    }
}

/// The step's answer, if it is one.
pub open spec fn finished(step: TerminateStep) -> Option<(bool, u32, Seq<char>)> {
    match step {
        TerminateStep::Finish(r) => Some((r.success, r.pid, r.message@)),
        TerminateStep::Kill { .. } => None,
    }
}

/// Starts a termination request. PID 0 and PID 1 are refused; any other
/// process is first sent SIGTERM.
pub fn terminate_process(pid: u32) -> (step: TerminateStep)
    ensures
        pid == 0 || pid == 1 ==> finished(step) == Some(
            (false, pid, "Action denied: Cannot terminate critical system process (PID 0 or 1)."@),
        ),
        pid != 0 && pid != 1 ==> step == (TerminateStep::Kill { signal: 15 }),
{
    if pid == 0 || pid == 1 {
        return TerminateStep::Finish(
            ProcessControlResult {
                success: false,
                pid,
                message: owned(
                    "Action denied: Cannot terminate critical system process (PID 0 or 1).",
                ),
            },
        );
    }
    TerminateStep::Kill { signal: 15 }
}

/// The next step once SIGTERM was sent: success ends the request; a failed
/// `kill` is followed by SIGKILL; a `kill` that could not run ends it.
pub fn after_sigterm(pid: u32, outcome: KillOutcome) -> (step: TerminateStep)
    ensures
        match outcome {
            KillOutcome::Exited { success: true, .. } => finished(step) == Some(
                (true, pid, "Process terminated successfully (SIGTERM)."@),
            ),
            KillOutcome::Exited { success: false, .. } => step == (TerminateStep::Kill { signal: 9 }),
            KillOutcome::SpawnFailed(e) => finished(step) == Some(
                (false, pid, "Failed to execute kill command: "@ + e@),
            ),
        },
{
    match outcome {
        KillOutcome::Exited { success: true, .. } => TerminateStep::Finish(
            ProcessControlResult {
                success: true,
                pid,
                message: owned("Process terminated successfully (SIGTERM)."),
            },
        ),
        KillOutcome::Exited { success: false, .. } => TerminateStep::Kill { signal: 9 },
        KillOutcome::SpawnFailed(e) => TerminateStep::Finish(
            ProcessControlResult {
                success: false,
                pid,
                message: concat2("Failed to execute kill command: ", e.as_str()),
            },
        ),
    }
}

/// The answer once SIGKILL was sent.
pub fn after_sigkill(pid: u32, outcome: KillOutcome) -> (r: ProcessControlResult)
    ensures
        r.pid == pid,
        match outcome {
            KillOutcome::Exited { success: true, .. } => r.success && r.message@
                == "Process force-terminated (SIGKILL)."@,
            KillOutcome::Exited { success: false, code } => !r.success && r.message@
                == "Failed to force-terminate. Exit code: "@ + exit_code_debug(code),
            KillOutcome::SpawnFailed(e) => !r.success && r.message@
                == "Failed to execute kill -9: "@ + e@,
        },
{
    match outcome {
        KillOutcome::Exited { success: true, .. } => ProcessControlResult {
            success: true,
            pid,
            message: owned("Process force-terminated (SIGKILL)."),
        },
        KillOutcome::Exited { success: false, code } => {
            let c = exit_code_text(code);
            ProcessControlResult {
                success: false,
                pid,
                message: concat2("Failed to force-terminate. Exit code: ", c.as_str()),
            }
        },
        KillOutcome::SpawnFailed(e) => ProcessControlResult {
            success: false,
            pid,
            message: concat2("Failed to execute kill -9: ", e.as_str()),
        },
    }
}

/// The answer on platforms where termination is not supported.
pub fn unsupported_platform(pid: u32) -> (r: ProcessControlResult)
    ensures
        !r.success,
        r.pid == pid,
        r.message@
            == "Process termination currently only supported on macOS target inside this module."@,
{
    ProcessControlResult {
        success: false,
        pid,
        message: owned(
            "Process termination currently only supported on macOS target inside this module.",
        ),
    }
}

} // verus!
