use vstd::prelude::*;
use crate::types::AppExitResult;

verus! {

/// What the operating system reported about a finished process.
#[derive(Debug, Copy, Clone, PartialEq, Eq, Structural)]
pub struct ExitStatusParts {
    /// The process exited with a zero code.
    pub success: bool,
    /// The exit code, when the process exited normally.
    pub code: Option<i32>,
    /// The signal that stopped the process, if any.
    pub stopped_signal: Option<i32>,
    /// The signal that terminated the process, if any.
    pub signal: Option<i32>,
}

/// Classification of an exit status: the first matching rule wins.
pub open spec fn exit_result_of(s: ExitStatusParts) -> AppExitResult {
    if s.success {
        AppExitResult::Success
    } else if let Some(c) = s.code {
        AppExitResult::ExitCode(c)
    } else if let Some(sig) = s.stopped_signal {
        AppExitResult::Signal(sig)
    } else if let Some(sig) = s.signal {
        AppExitResult::Signal(sig)
    } else {
        AppExitResult::Unknown
    }
}

pub fn classify_exit(status: ExitStatusParts) -> (r: AppExitResult)
    ensures
        r == exit_result_of(status),
{
    if status.success {
        AppExitResult::Success
    } else if let Some(code) = status.code {
        AppExitResult::ExitCode(code)
    } else if let Some(sig) = status.stopped_signal {
        AppExitResult::Signal(sig)
    } else if let Some(sig) = status.signal {
        AppExitResult::Signal(sig)
    } else {
        AppExitResult::Unknown
    }
}

/// A status as the operating system reports it: success means exactly a
/// zero exit code.
pub open spec fn consistent_status(s: ExitStatusParts) -> bool {
    s.success <==> s.code == Some(0i32)
}

/// Exit code zero yields `Success`, any other exit code `n` yields
/// `ExitCode(n)`, and a process ended by a signal, without exit code, yields
/// `Signal` carrying that signal: never `Success` nor a zero exit code.
pub proof fn lemma_exit_classification(s: ExitStatusParts)
    requires
        consistent_status(s),
    ensures
        s.code == Some(0i32) ==> exit_result_of(s) == AppExitResult::Success,
        forall|n: i32| n != 0 && s.code == Some(n) ==> exit_result_of(s) == AppExitResult::ExitCode(n),
        forall|sig: i32|
            s.code is None && s.stopped_signal is None && s.signal == Some(sig)
                ==> exit_result_of(s) == AppExitResult::Signal(sig),
        s.code is None && (s.signal is Some || s.stopped_signal is Some)
            ==> exit_result_of(s) is Signal,
{
}

/// Tuning of the exit watcher.
#[derive(Debug, Copy, Clone, PartialEq, Eq, Structural)]
pub struct WaitChildParams {
    /// Pause between two status checks, in milliseconds.
    pub timeout_ms: u64,
}

/// Default pause between two status checks.
pub const DEFAULT_POLL_MS: u64 = 100;

impl Default for WaitChildParams {
    fn default() -> (r: Self)
        ensures
            r.timeout_ms == DEFAULT_POLL_MS,
    {
        WaitChildParams { timeout_ms: DEFAULT_POLL_MS }
    }
}

/// The answer of one non-blocking status check of a process.
#[derive(Debug, Copy, Clone, PartialEq, Eq, Structural)]
pub enum PollOutcome {
    /// The process has finished with this status.
    Exited(ExitStatusParts),
    /// The process is still alive.
    StillRunning,
    /// The status could not be obtained.
    Failed,
}

/// What the watcher does after one status check.
#[derive(Debug, Copy, Clone, PartialEq, Eq, Structural)]
pub enum PollAction {
    /// Stop watching: the process ended with this result.
    Finish(AppExitResult),
    /// Release the process and check again after this many milliseconds.
    Sleep(u64),
}

pub open spec fn poll_action_of(outcome: PollOutcome, params: WaitChildParams) -> PollAction {
    match outcome {
        PollOutcome::Exited(s) => PollAction::Finish(exit_result_of(s)),
        PollOutcome::StillRunning => PollAction::Sleep(params.timeout_ms),
        PollOutcome::Failed => PollAction::Finish(AppExitResult::Unknown),
    }
}

/// One step of the exit watcher: a finished process yields its classified
/// result, a failed check yields `Unknown`, a live process means another
/// check after the configured pause.
pub fn next_poll_action(outcome: PollOutcome, params: WaitChildParams) -> (r: PollAction)
    ensures
        r == poll_action_of(outcome, params),
{
    match outcome {
        PollOutcome::Exited(status) => PollAction::Finish(classify_exit(status)),
        PollOutcome::StillRunning => PollAction::Sleep(params.timeout_ms),
        PollOutcome::Failed => PollAction::Finish(AppExitResult::Unknown),
    }
}

} // verus!
