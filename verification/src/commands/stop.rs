//! Stopping a VM: the decisions between probing the VM, signalling it and waiting.
//!
//! The caller performs each [`StopAction`] and reports what it observed as a
//! [`StopEvent`]; [`stop_step`] decides what comes next. A VM is asked to shut down
//! with `SIGTERM`, watched for up to ten one-second polls, then killed with `SIGKILL`
//! if it is still running.
use vstd::prelude::*;
use vstd::string::*;
use crate::error::QvmError;

verus! {

/// How many one-second polls follow `SIGTERM` before the VM is checked for `SIGKILL`.
pub const STOP_POLLS: u32 = 10;

/// Where the stop procedure stands.
#[derive(Debug, Clone, Copy, PartialEq, Eq, Structural)]
pub enum StopPhase {
    /// Waiting to learn whether the VM runs at all.
    Start,
    /// Waiting for the pid in the VM's pid file.
    ReadingPid,
    /// `SIGTERM` was sent to `pid`; `polls` one-second polls have been asked for.
    Polling { pid: i32, polls: u32 },
    /// The polls are over; waiting for one more look at the VM.
    Rechecking { pid: i32 },
    /// Waiting for the last look at the VM.
    FinalCheck,
    /// Nothing more to do.
    Done,
}

/// What the caller observed after performing an action.
#[derive(Debug, Clone, Copy, PartialEq, Eq, Structural)]
pub enum StopEvent {
    /// Whether the VM is running.
    Running(bool),
    /// The pid in the VM's pid file, if it could be read.
    PidRead(Option<i32>),
}

/// Why stopping failed.
#[derive(Debug, Clone, Copy, PartialEq, Eq, Structural)]
pub enum StopFailure {
    /// The VM is not running.
    NotRunning,
    /// The VM still runs after `SIGKILL`.
    StillRunning,
}

/// What the caller does next.
#[derive(Debug, Clone, Copy, PartialEq, Eq, Structural)]
pub enum StopAction {
    /// Check whether the VM is running; report [`StopEvent::Running`].
    CheckRunning,
    /// Read the pid file; report [`StopEvent::PidRead`].
    ReadPid,
    /// Announce the stop, send `SIGTERM` to the pid, wait a second, then check whether
    /// the VM is running.
    Terminate(i32),
    /// Wait a second, then check whether the VM is running.
    WaitAndCheck,
    /// Warn, send `SIGKILL` to the pid, wait a second, then check whether the VM is running.
    Kill(i32),
    /// Stop the TPM emulator, remove the pid and port files, and fail.
    CleanupAndFail(StopFailure),
    /// Fail without touching anything.
    Fail(StopFailure),
    /// Stop the TPM emulator, remove the pid and port files, and report success.
    CleanupAndFinish,
}

/// The error that a failure reports for the VM `name`.
pub fn stop_failure_error(name: &str, f: StopFailure) -> (r: QvmError)
    ensures
        f == StopFailure::NotRunning ==> (r matches QvmError::VmNotRunning(n) && n@ == name@),
        f == StopFailure::StillRunning ==> (r matches QvmError::FailedToStopVm(n) && n@ == name@),
{
    match f {
        StopFailure::NotRunning => QvmError::VmNotRunning(String::from_str(name)),
        StopFailure::StillRunning => QvmError::FailedToStopVm(String::from_str(name)),
    }
}

/// The event that each phase waits for.
pub open spec fn stop_accepts(phase: StopPhase, ev: StopEvent) -> bool {
    match phase {
        StopPhase::ReadingPid => ev is PidRead,
        StopPhase::Done => false,
        _ => ev is Running,
    }
}

/// The phases that a run can reach: the poll count stays between one and [`STOP_POLLS`].
pub open spec fn stop_phase_ok(phase: StopPhase) -> bool {
    phase matches StopPhase::Polling { polls, .. } ==> 1 <= polls <= STOP_POLLS
}

/// The next phase and action, given the current phase and what was observed.
pub open spec fn stop_next(phase: StopPhase, ev: StopEvent) -> (StopPhase, StopAction) {
    match phase {
        StopPhase::Start => if ev == StopEvent::Running(true) {
            (StopPhase::ReadingPid, StopAction::ReadPid)
        } else {
            (StopPhase::Done, StopAction::CleanupAndFail(StopFailure::NotRunning))
        },
        StopPhase::ReadingPid => match ev {
            StopEvent::PidRead(Some(p)) => (
                StopPhase::Polling { pid: p, polls: 1 },
                StopAction::Terminate(p),
            ),
            _ => (StopPhase::Done, StopAction::Fail(StopFailure::NotRunning)),
        },
        StopPhase::Polling { pid, polls } => if ev == StopEvent::Running(true) && polls
            < STOP_POLLS {
            (StopPhase::Polling { pid, polls: (polls + 1) as u32 }, StopAction::WaitAndCheck)
        } else {
            (StopPhase::Rechecking { pid }, StopAction::CheckRunning)
        },
        StopPhase::Rechecking { pid } => if ev == StopEvent::Running(true) {
            (StopPhase::FinalCheck, StopAction::Kill(pid))
        } else {
            (StopPhase::FinalCheck, StopAction::CheckRunning)
        },
        StopPhase::FinalCheck => if ev == StopEvent::Running(true) {
            (StopPhase::Done, StopAction::Fail(StopFailure::StillRunning))
        } else {
            (StopPhase::Done, StopAction::CleanupAndFinish)
        },
        StopPhase::Done => (StopPhase::Done, StopAction::Fail(StopFailure::NotRunning)),
    }
}

/// The first phase and action of stopping a VM.
pub fn stop_begin() -> (r: (StopPhase, StopAction))
    ensures
        r == (StopPhase::Start, StopAction::CheckRunning),
{
    (StopPhase::Start, StopAction::CheckRunning)
}

/// Whether `phase` waits for an event of the kind of `ev`.
pub fn stop_accepts_event(phase: StopPhase, ev: StopEvent) -> (r: bool)
    ensures
        r == stop_accepts(phase, ev),
{
    match phase {
        StopPhase::ReadingPid => matches!(ev, StopEvent::PidRead(_)),
        StopPhase::Done => false,
        _ => matches!(ev, StopEvent::Running(_)),
    }
}

/// Decides the next phase and action from the current phase and what was observed.
pub fn stop_step(phase: StopPhase, ev: StopEvent) -> (r: (StopPhase, StopAction))
    requires
        stop_accepts(phase, ev),
    ensures
        r == stop_next(phase, ev),
{
    match phase {
        StopPhase::Start => if ev == StopEvent::Running(true) {
            (StopPhase::ReadingPid, StopAction::ReadPid)
        } else {
            (StopPhase::Done, StopAction::CleanupAndFail(StopFailure::NotRunning))
        },
        StopPhase::ReadingPid => match ev {
            StopEvent::PidRead(Some(p)) => (
                StopPhase::Polling { pid: p, polls: 1 },
                StopAction::Terminate(p),
            ),
            _ => (StopPhase::Done, StopAction::Fail(StopFailure::NotRunning)),
        },
        StopPhase::Polling { pid, polls } => if ev == StopEvent::Running(true) && polls
            < STOP_POLLS {
            (StopPhase::Polling { pid, polls: polls + 1 }, StopAction::WaitAndCheck)
        } else {
            (StopPhase::Rechecking { pid }, StopAction::CheckRunning)
        },
        StopPhase::Rechecking { pid } => if ev == StopEvent::Running(true) {
            (StopPhase::FinalCheck, StopAction::Kill(pid))
        } else {
            (StopPhase::FinalCheck, StopAction::CheckRunning)
        },
        StopPhase::FinalCheck => if ev == StopEvent::Running(true) {
            (StopPhase::Done, StopAction::Fail(StopFailure::StillRunning))
        } else {
            (StopPhase::Done, StopAction::CleanupAndFinish)
        },
        StopPhase::Done => (StopPhase::Done, StopAction::Fail(StopFailure::NotRunning)),
    }
}

/// How many more steps a run can take from `phase`.
pub open spec fn stop_steps_left(phase: StopPhase) -> int {
    match phase {
        StopPhase::Start => 3 + STOP_POLLS + 2,
        StopPhase::ReadingPid => 2 + STOP_POLLS + 2,
        StopPhase::Polling { polls, .. } => 2 + STOP_POLLS - polls + 1,
        StopPhase::Rechecking { .. } => 2,
        StopPhase::FinalCheck => 1,
        StopPhase::Done => 0,
    }
}

/// Every step keeps the poll count in range and brings the run closer to its end, so a
/// run ends after at most fifteen steps: the VM is never polled more than
/// [`STOP_POLLS`] times after `SIGTERM`.
pub proof fn lemma_stop_progress(phase: StopPhase, ev: StopEvent)
    requires
        stop_accepts(phase, ev),
        stop_phase_ok(phase),
    ensures
        stop_phase_ok(stop_next(phase, ev).0),
        0 <= stop_steps_left(stop_next(phase, ev).0) < stop_steps_left(phase),
        stop_steps_left(phase) <= 15,
{
}

/// `SIGKILL` goes only to the pid that got `SIGTERM`, and only after the polls are over
/// and the VM was seen still running.
pub proof fn lemma_stop_kill_after_polls(phase: StopPhase, ev: StopEvent, p: i32)
    requires
        stop_accepts(phase, ev),
        stop_next(phase, ev).1 == StopAction::Kill(p),
    ensures
        phase == (StopPhase::Rechecking { pid: p }),
        ev == StopEvent::Running(true),
{
}

/// The pid signalled stays the one read from the pid file: a phase that holds a pid
/// passes the same pid on.
pub proof fn lemma_stop_pid_kept(phase: StopPhase, ev: StopEvent, p: i32)
    requires
        stop_accepts(phase, ev),
        phase matches StopPhase::Polling { pid, .. } && pid == p,
    ensures
        stop_next(phase, ev).0 matches StopPhase::Polling { pid, .. } ==> pid == p,
        stop_next(phase, ev).0 matches StopPhase::Rechecking { pid } ==> pid == p,
{
}

/// The VM's pid and port files are removed only right after it was seen not running.
pub proof fn lemma_stop_cleanup_only_when_stopped(phase: StopPhase, ev: StopEvent)
    requires
        stop_accepts(phase, ev),
        stop_next(phase, ev).1 is CleanupAndFinish || stop_next(phase, ev).1 is CleanupAndFail,
    ensures
        ev == StopEvent::Running(false),
{
}

} // verus!
