use qvm_ctl::commands::stop::{
    stop_accepts_event, stop_begin, stop_failure_error, stop_step, StopAction, StopEvent,
    StopFailure, StopPhase,
};
use qvm_ctl::error::QvmError;

/// Runs the stop procedure against a VM whose running state is answered by `running`
/// (one answer per question) and whose pid file holds `pid`.
fn run(pid: Option<i32>, running: &[bool]) -> Vec<StopAction> {
    let (mut phase, mut action) = stop_begin();
    let mut actions = vec![action];
    let mut answers = running.iter();
    loop {
        let ev = match action {
            StopAction::ReadPid => StopEvent::PidRead(pid),
            StopAction::CheckRunning
            | StopAction::Terminate(_)
            | StopAction::WaitAndCheck
            | StopAction::Kill(_) => StopEvent::Running(*answers.next().unwrap()),
            _ => return actions,
        };
        assert!(stop_accepts_event(phase, ev));
        let (p, a) = stop_step(phase, ev);
        phase = p;
        action = a;
        actions.push(action);
    }
}

#[test]
fn a_stopped_vm_is_cleaned_up_and_reported() {
    assert_eq!(
        run(Some(7), &[false]),
        vec![StopAction::CheckRunning, StopAction::CleanupAndFail(StopFailure::NotRunning)]
    );
}

#[test]
fn an_unreadable_pid_fails_without_cleanup() {
    assert_eq!(
        run(None, &[true]),
        vec![StopAction::CheckRunning, StopAction::ReadPid, StopAction::Fail(StopFailure::NotRunning)]
    );
}

#[test]
fn a_vm_that_obeys_sigterm() {
    assert_eq!(
        run(Some(7), &[true, true, false, false, false]),
        vec![
            StopAction::CheckRunning,
            StopAction::ReadPid,
            StopAction::Terminate(7),
            StopAction::WaitAndCheck,
            StopAction::CheckRunning,
            StopAction::CheckRunning,
            StopAction::CleanupAndFinish,
        ]
    );
}

#[test]
fn a_vm_that_ignores_sigterm_is_killed_after_ten_polls() {
    let mut answers = vec![true; 12];
    answers.push(false);
    let actions = run(Some(9), &answers);
    let waits = actions.iter().filter(|a| **a == StopAction::WaitAndCheck).count();
    assert_eq!(waits, 9);
    assert_eq!(actions[actions.len() - 2], StopAction::Kill(9));
    assert_eq!(actions[actions.len() - 1], StopAction::CleanupAndFinish);
    assert_eq!(actions.len(), 15);
}

#[test]
fn a_vm_that_survives_sigkill_fails() {
    let answers = vec![true; 13];
    let actions = run(Some(9), &answers);
    assert_eq!(actions.last(), Some(&StopAction::Fail(StopFailure::StillRunning)));
    assert_eq!(stop_failure_error("w", StopFailure::StillRunning), QvmError::FailedToStopVm("w".to_string()));
    assert_eq!(stop_failure_error("w", StopFailure::NotRunning), QvmError::VmNotRunning("w".to_string()));
}

#[test]
fn phases_accept_only_their_events() {
    assert!(!stop_accepts_event(StopPhase::Done, StopEvent::Running(true)));
    assert!(!stop_accepts_event(StopPhase::ReadingPid, StopEvent::Running(true)));
    assert!(stop_accepts_event(StopPhase::ReadingPid, StopEvent::PidRead(None)));
    assert!(!stop_accepts_event(StopPhase::Start, StopEvent::PidRead(Some(1))));
}
