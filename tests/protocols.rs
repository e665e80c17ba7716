use ciel::readiness::{ceil_ln, ChildStatus, ReadinessStep, ReadinessWait};
use ciel::termination::{terminate_container, TermAction, TermError, TermPhase, Termination};

#[test]
fn ceil_ln_values() {
    let expect = [0u64, 1, 2, 2, 2, 2, 2, 3, 3, 3, 3, 3, 3, 3, 3, 3, 3, 3, 3, 3, 4];
    for (i, e) in expect.iter().enumerate() {
        assert_eq!(ceil_ln(i as u64 + 1), *e);
    }
    assert_eq!(ceil_ln(54), 4);
    assert_eq!(ceil_ln(55), 5);
    assert_eq!(ceil_ln(4294967296), 23);
}

#[test]
fn readiness_times_out_after_twenty_seconds() {
    let mut w = ReadinessWait::new(10);
    let mut slept = Vec::new();
    while w.pending() {
        match w.step(ChildStatus::Running, false) {
            ReadinessStep::Sleep { secs } => slept.push(secs),
            other => panic!("unexpected {:?}", other),
        }
    }
    assert_eq!(slept, vec![0, 1, 2, 2, 2, 2, 2, 3, 3, 3]);
    assert_eq!(slept.iter().sum::<u64>(), 20);
    assert_eq!(w.waited, 20);
}

#[test]
fn readiness_succeeds_when_bus_answers() {
    let mut w = ReadinessWait::new(10);
    assert_eq!(w.step(ChildStatus::Running, false), ReadinessStep::Sleep { secs: 0 });
    assert_eq!(w.step(ChildStatus::Running, false), ReadinessStep::Sleep { secs: 1 });
    assert_eq!(w.step(ChildStatus::Running, true), ReadinessStep::Ready);
    assert_eq!(w.waited, 1);
    assert!(w.pending());
}

#[test]
fn readiness_fails_when_child_exits() {
    let mut w = ReadinessWait::new(10);
    assert_eq!(
        w.step(ChildStatus::Exited { code: Some(1) }, true),
        ReadinessStep::ExitedEarly { code: Some(1) }
    );
}

#[test]
fn graceful_poweroff() {
    let mut t = Termination::new();
    assert_eq!(terminate_container(&mut t, true), TermAction::RunPoweroff);
    assert_eq!(
        terminate_container(&mut t, true),
        TermAction::CheckGone { wait_secs: 1 }
    );
    assert_eq!(
        terminate_container(&mut t, false),
        TermAction::CheckGone { wait_secs: 1 }
    );
    assert_eq!(terminate_container(&mut t, true), TermAction::Finished);
    assert_eq!(t.phase, TermPhase::Done);
    assert_eq!(t.waited, 1);
}

#[test]
fn poweroff_that_never_completes_falls_through_to_kill() {
    let mut t = Termination::new();
    assert_eq!(terminate_container(&mut t, true), TermAction::RunPoweroff);
    let mut action = terminate_container(&mut t, true);
    let mut checks = 0;
    while action == (TermAction::CheckGone { wait_secs: 1 }) {
        checks += 1;
        action = terminate_container(&mut t, false);
    }
    assert_eq!(checks, 10);
    assert_eq!(action, TermAction::KillAll);
    assert_eq!(
        terminate_container(&mut t, true),
        TermAction::CheckGone { wait_secs: 1 }
    );
    assert_eq!(terminate_container(&mut t, true), TermAction::Finished);
    assert_eq!(t.waited, 10);
    assert!(t.waited <= 20);
}

#[test]
fn failed_poweroff_goes_straight_to_kill() {
    let mut t = Termination::new();
    terminate_container(&mut t, true);
    assert_eq!(terminate_container(&mut t, false), TermAction::KillAll);
    assert_eq!(
        terminate_container(&mut t, false),
        TermAction::Fail { error: TermError::KillFailed }
    );
}

#[test]
fn stuck_machine_fails_termination() {
    let mut t = Termination::new();
    terminate_container(&mut t, true);
    let mut action = terminate_container(&mut t, true);
    let mut steps = 2;
    loop {
        match action {
            TermAction::CheckGone { .. } => action = terminate_container(&mut t, false),
            TermAction::KillAll => action = terminate_container(&mut t, true),
            _ => break,
        }
        steps += 1;
    }
    assert_eq!(action, TermAction::Fail { error: TermError::TerminationFailed });
    assert_eq!(t.waited, 20);
    assert!(steps <= 24);
}
