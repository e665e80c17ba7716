//! Stopping a container: a graceful poweroff, then a forceful kill, each
//! followed by a bounded wait for the machine object to disappear. The
//! decisions are a step function from the outcome of the last action to the
//! next action.

use vstd::prelude::*;

verus! {

/// Polls for the machine's disappearance after each of the two requests.
pub const TERMINATION_POLLS: u32 = 10;

/// Seconds waited after each poll that still finds the machine.
pub const POLL_INTERVAL_SECS: u64 = 1;

/// Where a termination stands.
#[derive(Debug, PartialEq, Eq, Clone, Copy)]
pub enum TermPhase {
    /// Nothing done yet.
    Begin,
    /// A poweroff was requested inside the container.
    PoweroffSent,
    /// Waiting for the machine to go after the poweroff, `polls` polls made.
    Graceful { polls: u32 },
    /// Every process of the machine was sent `SIGKILL` and the machine was
    /// asked to terminate.
    Killing,
    /// Waiting for the machine to go after the kill, `polls` polls made.
    Forceful { polls: u32 },
    /// The machine is gone.
    Done,
    /// The machine could not be stopped.
    Failed,
}

/// Why a termination failed.
#[derive(Debug, PartialEq, Eq, Clone, Copy)]
pub enum TermError {
    /// Sending the kill or the terminate request failed.
    KillFailed,
    /// The machine was still there after the kill and the wait: the system's
    /// I/O may be stuck, and the kernel log may tell more.
    TerminationFailed,
}

/// What the caller of a termination does next, reporting whether it succeeded
/// with the following step.
#[derive(Debug, PartialEq, Eq, Clone, Copy)]
pub enum TermAction {
    /// Run `poweroff` in the container through a transient unit that does not
    /// block; success is an exit code of zero.
    RunPoweroff,
    /// Check whether the machine object is gone; where it is not, wait
    /// `wait_secs` seconds. Success is that it is gone.
    CheckGone { wait_secs: u64 },
    /// Send `SIGKILL` to every process of the machine, then ask the manager
    /// to terminate it. Success is that both requests went through.
    KillAll,
    /// The machine is gone: stop returns successfully.
    Finished,
    /// Stop fails with `error`.
    Fail { error: TermError },
}

/// A termination in progress, with the seconds waited so far.
pub struct Termination {
    pub phase: TermPhase,
    pub waited: u64,
}

/// Next phase and action, given the current phase and whether the last action
/// succeeded.
pub open spec fn term_next(phase: TermPhase, ok: bool) -> (TermPhase, TermAction) {
    let check = TermAction::CheckGone { wait_secs: POLL_INTERVAL_SECS };
    match phase {
        TermPhase::Begin => (TermPhase::PoweroffSent, TermAction::RunPoweroff),
        TermPhase::PoweroffSent => if ok {
            (TermPhase::Graceful { polls: 0 }, check)
        } else {
            (TermPhase::Killing, TermAction::KillAll)
        },
        TermPhase::Graceful { polls } => if ok {
            (TermPhase::Done, TermAction::Finished)
        } else if polls + 1 < TERMINATION_POLLS {
            (TermPhase::Graceful { polls: (polls + 1) as u32 }, check)
        } else {
            (TermPhase::Killing, TermAction::KillAll)
        },
        TermPhase::Killing => if ok {
            (TermPhase::Forceful { polls: 0 }, check)
        } else {
            (TermPhase::Failed, TermAction::Fail { error: TermError::KillFailed })
        },
        TermPhase::Forceful { polls } => if ok {
            (TermPhase::Done, TermAction::Finished)
        } else if polls + 1 < TERMINATION_POLLS {
            (TermPhase::Forceful { polls: (polls + 1) as u32 }, check)
        } else {
            (TermPhase::Failed, TermAction::Fail { error: TermError::TerminationFailed })
        },
        TermPhase::Done => (TermPhase::Done, TermAction::Finished),
        TermPhase::Failed => (
            TermPhase::Failed,
            TermAction::Fail { error: TermError::TerminationFailed },
        ),
    }
}

/// Whether the step from `phase` on an unsuccessful check spends a wait.
pub open spec fn waits(phase: TermPhase, ok: bool) -> bool {
    !ok && (phase is Graceful || phase is Forceful)
}

/// Upper bound on the steps left before the termination ends.
pub open spec fn steps_left(phase: TermPhase) -> nat {
    match phase {
        TermPhase::Begin => 24,
        TermPhase::PoweroffSent => 23,
        TermPhase::Graceful { polls } => (22 - polls) as nat,
        TermPhase::Killing => 11,
        TermPhase::Forceful { polls } => (10 - polls) as nat,
        TermPhase::Done => 0,
        TermPhase::Failed => 0,
    }
}

impl Termination {
    /// Poll counts stay within the window, and the seconds waited are those
    /// spent by the polls made.
    pub open spec fn wf(&self) -> bool {
        match self.phase {
            TermPhase::Begin => self.waited == 0,
            TermPhase::PoweroffSent => self.waited == 0,
            TermPhase::Graceful { polls } => polls < TERMINATION_POLLS && self.waited == polls,
            TermPhase::Killing => self.waited <= TERMINATION_POLLS,
            TermPhase::Forceful { polls } => polls < TERMINATION_POLLS && self.waited
                <= TERMINATION_POLLS + polls,
            TermPhase::Done => self.waited <= 2 * TERMINATION_POLLS,
            TermPhase::Failed => self.waited <= 2 * TERMINATION_POLLS,
        }
    }

    /// Whether the termination has ended.
    pub open spec fn ended(&self) -> bool {
        self.phase is Done || self.phase is Failed
    }

    /// A termination with nothing done yet.
    pub fn new() -> (r: Termination)
        ensures
            r.wf(),
            r.phase == TermPhase::Begin,
            r.waited == 0,
    {
        Termination { phase: TermPhase::Begin, waited: 0 }
    }
}

/// Terminate the container, gracefully where possible: advances `t` on the
/// outcome `ok` of the action it asked for last (ignored at the start) and
/// returns the next action. A poweroff is requested first; should it fail, or
/// the machine outlive ten polls one second apart, every process is killed
/// and the machine terminated; should it outlive ten more polls, the stop fails.
pub fn terminate_container(t: &mut Termination, ok: bool) -> (r: TermAction)
    requires
        old(t).wf(),
        !old(t).ended(),
    ensures
        final(t).wf(),
        (final(t).phase, r) == term_next(old(t).phase, ok),
        final(t).waited == old(t).waited + if waits(old(t).phase, ok) {
            POLL_INTERVAL_SECS
        } else {
            0
        },
        steps_left(final(t).phase) < steps_left(old(t).phase),
{
    let check = TermAction::CheckGone { wait_secs: POLL_INTERVAL_SECS };
    match t.phase {
        TermPhase::Begin => {
            t.phase = TermPhase::PoweroffSent;
            TermAction::RunPoweroff
        },
        TermPhase::PoweroffSent => {
            if ok {
                t.phase = TermPhase::Graceful { polls: 0 };
                check
            } else {
                t.phase = TermPhase::Killing;
                TermAction::KillAll
            }
        },
        TermPhase::Graceful { polls } => {
            if ok {
                t.phase = TermPhase::Done;
                TermAction::Finished
            } else {
                t.waited = t.waited + POLL_INTERVAL_SECS;
                if polls + 1 < TERMINATION_POLLS {
                    t.phase = TermPhase::Graceful { polls: polls + 1 };
                    check
                } else {
                    t.phase = TermPhase::Killing;
                    TermAction::KillAll
                }
            }
        },
        TermPhase::Killing => {
            if ok {
                t.phase = TermPhase::Forceful { polls: 0 };
                check
            } else {
                t.phase = TermPhase::Failed;
                TermAction::Fail { error: TermError::KillFailed }
            }
        },
        TermPhase::Forceful { polls } => {
            if ok {
                t.phase = TermPhase::Done;
                TermAction::Finished
            } else {
                t.waited = t.waited + POLL_INTERVAL_SECS;
                if polls + 1 < TERMINATION_POLLS {
                    t.phase = TermPhase::Forceful { polls: polls + 1 };
                    check
                } else {
                    t.phase = TermPhase::Failed;
                    TermAction::Fail { error: TermError::TerminationFailed }
                }
            }
        },
        TermPhase::Done => TermAction::Finished,
        TermPhase::Failed => TermAction::Fail { error: TermError::TerminationFailed },
    }
}

/// A termination ends within the graceful and forceful budgets: at every
/// point it has waited at most twenty seconds (ten polls after the poweroff,
/// ten after the kill), and at most 24 more steps remain.
pub proof fn lemma_termination_bound(t: Termination)
    requires
        t.wf(),
    ensures
        t.waited <= 2 * TERMINATION_POLLS * POLL_INTERVAL_SECS,
        steps_left(t.phase) <= 24,
        t.ended() <==> steps_left(t.phase) == 0,
{
}

} // verus!
