//! Instance status: what the host reports of an instance, read into a record
//! whose fields keep the lifecycle's invariants.

use crate::path::{
    file_name_bounds_bytes, file_name_of, is_component, lemma_file_name_of_component, DOT, SEP,
};
use vstd::prelude::*;
use vstd::string::*;

verus! {

/// Instance status information
#[derive(Debug)]
pub struct CielInstance {
    pub name: String,
    /// namespace name (in the form of `$name-$id`)
    pub ns_name: String,
    pub mounted: bool,
    pub running: bool,
    pub started: bool,
    pub booted: Option<bool>,
}

impl CielInstance {
    /// A running instance is started, and boot state is known exactly for
    /// started instances.
    pub open spec fn wf(&self) -> bool {
        &&& self.running ==> self.started
        &&& self.booted is Some <==> self.started
    }
}

/// What the host's machine manager reports of an instance.
#[derive(Debug)]
pub enum MachineReport {
    /// The manager has no machine object of that name.
    Absent,
    /// The machine object exists, in `state`; `leader_cmdline` is the command
    /// line of its process 1, none where that process is already gone.
    Present { state: String, leader_cmdline: Option<Vec<u8>> },
}

/// Why an instance's status could not be read.
#[derive(Debug, PartialEq, Eq)]
pub enum StatusError {
    /// The command line of process 1 holds no NUL byte.
    MalformedCmdline,
}

/// The executable name of a full init: `systemd`.
pub open spec fn systemd_name() -> Seq<u8> {
    seq![115u8, 121u8, 115u8, 116u8, 101u8, 109u8, 100u8]
}

/// The executable name of a System V init: `init`.
pub open spec fn init_name() -> Seq<u8> {
    seq![105u8, 110u8, 105u8, 116u8]
}

/// `k` is the position of the first NUL byte of `c`.
pub open spec fn first_nul(c: Seq<u8>, k: int) -> bool {
    0 <= k < c.len() && c[k] == 0 && forall|i: int| 0 <= i < k ==> c[i] != 0
}

/// Whether a process-1 command line belongs to a booted container: its first
/// argument names an executable called `systemd` or `init`. None where the
/// command line holds no NUL byte.
pub open spec fn booted_by_cmdline(c: Seq<u8>) -> Option<bool> {
    if exists|k: int| first_nul(c, k) {
        let k = choose|k: int| first_nul(c, k);
        match file_name_of(c.subrange(0, k), SEP, DOT) {
            Some(f) => Some(f == systemd_name() || f == init_name()),
            None => Some(false),
        }
    } else {
        None
    }
}

/// Machine states that count as running.
pub open spec fn is_running_state(state: Seq<char>) -> bool {
    state == "running"@ || state == "degraded"@
}

/// The status read from a report on an instance's machine object.
pub open spec fn status_of(
    name: Seq<char>,
    ns_name: Seq<char>,
    mounted: bool,
    report: MachineReport,
) -> Option<(bool, bool, Option<bool>)> {
    match report {
        MachineReport::Absent => Some((false, false, None)),
        MachineReport::Present { state, leader_cmdline } => match leader_cmdline {
            None => Some((true, is_running_state(state@), Some(false))),
            Some(c) => match booted_by_cmdline(c@) {
                Some(b) => Some((true, is_running_state(state@), Some(b))),
                None => None,
            },
        },
    }
}

proof fn lemma_first_nul_unique(c: Seq<u8>, k: int, j: int)
    requires
        first_nul(c, k),
        first_nul(c, j),
    ensures
        k == j,
{
}

/// A process 1 started as `<dir>/<exe>` (or plain `<exe>`), whatever
/// arguments follow, is booted exactly when `<exe>` is `systemd` or `init`.
pub proof fn lemma_boot_by_executable(dir: Seq<u8>, exe: Seq<u8>, rest: Seq<u8>)
    requires
        dir.len() == 0 || dir.last() == SEP,
        is_component(exe, SEP, DOT),
        forall|i: int| 0 <= i < dir.len() ==> dir[i] != 0,
        forall|i: int| 0 <= i < exe.len() ==> exe[i] != 0,
    ensures
        booted_by_cmdline(dir + exe + seq![0u8] + rest) == Some(
            exe == systemd_name() || exe == init_name(),
        ),
{
    let c = dir + exe + seq![0u8] + rest;
    let k = (dir + exe).len() as int;
    assert forall|i: int| 0 <= i < k implies c[i] != 0 by {
        if i < dir.len() {
            assert(c[i] == dir[i]);
        } else {
            assert(c[i] == exe[i - dir.len()]);
        }
    }
    assert(first_nul(c, k));
    let j = choose|j: int| first_nul(c, j);
    lemma_first_nul_unique(c, k, j);
    assert(c.subrange(0, k) =~= dir + exe);
    lemma_file_name_of_component(dir, exe, SEP, DOT);
}

fn bytes_match(p: &[u8], a: usize, b: usize, word: &[u8]) -> (r: bool)
    requires
        a <= b <= p@.len(),
    ensures
        r == (p@.subrange(a as int, b as int) == word@),
{
    if b - a != word.len() {
        return false;
    }
    let mut i: usize = 0;
    while i < word.len()
        invariant
            a <= b <= p@.len(),
            b - a == word@.len(),
            i <= word@.len(),
            forall|j: int| 0 <= j < i ==> p@[a + j] == word@[j],
        decreases word@.len() - i,
    {
        if p[a + i] != word[i] {
            assert(p@.subrange(a as int, b as int)[i as int] != word@[i as int]);
            return false;
        }
        i = i + 1;
    }
    assert(p@.subrange(a as int, b as int) =~= word@);
    true
}

/// Whether the container whose process 1 has command line `cmdline` is
/// booted: its executable's name is `systemd` or `init`.
pub fn is_booted(cmdline: &[u8]) -> (r: Result<bool, StatusError>)
    ensures
        match booted_by_cmdline(cmdline@) {
            Some(b) => r == Ok::<bool, StatusError>(b),
            None => r == Err::<bool, StatusError>(StatusError::MalformedCmdline),
        },
{
    let mut k: usize = 0;
    while k < cmdline.len() && cmdline[k] != 0
        invariant
            k <= cmdline@.len(),
            forall|i: int| 0 <= i < k ==> cmdline@[i] != 0,
        decreases cmdline@.len() - k,
    {
        k = k + 1;
    }
    if k == cmdline.len() {
        assert(!exists|j: int| first_nul(cmdline@, j));
        return Err(StatusError::MalformedCmdline);
    }
    assert(first_nul(cmdline@, k as int));
    proof {
        let j = choose|j: int| first_nul(cmdline@, j);
        lemma_first_nul_unique(cmdline@, k as int, j);
    }
    match file_name_bounds_bytes(cmdline, k) {
        None => Ok(false),
        Some((a, b)) => {
            let systemd: [u8; 7] = [115u8, 121u8, 115u8, 116u8, 101u8, 109u8, 100u8];
            let init: [u8; 4] = [105u8, 110u8, 105u8, 116u8];
            assert(systemd@ =~= systemd_name());
            assert(init@ =~= init_name());
            Ok(bytes_match(cmdline, a, b, &systemd) || bytes_match(cmdline, a, b, &init))
        },
    }
}

/// Whether two strings hold the same characters.
pub fn str_equal(x: &str, y: &str) -> (r: bool)
    ensures
        r == (x@ == y@),
{
    let n = x.unicode_len();
    if n != y.unicode_len() {
        return false;
    }
    let mut i: usize = 0;
    while i < n
        invariant
            n == x@.len() == y@.len(),
            i <= n,
            forall|j: int| 0 <= j < i ==> x@[j] == y@[j],
        decreases n - i,
    {
        if x.get_char(i) != y.get_char(i) {
            return false;
        }
        i = i + 1;
    }
    assert(x@ =~= y@);
    true
}

/// Whether a machine in `state` counts as running (`running`, or `degraded`
/// for a container whose system is partly misconfigured).
pub fn is_running(state: &str) -> (r: bool)
    ensures
        r == is_running_state(state@),
{
    str_equal(state, "running") || str_equal(state, "degraded")
}

/// Whether a bus error named `error_name` says the machine does not exist.
pub fn is_no_such_machine(error_name: &str) -> (r: bool)
    ensures
        r == (error_name@ == "org.freedesktop.machine1.NoSuchMachine"@),
{
    str_equal(error_name, "org.freedesktop.machine1.NoSuchMachine")
}

/// Get the information of the instance `name`, whose machine is `ns_name`,
/// from whether its overlay is mounted and what the machine manager reports.
pub fn inspect_instance(name: &str, ns_name: &str, mounted: bool, report: MachineReport) -> (r:
    Result<CielInstance, StatusError>)
    ensures
        match status_of(name@, ns_name@, mounted, report) {
            None => r == Err::<CielInstance, StatusError>(StatusError::MalformedCmdline),
            Some((started, running, booted)) => r matches Ok(i) && i.name@ == name@ && i.ns_name@
                == ns_name@ && i.mounted == mounted && i.started == started && i.running == running
                && i.booted == booted && i.wf(),
        },
{
    match report {
        MachineReport::Absent => Ok(
            CielInstance {
                name: name.to_owned(),
                ns_name: ns_name.to_owned(),
                mounted,
                running: false,
                started: false,
                booted: None,
            },
        ),
        MachineReport::Present { state, leader_cmdline } => {
            let running = is_running(state.as_str());
            let booted = match leader_cmdline {
                None => false,
                Some(c) => is_booted(c.as_slice())?,
            };
            Ok(
                CielInstance {
                    name: name.to_owned(),
                    ns_name: ns_name.to_owned(),
                    mounted,
                    running,
                    started: true,
                    booted: Some(booted),
                },
            )
        },
    }
}

/// Every status read from the host keeps the lifecycle's invariants: a
/// running instance is started, boot state is known exactly when it is
/// started, and where a machine exists only over a mounted overlay, a started
/// instance is mounted.
pub proof fn lemma_status_invariants(
    name: Seq<char>,
    ns_name: Seq<char>,
    mounted: bool,
    report: MachineReport,
)
    requires
        report is Present ==> mounted,
        status_of(name, ns_name, mounted, report) is Some,
    ensures
        ({
            let (started, running, booted) = status_of(name, ns_name, mounted, report)->Some_0;
            &&& running ==> started
            &&& started ==> mounted
            &&& booted is Some <==> started
        }),
{
}

} // verus!
