//! The commands and requests the engine hands to the host: the container
//! runtime's arguments, commands run inside a container, their exit codes, and
//! the cross-namespace bind mounts set up once a container is ready.

use vstd::prelude::*;

verus! {

/// The characters of each string.
pub open spec fn views(v: Seq<String>) -> Seq<Seq<char>> {
    Seq::new(v.len(), |i: int| v[i]@)
}

/// Arguments of the container runtime: the fixed base options (quiet, boot
/// mode, memory locking allowed, stack switching let through the system-call
/// filter), the caller's extras, then the root directory and machine name.
pub open spec fn nspawn_args_spec(
    ns_name: Seq<char>,
    path: Seq<char>,
    extra: Seq<Seq<char>>,
) -> Seq<Seq<char>> {
    seq!["-qb"@, "--capability=CAP_IPC_LOCK"@, "--system-call-filter=swapcontext"@] + extra
        + seq!["-D"@, path, "-M"@, ns_name, "--"@]
}

/// Arguments of `systemd-run` for a command run inside a container: attached,
/// quiet, on a pseudoterminal, with `HOME=/root`, and the stage-2 marker where
/// the host has one.
pub open spec fn exec_args_spec(
    ns_name: Seq<char>,
    stage2: bool,
    args: Seq<Seq<char>>,
) -> Seq<Seq<char>> {
    seq!["--setenv=HOME=/root"@] + (if stage2 {
        seq!["--setenv=ABSTAGE2=1"@]
    } else {
        Seq::empty()
    }) + seq!["-M"@, ns_name, "-qt"@, "--"@] + args
}

/// Arguments of `systemd-run` that power a container off without waiting.
pub open spec fn poweroff_args_spec(ns_name: Seq<char>) -> Seq<Seq<char>> {
    seq!["-M"@, ns_name, "-q"@, "--no-block"@, "--"@, "poweroff"@]
}

/// Exit code reported for a command: its own, or 127 where it has none
/// (killed by a signal, or its status could not be read).
pub open spec fn exit_code_of(code: Option<i32>) -> i32 {
    match code {
        Some(c) => c,
        None => 127,
    }
}

fn push_str(v: &mut Vec<String>, s: &str)
    ensures
        views(final(v)@) == views(old(v)@).push(s@),
{
    v.push(s.to_owned());
    assert(views(final(v)@) =~= views(old(v)@).push(s@));
}

fn push_all(v: &mut Vec<String>, items: &[String])
    ensures
        views(final(v)@) == views(old(v)@) + views(items@),
{
    let ghost start = old(v)@;
    let mut i: usize = 0;
    while i < items.len()
        invariant
            i <= items@.len(),
            views(v@) == views(start) + views(items@.subrange(0, i as int)),
        decreases items@.len() - i,
    {
        let item = items[i].clone();
        let ghost before = v@;
        v.push(item);
        proof {
            let lhs = views(v@);
            let rhs = views(start) + views(items@.subrange(0, i + 1));
            assert(v@ =~= before.push(items@[i as int]));
            assert(views(before).len() == before.len());
            assert(before.len() == start.len() + i);
            assert forall|k: int| 0 <= k < lhs.len() implies lhs[k] == rhs[k] by {
                if k < before.len() {
                    assert(lhs[k] == before[k]@);
                    assert(views(before)[k] == before[k]@);
                } else {
                    assert(lhs[k] == items@[i as int]@);
                }
            }
            assert(lhs =~= rhs);
        }
        i = i + 1;
    }
    assert(items@.subrange(0, i as int) =~= items@);
}

/// Arguments for spawning the container `ns_name` rooted at `path`.
pub fn nspawn_args(ns_name: &str, path: &str, extra_options: &[String]) -> (r: Vec<String>)
    ensures
        views(r@) == nspawn_args_spec(ns_name@, path@, views(extra_options@)),
{
    let mut r: Vec<String> = Vec::new();
    push_str(&mut r, "-qb");
    push_str(&mut r, "--capability=CAP_IPC_LOCK");
    push_str(&mut r, "--system-call-filter=swapcontext");
    push_all(&mut r, extra_options);
    push_str(&mut r, "-D");
    push_str(&mut r, path);
    push_str(&mut r, "-M");
    push_str(&mut r, ns_name);
    push_str(&mut r, "--");
    assert(views(r@) =~= nspawn_args_spec(ns_name@, path@, views(extra_options@)));
    r
}

/// Environment variable set for the container runtime: no implicit tmpfs on
/// `/tmp`.
pub fn nspawn_env() -> (r: (String, String))
    ensures
        r.0@ == "SYSTEMD_NSPAWN_TMPFS_TMP"@,
        r.1@ == "0"@,
{
    ("SYSTEMD_NSPAWN_TMPFS_TMP".to_owned(), "0".to_owned())
}

/// Arguments for running `args` inside the container `ns_name`; `stage2` is
/// whether the host environment carries the stage-2 marker.
pub fn exec_args(ns_name: &str, stage2: bool, args: &[String]) -> (r: Vec<String>)
    ensures
        views(r@) == exec_args_spec(ns_name@, stage2, views(args@)),
{
    let mut r: Vec<String> = Vec::new();
    push_str(&mut r, "--setenv=HOME=/root");
    if stage2 {
        push_str(&mut r, "--setenv=ABSTAGE2=1");
    }
    push_str(&mut r, "-M");
    push_str(&mut r, ns_name);
    push_str(&mut r, "-qt");
    push_str(&mut r, "--");
    push_all(&mut r, args);
    assert(views(r@) =~= exec_args_spec(ns_name@, stage2, views(args@)));
    r
}

/// Arguments for powering the container `ns_name` off.
pub fn poweroff_args(ns_name: &str) -> (r: Vec<String>)
    ensures
        views(r@) == poweroff_args_spec(ns_name@),
{
    let mut r: Vec<String> = Vec::new();
    push_str(&mut r, "-M");
    push_str(&mut r, ns_name);
    push_str(&mut r, "-q");
    push_str(&mut r, "--no-block");
    push_str(&mut r, "--");
    push_str(&mut r, "poweroff");
    assert(views(r@) =~= poweroff_args_spec(ns_name@));
    r
}

/// Exit code of a command run in a container, from the code it exited with.
pub fn exit_code(code: Option<i32>) -> (r: i32)
    ensures
        r == exit_code_of(code),
{
    match code {
        Some(c) => c,
        None => 127,
    }
}

/// Outcome of a poweroff request: success on exit code zero, else the code.
pub fn poweroff_outcome(code: Option<i32>) -> (r: Result<(), i32>)
    ensures
        exit_code_of(code) == 0 ==> r is Ok,
        exit_code_of(code) != 0 ==> r == Err::<(), i32>(exit_code_of(code)),
{
    let c = exit_code(code);
    if c != 0 {
        Err(c)
    } else {
        Ok(())
    }
}

/// A cross-namespace bind mount to ask of the machine manager.
pub struct BindMount {
    pub source: String,
    pub dest: String,
    pub read_only: bool,
    pub mkdir: bool,
}

/// The (source, destination) pairs of the mounts that can be set up: those
/// whose host path could be made canonical, in order.
pub open spec fn usable_mounts(m: Seq<(Option<String>, String)>) -> Seq<(Seq<char>, Seq<char>)>
    decreases m.len(),
{
    if m.len() == 0 {
        Seq::empty()
    } else {
        let rest = usable_mounts(m.drop_last());
        match m.last().0 {
            Some(s) => rest.push((s@, m.last().1@)),
            None => rest,
        }
    }
}

/// `m` asks for the writable mount `pair`, creating its target if missing.
pub open spec fn requested(m: BindMount, pair: (Seq<char>, Seq<char>)) -> bool {
    m.source@ == pair.0 && m.dest@ == pair.1 && !m.read_only && m.mkdir
}

/// The bind mounts to request for `mounts`, each a canonical host path (none
/// where it could not be made canonical) and a path inside the container.
/// Mounts are best-effort: one whose host path is missing is left out and the
/// others are still requested, writable, with the target created if missing.
pub fn bind_mount_requests(mounts: &Vec<(Option<String>, String)>) -> (r: Vec<BindMount>)
    ensures
        r@.len() == usable_mounts(mounts@).len(),
        forall|i: int| 0 <= i < r@.len() ==> requested(r@[i], usable_mounts(mounts@)[i]),
{
    let mut out: Vec<BindMount> = Vec::new();
    let mut i: usize = 0;
    while i < mounts.len()
        invariant
            i <= mounts@.len(),
            out@.len() == usable_mounts(mounts@.subrange(0, i as int)).len(),
            forall|j: int|
                0 <= j < out@.len() ==> (out@[j].source@, out@[j].dest@) == usable_mounts(
                    mounts@.subrange(0, i as int),
                )[j] && !out@[j].read_only && out@[j].mkdir,
        decreases mounts@.len() - i,
    {
        assert(mounts@.subrange(0, i + 1).drop_last() =~= mounts@.subrange(0, i as int));
        match &mounts[i].0 {
            Some(s) => {
                out.push(
                    BindMount {
                        source: s.clone(),
                        dest: mounts[i].1.clone(),
                        read_only: false,
                        mkdir: true,
                    },
                );
            },
            None => {},
        }
        i = i + 1;
    }
    assert(mounts@.subrange(0, i as int) =~= mounts@);
    out
}

} // verus!
