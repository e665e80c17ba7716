//! Waiting for a freshly spawned container to accept work: the decisions of
//! the bounded readiness wait, from what the caller observed to what it does
//! next.

use vstd::prelude::*;

verus! {

/// Number of thresholds `floor(e^k)` the delay table knows.
pub const N_THRESHOLDS: u64 = 23;

/// `floor(e^k)` for `k < 23`.
pub open spec fn exp_floor(k: nat) -> nat {
    seq![
        1nat, 2, 7, 20, 54, 148, 403, 1096, 2980, 8103, 22026, 59874, 162754, 442413, 1202604,
        3269017, 8886110, 24154952, 65659969, 178482300, 485165195, 1318815734, 3584912846,
    ][k as int]
}

/// The least `j >= k` with `n <= e^j`, searching no further than 23.
pub open spec fn ln_ceil_from(n: nat, k: nat) -> nat
    decreases 23 - k,
{
    if k >= 23 || n <= exp_floor(k) {
        k
    } else {
        ln_ceil_from(n, k + 1)
    }
}

/// `ceil(ln n)` for `1 <= n < 2^32`: the least `k` with `n <= e^k` (for an
/// integer `n` the same as `n <= floor(e^k)`).
pub open spec fn ln_ceil(n: nat) -> nat {
    ln_ceil_from(n, 0)
}

/// Seconds slept after the failed probe of zero-based attempt `i`.
pub open spec fn backoff(i: nat) -> nat {
    ln_ceil(i + 1)
}

/// Total seconds slept after `n` failed probes.
pub open spec fn delay_budget(n: nat) -> nat
    decreases n,
{
    if n == 0 {
        0
    } else {
        delay_budget((n - 1) as nat) + backoff((n - 1) as nat)
    }
}

proof fn lemma_ln_ceil_from_bound(n: nat, k: nat)
    requires
        k <= 23,
    ensures
        k <= ln_ceil_from(n, k) <= 23,
    decreases 23 - k,
{
    if !(k >= 23 || n <= exp_floor(k)) {
        lemma_ln_ceil_from_bound(n, k + 1);
    }
}

proof fn lemma_delay_budget_bound(n: nat)
    ensures
        delay_budget(n) <= 23 * n,
    decreases n,
{
    if n > 0 {
        lemma_delay_budget_bound((n - 1) as nat);
        lemma_ln_ceil_from_bound(n, 0);
    }
}

/// `ceil(ln n)` for `1 <= n <= 2^32`.
pub fn ceil_ln(n: u64) -> (r: u64)
    requires
        1 <= n <= 4294967296,
    ensures
        r == ln_ceil(n as nat),
{
    let table: [u64; 23] = [
        1, 2, 7, 20, 54, 148, 403, 1096, 2980, 8103, 22026, 59874, 162754, 442413, 1202604,
        3269017, 8886110, 24154952, 65659969, 178482300, 485165195, 1318815734, 3584912846,
    ];
    let mut k: u64 = 0;
    while k < N_THRESHOLDS && table[k as usize] < n
        invariant
            k <= 23,
            ln_ceil_from(n as nat, k as nat) == ln_ceil(n as nat),
            forall|j: int| 0 <= j < 23 ==> table@[j] as nat == exp_floor(j as nat),
        decreases 23 - k,
    {
        k = k + 1;
    }
    k
}

/// State of an observed child process.
pub enum ChildStatus {
    /// Still running.
    Running,
    /// Exited, with its exit code where it had one.
    Exited { code: Option<i32> },
}

/// What the caller of a readiness wait does next.
#[derive(Debug, PartialEq, Eq)]
pub enum ReadinessStep {
    /// The container's bus answered: it is ready.
    Ready,
    /// Sleep this many seconds, then observe again if attempts remain.
    Sleep { secs: u64 },
    /// The container process exited before it became ready.
    ExitedEarly { code: Option<i32> },
}

/// A readiness wait of at most `retry` attempts, with the seconds slept so far.
pub struct ReadinessWait {
    pub attempt: u32,
    pub retry: u32,
    pub waited: u64,
}

impl ReadinessWait {
    /// Attempts are within bounds, and the seconds slept are those owed for
    /// the attempts made.
    pub open spec fn wf(&self) -> bool {
        &&& self.attempt <= self.retry
        &&& self.waited == delay_budget(self.attempt as nat)
    }

    /// A wait of at most `retry` attempts, none made yet.
    pub fn new(retry: u32) -> (r: ReadinessWait)
        ensures
            r.wf(),
            r.attempt == 0,
            r.retry == retry,
    {
        ReadinessWait { attempt: 0, retry, waited: 0 }
    }

    /// Whether an attempt remains.
    pub fn pending(&self) -> (r: bool)
        ensures
            r == (self.attempt < self.retry),
    {
        self.attempt < self.retry
    }

    /// Decides on one attempt, given the state of the container process and
    /// whether a fresh connection to the container's bus succeeded: ready only
    /// on a live process whose bus answered; otherwise the attempt is spent and
    /// the wait sleeps `ceil(ln(attempt + 1))` seconds.
    pub fn step(&mut self, child: ChildStatus, bus_ok: bool) -> (r: ReadinessStep)
        requires
            old(self).wf(),
            old(self).attempt < old(self).retry,
        ensures
            final(self).wf(),
            final(self).retry == old(self).retry,
            match child {
                ChildStatus::Exited { code } => r == ReadinessStep::ExitedEarly { code }
                    && *final(self) == *old(self),
                ChildStatus::Running => if bus_ok {
                    r == ReadinessStep::Ready && *final(self) == *old(self)
                } else {
                    r == ReadinessStep::Sleep { secs: backoff(old(self).attempt as nat) as u64 }
                        && final(self).attempt == old(self).attempt + 1
                },
            },
    {
        match child {
            ChildStatus::Exited { code } => ReadinessStep::ExitedEarly { code },
            ChildStatus::Running => {
                if bus_ok {
                    ReadinessStep::Ready
                } else {
                    let secs = ceil_ln(self.attempt as u64 + 1);
                    proof {
                        lemma_delay_budget_bound(self.attempt as nat);
                        lemma_ln_ceil_from_bound(self.attempt as nat + 1, 0);
                        assert(delay_budget(self.attempt as nat + 1) == delay_budget(
                            self.attempt as nat,
                        ) + backoff(self.attempt as nat));
                    }
                    self.waited = self.waited + secs;
                    self.attempt = self.attempt + 1;
                    ReadinessStep::Sleep { secs }
                }
            },
        }
    }
}

/// A readiness wait never sleeps more than the budget of its attempts: while
/// it runs, what it slept is within the sum of the delays of all `retry`
/// attempts, and once no attempt remains it has slept exactly that sum.
pub proof fn lemma_readiness_bound(w: ReadinessWait)
    requires
        w.wf(),
    ensures
        w.waited <= delay_budget(w.retry as nat),
        w.attempt == w.retry ==> w.waited == delay_budget(w.retry as nat),
{
    lemma_delay_budget_monotonic(w.attempt as nat, w.retry as nat);
}

proof fn lemma_delay_budget_monotonic(a: nat, b: nat)
    requires
        a <= b,
    ensures
        delay_budget(a) <= delay_budget(b),
    decreases b - a,
{
    if a < b {
        lemma_delay_budget_monotonic(a, (b - 1) as nat);
    }
}

/// The default wait of ten attempts sleeps 0, 1, 2, 2, 2, 2, 2, 3, 3 and 3
/// seconds: twenty in all.
pub proof fn lemma_default_budget()
    ensures
        delay_budget(10) == 20,
{
    reveal_with_fuel(delay_budget, 11);
    reveal_with_fuel(ln_ceil_from, 5);
}

} // verus!
