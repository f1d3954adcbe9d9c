//! The decisions of one worker process while it creates its sleepers: how long
//! each sleeper sleeps, when to back off after a failed creation, and when to
//! pause briefly to spread the creation calls out.
//!
//! Creation is retried without limit: a failure only lengthens the next pause,
//! it never ends the run.

use vstd::prelude::*;

verus! {

/// Shortest sleep handed to a sleeper, in nanoseconds; used once the deadline has passed.
pub const MINIMUM_SLEEP_NS: u64 = 1_000_000_000;

/// Base pause after a failed creation, in nanoseconds; it is scaled by the
/// number of consecutive failures.
pub const ERROR_BACKOFF_NS: u64 = 500_000_000;

/// The pool pauses each time the number of created sleepers is a multiple of this.
pub const SLEEPERS_BETWEEN_PAUSES: usize = 20;

/// Length of that short pause, in nanoseconds.
pub const PAUSE_NS: u64 = 20_000_000;

/// How long a sleeper created `elapsed` after the shared start sleeps, when all
/// sleepers should wake `total` after the start: the time left to that
/// deadline, or the minimum sleep once it has passed.
pub open spec fn remaining_sleep(total: nat, elapsed: nat) -> nat {
    if total > elapsed {
        (total - elapsed) as nat
    } else {
        MINIMUM_SLEEP_NS as nat
    }
}

/// Sleep duration, in nanoseconds, of a sleeper created `elapsed_ns` after the
/// shared start when all should wake `total_ns` after it.
pub fn sleep_duration(total_ns: u64, elapsed_ns: u64) -> (r: u64)
    ensures
        r == remaining_sleep(total_ns as nat, elapsed_ns as nat),
        r > 0,
{
    if total_ns > elapsed_ns {
        total_ns - elapsed_ns
    } else {
        MINIMUM_SLEEP_NS
    }
}

/// No sleeper is asked to sleep for zero time; and the minimum sleep is a
/// floor whenever the deadline has passed or lies at least that far ahead.
pub proof fn lemma_sleep_floor(total: nat, elapsed: nat)
    ensures
        remaining_sleep(total, elapsed) > 0,
        elapsed >= total || total - elapsed >= MINIMUM_SLEEP_NS ==> remaining_sleep(total, elapsed)
            >= MINIMUM_SLEEP_NS,
{
}

/// The counters of a pool that is creating sleepers.
pub struct PoolModel {
    /// Number of sleepers the pool is to create.
    pub count: nat,
    /// Number created so far.
    pub started: nat,
    /// Consecutive failed creations since the last success.
    pub failures: nat,
    /// Time from the shared start until every sleeper should wake, in nanoseconds.
    pub deadline_ns: nat,
}

/// The failure counter after one more failure; it stops at the largest `u64`.
pub open spec fn bumped(failures: nat) -> nat {
    if failures < u64::MAX {
        failures + 1
    } else {
        failures
    }
}

/// Backoff after a failure that brought the counter to `failures`:
/// `(1 + failures)` base pauses, capped at the largest `u64`.
pub open spec fn backoff_ns(failures: nat) -> nat {
    let b = (1 + failures) * (ERROR_BACKOFF_NS as nat);
    if b <= u64::MAX {
        b
    } else {
        u64::MAX as nat
    }
}

/// The pool after one creation attempt that succeeded (`created`) or failed.
pub open spec fn step(m: PoolModel, created: bool) -> PoolModel {
    if created {
        PoolModel { started: m.started + 1, failures: 0, ..m }
    } else {
        PoolModel { failures: bumped(m.failures), ..m }
    }
}

/// Whether the short pause follows an attempt that left the pool at `m`.
pub open spec fn pauses_after(m: PoolModel) -> bool {
    m.started % (SLEEPERS_BETWEEN_PAUSES as nat) == 0
}

/// The pool after a sequence of attempts, in order.
pub open spec fn after_attempts(m: PoolModel, outcomes: Seq<bool>) -> PoolModel
    decreases outcomes.len(),
{
    if outcomes.len() == 0 {
        m
    } else {
        step(after_attempts(m, outcomes.drop_last()), outcomes.last())
    }
}

/// Number of successful attempts in a sequence.
pub open spec fn successes(outcomes: Seq<bool>) -> nat
    decreases outcomes.len(),
{
    if outcomes.len() == 0 {
        0
    } else {
        successes(outcomes.drop_last()) + if outcomes.last() {
            1nat
        } else {
            0nat
        }
    }
}

/// `n` failed attempts.
pub open spec fn failed_attempts(n: nat) -> Seq<bool> {
    Seq::new(n, |i: int| false)
}

/// Failed attempts never undo progress: after any sequence of attempts the
/// pool has created one sleeper per success, keeps its target and deadline,
/// and has no pending failures if the last attempt succeeded. So once the
/// successes number `count - started`, every sleeper has been created,
/// however many failures came between them.
pub proof fn lemma_attempts_progress(m: PoolModel, outcomes: Seq<bool>)
    ensures
        after_attempts(m, outcomes).started == m.started + successes(outcomes),
        after_attempts(m, outcomes).count == m.count,
        after_attempts(m, outcomes).deadline_ns == m.deadline_ns,
        outcomes.len() > 0 && outcomes.last() ==> after_attempts(m, outcomes).failures == 0,
        m.started <= m.count && successes(outcomes) == m.count - m.started ==> after_attempts(
            m,
            outcomes,
        ).started == m.count,
    decreases outcomes.len(),
{
    if outcomes.len() > 0 {
        lemma_attempts_progress(m, outcomes.drop_last());
    }
}

/// Consecutive failures from a pool with none pending: the k-th of them
/// brings the counter to k and backs off for `(1 + k)` base pauses, and a
/// success after `n` of them creates one sleeper and clears the counter.
/// Stated for runs short enough that the backoff fits in a `u64`.
pub proof fn lemma_failures_then_success(m: PoolModel, n: nat)
    requires
        m.failures == 0,
        (1 + n) * (ERROR_BACKOFF_NS as nat) <= u64::MAX,
    ensures
        forall|k: nat|
            1 <= k <= n ==> #[trigger] after_attempts(m, failed_attempts(k)).failures == k
                && backoff_ns(after_attempts(m, failed_attempts(k)).failures) == (1 + k) * (
            ERROR_BACKOFF_NS as nat),
        after_attempts(m, failed_attempts(n).push(true)) == (PoolModel {
            started: m.started + 1,
            failures: 0,
            ..m
        }),
{
    assert forall|k: nat| 1 <= k <= n implies #[trigger] after_attempts(
        m,
        failed_attempts(k),
    ).failures == k && backoff_ns(after_attempts(m, failed_attempts(k)).failures) == (1 + k) * (
    ERROR_BACKOFF_NS as nat) by {
        lemma_failed_attempts(m, k, n);
        assert((1 + k) * (ERROR_BACKOFF_NS as nat) <= (1 + n) * (ERROR_BACKOFF_NS as nat))
            by (nonlinear_arith)
            requires
                k <= n,
        ;
    }
    lemma_failed_attempts(m, n, n);
    assert(failed_attempts(n).push(true).drop_last() =~= failed_attempts(n));
}

proof fn lemma_failed_attempts(m: PoolModel, k: nat, n: nat)
    requires
        k <= n,
        m.failures == 0,
        (1 + n) * (ERROR_BACKOFF_NS as nat) <= u64::MAX,
    ensures
        after_attempts(m, failed_attempts(k)) == (PoolModel { failures: k, ..m }),
    decreases k,
{
    if k == 0 {
        assert(failed_attempts(0) =~= Seq::<bool>::empty());
    } else {
        lemma_failed_attempts(m, (k - 1) as nat, n);
        assert(failed_attempts(k).drop_last() =~= failed_attempts((k - 1) as nat));
        assert(k - 1 < u64::MAX) by (nonlinear_arith)
            requires
                k <= n,
                (1 + n) * (ERROR_BACKOFF_NS as nat) <= u64::MAX,
        ;
    }
}

/// The pauses that follow one creation attempt.
#[derive(Clone, Copy, Debug, PartialEq, Eq)]
pub struct Pauses {
    /// Backoff after a failed creation, in nanoseconds.
    pub backoff_ns: Option<u64>,
    /// Short pause that spreads the creation calls out, in nanoseconds.
    pub yield_ns: Option<u64>,
}

/// The creation state of one worker process's sleepers.
pub struct SleeperPool {
    count: usize,
    started: usize,
    failures: u64,
    deadline_ns: u64,
}

impl View for SleeperPool {
    type V = PoolModel;

    closed spec fn view(&self) -> PoolModel {
        PoolModel {
            count: self.count as nat,
            started: self.started as nat,
            failures: self.failures as nat,
            deadline_ns: self.deadline_ns as nat,
        }
    }
}

impl SleeperPool {
    /// The pool never counts more sleepers than it was asked for.
    pub open spec fn wf(&self) -> bool {
        self@.started <= self@.count
    }

    /// A pool that is to create `count` sleepers, all waking `deadline_ns`
    /// after the shared start.
    pub fn new(count: usize, deadline_ns: u64) -> (r: SleeperPool)
        ensures
            r.wf(),
            r@ == (PoolModel {
                count: count as nat,
                started: 0,
                failures: 0,
                deadline_ns: deadline_ns as nat,
            }),
    {
        SleeperPool { count, started: 0, failures: 0, deadline_ns }
    }

    /// Whether sleepers remain to be created.
    pub fn is_accumulating(&self) -> (r: bool)
        ensures
            r == (self@.started < self@.count),
    {
        self.started < self.count
    }

    /// Sleep duration for the next sleeper, created `elapsed_ns` after the shared start.
    pub fn next_sleep_ns(&self, elapsed_ns: u64) -> (r: u64)
        ensures
            r == remaining_sleep(self@.deadline_ns, elapsed_ns as nat),
            r > 0,
    {
        sleep_duration(self.deadline_ns, elapsed_ns)
    }

    /// Records the outcome of one creation attempt and returns the pauses
    /// that follow it: a backoff after a failure, and the short pause each
    /// time the number created is a multiple of `SLEEPERS_BETWEEN_PAUSES`.
    pub fn record_attempt(&mut self, created: bool) -> (r: Pauses)
        requires
            old(self).wf(),
            old(self)@.started < old(self)@.count,
        ensures
            final(self).wf(),
            final(self)@ == step(old(self)@, created),
            r.backoff_ns == (if created {
                None
            } else {
                Some(backoff_ns(final(self)@.failures) as u64)
            }),
            r.yield_ns == (if pauses_after(final(self)@) {
                Some(PAUSE_NS)
            } else {
                None
            }),
    {
        let backoff = if created {
            self.started = self.started + 1;
            self.failures = 0;
            None
        } else {
            if self.failures < u64::MAX {
                self.failures = self.failures + 1;
            }
            let factor: u64 = self.failures;
            let b: u64 = if factor < u64::MAX / ERROR_BACKOFF_NS {
                proof {
                    assert((factor + 1) * ERROR_BACKOFF_NS <= u64::MAX) by (nonlinear_arith)
                        requires
                            factor < u64::MAX / ERROR_BACKOFF_NS,
                    ;
                }
                (factor + 1) * ERROR_BACKOFF_NS
            } else {
                proof {
                    assert((factor + 1) * ERROR_BACKOFF_NS > u64::MAX) by (nonlinear_arith)
                        requires
                            factor >= u64::MAX / ERROR_BACKOFF_NS,
                    ;
                }
                u64::MAX
            };
            Some(b)
        };
        let pause = if self.started % SLEEPERS_BETWEEN_PAUSES == 0 {
            Some(PAUSE_NS)
        } else {
            None
        };
        Pauses { backoff_ns: backoff, yield_ns: pause }
    }

    /// Number of sleepers the pool is to create.
    pub fn count(&self) -> (r: usize)
        ensures
            r == self@.count,
    {
        self.count
    }

    /// Number of sleepers created so far.
    pub fn started(&self) -> (r: usize)
        ensures
            r == self@.started,
    {
        self.started
    }

    /// Consecutive failed creations since the last success.
    pub fn failures(&self) -> (r: u64)
        ensures
            r == self@.failures,
    {
        self.failures
    }
}

} // verus!
