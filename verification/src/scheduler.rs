//! Background tasks that run every so many minutes: the scheduler counts
//! minute ticks per task and runs a task once its timeframe has passed.

use vstd::prelude::*;

verus! {

/// A scheduled task's bookkeeping.
pub struct TaskData {
    /// Minutes between runs.
    pub timeframe: usize,
    /// Minute ticks since the task last ran.
    pub updates_since_call: usize,
}

/// The counter after one more tick, and whether the task runs on it.
pub open spec fn after_tick(count: nat, timeframe: nat) -> (nat, bool) {
    if timeframe <= count + 1 {
        (0, true)
    } else {
        ((count + 1) as nat, false)
    }
}

/// The counter of a fresh task after `n` ticks.
pub open spec fn count_after(n: nat, timeframe: nat) -> nat
    decreases n,
{
    if n == 0 {
        0
    } else {
        after_tick(count_after((n - 1) as nat, timeframe), timeframe).0
    }
}

/// Whether a fresh task runs on its `n`-th tick.
pub open spec fn runs_on_tick(n: nat, timeframe: nat) -> bool
    recommends
        n >= 1,
{
    after_tick(count_after((n - 1) as nat, timeframe), timeframe).1
}

impl TaskData {
    /// A task that has not run yet.
    pub fn new(timeframe: usize) -> (r: Self)
        ensures
            r.timeframe == timeframe,
            r.updates_since_call == 0,
    {
        TaskData { timeframe, updates_since_call: 0 }
    }

    /// One minute passes; returns whether the task is due now, in which case
    /// its counter starts again.
    pub fn tick(&mut self) -> (due: bool)
        requires
            old(self).updates_since_call < usize::MAX,
        ensures
            (final(self).updates_since_call as nat, due) == after_tick(
                old(self).updates_since_call as nat,
                old(self).timeframe as nat,
            ),
            final(self).timeframe == old(self).timeframe,
    {
        self.updates_since_call = self.updates_since_call + 1;
        if self.timeframe <= self.updates_since_call {
            self.updates_since_call = 0;
            true
        } else {
            false
        }
    }
}

/// The timeframe of the sample task the scheduler is started with.
pub const TEST_TASK_TIMEFRAME: usize = 1;

/// A task with a timeframe of `t` minutes runs on every `t`-th tick and on no
/// other: after `n` ticks its counter is `n % t`.
pub proof fn law_task_runs_every_timeframe(t: nat, n: nat)
    requires
        t >= 1,
    ensures
        count_after(n, t) == n % t,
        n >= 1 ==> (runs_on_tick(n, t) <==> n % t == 0),
    decreases n,
{
    if n >= 1 {
        law_task_runs_every_timeframe(t, (n - 1) as nat);
        let m = (n - 1) as nat;
        assert(m % t < t) by (nonlinear_arith)
            requires
                t >= 1,
        ;
        assert((m % t + 1 < t ==> n % t == m % t + 1) && (m % t + 1 == t ==> n % t == 0)) by (nonlinear_arith)
            requires
                t >= 1,
                n == m + 1,
        {
            vstd::arithmetic::div_mod::lemma_fundamental_div_mod(m as int, t as int);
            vstd::arithmetic::div_mod::lemma_fundamental_div_mod(n as int, t as int);
        }
        assert(count_after(n, t) == after_tick(count_after(m, t), t).0);
    } else {
        assert(0nat % t == 0) by (nonlinear_arith)
            requires
                t >= 1,
        ;
    }
}

} // verus!
