//! The supervisor: spaces reconciliation cycles at least one interval apart
//! in wall-clock time, counts consecutive cycle failures, and aborts after
//! a threshold of them rather than retrying forever.
//!
//! The caller owns the clock and the sleep: it reports how much wall time
//! passed and performs the sleeps and the final abort, while every decision
//! is made here.

use vstd::prelude::*;

verus! {

/// How many consecutive cycle failures abort the supervisor.
pub const FAILURE_THRESHOLD: u32 = 3;

/// The failure accounting of the supervisor: the count of consecutive failed
/// cycles and whether the circuit breaker has tripped. `aborted` is terminal:
/// the caller terminates the process and records no further cycle.
#[derive(Clone, Copy, Debug, PartialEq, Eq, Structural)]
pub struct Supervisor {
    pub failures: u32,
    pub aborted: bool,
}

/// The supervisor's transition on one finished cycle: a success resets the
/// consecutive-failure count to zero, a failure raises it by one, and the
/// supervisor is aborted exactly when the count reaches the threshold.
pub open spec fn supervisor_step(s: Supervisor, success: bool) -> Supervisor {
    let failures = if success {
        0u32
    } else {
        (s.failures + 1) as u32
    };
    Supervisor { failures, aborted: failures >= FAILURE_THRESHOLD }
}

impl Supervisor {
    /// The failure count never passes the threshold, and the supervisor is
    /// aborted exactly when the count has reached it.
    pub open spec fn wf(&self) -> bool {
        &&& self.failures <= FAILURE_THRESHOLD
        &&& (self.aborted <==> self.failures >= FAILURE_THRESHOLD)
    }

    /// A fresh supervisor: no failures, running.
    pub fn new() -> (s: Supervisor)
        ensures
            s.failures == 0,
            !s.aborted,
            s.wf(),
    {
        Supervisor { failures: 0, aborted: false }
    }

    /// Accounts for one finished cycle. Only a running supervisor records
    /// cycles: an aborted one is terminal.
    pub fn record_cycle(&mut self, success: bool)
        requires
            old(self).wf(),
            !old(self).aborted,
        ensures
            *final(self) == supervisor_step(*old(self), success),
            final(self).wf(),
            success ==> final(self).failures == 0 && !final(self).aborted,
            !success ==> final(self).failures == old(self).failures + 1,
            final(self).aborted <==> final(self).failures >= FAILURE_THRESHOLD,
    {
        if success {
            self.failures = 0;
        } else {
            self.failures = self.failures + 1;
        }
        self.aborted = self.failures >= FAILURE_THRESHOLD;
    }
}

/// Law: the circuit breaker trips on the third consecutive failure and not
/// before. From a supervisor with no recorded failure, two failed cycles
/// leave it running and the third aborts it.
pub proof fn lemma_abort_after_three_failures(s: Supervisor)
    requires
        s.wf(),
        s.failures == 0,
    ensures
        !supervisor_step(s, false).aborted,
        !supervisor_step(supervisor_step(s, false), false).aborted,
        supervisor_step(supervisor_step(supervisor_step(s, false), false), false).aborted,
{
}

/// Law: any intervening success resets the consecutive-failure count to
/// zero, so failures separated by a success never accumulate: whatever was
/// counted before, after a success it again takes three consecutive failures
/// — and not fewer — to abort.
pub proof fn lemma_success_resets_counter(s: Supervisor)
    requires
        s.wf(),
        !s.aborted,
    ensures
        supervisor_step(s, true).failures == 0,
        !supervisor_step(s, true).aborted,
        supervisor_step(s, true).wf(),
        !supervisor_step(supervisor_step(s, true), false).aborted,
        !supervisor_step(supervisor_step(supervisor_step(s, true), false), false).aborted,
        supervisor_step(
            supervisor_step(supervisor_step(supervisor_step(s, true), false), false),
            false,
        ).aborted,
{
}

/// What the caller must do after one sleep: run the next reconciliation
/// cycle, or only sleep again because not enough wall time has passed.
#[derive(Clone, Copy, Debug, PartialEq, Eq, Structural)]
pub enum WakeAction {
    RunJob,
    SleepAgain,
}

/// The drift-corrected schedule of reconciliation cycles. `interval` is the
/// configured spacing and `next_sleep` how long the caller must sleep next;
/// both are in the caller's clock ticks (the same unit as the elapsed times
/// it reports).
#[derive(Clone, Copy, Debug, PartialEq, Eq, Structural)]
pub struct Scheduler {
    pub interval: u64,
    pub next_sleep: u64,
}

impl Scheduler {
    /// The pending sleep never exceeds the interval and never vanishes.
    pub open spec fn wf(&self) -> bool {
        0 < self.next_sleep <= self.interval
    }

    /// A fresh schedule: the first sleep is one full interval.
    pub fn new(interval: u64) -> (s: Scheduler)
        requires
            interval > 0,
        ensures
            s.interval == interval,
            s.next_sleep == interval,
            s.wf(),
    {
        Scheduler { interval, next_sleep: interval }
    }

    /// Decides what to do after a sleep, given the wall time elapsed since
    /// the last cycle actually ran. A wake before one full interval has
    /// accumulated shrinks the next sleep to exactly the remainder and runs
    /// nothing, so cycles stay at least one interval apart however often the
    /// process wakes early; once a full interval has passed, the cycle runs
    /// and the schedule starts over.
    pub fn on_wake(&mut self, elapsed: u64) -> (a: WakeAction)
        requires
            old(self).wf(),
        ensures
            final(self).interval == old(self).interval,
            final(self).wf(),
            elapsed < old(self).interval ==> a == WakeAction::SleepAgain && final(self).next_sleep
                == old(self).interval - elapsed,
            elapsed >= old(self).interval ==> a == WakeAction::RunJob && final(self).next_sleep
                == old(self).interval,
    {
        if elapsed < self.interval {
            self.next_sleep = self.interval - elapsed;
            WakeAction::SleepAgain
        } else {
            self.next_sleep = self.interval;
            WakeAction::RunJob
        }
    }
}

} // verus!
