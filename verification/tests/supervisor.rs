use dyndns::supervisor::{Scheduler, Supervisor, WakeAction, FAILURE_THRESHOLD};

#[test]
fn three_consecutive_failures_abort() {
    let mut s = Supervisor::new();
    s.record_cycle(false);
    assert_eq!(s.failures, 1);
    assert!(!s.aborted);
    s.record_cycle(false);
    assert_eq!(s.failures, 2);
    assert!(!s.aborted);
    s.record_cycle(false);
    assert_eq!(s.failures, 3);
    assert!(s.aborted);
}

#[test]
fn success_resets_failure_counter() {
    // Failures separated by a success never accumulate: the transient
    // success resets the counter to zero, so aborting again takes three
    // fresh consecutive failures.
    let mut s = Supervisor::new();
    s.record_cycle(false);
    s.record_cycle(false);
    s.record_cycle(true);
    assert_eq!(s.failures, 0);
    assert!(!s.aborted);
    s.record_cycle(false);
    s.record_cycle(false);
    assert!(!s.aborted);
    s.record_cycle(false);
    assert!(s.aborted);
}

#[test]
fn threshold_is_three() {
    assert_eq!(FAILURE_THRESHOLD, 3);
}

#[test]
fn early_wake_shrinks_sleep_and_runs_nothing() {
    // Woken after 3 of a 10-tick interval: no cycle runs, and the next
    // sleep is exactly the 7-tick remainder.
    let mut sched = Scheduler::new(10);
    assert_eq!(sched.next_sleep, 10);
    let action = sched.on_wake(3);
    assert_eq!(action, WakeAction::SleepAgain);
    assert_eq!(sched.next_sleep, 7);
}

#[test]
fn full_interval_runs_job_and_resets_sleep() {
    let mut sched = Scheduler::new(10);
    let action = sched.on_wake(12);
    assert_eq!(action, WakeAction::RunJob);
    assert_eq!(sched.next_sleep, 10);
}

#[test]
fn accumulated_early_wakes_reach_the_interval() {
    // Two early wakes whose elapsed times accumulate past the interval: the
    // first re-sleeps for the remainder, the second runs the job.
    let mut sched = Scheduler::new(10);
    assert_eq!(sched.on_wake(6), WakeAction::SleepAgain);
    assert_eq!(sched.next_sleep, 4);
    assert_eq!(sched.on_wake(10), WakeAction::RunJob);
    assert_eq!(sched.next_sleep, 10);
}
