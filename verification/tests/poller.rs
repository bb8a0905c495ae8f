use std::cell::Cell;

use kube_minion::poller::{
    await_condition, PollOutcome, PollReport, PollStep, ReadinessPoller, DEFAULT_MAX_ATTEMPTS,
};

fn wait_until(k: u32, max_attempts: u32) -> (PollReport, u32, u32) {
    let calls = Cell::new(0u32);
    let sleeps = Cell::new(0u32);
    let predicate = || {
        calls.set(calls.get() + 1);
        calls.get() == k
    };
    let pause = || sleeps.set(sleeps.get() + 1);
    let report = await_condition(&predicate, &pause, max_attempts);
    (report, calls.get(), sleeps.get())
}

#[test]
fn ready_on_the_first_call_needs_no_sleep() {
    let (report, calls, sleeps) = wait_until(1, 5);
    assert_eq!(
        report,
        PollReport {
            outcome: PollOutcome::Ready,
            calls: 1,
            sleeps: 0
        }
    );
    assert_eq!((calls, sleeps), (1, 0));
}

#[test]
fn ready_on_the_third_call_takes_three_calls_and_two_sleeps() {
    let (report, calls, sleeps) = wait_until(3, 5);
    assert_eq!(
        report,
        PollReport {
            outcome: PollOutcome::Ready,
            calls: 3,
            sleeps: 2
        }
    );
    assert_eq!((calls, sleeps), (3, 2));
}

#[test]
fn ready_on_the_last_call_is_still_ready() {
    let (report, calls, sleeps) = wait_until(5, 5);
    assert_eq!(
        report,
        PollReport {
            outcome: PollOutcome::Ready,
            calls: 5,
            sleeps: 4
        }
    );
    assert_eq!((calls, sleeps), (5, 4));
}

#[test]
fn never_ready_times_out_after_the_budget() {
    let (report, calls, sleeps) = wait_until(0, DEFAULT_MAX_ATTEMPTS);
    assert_eq!(
        report,
        PollReport {
            outcome: PollOutcome::TimedOut,
            calls: 5,
            sleeps: 4
        }
    );
    assert_eq!((calls, sleeps), (5, 4));
}

#[test]
fn ready_after_the_budget_times_out() {
    let (report, calls, sleeps) = wait_until(4, 3);
    assert_eq!(
        report,
        PollReport {
            outcome: PollOutcome::TimedOut,
            calls: 3,
            sleeps: 2
        }
    );
    assert_eq!((calls, sleeps), (3, 2));
}

#[test]
fn no_budget_times_out_without_asking() {
    let (report, calls, sleeps) = wait_until(1, 0);
    assert_eq!(
        report,
        PollReport {
            outcome: PollOutcome::TimedOut,
            calls: 0,
            sleeps: 0
        }
    );
    assert_eq!((calls, sleeps), (0, 0));
}

#[test]
fn default_budget_is_five_attempts() {
    assert_eq!(DEFAULT_MAX_ATTEMPTS, 5);
}

#[test]
fn poller_steps_through_its_budget() {
    let mut poller = ReadinessPoller::new(3);
    assert!(!poller.is_over());
    assert_eq!(poller.observe(false), PollStep::Sleep);
    assert!(!poller.is_over());
    assert_eq!(poller.observe(false), PollStep::Sleep);
    assert_eq!(poller.observe(false), PollStep::TimedOut);
    assert!(poller.is_over());
    assert_eq!(
        poller.report(PollOutcome::TimedOut),
        PollReport {
            outcome: PollOutcome::TimedOut,
            calls: 3,
            sleeps: 2
        }
    );
}

#[test]
fn poller_ends_when_the_condition_holds() {
    let mut poller = ReadinessPoller::new(4);
    assert_eq!(poller.observe(false), PollStep::Sleep);
    assert_eq!(poller.observe(true), PollStep::Ready);
    assert!(poller.is_over());
    assert_eq!(
        poller.report(PollOutcome::Ready),
        PollReport {
            outcome: PollOutcome::Ready,
            calls: 2,
            sleeps: 1
        }
    );
    assert!(ReadinessPoller::new(0).is_over());
}
