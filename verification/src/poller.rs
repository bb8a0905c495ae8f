//! Bounded waiting for a state that an external helper reaches on its own
//! time: ask, pause, ask again, and give up when the budget is spent.

use vstd::prelude::*;

verus! {

/// How often a condition is asked for before the wait is given up.
pub const DEFAULT_MAX_ATTEMPTS: u32 = 5;

/// How a wait ended.
#[derive(Clone, Copy, PartialEq, Eq, Structural, Debug)]
pub enum PollOutcome {
    /// The condition was observed.
    Ready,
    /// The budget was spent without the condition being observed.
    TimedOut,
}

/// How a wait ended, and what it cost.
#[derive(Clone, Copy, PartialEq, Eq, Structural, Debug)]
pub struct PollReport {
    pub outcome: PollOutcome,
    /// How often the condition was asked for.
    pub calls: u32,
    /// How often the wait paused.
    pub sleeps: u32,
}

/// What to do after one observation.
#[derive(Clone, Copy, PartialEq, Eq, Structural, Debug)]
pub enum PollStep {
    /// The condition holds: the wait is over.
    Ready,
    /// Pause, then ask again.
    Sleep,
    /// The budget is spent: the wait is over.
    TimedOut,
}

/// The first index in `from..limit` at which the condition was observed, or
/// `limit`.
pub open spec fn first_ready(observations: Seq<bool>, from: int, limit: int) -> int
    decreases limit - from,
{
    if from >= limit || from < 0 || from >= observations.len() {
        limit
    } else if observations[from] {
        from
    } else {
        first_ready(observations, from + 1, limit)
    }
}

/// How a wait with a budget of `max_attempts` ends on the given
/// observations, the first being the answer to the first call; `None` while
/// the observations do not decide it. The wait pauses after every
/// observation but the last.
pub open spec fn poll_result(observations: Seq<bool>, max_attempts: u32) -> Option<PollReport> {
    let limit = if observations.len() < max_attempts {
        observations.len() as int
    } else {
        max_attempts as int
    };
    let at = first_ready(observations, 0, limit);
    if at < limit {
        Some(PollReport { outcome: PollOutcome::Ready, calls: (at + 1) as u32, sleeps: at as u32 })
    } else if limit == max_attempts {
        Some(
            PollReport {
                outcome: PollOutcome::TimedOut,
                calls: max_attempts,
                sleeps: if max_attempts == 0 {
                    0
                } else {
                    (max_attempts - 1) as u32
                },
            },
        )
    } else {
        None
    }
}

/// A wait in progress: its budget and what it has spent.
pub struct ReadinessPoller {
    max_attempts: u32,
    calls: u32,
    sleeps: u32,
    over: bool,
}

impl ReadinessPoller {
    /// The budget of the wait.
    pub closed spec fn max_attempts(&self) -> u32 {
        self.max_attempts
    }

    /// How often the condition has been asked for.
    pub closed spec fn calls(&self) -> u32 {
        self.calls
    }

    /// How often the wait has paused.
    pub closed spec fn sleeps(&self) -> u32 {
        self.sleeps
    }

    /// Whether the wait has ended, so that nothing more may be observed.
    pub closed spec fn over(&self) -> bool {
        self.over
    }

    /// No call is beyond the budget; a pause has followed every observation
    /// of a wait that goes on, and every observation but the last of one
    /// that has ended; a wait with nothing left of its budget has ended.
    pub closed spec fn wf(&self) -> bool {
        &&& self.calls <= self.max_attempts
        &&& !self.over ==> self.sleeps == self.calls && self.calls < self.max_attempts
        &&& self.over && self.calls > 0 ==> self.sleeps == self.calls - 1
        &&& self.over && self.calls == 0 ==> self.sleeps == 0 && self.max_attempts == 0
    }

    /// A wait that has not asked yet. With no budget at all it has ended.
    pub fn new(max_attempts: u32) -> (poller: ReadinessPoller)
        ensures
            poller.wf(),
            poller.max_attempts() == max_attempts,
            poller.calls() == 0,
            poller.sleeps() == 0,
            poller.over() == (max_attempts == 0),
    {
        ReadinessPoller { max_attempts, calls: 0, sleeps: 0, over: max_attempts == 0 }
    }

    /// Whether the wait has ended.
    pub fn is_over(&self) -> (over: bool)
        ensures
            over == self.over(),
    {
        self.over
    }

    /// Takes the answer to one more call and says what to do next: the wait
    /// is over once the condition holds or the budget is spent, and pauses
    /// otherwise.
    pub fn observe(&mut self, ready: bool) -> (step: PollStep)
        requires
            old(self).wf(),
            !old(self).over(),
        ensures
            final(self).wf(),
            final(self).max_attempts() == old(self).max_attempts(),
            final(self).calls() == old(self).calls() + 1,
            step == if ready {
                PollStep::Ready
            } else if final(self).calls() == final(self).max_attempts() {
                PollStep::TimedOut
            } else {
                PollStep::Sleep
            },
            final(self).over() == (step != PollStep::Sleep),
            final(self).sleeps() == if step == PollStep::Sleep {
                old(self).sleeps() + 1
            } else {
                old(self).sleeps() as int
            },
    {
        self.calls = self.calls + 1;
        if ready {
            self.over = true;
            PollStep::Ready
        } else if self.calls == self.max_attempts {
            self.over = true;
            PollStep::TimedOut
        } else {
            self.sleeps = self.sleeps + 1;
            PollStep::Sleep
        }
    }

    /// What the wait has cost so far, under the given ending.
    pub fn report(&self, outcome: PollOutcome) -> (report: PollReport)
        ensures
            report == (PollReport { outcome, calls: self.calls(), sleeps: self.sleeps() }),
    {
        PollReport { outcome, calls: self.calls, sleeps: self.sleeps }
    }
}

/// Asks `predicate` until it answers `true`, at most `max_attempts` times,
/// and calls `pause` between two calls of it. The report is the one that
/// [`poll_result`] gives for the answers that came back.
pub fn await_condition<P: Fn() -> bool, S: Fn()>(
    predicate: &P,
    pause: &S,
    max_attempts: u32,
) -> (report: PollReport)
    requires
        call_requires(*predicate, ()),
        call_requires(*pause, ()),
    ensures
        exists|observations: Seq<bool>|
            {
                &&& observations.len() == report.calls
                &&& forall|i: int|
                    0 <= i < observations.len() ==> call_ensures(
                        *predicate,
                        (),
                        #[trigger] observations[i],
                    )
                &&& poll_result(observations, max_attempts) == Some(report)
            },
        report.outcome == PollOutcome::Ready ==> 1 <= report.calls <= max_attempts && report.sleeps
            == report.calls - 1 && call_ensures(*predicate, (), true),
        report.outcome == PollOutcome::TimedOut ==> report.calls == max_attempts,
{
    let mut poller = ReadinessPoller::new(max_attempts);
    let ghost mut seen: Seq<bool> = Seq::empty();
    while !poller.is_over()
        invariant
            poller.wf(),
            poller.max_attempts() == max_attempts,
            call_requires(*predicate, ()),
            call_requires(*pause, ()),
            seen.len() == poller.calls(),
            !poller.over() ==> poller.sleeps() == poller.calls() && poller.calls() < max_attempts,
            poller.over() ==> max_attempts == 0 && poller.calls() == 0 && poller.sleeps() == 0,
            forall|i: int| 0 <= i < seen.len() ==> !(#[trigger] seen[i]),
            forall|i: int| 0 <= i < seen.len() ==> call_ensures(*predicate, (), #[trigger] seen[i]),
        decreases max_attempts - poller.calls(),
    {
        let ready = predicate();
        proof {
            seen = seen.push(ready);
        }
        match poller.observe(ready) {
            PollStep::Ready => {
                proof {
                    lemma_first_ready_found(seen, 0, seen.len() as int);
                }
                return poller.report(PollOutcome::Ready);
            },
            PollStep::TimedOut => {
                proof {
                    lemma_first_ready_none(seen, 0, seen.len() as int);
                }
                return poller.report(PollOutcome::TimedOut);
            },
            PollStep::Sleep => {
                pause();
            },
        }
    }
    proof {
        assert(first_ready(seen, 0, 0) == 0);
    }
    poller.report(PollOutcome::TimedOut)
}

/// Where only the last of the observations `from..limit` holds, it is the
/// first that holds.
pub proof fn lemma_first_ready_found(observations: Seq<bool>, from: int, limit: int)
    requires
        0 <= from < limit <= observations.len(),
        observations[limit - 1],
        forall|i: int| from <= i < limit - 1 ==> !observations[i],
    ensures
        first_ready(observations, from, limit) == limit - 1,
    decreases limit - from,
{
    if from < limit - 1 {
        lemma_first_ready_found(observations, from + 1, limit);
    }
}

/// Where none of the observations `from..limit` holds, none is found.
pub proof fn lemma_first_ready_none(observations: Seq<bool>, from: int, limit: int)
    requires
        0 <= from <= limit <= observations.len(),
        forall|i: int| from <= i < limit ==> !observations[i],
    ensures
        first_ready(observations, from, limit) == limit,
    decreases limit - from,
{
    if from < limit {
        lemma_first_ready_none(observations, from + 1, limit);
    }
}

/// A condition that holds for the first time at the `k`-th call, within the
/// budget, ends the wait as ready after exactly `k` calls and `k - 1`
/// pauses, whatever would have been observed later.
pub proof fn lemma_ready_at_kth_call(observations: Seq<bool>, max_attempts: u32, k: int)
    requires
        1 <= k <= max_attempts,
        k <= observations.len(),
        observations[k - 1],
        forall|i: int| 0 <= i < k - 1 ==> !observations[i],
    ensures
        poll_result(observations, max_attempts) == Some(
            PollReport { outcome: PollOutcome::Ready, calls: k as u32, sleeps: (k - 1) as u32 },
        ),
{
    let limit = if observations.len() < max_attempts {
        observations.len() as int
    } else {
        max_attempts as int
    };
    lemma_first_ready_found(observations, 0, k);
    lemma_first_ready_prefix(observations, 0, k, limit);
}

/// Looking further than the first find changes nothing.
pub proof fn lemma_first_ready_prefix(observations: Seq<bool>, from: int, limit: int, further: int)
    requires
        0 <= from <= limit <= further <= observations.len(),
        first_ready(observations, from, limit) < limit,
    ensures
        first_ready(observations, from, further) == first_ready(observations, from, limit),
    decreases limit - from,
{
    if from < limit && !observations[from] {
        lemma_first_ready_prefix(observations, from + 1, limit, further);
    }
}

/// A condition that never holds within the budget ends the wait as timed
/// out after exactly `max_attempts` calls.
pub proof fn lemma_times_out_when_never_ready(observations: Seq<bool>, max_attempts: u32)
    requires
        max_attempts <= observations.len(),
        forall|i: int| 0 <= i < max_attempts ==> !observations[i],
    ensures
        poll_result(observations, max_attempts) matches Some(report) && report.outcome
            == PollOutcome::TimedOut && report.calls == max_attempts,
{
    lemma_first_ready_none(observations, 0, max_attempts as int);
}

} // verus!
