//! Tearing everything down on the way out: every kind of resource gets its
//! attempt, in a fixed order, and no failure keeps a later kind from its
//! own.

use crate::dashboard::{dashboard_removed, delete_kubernetes_dashboard_load_balancer};
use crate::launcher::{can_launch, LaunchRequest, LaunchResult};
use crate::load_balancer::{delete_all_load_balancers, removal_of_all};
use crate::minikube_mount::{delete_all_minikube_mounts, mounts_torn_down};
use crate::minikube_tunnel::{is_tunnel_stop_result, stop_minikube_tunnel, tunnel_held};
use crate::results::{
    merge_outcome, merge_state, nothing_to_show, outcome_view, outcome_views, plain_lines,
    printable, CommandExecutionResult, MergePolicy, MergeState, OutcomeView,
};
use crate::scanner::{system_processes, ProcessEntryView};
use crate::settings::Settings;
use crate::socat_tunnel::{delete_all_socat_tunnels, relays_torn_down};
use crate::text::texts;
use vstd::prelude::*;

verus! {

/// One step of the teardown: the removal of all resources of one kind.
#[derive(Clone, Copy, PartialEq, Eq, Structural, Debug)]
pub enum CleanupStep {
    LoadBalancers,
    Relays,
    Mounts,
    Dashboard,
    Tunnel,
}

/// The steps of the teardown in the order in which they are taken: what
/// the cluster serves for this tool and the relays first, then the mounts,
/// then the dashboard's exposure, and the cluster tunnel last.
pub open spec fn teardown_order() -> Seq<CleanupStep> {
    seq![
        CleanupStep::LoadBalancers,
        CleanupStep::Relays,
        CleanupStep::Mounts,
        CleanupStep::Dashboard,
        CleanupStep::Tunnel,
    ]
}

/// The steps of the teardown in the order in which they are taken.
pub fn cleanup_order() -> (steps: Vec<CleanupStep>)
    ensures
        steps@ == teardown_order(),
{
    let mut steps: Vec<CleanupStep> = Vec::new();
    steps.push(CleanupStep::LoadBalancers);
    steps.push(CleanupStep::Relays);
    steps.push(CleanupStep::Mounts);
    steps.push(CleanupStep::Dashboard);
    steps.push(CleanupStep::Tunnel);
    assert(steps@ =~= teardown_order());
    steps
}

/// The outcome is one that the step can have: what the removal of all
/// resources of its kind came to.
pub open spec fn step_taken<L: Fn(LaunchRequest) -> LaunchResult>(
    step: CleanupStep,
    dashboard_port: u16,
    launch: &L,
    outcome: OutcomeView,
) -> bool {
    match step {
        CleanupStep::LoadBalancers => exists|fetched: LaunchResult, raws: Seq<LaunchResult>|
            removal_of_all(launch, fetched, raws, outcome),
        CleanupStep::Relays => exists|
            sys: sysinfo::System,
            entries: Seq<ProcessEntryView>,
            attempts: Seq<Option<bool>>,
        |
            relays_torn_down(sys, entries, attempts, outcome),
        CleanupStep::Mounts => exists|
            sys: sysinfo::System,
            entries: Seq<ProcessEntryView>,
            attempts: Seq<Option<Option<bool>>>,
        |
            mounts_torn_down(sys, entries, attempts, outcome),
        CleanupStep::Dashboard => dashboard_removed(launch, dashboard_port, outcome),
        CleanupStep::Tunnel => exists|sys: sysinfo::System|
            if tunnel_held(#[trigger] system_processes(sys)) {
                is_tunnel_stop_result(outcome)
            } else {
                outcome == nothing_to_show()
            },
    }
}

/// Takes one step of the teardown.
pub fn run_cleanup_step<L: Fn(LaunchRequest) -> LaunchResult>(
    step: CleanupStep,
    settings: &Settings,
    launch: &L,
) -> (outcome: CommandExecutionResult)
    requires
        can_launch(launch),
    ensures
        step_taken(step, settings.dashboard_port, launch, outcome_view(outcome)),
{
    match step {
        CleanupStep::LoadBalancers => delete_all_load_balancers(launch),
        CleanupStep::Relays => delete_all_socat_tunnels(),
        CleanupStep::Mounts => delete_all_minikube_mounts(),
        CleanupStep::Dashboard => delete_kubernetes_dashboard_load_balancer(settings, launch),
        CleanupStep::Tunnel => stop_minikube_tunnel(),
    }
}

/// What the teardown reports for the outcomes of its steps: the lines of
/// every step that succeeded, in order, and never a failure.
pub open spec fn teardown_report(outcomes: Seq<OutcomeView>) -> OutcomeView {
    plain_lines(merge_state(outcomes, MergePolicy::BestEffort).lines)
}

/// Gathers the outcomes of the steps into the report of the teardown.
pub fn cleanup_report(outcomes: Vec<CommandExecutionResult>) -> (report: CommandExecutionResult)
    ensures
        outcome_view(report) == teardown_report(outcome_views(outcomes@)),
{
    let mut left = outcomes;
    let mut lines: Vec<String> = Vec::new();
    let ghost mut seen: Seq<CommandExecutionResult> = Seq::empty();
    proof {
        assert(texts(lines@) =~= Seq::<Seq<char>>::empty());
        assert(outcome_views(seen) =~= Seq::<OutcomeView>::empty());
        assert(seen + left@ =~= outcomes@);
    }
    while left.len() > 0
        invariant
            seen + left@ == outcomes@,
            merge_state(outcome_views(seen), MergePolicy::BestEffort) == (MergeState {
                lines: texts(lines@),
                failure: None,
            }),
        decreases left.len(),
    {
        let ghost before = left@;
        let next = left.remove(0);
        proof {
            let ghost earlier = seen;
            seen = seen.push(next);
            assert(outcome_views(seen).drop_last() =~= outcome_views(earlier));
            assert(outcome_views(seen).last() == outcome_view(next));
            assert(seen + left@ =~= earlier + before);
        }
        let _ = merge_outcome(&mut lines, next, MergePolicy::BestEffort);
    }
    proof {
        assert(seen + left@ =~= seen);
    }
    printable(lines)
}

/// The outcomes are those of the steps of the teardown, one for each step
/// in the order of the teardown, and the report is what they come to.
pub open spec fn torn_down<L: Fn(LaunchRequest) -> LaunchResult>(
    dashboard_port: u16,
    launch: &L,
    outcomes: Seq<CommandExecutionResult>,
    report: OutcomeView,
) -> bool {
    &&& outcomes.len() == teardown_order().len()
    &&& forall|i: int|
        0 <= i < outcomes.len() ==> step_taken(
            teardown_order()[i],
            dashboard_port,
            launch,
            outcome_view(#[trigger] outcomes[i]),
        )
    &&& report == teardown_report(outcome_views(outcomes))
}

/// Tears down everything that this tool manages: all load balancers, all
/// relays, all mounts, the dashboard's exposure and the cluster tunnel, in
/// this order. Every step is taken whatever became of the steps before it.
/// The teardown itself does not fail: it reports the lines of the steps
/// that succeeded.
pub fn clean_up<L: Fn(LaunchRequest) -> LaunchResult>(settings: &Settings, launch: &L) -> (report:
    CommandExecutionResult)
    requires
        can_launch(launch),
    ensures
        report is Ok,
        exists|outcomes: Seq<CommandExecutionResult>|
            torn_down(settings.dashboard_port, launch, outcomes, outcome_view(report)),
{
    let steps = cleanup_order();
    let mut outcomes: Vec<CommandExecutionResult> = Vec::new();
    let mut i: usize = 0;
    while i < steps.len()
        invariant
            i <= steps.len(),
            steps@ == teardown_order(),
            outcomes.len() == i,
            can_launch(launch),
            forall|k: int|
                0 <= k < outcomes.len() ==> step_taken(
                    teardown_order()[k],
                    settings.dashboard_port,
                    launch,
                    outcome_view(#[trigger] outcomes@[k]),
                ),
        decreases steps.len() - i,
    {
        let outcome = run_cleanup_step(steps[i], settings, launch);
        outcomes.push(outcome);
        i += 1;
    }
    let ghost taken = outcomes@;
    let report = cleanup_report(outcomes);
    assert(torn_down(settings.dashboard_port, launch, taken, outcome_view(report)));
    report
}

/// Makes sure that the teardown is started once: of all that ask, only the
/// first is told to go ahead. It is meant to be shared behind a lock by the
/// way out of the session and the handler of interrupts.
pub struct CleanupLatch {
    started: bool,
}

impl CleanupLatch {
    /// Whether the teardown was started.
    pub closed spec fn started(&self) -> bool {
        self.started
    }

    /// A latch under which nothing was started yet.
    pub fn new() -> (latch: CleanupLatch)
        ensures
            !latch.started(),
    {
        CleanupLatch { started: false }
    }

    /// Asks to start the teardown. The answer is `true` for the first that
    /// asks and `false` for everyone after.
    pub fn try_begin(&mut self) -> (go: bool)
        ensures
            go == !old(self).started(),
            final(self).started(),
    {
        let go = !self.started;
        self.started = true;
        go
    }
}

} // verus!
