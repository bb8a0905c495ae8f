//! The dashboard exposure: a load balancer service in the cluster that makes
//! the dashboard reachable on a local port. Its presence is asked of the
//! cluster, and it is made and removed by one-shot `kubectl` commands.

use crate::launcher::{
    as_outcome, can_launch, into_outcome, launch_view, launched, request, run, LaunchRequest,
    LaunchRequestView, LaunchResult,
};
use crate::results::{
    conclude, concluded, nothing, nothing_to_show, outcome_view, plain_lines, printable_line,
    CommandExecutionResult, OutcomeView,
};
use crate::settings::{Settings, SettingsView};
use crate::text::{concat, decimal, decimal_string, push_text, texts};
use vstd::prelude::*;

verus! {

/// Sets the local port of the dashboard's load balancer.
pub fn set_dashboard_port(settings: &mut Settings, port: u16)
    ensures
        final(settings)@ == (SettingsView { dashboard_port: port, ..old(settings)@ }),
{
    settings.dashboard_port = port;
}

/// The local port of the dashboard's load balancer, in decimal.
pub fn get_dashboard_port(settings: &Settings) -> (port: String)
    ensures
        port@ == decimal(settings.dashboard_port as nat),
{
    decimal_string(settings.dashboard_port as u64)
}

/// The command that asks the cluster for the dashboard's load balancer.
pub open spec fn dashboard_probe_request() -> LaunchRequestView {
    LaunchRequestView {
        program: "kubectl"@,
        args: seq![
            "-n"@,
            "kubernetes-dashboard"@,
            "get"@,
            "svc"@,
            "kubernetes-dashboard-lb"@,
            "--no-headers"@,
        ],
        custom_error: None,
    }
}

/// The command that removes the dashboard's load balancer.
pub open spec fn dashboard_delete_request() -> LaunchRequestView {
    LaunchRequestView {
        program: "kubectl"@,
        args: seq!["-n"@, "kubernetes-dashboard"@, "delete"@, "svc"@, "kubernetes-dashboard-lb"@],
        custom_error: Some("Could not delete kubernetes dashboard load balancer"@),
    }
}

/// The command that exposes the dashboard on the local port `port`.
pub open spec fn dashboard_expose_request(port: u16) -> LaunchRequestView {
    LaunchRequestView {
        program: "kubectl"@,
        args: seq![
            "-n"@,
            "kubernetes-dashboard"@,
            "expose"@,
            "svc"@,
            "kubernetes-dashboard"@,
            "--name"@,
            "kubernetes-dashboard-lb"@,
            "--type"@,
            "LoadBalancer"@,
            "--port"@,
            decimal(port as nat),
            "--target-port"@,
            "9090"@,
            "-l"@,
            "reason=kube-minion"@,
        ],
        custom_error: Some("Could not proxy kubernetes dashboard"@),
    }
}

/// The command that asks the cluster for the dashboard's load balancer.
pub fn dashboard_probe_command() -> (command: LaunchRequest)
    ensures
        command@ == dashboard_probe_request(),
{
    let mut args: Vec<String> = Vec::new();
    push_text(&mut args, "-n");
    push_text(&mut args, "kubernetes-dashboard");
    push_text(&mut args, "get");
    push_text(&mut args, "svc");
    push_text(&mut args, "kubernetes-dashboard-lb");
    push_text(&mut args, "--no-headers");
    assert(texts(args@) =~= dashboard_probe_request().args);
    request("kubectl", args, None)
}

/// The command that removes the dashboard's load balancer.
pub fn dashboard_delete_command() -> (command: LaunchRequest)
    ensures
        command@ == dashboard_delete_request(),
{
    let mut args: Vec<String> = Vec::new();
    push_text(&mut args, "-n");
    push_text(&mut args, "kubernetes-dashboard");
    push_text(&mut args, "delete");
    push_text(&mut args, "svc");
    push_text(&mut args, "kubernetes-dashboard-lb");
    assert(texts(args@) =~= dashboard_delete_request().args);
    request(
        "kubectl",
        args,
        Some(String::from_str("Could not delete kubernetes dashboard load balancer")),
    )
}

/// The command that exposes the dashboard on the local port `port`.
pub fn dashboard_expose_command(port: u16) -> (command: LaunchRequest)
    ensures
        command@ == dashboard_expose_request(port),
{
    let mut args: Vec<String> = Vec::new();
    push_text(&mut args, "-n");
    push_text(&mut args, "kubernetes-dashboard");
    push_text(&mut args, "expose");
    push_text(&mut args, "svc");
    push_text(&mut args, "kubernetes-dashboard");
    push_text(&mut args, "--name");
    push_text(&mut args, "kubernetes-dashboard-lb");
    push_text(&mut args, "--type");
    push_text(&mut args, "LoadBalancer");
    push_text(&mut args, "--port");
    push_text(&mut args, decimal_string(port as u64).as_str());
    push_text(&mut args, "--target-port");
    push_text(&mut args, "9090");
    push_text(&mut args, "-l");
    push_text(&mut args, "reason=kube-minion");
    assert(texts(args@) =~= dashboard_expose_request(port).args);
    request("kubectl", args, Some(String::from_str("Could not proxy kubernetes dashboard")))
}

/// The line that tells where the dashboard can be reached.
pub open spec fn dashboard_access_line(port: u16) -> Seq<char> {
    "The kubernetes dashboard load balancer can be accessed at http://127.0.0.1:"@ + decimal(
        port as nat,
    )
}

/// The line that tells where the dashboard can be reached.
pub fn dashboard_access_message(port: u16) -> (line: String)
    ensures
        line@ == dashboard_access_line(port),
{
    concat(
        "The kubernetes dashboard load balancer can be accessed at http://127.0.0.1:",
        decimal_string(port as u64).as_str(),
    )
}

/// What the answer to the probe says of the load balancer: it exists where
/// the probe succeeded; otherwise the failure carries the probe's own error
/// text or, without one, a general text.
pub open spec fn dashboard_check_result(probe: OutcomeView) -> OutcomeView {
    concluded(
        probe,
        Seq::empty(),
        "Failed to check if the kubernetes dashboard load balancer exists"@,
    )
}

/// What removing or exposing the load balancer comes to, given what the
/// command came back with.
pub open spec fn dashboard_toggle_result(
    running: bool,
    port: u16,
    raw: OutcomeView,
) -> OutcomeView {
    if running {
        concluded(
            raw,
            seq!["The kubernetes dashboard load balancer has been deleted"@],
            "Failed to delete the kubernetes dashboard load balancer"@,
        )
    } else {
        concluded(
            raw,
            seq![dashboard_access_line(port)],
            "Failed to create the kubernetes dashboard load balancer"@,
        )
    }
}

/// The command that brings the load balancer into the state opposite to
/// `running`.
pub open spec fn dashboard_toggle_request(running: bool, port: u16) -> LaunchRequestView {
    if running {
        dashboard_delete_request()
    } else {
        dashboard_expose_request(port)
    }
}

/// Reads the answer to the probe.
pub fn dashboard_check_outcome(probe: CommandExecutionResult) -> (outcome: CommandExecutionResult)
    ensures
        outcome_view(outcome) == dashboard_check_result(outcome_view(probe)),
{
    let shown: Vec<String> = Vec::new();
    assert(texts(shown@) =~= Seq::<Seq<char>>::empty());
    conclude(probe, shown, "Failed to check if the kubernetes dashboard load balancer exists")
}

/// Reads what the command that removed or exposed the load balancer came
/// back with.
pub fn dashboard_toggle_outcome(running: bool, port: u16, raw: CommandExecutionResult) -> (outcome:
    CommandExecutionResult)
    ensures
        outcome_view(outcome) == dashboard_toggle_result(running, port, outcome_view(raw)),
{
    let mut shown: Vec<String> = Vec::new();
    if running {
        push_text(&mut shown, "The kubernetes dashboard load balancer has been deleted");
        assert(texts(shown@) =~= seq![
            "The kubernetes dashboard load balancer has been deleted"@,
        ]);
        conclude(raw, shown, "Failed to delete the kubernetes dashboard load balancer")
    } else {
        let line = dashboard_access_message(port);
        shown.push(line);
        assert(texts(shown@) =~= seq![dashboard_access_line(port)]);
        conclude(raw, shown, "Failed to create the kubernetes dashboard load balancer")
    }
}

/// The launcher was asked for the load balancer, and `outcome` is what its
/// answer says.
pub open spec fn dashboard_checked<L: Fn(LaunchRequest) -> LaunchResult>(
    launch: &L,
    outcome: OutcomeView,
) -> bool {
    exists|probe: LaunchResult|
        launched(launch, dashboard_probe_request(), probe) && outcome == dashboard_check_result(
            as_outcome(launch_view(probe)),
        )
}

/// The launcher was handed the command for the state opposite to `running`,
/// and `outcome` is what its answer comes to.
pub open spec fn dashboard_toggled<L: Fn(LaunchRequest) -> LaunchResult>(
    launch: &L,
    running: bool,
    port: u16,
    outcome: OutcomeView,
) -> bool {
    exists|raw: LaunchResult|
        launched(launch, dashboard_toggle_request(running, port), raw) && outcome
            == dashboard_toggle_result(running, port, as_outcome(launch_view(raw)))
}

/// Asks the cluster whether the dashboard's load balancer exists: success
/// where it does, a failure where it does not or cannot be asked for.
pub fn check_kubernetes_dashboard<L: Fn(LaunchRequest) -> LaunchResult>(launch: &L) -> (outcome:
    CommandExecutionResult)
    requires
        can_launch(launch),
    ensures
        dashboard_checked(launch, outcome_view(outcome)),
{
    let probe = run(launch, dashboard_probe_command());
    dashboard_check_outcome(into_outcome(probe))
}

/// Brings the load balancer into the state opposite to `running`: removes
/// it where it runs, and exposes the dashboard on the port of the settings
/// where it does not.
pub fn toggle_kubernetes_dashboard_load_balancer<L: Fn(LaunchRequest) -> LaunchResult>(
    running: bool,
    settings: &Settings,
    launch: &L,
) -> (outcome: CommandExecutionResult)
    requires
        can_launch(launch),
    ensures
        dashboard_toggled(launch, running, settings.dashboard_port, outcome_view(outcome)),
{
    let command = if running {
        dashboard_delete_command()
    } else {
        dashboard_expose_command(settings.dashboard_port)
    };
    let raw = run(launch, command);
    dashboard_toggle_outcome(running, settings.dashboard_port, into_outcome(raw))
}

/// Exposes the dashboard unless `present` says that its load balancer is
/// there. A load balancer that is there is left alone: the launcher is not
/// called, which is why it need not accept anything in that case, and the
/// line that tells where to reach the dashboard is shown.
pub fn create_kubernetes_dashboard_load_balancer_unless<L: Fn(LaunchRequest) -> LaunchResult>(
    present: bool,
    settings: &Settings,
    launch: &L,
) -> (outcome: CommandExecutionResult)
    requires
        !present ==> can_launch(launch),
    ensures
        present ==> outcome_view(outcome) == plain_lines(
            seq![dashboard_access_line(settings.dashboard_port)],
        ),
        !present ==> dashboard_toggled(
            launch,
            false,
            settings.dashboard_port,
            outcome_view(outcome),
        ),
{
    if present {
        printable_line(dashboard_access_message(settings.dashboard_port))
    } else {
        toggle_kubernetes_dashboard_load_balancer(false, settings, launch)
    }
}

/// Removes the dashboard's load balancer if `present` says that it is
/// there. An absent load balancer is left alone: the launcher is not
/// called, which is why it need not accept anything in that case, and the
/// outcome is a success that shows nothing.
pub fn delete_kubernetes_dashboard_load_balancer_if<L: Fn(LaunchRequest) -> LaunchResult>(
    present: bool,
    settings: &Settings,
    launch: &L,
) -> (outcome: CommandExecutionResult)
    requires
        present ==> can_launch(launch),
    ensures
        !present ==> outcome_view(outcome) == nothing_to_show(),
        present ==> dashboard_toggled(launch, true, settings.dashboard_port, outcome_view(outcome)),
{
    if present {
        toggle_kubernetes_dashboard_load_balancer(true, settings, launch)
    } else {
        nothing()
    }
}

/// The cluster was asked for the load balancer; where the answer says that
/// it is there, the outcome is the line that tells where to reach the
/// dashboard; otherwise the dashboard was exposed on `port`, and the outcome
/// is what that came to.
pub open spec fn dashboard_ensured<L: Fn(LaunchRequest) -> LaunchResult>(
    launch: &L,
    port: u16,
    outcome: OutcomeView,
) -> bool {
    exists|checked: OutcomeView|
        {
            &&& dashboard_checked(launch, checked)
            &&& checked is Ok ==> outcome == plain_lines(seq![dashboard_access_line(port)])
            &&& checked is Err ==> dashboard_toggled(launch, false, port, outcome)
        }
}

/// The cluster was asked for the load balancer; where the answer says that
/// it is not there, the outcome is a success that shows nothing; otherwise
/// the load balancer was removed, and the outcome is what that came to.
pub open spec fn dashboard_removed<L: Fn(LaunchRequest) -> LaunchResult>(
    launch: &L,
    port: u16,
    outcome: OutcomeView,
) -> bool {
    exists|checked: OutcomeView|
        {
            &&& dashboard_checked(launch, checked)
            &&& checked is Err ==> outcome == nothing_to_show()
            &&& checked is Ok ==> dashboard_toggled(launch, true, port, outcome)
        }
}

/// Makes sure that the load balancer exists: the cluster is asked for it,
/// and the dashboard is exposed unless the answer says that it is there.
pub fn create_kubernetes_dashboard_load_balancer<L: Fn(LaunchRequest) -> LaunchResult>(
    settings: &Settings,
    launch: &L,
) -> (outcome: CommandExecutionResult)
    requires
        can_launch(launch),
    ensures
        dashboard_ensured(launch, settings.dashboard_port, outcome_view(outcome)),
{
    let checked = check_kubernetes_dashboard(launch);
    create_kubernetes_dashboard_load_balancer_unless(checked.is_ok(), settings, launch)
}

/// Makes sure that the load balancer is gone: the cluster is asked for it,
/// and it is removed if the answer says that it is there.
pub fn delete_kubernetes_dashboard_load_balancer<L: Fn(LaunchRequest) -> LaunchResult>(
    settings: &Settings,
    launch: &L,
) -> (outcome: CommandExecutionResult)
    requires
        can_launch(launch),
    ensures
        dashboard_removed(launch, settings.dashboard_port, outcome_view(outcome)),
{
    let checked = check_kubernetes_dashboard(launch);
    delete_kubernetes_dashboard_load_balancer_if(checked.is_ok(), settings, launch)
}

} // verus!
