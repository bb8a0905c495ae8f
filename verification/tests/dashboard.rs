use std::cell::RefCell;

use kube_minion::dashboard::{
    check_kubernetes_dashboard, create_kubernetes_dashboard_load_balancer,
    create_kubernetes_dashboard_load_balancer_unless, dashboard_access_message,
    dashboard_check_outcome, dashboard_delete_command, dashboard_expose_command,
    dashboard_probe_command, dashboard_toggle_outcome, delete_kubernetes_dashboard_load_balancer,
    delete_kubernetes_dashboard_load_balancer_if, get_dashboard_port, set_dashboard_port,
    toggle_kubernetes_dashboard_load_balancer,
};
use kube_minion::launcher::{LaunchRequest, LaunchResult};
use kube_minion::results::{nothing, printable_line, CommandResultType, ProcessOutput};
use kube_minion::settings::Settings;

fn strings(items: &[&str]) -> Vec<String> {
    items.iter().map(|item| String::from(*item)).collect()
}

fn exited(success: bool, stdout: &str, stderr: &str) -> LaunchResult {
    Ok(ProcessOutput {
        success,
        stdout: String::from(stdout),
        stderr: String::from(stderr),
    })
}

/// A cluster in which the load balancer exists or not; it records what it
/// is asked to run.
struct Cluster {
    present: RefCell<bool>,
    seen: RefCell<Vec<LaunchRequest>>,
}

impl Cluster {
    fn new(present: bool) -> Cluster {
        Cluster {
            present: RefCell::new(present),
            seen: RefCell::new(Vec::new()),
        }
    }

    fn launch(&self, request: LaunchRequest) -> LaunchResult {
        let verb = request.args[2].clone();
        self.seen.borrow_mut().push(request);
        let present = *self.present.borrow();
        match verb.as_str() {
            "get" if present => exited(true, "kubernetes-dashboard-lb LoadBalancer", ""),
            "get" => exited(false, "", "Error from server (NotFound)"),
            "expose" => {
                *self.present.borrow_mut() = true;
                exited(true, "service/kubernetes-dashboard-lb exposed", "")
            }
            "delete" => {
                *self.present.borrow_mut() = false;
                exited(true, "service \"kubernetes-dashboard-lb\" deleted", "")
            }
            _ => Err(String::from("unexpected command")),
        }
    }

    fn verbs(&self) -> Vec<String> {
        self.seen
            .borrow()
            .iter()
            .map(|request| request.args[2].clone())
            .collect()
    }
}

#[test]
fn dashboard_port_is_set_and_read_in_decimal() {
    let mut settings = Settings::new();
    assert_eq!(settings.dashboard_port, 51515);
    assert_eq!(get_dashboard_port(&settings), "51515");
    set_dashboard_port(&mut settings, 8443);
    assert_eq!(settings.dashboard_port, 8443);
    assert_eq!(settings.bind_address, None);
    assert_eq!(settings.default_connect_host, None);
    assert_eq!(get_dashboard_port(&settings), "8443");
}

#[test]
fn dashboard_commands_are_spelled_out() {
    let probe = dashboard_probe_command();
    assert_eq!(probe.program, "kubectl");
    assert_eq!(
        probe.args,
        strings(&[
            "-n",
            "kubernetes-dashboard",
            "get",
            "svc",
            "kubernetes-dashboard-lb",
            "--no-headers"
        ])
    );
    assert_eq!(probe.custom_error, None);

    let delete = dashboard_delete_command();
    assert_eq!(delete.program, "kubectl");
    assert_eq!(
        delete.args,
        strings(&[
            "-n",
            "kubernetes-dashboard",
            "delete",
            "svc",
            "kubernetes-dashboard-lb"
        ])
    );
    assert_eq!(
        delete.custom_error,
        Some(String::from(
            "Could not delete kubernetes dashboard load balancer"
        ))
    );

    let expose = dashboard_expose_command(51515);
    assert_eq!(expose.program, "kubectl");
    assert_eq!(
        expose.args,
        strings(&[
            "-n",
            "kubernetes-dashboard",
            "expose",
            "svc",
            "kubernetes-dashboard",
            "--name",
            "kubernetes-dashboard-lb",
            "--type",
            "LoadBalancer",
            "--port",
            "51515",
            "--target-port",
            "9090",
            "-l",
            "reason=kube-minion",
        ])
    );
    assert_eq!(
        expose.custom_error,
        Some(String::from("Could not proxy kubernetes dashboard"))
    );
}

#[test]
fn dashboard_check_reads_the_probe() {
    assert_eq!(
        dashboard_check_outcome(Ok(CommandResultType::ChildProcess(Some(ProcessOutput {
            success: true,
            stdout: String::from("row"),
            stderr: String::new(),
        })))),
        nothing()
    );
    assert_eq!(
        dashboard_check_outcome(Ok(CommandResultType::ChildProcess(Some(ProcessOutput {
            success: false,
            stdout: String::new(),
            stderr: String::from("NotFound"),
        })))),
        Err(String::from("NotFound"))
    );
    assert_eq!(
        dashboard_check_outcome(Ok(CommandResultType::ChildProcess(Some(ProcessOutput {
            success: false,
            stdout: String::new(),
            stderr: String::new(),
        })))),
        Err(String::from(
            "Failed to check if the kubernetes dashboard load balancer exists"
        ))
    );
    assert_eq!(
        dashboard_check_outcome(Err(String::from("no kubectl"))),
        Err(String::from("no kubectl"))
    );
}

#[test]
fn dashboard_toggle_outcome_has_a_text_for_each_case() {
    let failed = || {
        Ok(CommandResultType::ChildProcess(Some(ProcessOutput {
            success: false,
            stdout: String::new(),
            stderr: String::new(),
        })))
    };
    let worked = || {
        Ok(CommandResultType::ChildProcess(Some(ProcessOutput {
            success: true,
            stdout: String::new(),
            stderr: String::new(),
        })))
    };
    assert_eq!(
        dashboard_toggle_outcome(true, 51515, worked()),
        printable_line(String::from(
            "The kubernetes dashboard load balancer has been deleted"
        ))
    );
    assert_eq!(
        dashboard_toggle_outcome(true, 51515, failed()),
        Err(String::from(
            "Failed to delete the kubernetes dashboard load balancer"
        ))
    );
    assert_eq!(
        dashboard_toggle_outcome(false, 9000, worked()),
        printable_line(String::from(
            "The kubernetes dashboard load balancer can be accessed at http://127.0.0.1:9000"
        ))
    );
    assert_eq!(
        dashboard_toggle_outcome(false, 9000, failed()),
        Err(String::from(
            "Failed to create the kubernetes dashboard load balancer"
        ))
    );
    assert_eq!(
        dashboard_access_message(1),
        "The kubernetes dashboard load balancer can be accessed at http://127.0.0.1:1"
    );
}

#[test]
fn check_asks_the_cluster_once() {
    let cluster = Cluster::new(true);
    let launch = |request: LaunchRequest| cluster.launch(request);
    assert_eq!(check_kubernetes_dashboard(&launch), nothing());
    assert_eq!(
        cluster.seen.borrow().clone(),
        vec![dashboard_probe_command()]
    );

    let cluster = Cluster::new(false);
    let launch = |request: LaunchRequest| cluster.launch(request);
    assert_eq!(
        check_kubernetes_dashboard(&launch),
        Err(String::from("Error from server (NotFound)"))
    );
}

#[test]
fn toggle_runs_the_command_for_the_opposite_state() {
    let mut settings = Settings::new();
    set_dashboard_port(&mut settings, 7001);
    let cluster = Cluster::new(false);
    let launch = |request: LaunchRequest| cluster.launch(request);
    assert_eq!(
        toggle_kubernetes_dashboard_load_balancer(false, &settings, &launch),
        printable_line(String::from(
            "The kubernetes dashboard load balancer can be accessed at http://127.0.0.1:7001"
        ))
    );
    assert_eq!(
        cluster.seen.borrow().clone(),
        vec![dashboard_expose_command(7001)]
    );
    assert_eq!(
        toggle_kubernetes_dashboard_load_balancer(true, &settings, &launch),
        printable_line(String::from(
            "The kubernetes dashboard load balancer has been deleted"
        ))
    );
    assert_eq!(cluster.verbs(), strings(&["expose", "delete"]));
}

#[test]
fn create_on_a_present_dashboard_starts_nothing() {
    let settings = Settings::new();
    let cluster = Cluster::new(true);
    let launch = |request: LaunchRequest| cluster.launch(request);
    assert_eq!(
        create_kubernetes_dashboard_load_balancer(&settings, &launch),
        printable_line(String::from(
            "The kubernetes dashboard load balancer can be accessed at http://127.0.0.1:51515"
        ))
    );
    assert_eq!(cluster.verbs(), strings(&["get"]));
}

#[test]
fn create_on_an_absent_dashboard_exposes_it() {
    let settings = Settings::new();
    let cluster = Cluster::new(false);
    let launch = |request: LaunchRequest| cluster.launch(request);
    assert_eq!(
        create_kubernetes_dashboard_load_balancer(&settings, &launch),
        printable_line(String::from(
            "The kubernetes dashboard load balancer can be accessed at http://127.0.0.1:51515"
        ))
    );
    assert_eq!(cluster.verbs(), strings(&["get", "expose"]));
    assert!(*cluster.present.borrow());
}

#[test]
fn delete_on_an_absent_dashboard_is_a_success_that_does_nothing() {
    let settings = Settings::new();
    let cluster = Cluster::new(false);
    let launch = |request: LaunchRequest| cluster.launch(request);
    assert_eq!(
        delete_kubernetes_dashboard_load_balancer(&settings, &launch),
        nothing()
    );
    assert_eq!(cluster.verbs(), strings(&["get"]));
}

#[test]
fn delete_on_a_present_dashboard_removes_it() {
    let settings = Settings::new();
    let cluster = Cluster::new(true);
    let launch = |request: LaunchRequest| cluster.launch(request);
    assert_eq!(
        delete_kubernetes_dashboard_load_balancer(&settings, &launch),
        printable_line(String::from(
            "The kubernetes dashboard load balancer has been deleted"
        ))
    );
    assert_eq!(cluster.verbs(), strings(&["get", "delete"]));
    assert!(!*cluster.present.borrow());
}

#[test]
fn guarded_operations_do_not_call_the_launcher_when_there_is_nothing_to_do() {
    let settings = Settings::new();
    let launch = |_request: LaunchRequest| -> LaunchResult { panic!("nothing is to be launched") };
    assert_eq!(
        create_kubernetes_dashboard_load_balancer_unless(true, &settings, &launch),
        printable_line(String::from(
            "The kubernetes dashboard load balancer can be accessed at http://127.0.0.1:51515"
        ))
    );
    assert_eq!(
        delete_kubernetes_dashboard_load_balancer_if(false, &settings, &launch),
        nothing()
    );
}
