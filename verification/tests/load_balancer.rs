use std::cell::RefCell;

use kube_minion::launcher::{LaunchRequest, LaunchResult};
use kube_minion::load_balancer::{
    create_load_balancer, delete_all_load_balancers, delete_load_balancer, fetch_load_balancers,
    fetched_rows, first_two_columns, load_balancer_delete_command, load_balancer_expose_command,
    load_balancer_fetch_command, load_balancer_lines, load_balancer_listing, parse_load_balancer,
    record_removal, remove_load_balancer,
};
use kube_minion::results::{printable, CommandResultType, ProcessOutput};

fn strings(items: &[&str]) -> Vec<String> {
    items.iter().map(|item| String::from(*item)).collect()
}

fn exited(success: bool, stdout: &str, stderr: &str) -> LaunchResult {
    Ok(ProcessOutput {
        success,
        stdout: String::from(stdout),
        stderr: String::from(stderr),
    })
}

const LISTED: &str = "default   web-lb   LoadBalancer   10.0.0.1   <pending>   80:30080/TCP   5m\n\
kubernetes-dashboard   kubernetes-dashboard-lb   LoadBalancer   10.0.0.2   <pending>   51515:31000/TCP   9m\n\
tools\tapi-lb  LoadBalancer   10.0.0.3   <pending>   8080:30081/TCP   1m\n";

#[test]
fn expose_command_names_the_load_balancer_after_the_resource() {
    let command = load_balancer_expose_command("default", "svc", "web", 80, 8080);
    assert_eq!(command.program, "kubectl");
    assert_eq!(
        command.args,
        strings(&[
            "-n",
            "default",
            "expose",
            "svc",
            "web",
            "--type",
            "LoadBalancer",
            "--name",
            "web-lb",
            "--port",
            "80",
            "--target-port",
            "8080",
            "-l",
            "reason=kube-minion",
        ])
    );
    assert_eq!(command.custom_error, None);
}

#[test]
fn fetch_and_delete_commands_are_spelled_out() {
    let fetch = load_balancer_fetch_command();
    assert_eq!(fetch.program, "kubectl");
    assert_eq!(
        fetch.args,
        strings(&[
            "get",
            "svc",
            "-A",
            "-l",
            "reason=kube-minion",
            "--no-headers"
        ])
    );
    assert_eq!(
        fetch.custom_error,
        Some(String::from("Failed to fetch load balancers"))
    );
    let delete = load_balancer_delete_command("tools", "api-lb");
    assert_eq!(delete.program, "kubectl");
    assert_eq!(
        delete.args,
        strings(&["-n", "tools", "delete", "svc", "api-lb"])
    );
    assert_eq!(delete.custom_error, None);
}

#[test]
fn create_fails_with_what_the_command_wrote_to_its_standard_error() {
    let seen: RefCell<Vec<LaunchRequest>> = RefCell::new(Vec::new());
    let launch = |request: LaunchRequest| {
        seen.borrow_mut().push(request);
        exited(false, "", "already exists")
    };
    assert_eq!(
        create_load_balancer("default", "deployment", "web", 80, 80, &launch),
        Err(String::from("already exists"))
    );
    assert_eq!(
        seen.borrow().clone(),
        vec![load_balancer_expose_command(
            "default",
            "deployment",
            "web",
            80,
            80
        )]
    );
}

#[test]
fn rows_leave_the_dashboard_out() {
    let rows = load_balancer_lines(LISTED);
    assert_eq!(rows.len(), 2);
    assert!(rows[0].starts_with("default   web-lb"));
    assert!(rows[1].starts_with("tools\tapi-lb"));
    assert_eq!(load_balancer_lines(""), Vec::<String>::new());
}

#[test]
fn listing_has_its_title_only_with_rows() {
    assert_eq!(
        load_balancer_listing(exited(true, "a b\n", "")),
        Ok(CommandResultType::PrintableResults(
            Some(String::from("Load balancers:")),
            vec![String::from("a b")]
        ))
    );
    assert_eq!(
        load_balancer_listing(exited(true, "x kubernetes-dashboard-lb y\n", "")),
        Ok(CommandResultType::PrintableResults(None, Vec::new()))
    );
    assert_eq!(
        load_balancer_listing(Err(String::from("Failed to fetch load balancers"))),
        Err(String::from("Failed to fetch load balancers"))
    );
}

#[test]
fn fetch_asks_the_cluster_for_the_list() {
    let seen: RefCell<Vec<LaunchRequest>> = RefCell::new(Vec::new());
    let launch = |request: LaunchRequest| {
        seen.borrow_mut().push(request);
        exited(true, LISTED, "")
    };
    let outcome = fetch_load_balancers(&launch);
    match outcome {
        Ok(CommandResultType::PrintableResults(title, rows)) => {
            assert_eq!(title, Some(String::from("Load balancers:")));
            assert_eq!(rows.len(), 2);
        }
        other => panic!("unexpected outcome {:?}", other),
    }
    assert_eq!(seen.borrow().clone(), vec![load_balancer_fetch_command()]);
}

#[test]
fn parse_takes_the_first_two_columns() {
    assert_eq!(
        parse_load_balancer("default   web-lb   LoadBalancer   10.0.0.1"),
        Some((String::from("default"), String::from("web-lb")))
    );
    assert_eq!(
        parse_load_balancer("tools\tapi-lb  LoadBalancer"),
        Some((String::from("tools"), String::from("api-lb")))
    );
    assert_eq!(parse_load_balancer("lonely"), None);
    assert_eq!(
        parse_load_balancer(" a b"),
        Some((String::new(), String::from("a")))
    );
}

#[test]
fn first_two_columns_needs_two() {
    assert_eq!(first_two_columns(None), None);
    assert_eq!(first_two_columns(Some(strings(&["a"]))), None);
    assert_eq!(
        first_two_columns(Some(strings(&["a", "b", "c"]))),
        Some((String::from("a"), String::from("b")))
    );
}

/// A cluster that lists two load balancers and removes what it is asked to
/// remove, but for the names in `refused`.
fn cluster<'a>(
    seen: &'a RefCell<Vec<LaunchRequest>>,
    refused: &'a [&'a str],
) -> impl Fn(LaunchRequest) -> LaunchResult + 'a {
    move |request: LaunchRequest| {
        seen.borrow_mut().push(request.clone());
        if request.args[0] == "get" {
            exited(true, LISTED, "")
        } else if refused.contains(&request.args[4].as_str()) {
            exited(false, "", "forbidden")
        } else {
            exited(
                true,
                &format!(" service \"{}\" deleted\n", request.args[4]),
                "",
            )
        }
    }
}

#[test]
fn delete_by_index_removes_that_row() {
    let seen = RefCell::new(Vec::new());
    let launch = cluster(&seen, &[]);
    assert_eq!(
        delete_load_balancer(1, &launch),
        Ok(CommandResultType::ChildProcess(Some(ProcessOutput {
            success: true,
            stdout: String::from(" service \"api-lb\" deleted\n"),
            stderr: String::new(),
        })))
    );
    assert_eq!(
        seen.borrow().clone(),
        vec![
            load_balancer_fetch_command(),
            load_balancer_delete_command("tools", "api-lb")
        ]
    );
}

#[test]
fn delete_by_index_beyond_the_list_fails() {
    let seen = RefCell::new(Vec::new());
    let launch = cluster(&seen, &[]);
    assert_eq!(
        delete_load_balancer(2, &launch),
        Err(String::from(
            "Index 2 does not correspond to a load balancer"
        ))
    );
    assert_eq!(seen.borrow().len(), 1);
}

#[test]
fn delete_all_removes_every_row_in_order() {
    let seen = RefCell::new(Vec::new());
    let launch = cluster(&seen, &[]);
    assert_eq!(
        delete_all_load_balancers(&launch),
        printable(strings(&[
            "service \"web-lb\" deleted",
            "service \"api-lb\" deleted"
        ]))
    );
    assert_eq!(
        seen.borrow().clone(),
        vec![
            load_balancer_fetch_command(),
            load_balancer_delete_command("default", "web-lb"),
            load_balancer_delete_command("tools", "api-lb"),
        ]
    );
}

#[test]
fn delete_all_stops_at_the_first_removal_that_fails() {
    let seen = RefCell::new(Vec::new());
    let launch = cluster(&seen, &["web-lb"]);
    assert_eq!(
        delete_all_load_balancers(&launch),
        Err(String::from("forbidden"))
    );
    assert_eq!(
        seen.borrow().clone(),
        vec![
            load_balancer_fetch_command(),
            load_balancer_delete_command("default", "web-lb"),
        ]
    );
}

#[test]
fn delete_all_fails_in_general_words_when_a_removal_wrote_nothing() {
    let seen: RefCell<Vec<LaunchRequest>> = RefCell::new(Vec::new());
    let launch = |request: LaunchRequest| {
        seen.borrow_mut().push(request.clone());
        if request.args[0] == "get" {
            exited(true, LISTED, "")
        } else {
            exited(false, "half done", "")
        }
    };
    assert_eq!(
        delete_all_load_balancers(&launch),
        Err(String::from("Failed to delete the load balancer"))
    );
    assert_eq!(seen.borrow().len(), 2);
}

#[test]
fn delete_by_index_fails_with_what_the_removal_wrote_to_its_standard_error() {
    let seen = RefCell::new(Vec::new());
    let launch = cluster(&seen, &["api-lb"]);
    assert_eq!(
        delete_load_balancer(1, &launch),
        Err(String::from("forbidden"))
    );
    assert_eq!(
        seen.borrow().clone(),
        vec![
            load_balancer_fetch_command(),
            load_balancer_delete_command("tools", "api-lb")
        ]
    );
}

#[test]
fn create_fails_in_general_words_when_the_command_wrote_nothing() {
    let launch = |_request: LaunchRequest| exited(false, "out", "");
    assert_eq!(
        create_load_balancer("default", "deployment", "web", 80, 80, &launch),
        Err(String::from("Failed to create the load balancer"))
    );
}

#[test]
fn delete_all_fails_when_the_list_cannot_be_had() {
    let launch = |_request: LaunchRequest| -> LaunchResult {
        Err(String::from("Failed to fetch load balancers"))
    };
    assert_eq!(
        delete_all_load_balancers(&launch),
        Err(String::from("Failed to fetch load balancers"))
    );
}

#[test]
fn delete_all_fails_on_a_row_without_a_name() {
    let launch = |request: LaunchRequest| -> LaunchResult {
        if request.args[0] == "get" {
            exited(true, "lonely\n", "")
        } else {
            panic!("nothing can be removed")
        }
    };
    assert_eq!(
        delete_all_load_balancers(&launch),
        Err(String::from(
            "Failed to read the namespace and name of load balancer lonely"
        ))
    );
}

#[test]
fn record_removal_keeps_what_a_removal_wrote() {
    let mut results = vec![String::from("before")];
    assert_eq!(
        record_removal(&mut results, exited(true, " gone \n", "ignored")),
        None
    );
    assert_eq!(results, strings(&["before", "gone"]));
    assert_eq!(record_removal(&mut results, exited(true, "\n", "")), None);
    assert_eq!(results, strings(&["before", "gone"]));
    assert_eq!(
        record_removal(&mut results, exited(false, "x", "y")),
        Some(Err(String::from("y")))
    );
    assert_eq!(
        record_removal(&mut results, exited(false, "x", "")),
        Some(Err(String::from("Failed to delete the load balancer")))
    );
    assert_eq!(
        record_removal(&mut results, Err(String::from("e"))),
        Some(Err(String::from("e")))
    );
    assert_eq!(results, strings(&["before", "gone"]));
}

#[test]
fn remove_by_name_asks_for_that_service() {
    let seen: RefCell<Vec<LaunchRequest>> = RefCell::new(Vec::new());
    let launch = |request: LaunchRequest| {
        seen.borrow_mut().push(request);
        exited(true, "service \"web-80-8080-lb\" deleted\n", "")
    };
    assert_eq!(
        remove_load_balancer("default", "web-80-8080-lb", &launch),
        Ok(CommandResultType::ChildProcess(Some(ProcessOutput {
            success: true,
            stdout: String::from("service \"web-80-8080-lb\" deleted\n"),
            stderr: String::new(),
        })))
    );
    assert_eq!(
        seen.borrow().clone(),
        vec![load_balancer_delete_command("default", "web-80-8080-lb")]
    );
}

#[test]
fn remove_by_name_fails_with_what_the_removal_wrote_to_its_standard_error() {
    let launch = |_request: LaunchRequest| exited(false, "", "not found");
    assert_eq!(
        remove_load_balancer("default", "web-80-8080-lb", &launch),
        Err(String::from("not found"))
    );
    let silent = |_request: LaunchRequest| exited(false, "", "");
    assert_eq!(
        remove_load_balancer("default", "web-80-8080-lb", &silent),
        Err(String::from("Failed to delete the load balancer"))
    );
    let missing = |_request: LaunchRequest| -> LaunchResult { Err(String::from("no kubectl")) };
    assert_eq!(
        remove_load_balancer("default", "web-80-8080-lb", &missing),
        Err(String::from("no kubectl"))
    );
}

#[test]
fn rows_are_read_from_a_listing_that_succeeded() {
    assert_eq!(
        fetched_rows(exited(true, LISTED, "note")),
        Ok(load_balancer_lines(LISTED))
    );
    assert_eq!(fetched_rows(exited(true, "", "")), Ok(Vec::new()));
}

#[test]
fn a_listing_that_failed_gives_no_rows() {
    assert_eq!(
        fetched_rows(exited(false, LISTED, "connection refused")),
        Err(String::from("connection refused"))
    );
    assert_eq!(
        fetched_rows(exited(false, LISTED, "")),
        Err(String::from("Failed to fetch load balancers"))
    );
    assert_eq!(
        fetched_rows(Err(String::from("no kubectl"))),
        Err(String::from("no kubectl"))
    );
}

#[test]
fn listing_fails_when_the_command_ended_with_a_failure() {
    assert_eq!(
        load_balancer_listing(exited(false, "a b\n", "connection refused")),
        Err(String::from("connection refused"))
    );
    let launch = |_request: LaunchRequest| exited(false, "", "");
    assert_eq!(
        fetch_load_balancers(&launch),
        Err(String::from("Failed to fetch load balancers"))
    );
}

#[test]
fn nothing_is_removed_when_the_listing_ended_with_a_failure() {
    let seen: RefCell<Vec<LaunchRequest>> = RefCell::new(Vec::new());
    let launch = |request: LaunchRequest| {
        seen.borrow_mut().push(request);
        exited(false, LISTED, "connection refused")
    };
    assert_eq!(
        delete_all_load_balancers(&launch),
        Err(String::from("connection refused"))
    );
    assert_eq!(
        delete_load_balancer(0, &launch),
        Err(String::from("connection refused"))
    );
    assert_eq!(
        seen.borrow().clone(),
        vec![load_balancer_fetch_command(), load_balancer_fetch_command()]
    );
}
