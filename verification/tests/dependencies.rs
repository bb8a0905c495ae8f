use std::cell::RefCell;

use kube_minion::dependencies::{dependency_verdict, verify_dependencies};
use kube_minion::launcher::{LaunchRequest, LaunchResult};
use kube_minion::results::ProcessOutput;

fn exited(success: bool) -> LaunchResult {
    Ok(ProcessOutput {
        success,
        stdout: String::new(),
        stderr: String::new(),
    })
}

#[test]
fn every_tool_is_tried_with_its_version_argument() {
    let seen: RefCell<Vec<(String, Vec<String>)>> = RefCell::new(Vec::new());
    let launch = |request: LaunchRequest| {
        assert_eq!(request.custom_error, None);
        seen.borrow_mut().push((request.program, request.args));
        exited(false)
    };
    assert_eq!(verify_dependencies(&launch), Ok(()));
    assert_eq!(
        seen.borrow().clone(),
        vec![
            (String::from("minikube"), vec![String::from("version")]),
            (String::from("kubectl"), vec![String::from("--version")]),
            (String::from("socat"), vec![String::from("-V")]),
            (String::from("ssh"), vec![String::from("-V")]),
        ]
    );
}

#[test]
fn the_first_tool_that_cannot_be_started_ends_the_check() {
    let tried: RefCell<Vec<String>> = RefCell::new(Vec::new());
    let launch = |request: LaunchRequest| {
        tried.borrow_mut().push(request.program.clone());
        if request.program == "socat" {
            Err(String::from("No such file or directory (os error 2)"))
        } else {
            exited(true)
        }
    };
    assert_eq!(
        verify_dependencies(&launch),
        Err(String::from("Could not find socat in path"))
    );
    assert_eq!(tried.borrow().clone(), vec!["minikube", "kubectl", "socat"]);
}

#[test]
fn each_tool_has_its_own_failure() {
    for tool in ["minikube", "kubectl", "socat", "ssh"] {
        let launch = |request: LaunchRequest| {
            if request.program == tool {
                Err(String::from("missing"))
            } else {
                exited(true)
            }
        };
        assert_eq!(
            verify_dependencies(&launch),
            Err(format!("Could not find {} in path", tool))
        );
    }
}

#[test]
fn verdict_of_one_try() {
    assert_eq!(dependency_verdict("ssh", &exited(false)), Ok(()));
    assert_eq!(
        dependency_verdict("ssh", &Err(String::from("x"))),
        Err(String::from("Could not find ssh in path"))
    );
}
