use kube_minion::results::{nothing, CommandResultType};
use kube_minion::scanner::{
    any_match, command_line, find, find_first, get_sys_info, kill_process, kill_verdict,
    matches_entry, one_pattern, ProcessEntry,
};

fn strings(items: &[&str]) -> Vec<String> {
    items.iter().map(|item| String::from(*item)).collect()
}

fn process(pid: u32, name: &str, cmd: &[&str]) -> ProcessEntry {
    ProcessEntry {
        pid,
        name: String::from(name),
        cmd: strings(cmd),
    }
}

fn table() -> Vec<ProcessEntry> {
    vec![
        process(10, "bash", &["bash", "-c", "minikube tunnel"]),
        process(20, "minikube", &["minikube", "mount", "/src:/dst"]),
        process(
            30,
            "minikube",
            &[
                "/usr/bin/minikube",
                "tunnel",
                "-c",
                "--bind-address",
                "127.0.0.1",
            ],
        ),
        process(40, "minikube-linux", &["minikube", "tunnel"]),
        process(50, "ssh", &[]),
    ]
}

#[test]
fn command_line_joins_the_arguments_with_spaces() {
    assert_eq!(command_line(&table()[1]), "minikube mount /src:/dst");
    assert_eq!(command_line(&table()[4]), "");
}

#[test]
fn entry_matches_by_name_and_every_pattern() {
    let entries = table();
    assert!(matches_entry(
        &entries[2],
        "minikube",
        &strings(&["tunnel", "--bind-address 127"])
    ));
    assert!(!matches_entry(
        &entries[2],
        "minikube",
        &strings(&["tunnel", "mount"])
    ));
    assert!(!matches_entry(
        &entries[0],
        "minikube",
        &strings(&["tunnel"])
    ));
    assert!(matches_entry(&entries[3], "minikube", &strings(&[])));
    assert!(matches_entry(&entries[4], "", &strings(&[""])));
}

#[test]
fn find_keeps_the_order_of_the_snapshot() {
    let found = find(&table(), "minikube", &one_pattern("tunnel"));
    assert_eq!(
        found,
        vec![
            (
                30,
                String::from("/usr/bin/minikube tunnel -c --bind-address 127.0.0.1")
            ),
            (40, String::from("minikube tunnel")),
        ]
    );
    assert_eq!(
        find(&table(), "kubectl", &one_pattern("tunnel")),
        Vec::new()
    );
    assert_eq!(find(&Vec::new(), "", &Vec::new()), Vec::new());
}

#[test]
fn find_first_is_the_first_of_find() {
    assert_eq!(
        find_first(&table(), "minikube", &one_pattern("tunnel")),
        Some(30)
    );
    assert_eq!(
        find_first(&table(), "minikube", &one_pattern("mount")),
        Some(20)
    );
    assert_eq!(
        find_first(&table(), "minikube", &one_pattern("dashboard")),
        None
    );
    assert!(any_match(&table(), "ssh", &Vec::new()));
    assert!(!any_match(&table(), "socat", &Vec::new()));
}

#[test]
fn one_pattern_holds_exactly_that_pattern() {
    assert_eq!(one_pattern("tunnel"), vec![String::from("tunnel")]);
}

#[test]
fn kill_verdict_names_the_query_that_failed() {
    assert_eq!(
        kill_verdict("minikube", &one_pattern("tunnel"), true),
        nothing()
    );
    assert_eq!(
        kill_verdict("minikube", &one_pattern("tunnel"), false),
        Err(String::from(
            "Failed to kill minikube with patterns [\"tunnel\"]"
        ))
    );
    assert_eq!(
        kill_verdict("ssh", &strings(&["a\"b", "-L 127.0.0.1:"]), false),
        Err(String::from(
            "Failed to kill ssh with patterns [\"a\\\"b\", \"-L 127.0.0.1:\"]"
        ))
    );
}

#[test]
fn kill_process_without_a_match_succeeds_and_shows_nothing() {
    let outcome = kill_process(
        "no-process-has-this-name",
        &one_pattern("nor-this-argument"),
    );
    assert_eq!(
        outcome,
        Ok(CommandResultType::PrintableResults(None, Vec::new()))
    );
}

#[test]
fn a_snapshot_can_be_taken() {
    let _snapshot = get_sys_info();
}
