use std::cell::{Cell, RefCell};

use kube_minion::launcher::LaunchRequest;
use kube_minion::minikube_mount::{
    check_minikube_mount, create_minikube_mount, create_minikube_mount_unless,
    delete_all_minikube_mounts, delete_all_minikube_mounts_in, delete_minikube_mount,
    delete_minikube_mount_by_index, delete_minikube_mount_by_index_in, delete_minikube_mount_in,
    fetch_minikube_mounts, list_minikube_mounts, minikube_mount_command, minikube_mount_obstacle,
    minikube_mounts, mount_argument, mount_line, mount_of_groups, mount_start_outcome,
    mount_stop_outcome, parse_minikube_mount, stop_minikube_mount_in,
};
use kube_minion::poller::PollOutcome;
use kube_minion::results::{nothing, printable_line, CommandResultType};
use kube_minion::scanner::{get_sys_info, ProcessEntry};

fn strings(items: &[&str]) -> Vec<String> {
    items.iter().map(|item| String::from(*item)).collect()
}

fn process(pid: u32, name: &str, cmd: &[&str]) -> ProcessEntry {
    ProcessEntry {
        pid,
        name: String::from(name),
        cmd: strings(cmd),
    }
}

fn table() -> Vec<ProcessEntry> {
    vec![
        process(1, "minikube", &["minikube", "tunnel", "-c"]),
        process(2, "minikube", &["minikube", "mount", "/home/me/src:/src"]),
        process(
            3,
            "minikube",
            &["/usr/local/bin/minikube", "mount", "/data:/mnt/data"],
        ),
        process(4, "bash", &["bash", "mount", "/data:/mnt/data"]),
    ]
}

#[test]
fn mount_command_joins_the_paths_with_a_colon() {
    assert_eq!(mount_argument("/data", "/mnt/data"), "/data:/mnt/data");
    let command = minikube_mount_command("/data", "/mnt/data");
    assert_eq!(command.program, "minikube");
    assert_eq!(command.args, strings(&["mount", "/data:/mnt/data"]));
    assert_eq!(
        command.custom_error,
        Some(String::from(
            "Failed to stop minikube mount from host path /data to minikube path /mnt/data"
        ))
    );
}

#[test]
fn check_finds_the_process_of_the_mount() {
    assert_eq!(
        check_minikube_mount(&table(), "/data", "/mnt/data"),
        Some(3)
    );
    assert_eq!(
        check_minikube_mount(&table(), "/home/me/src", "/src"),
        Some(2)
    );
    assert_eq!(check_minikube_mount(&table(), "/data", "/mnt/other"), None);
    assert_eq!(
        check_minikube_mount(&Vec::new(), "/data", "/mnt/data"),
        None
    );
}

#[test]
fn mounts_are_listed_in_the_order_of_the_snapshot() {
    assert_eq!(
        minikube_mounts(&table()),
        vec![
            (2, String::from("minikube mount /home/me/src:/src")),
            (
                3,
                String::from("/usr/local/bin/minikube mount /data:/mnt/data")
            ),
        ]
    );
    assert_eq!(
        list_minikube_mounts(&table()),
        Ok(CommandResultType::PrintableResults(
            Some(String::from("Minikube mounts:")),
            strings(&[
                "minikube mount /home/me/src:/src",
                "/usr/local/bin/minikube mount /data:/mnt/data"
            ])
        ))
    );
    assert_eq!(
        list_minikube_mounts(&Vec::new()),
        Ok(CommandResultType::PrintableResults(None, Vec::new()))
    );
}

#[test]
fn a_listed_line_is_read_back_as_the_two_paths() {
    assert_eq!(
        parse_minikube_mount("minikube mount /a:/b"),
        Some((String::from("/a"), String::from("/b")))
    );
    assert_eq!(
        parse_minikube_mount("minikube mount /home/me/src:/src"),
        Some((String::from("/home/me/src"), String::from("/src")))
    );
    assert_eq!(
        parse_minikube_mount("/usr/local/bin/minikube mount /data:/mnt/data"),
        Some((String::from("/data"), String::from("/mnt/data")))
    );
    assert_eq!(
        parse_minikube_mount("minikube mount /my data:/mnt/my data"),
        Some((String::from("/my data"), String::from("/mnt/my data")))
    );
}

#[test]
fn lines_that_are_no_mount_are_not_read() {
    assert_eq!(parse_minikube_mount("minikube /home/me/src:/src"), None);
    assert_eq!(parse_minikube_mount("minikube mount"), None);
    assert_eq!(parse_minikube_mount("minikube mount /a"), None);
    assert_eq!(parse_minikube_mount("minikube mount a:b:c"), None);
    assert_eq!(parse_minikube_mount("minikube mount :/b"), None);
    assert_eq!(parse_minikube_mount("minikube mount /a:"), None);
    assert_eq!(parse_minikube_mount("mount /a:/b"), None);
    assert_eq!(parse_minikube_mount(""), None);
}

#[test]
fn the_command_line_of_a_started_mount_reads_back_as_its_paths() {
    for (host_path, minikube_path) in
        [("/a", "/b"), ("/home/me/src", "/src"), ("relative", "x"), ("/with space", "/also here")]
    {
        let command = minikube_mount_command(host_path, minikube_path);
        let mut cmd = vec![command.program.clone()];
        cmd.extend(command.args);
        let started = ProcessEntry { pid: 1, name: String::from("minikube"), cmd };
        let listed = minikube_mounts(&vec![started.clone()]);
        assert_eq!(listed.len(), 1);
        assert_eq!(
            parse_minikube_mount(listed[0].1.as_str()),
            Some((String::from(host_path), String::from(minikube_path)))
        );
        assert_eq!(check_minikube_mount(&vec![started], host_path, minikube_path), Some(1));
    }
}

#[test]
fn what_is_read_from_a_listed_line_finds_its_process_again() {
    let listed = minikube_mounts(&table());
    let paths = parse_minikube_mount(listed[1].1.as_str()).unwrap();
    assert_eq!(paths, (String::from("/data"), String::from("/mnt/data")));
    assert_eq!(
        check_minikube_mount(&table(), paths.0.as_str(), paths.1.as_str()),
        Some(3)
    );
}

#[test]
fn groups_give_the_paths_only_when_both_are_there() {
    let group = |text: &str| Some(String::from(text));
    assert_eq!(
        mount_of_groups(Some(vec![group("all"), group("/a"), group("/b")])),
        Some((String::from("/a"), String::from("/b")))
    );
    assert_eq!(
        mount_of_groups(Some(vec![group("all"), group("/a"), None])),
        None
    );
    assert_eq!(mount_of_groups(Some(vec![group("all"), group("/a")])), None);
    assert_eq!(mount_of_groups(None), None);
}

#[test]
fn obstacles_end_the_start_of_a_mount() {
    assert_eq!(
        minikube_mount_obstacle(
            "/data",
            "/mnt",
            Err(String::from("No such file or directory")),
            None
        ),
        Some(Err(String::from("No such file or directory")))
    );
    assert_eq!(
        minikube_mount_obstacle("/data", "/mnt", Ok(false), None),
        Some(Err(String::from(
            "/data is not a valid host directory path"
        )))
    );
    assert_eq!(
        minikube_mount_obstacle("/data", "/mnt", Ok(false), Some(3)),
        Some(Err(String::from(
            "/data is not a valid host directory path"
        )))
    );
    assert_eq!(
        minikube_mount_obstacle("/data", "/mnt", Ok(true), Some(3)),
        Some(printable_line(String::from(
            "Minikube mount from host path /data to minikube path /mnt already exists"
        )))
    );
    assert_eq!(
        minikube_mount_obstacle("/data", "/mnt", Ok(true), None),
        None
    );
}

#[test]
fn outcomes_of_start_and_stop_have_their_lines() {
    assert_eq!(
        mount_start_outcome("/data", "/mnt", PollOutcome::Ready),
        printable_line(String::from(
            "Created minikube mount from host path /data to minikube path /mnt"
        ))
    );
    assert_eq!(
        mount_start_outcome("/data", "/mnt", PollOutcome::TimedOut),
        Err(String::from(
            "Failed to verify if minikube mount has been created"
        ))
    );
    assert_eq!(mount_stop_outcome("/data", "/mnt", None), nothing());
    assert_eq!(
        mount_stop_outcome("/data", "/mnt", Some(Some(true))),
        printable_line(String::from(
            "Stopped minikube mount from host path /data to minikube path /mnt"
        ))
    );
    assert_eq!(
        mount_stop_outcome("/data", "/mnt", Some(Some(false))),
        printable_line(String::from(
            "Failed to stop minikube mount from host path /data to minikube path /mnt"
        ))
    );
    assert_eq!(
        mount_stop_outcome("/data", "/mnt", Some(None)),
        printable_line(String::from(
            "Failed to stop minikube mount from host path /data to minikube path /mnt"
        ))
    );
    assert_eq!(
        mount_line("Created", "a", "b"),
        "Created minikube mount from host path a to minikube path b"
    );
}

#[test]
fn create_on_a_present_mount_starts_nothing() {
    let spawn = |_request: LaunchRequest| panic!("a present mount is not started again");
    let pause = || panic!("nothing is waited for");
    assert_eq!(
        create_minikube_mount_unless("/data", "/mnt", Ok(true), Some(9), &spawn, &pause),
        printable_line(String::from(
            "Minikube mount from host path /data to minikube path /mnt already exists"
        ))
    );
    assert_eq!(
        create_minikube_mount_unless("/data", "/mnt", Ok(false), None, &spawn, &pause),
        Err(String::from("/data is not a valid host directory path"))
    );
}

#[test]
fn create_gives_up_when_the_mount_does_not_come_up() {
    let started: RefCell<Vec<LaunchRequest>> = RefCell::new(Vec::new());
    let pauses = Cell::new(0);
    let spawn = |request: LaunchRequest| started.borrow_mut().push(request);
    let pause = || pauses.set(pauses.get() + 1);
    assert_eq!(
        create_minikube_mount(
            "/no/such/host/path",
            "/no/such/target",
            Ok(true),
            &spawn,
            &pause
        ),
        Err(String::from(
            "Failed to verify if minikube mount has been created"
        ))
    );
    assert_eq!(
        started.borrow().clone(),
        vec![minikube_mount_command(
            "/no/such/host/path",
            "/no/such/target"
        )]
    );
    assert_eq!(pauses.get(), 4);
}

#[test]
fn create_fails_for_a_host_path_that_cannot_be_looked_at() {
    let spawn = |_request: LaunchRequest| panic!("nothing is to be started");
    let pause = || panic!("nothing is waited for");
    assert_eq!(
        create_minikube_mount(
            "/x",
            "/y",
            Err(String::from("permission denied")),
            &spawn,
            &pause
        ),
        Err(String::from("permission denied"))
    );
}

#[test]
fn delete_on_an_absent_mount_is_a_success_that_does_nothing() {
    assert_eq!(
        delete_minikube_mount("/no/such/host/path", "/no/such/target"),
        nothing()
    );
}

#[test]
fn listing_the_live_mounts_does_not_fail() {
    match fetch_minikube_mounts() {
        Ok(CommandResultType::PrintableResults(title, lines)) => {
            assert_eq!(title.is_some(), !lines.is_empty());
        }
        other => panic!("unexpected outcome {:?}", other),
    }
}

#[test]
fn delete_all_mounts_reports_lines_without_a_title() {
    match delete_all_minikube_mounts() {
        Ok(CommandResultType::PrintableResults(title, _)) => assert_eq!(title, None),
        Ok(other) => panic!("unexpected result {:?}", other),
        Err(error) => assert!(error.starts_with("Failed to read minikube mount ")),
    }
}

#[test]
fn delete_by_an_index_beyond_the_list_of_mounts_fails() {
    assert_eq!(
        delete_minikube_mount_by_index(4000000),
        Err(String::from(
            "Index 4000000 does not correspond to a minikube mount"
        ))
    );
}

/// An identifier beyond every identifier that the system gives out.
const NO_SUCH_PID: u32 = 0x7fff_fff0;

#[test]
fn a_mount_whose_process_is_gone_is_not_signalled() {
    let sys = get_sys_info();
    let stale = vec![process(
        NO_SUCH_PID,
        "minikube",
        &["minikube", "mount", "/data:/mnt"],
    )];
    assert_eq!(stop_minikube_mount_in(&sys, &stale, "/data", "/mnt"), None);
    assert_eq!(
        delete_minikube_mount_in(&sys, &stale, "/data", "/mnt"),
        nothing()
    );
    assert_eq!(
        stop_minikube_mount_in(&sys, &Vec::new(), "/data", "/mnt"),
        None
    );
}

#[test]
fn delete_all_mounts_goes_through_the_list_of_the_snapshot() {
    let sys = get_sys_info();
    assert_eq!(delete_all_minikube_mounts_in(&sys, &Vec::new()), nothing());
    let stale = vec![process(
        NO_SUCH_PID,
        "minikube",
        &["minikube", "mount", "/data:/mnt"],
    )];
    assert_eq!(delete_all_minikube_mounts_in(&sys, &stale), nothing());
    let odd = vec![process(NO_SUCH_PID, "minikube", &["minikube", "mount"])];
    assert_eq!(
        delete_all_minikube_mounts_in(&sys, &odd),
        Err(String::from("Failed to read minikube mount minikube mount"))
    );
}

#[test]
fn delete_mount_by_index_reads_the_row_of_the_snapshot() {
    let sys = get_sys_info();
    let stale = vec![process(
        NO_SUCH_PID,
        "minikube",
        &["minikube", "mount", "/data:/mnt"],
    )];
    assert_eq!(
        delete_minikube_mount_by_index_in(&sys, &stale, 0),
        nothing()
    );
    assert_eq!(
        delete_minikube_mount_by_index_in(&sys, &stale, 3),
        Err(String::from(
            "Index 3 does not correspond to a minikube mount"
        ))
    );
}
