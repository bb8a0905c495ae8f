use std::cell::{Cell, RefCell};

use kube_minion::launcher::LaunchRequest;
use kube_minion::poller::PollOutcome;
use kube_minion::results::{nothing, printable_line, CommandResultType};
use kube_minion::scanner::{get_sys_info, ProcessEntry};
use kube_minion::settings::Settings;
use kube_minion::socat_tunnel::{
    check_socat_tunnel, connect_argument, create_socat_tunnel, create_socat_tunnel_unless,
    delete_all_socat_tunnels, delete_all_socat_tunnels_in, delete_socat_tunnel,
    delete_socat_tunnel_by_index, delete_socat_tunnel_by_index_in, delete_socat_tunnel_in,
    fetch_socat_tunnels, get_default_connect_host, is_relay_entry, lines_of_hits,
    list_socat_tunnels, listen_argument, parse_protocol, parse_socat_tunnel, protocol_name,
    relay_line, relay_of_groups, relay_start_outcome, relay_stop_outcome, set_default_connect_host,
    socat_tunnel_command, socat_tunnels, stop_socat_tunnel_in, NetworkRelay, Protocol,
};

fn strings(items: &[&str]) -> Vec<String> {
    items.iter().map(|item| String::from(*item)).collect()
}

fn relay() -> NetworkRelay {
    NetworkRelay::new(Protocol::Tcp, 9000, "localhost", 8080)
}

/// The process that the command of `relay` starts.
fn process_of(pid: u32, relay: &NetworkRelay) -> ProcessEntry {
    let command = socat_tunnel_command(relay);
    let mut cmd = vec![command.program.clone()];
    cmd.extend(command.args);
    ProcessEntry {
        pid,
        name: String::from("socat"),
        cmd,
    }
}

#[test]
fn relay_arguments_are_spelled_out() {
    assert_eq!(protocol_name(Protocol::Tcp), "tcp");
    assert_eq!(protocol_name(Protocol::Udp), "udp");
    assert_eq!(listen_argument(&relay()), "tcp-listen:9000,fork,reuseaddr");
    assert_eq!(connect_argument(&relay()), "tcp:localhost:8080");
    let udp = NetworkRelay::new(Protocol::Udp, 53, "10.0.0.1", 5353);
    assert_eq!(listen_argument(&udp), "udp-listen:53,fork,reuseaddr");
    assert_eq!(connect_argument(&udp), "udp:10.0.0.1:5353");
}

#[test]
fn relay_command_carries_the_label_and_a_failure_text() {
    let command = socat_tunnel_command(&relay());
    assert_eq!(command.program, "socat");
    assert_eq!(
        command.args,
        strings(&[
            "-lpkube-minion-socat",
            "tcp-listen:9000,fork,reuseaddr",
            "tcp:localhost:8080"
        ])
    );
    assert_eq!(
        command.custom_error,
        Some(String::from(
            "Failed to start socat tunnel listening on port 9000/tcp and connecting to localhost:8080"
        ))
    );
}

#[test]
fn protocol_is_read_from_its_lower_case_name() {
    assert_eq!(parse_protocol("tcp"), Some(Protocol::Tcp));
    assert_eq!(parse_protocol("udp"), Some(Protocol::Udp));
    assert_eq!(parse_protocol("TCP"), None);
    assert_eq!(parse_protocol("tcp "), None);
    assert_eq!(parse_protocol(""), None);
}

#[test]
fn relays_are_the_same_when_all_four_values_agree() {
    let base = relay();
    assert!(base.same_resource(&NetworkRelay::new(Protocol::Tcp, 9000, "localhost", 8080)));
    assert!(!base.same_resource(&NetworkRelay::new(Protocol::Udp, 9000, "localhost", 8080)));
    assert!(!base.same_resource(&NetworkRelay::new(Protocol::Tcp, 9001, "localhost", 8080)));
    assert!(!base.same_resource(&NetworkRelay::new(Protocol::Tcp, 9000, "localhos", 8080)));
    assert!(!base.same_resource(&NetworkRelay::new(Protocol::Tcp, 9000, "localhost", 8081)));
}

#[test]
fn a_relay_recognises_its_own_process_and_no_other() {
    let base = relay();
    let own = process_of(1, &base);
    assert!(is_relay_entry(&own, &base));
    let others = [
        NetworkRelay::new(Protocol::Udp, 9000, "localhost", 8080),
        NetworkRelay::new(Protocol::Tcp, 900, "localhost", 8080),
        NetworkRelay::new(Protocol::Tcp, 9000, "localhost", 80),
        NetworkRelay::new(Protocol::Tcp, 9000, "localhost", 808),
        NetworkRelay::new(Protocol::Tcp, 9000, "host", 8080),
        NetworkRelay::new(Protocol::Tcp, 9000, "localhost:8", 80),
        NetworkRelay::new(Protocol::Tcp, 90, "localhost", 8080),
    ];
    for other in others.iter() {
        assert!(!is_relay_entry(&own, other));
        assert!(!is_relay_entry(&process_of(2, other), &base));
        assert!(is_relay_entry(&process_of(2, other), other));
    }
}

#[test]
fn a_process_must_be_named_like_socat_and_carry_the_label() {
    let base = relay();
    let mut renamed = process_of(1, &base);
    renamed.name = String::from("netcat");
    assert!(!is_relay_entry(&renamed, &base));
    let mut unlabelled = process_of(1, &base);
    unlabelled.cmd[1] = String::from("-d");
    assert!(!is_relay_entry(&unlabelled, &base));
    let mut longer = process_of(1, &base);
    longer.cmd.push(String::from("extra"));
    assert!(!is_relay_entry(&longer, &base));
    let mut by_path = process_of(1, &base);
    by_path.cmd[0] = String::from("/usr/bin/socat");
    assert!(is_relay_entry(&by_path, &base));
}

#[test]
fn created_relay_is_present_and_destroyed_relay_is_absent() {
    let wanted = relay();
    let other = NetworkRelay::new(Protocol::Tcp, 9001, "localhost", 8080);
    let mut table = vec![process_of(7, &other)];
    assert_eq!(check_socat_tunnel(&table, &wanted), None);

    table.push(process_of(8, &wanted));
    assert_eq!(check_socat_tunnel(&table, &wanted), Some(8));
    assert_eq!(check_socat_tunnel(&table, &other), Some(7));

    table.retain(|entry| entry.pid != 8);
    assert_eq!(check_socat_tunnel(&table, &wanted), None);
    assert_eq!(check_socat_tunnel(&table, &other), Some(7));
}

#[test]
fn check_finds_the_first_process_of_the_relay() {
    let wanted = relay();
    let table = vec![process_of(5, &wanted), process_of(6, &wanted)];
    assert_eq!(check_socat_tunnel(&table, &wanted), Some(5));
    assert_eq!(check_socat_tunnel(&Vec::new(), &wanted), None);
}

#[test]
fn relays_are_listed_by_their_label() {
    let table = vec![
        process_of(1, &relay()),
        ProcessEntry {
            pid: 2,
            name: String::from("socat"),
            cmd: strings(&["socat", "-V"]),
        },
        process_of(3, &NetworkRelay::new(Protocol::Udp, 53, "dns", 53)),
    ];
    let found = socat_tunnels(&table);
    assert_eq!(
        found,
        vec![
            (
                1,
                String::from(
                    "socat -lpkube-minion-socat tcp-listen:9000,fork,reuseaddr tcp:localhost:8080"
                )
            ),
            (
                3,
                String::from("socat -lpkube-minion-socat udp-listen:53,fork,reuseaddr udp:dns:53")
            ),
        ]
    );
    assert_eq!(
        lines_of_hits(&found),
        vec![found[0].1.clone(), found[1].1.clone()]
    );
    assert_eq!(
        list_socat_tunnels(&table),
        Ok(CommandResultType::PrintableResults(
            Some(String::from("Socat tunnels:")),
            vec![found[0].1.clone(), found[1].1.clone()]
        ))
    );
    assert_eq!(
        list_socat_tunnels(&Vec::new()),
        Ok(CommandResultType::PrintableResults(None, Vec::new()))
    );
}

#[test]
fn a_listed_line_is_read_back_as_the_relay() {
    assert_eq!(
        parse_socat_tunnel(
            "socat -lpkube-minion-socat tcp-listen:9000,fork,reuseaddr tcp:localhost:8080"
        ),
        Some(relay())
    );
    assert_eq!(
        parse_socat_tunnel(
            "/usr/bin/socat -lpkube-minion-socat udp-listen:53,fork,reuseaddr udp:10.0.0.1:5353"
        ),
        Some(NetworkRelay::new(Protocol::Udp, 53, "10.0.0.1", 5353))
    );
    assert_eq!(
        parse_socat_tunnel("socat -lpkube-minion-socat tcp-listen:80,fork,reuseaddr tcp:::1:8080"),
        Some(NetworkRelay::new(Protocol::Tcp, 80, "::1", 8080))
    );
}

#[test]
fn lines_that_are_no_relay_are_not_read() {
    assert_eq!(parse_socat_tunnel("socat -V"), None);
    assert_eq!(parse_socat_tunnel(""), None);
    assert_eq!(
        parse_socat_tunnel(
            "socat -lpkube-minion-socat sctp-listen:9000,fork,reuseaddr sctp:localhost:8080"
        ),
        None
    );
    assert_eq!(
        parse_socat_tunnel(
            "socat -lpkube-minion-socat tcp-listen:99999,fork,reuseaddr tcp:localhost:8080"
        ),
        None
    );
    assert_eq!(
        parse_socat_tunnel(
            "socat -lpkube-minion-socat tcp-listen:9000,fork,reuseaddr tcp:localhost:65536"
        ),
        None
    );
}

#[test]
fn groups_give_a_relay_only_when_all_are_there() {
    let group = |text: &str| Some(String::from(text));
    assert_eq!(
        relay_of_groups(Some(vec![
            group("all"),
            group("udp"),
            group("53"),
            group("dns"),
            group("5353")
        ])),
        Some(NetworkRelay::new(Protocol::Udp, 53, "dns", 5353))
    );
    assert_eq!(relay_of_groups(None), None);
    assert_eq!(
        relay_of_groups(Some(vec![
            group("all"),
            group("udp"),
            group("53"),
            group("dns")
        ])),
        None
    );
    assert_eq!(
        relay_of_groups(Some(vec![
            group("all"),
            group("udp"),
            None,
            group("dns"),
            group("5353")
        ])),
        None
    );
    assert_eq!(
        relay_of_groups(Some(vec![
            group("all"),
            group("ip"),
            group("53"),
            group("dns"),
            group("5353")
        ])),
        None
    );
    assert_eq!(
        relay_of_groups(Some(vec![
            group("all"),
            group("udp"),
            group("53"),
            group("dns"),
            group("x")
        ])),
        None
    );
}

#[test]
fn stop_outcome_tells_what_became_of_the_process() {
    assert_eq!(relay_stop_outcome(&relay(), None), nothing());
    assert_eq!(
        relay_stop_outcome(&relay(), Some(true)),
        printable_line(String::from(
            "Stopped socat tunnel listening on port 9000 and connecting to localhost:8080"
        ))
    );
    assert_eq!(
        relay_stop_outcome(&relay(), Some(false)),
        printable_line(String::from(
            "Failed to stop socat tunnel listening on port 9000 and connecting to localhost:8080"
        ))
    );
    assert_eq!(
        relay_line("Started", &relay()),
        "Started socat tunnel listening on port 9000 and connecting to localhost:8080"
    );
}

#[test]
fn start_outcome_follows_the_wait() {
    assert_eq!(
        relay_start_outcome(&relay(), PollOutcome::Ready),
        printable_line(String::from(
            "Started socat tunnel listening on port 9000 and connecting to localhost:8080"
        ))
    );
    assert_eq!(
        relay_start_outcome(&relay(), PollOutcome::TimedOut),
        Err(String::from(
            "Failed to verify if socat tunnel has been started"
        ))
    );
}

#[test]
fn create_on_a_present_relay_starts_nothing() {
    let spawn = |_request: LaunchRequest| panic!("a present relay is not started again");
    let pause = || panic!("nothing is waited for");
    assert_eq!(
        create_socat_tunnel_unless(Some(42), &relay(), &spawn, &pause),
        printable_line(String::from(
            "Socat tunnel listening on port 9000 and connecting to localhost:8080 already exists"
        ))
    );
}

/// A relay that no process of this machine stands for.
fn unused_relay() -> NetworkRelay {
    NetworkRelay::new(Protocol::Udp, 1, "no-such-host.invalid", 1)
}

#[test]
fn create_gives_up_when_the_relay_does_not_come_up() {
    let started: RefCell<Vec<LaunchRequest>> = RefCell::new(Vec::new());
    let pauses = Cell::new(0);
    let spawn = |request: LaunchRequest| started.borrow_mut().push(request);
    let pause = || pauses.set(pauses.get() + 1);
    assert_eq!(
        create_socat_tunnel(&unused_relay(), &spawn, &pause),
        Err(String::from(
            "Failed to verify if socat tunnel has been started"
        ))
    );
    assert_eq!(
        started.borrow().clone(),
        vec![socat_tunnel_command(&unused_relay())]
    );
    assert_eq!(pauses.get(), 4);
}

#[test]
fn delete_on_an_absent_relay_is_a_success_that_does_nothing() {
    assert_eq!(delete_socat_tunnel(&unused_relay()), nothing());
}

#[test]
fn listing_the_live_relays_does_not_fail() {
    match fetch_socat_tunnels() {
        Ok(CommandResultType::PrintableResults(title, lines)) => {
            assert_eq!(title.is_some(), !lines.is_empty());
        }
        other => panic!("unexpected outcome {:?}", other),
    }
}

#[test]
fn delete_all_reports_lines_without_a_title() {
    match delete_all_socat_tunnels() {
        Ok(CommandResultType::PrintableResults(title, _)) => assert_eq!(title, None),
        Ok(other) => panic!("unexpected result {:?}", other),
        Err(error) => assert!(error.starts_with("Failed to read socat tunnel ")),
    }
}

#[test]
fn delete_by_an_index_beyond_the_list_fails() {
    assert_eq!(
        delete_socat_tunnel_by_index(4000000),
        Err(String::from(
            "Index 4000000 does not correspond to a socat tunnel"
        ))
    );
}

#[test]
fn default_connect_host_is_localhost_until_it_is_set() {
    let mut settings = Settings::new();
    assert_eq!(get_default_connect_host(&settings), "localhost");
    assert_eq!(
        set_default_connect_host(&mut settings, String::from("host.minikube.internal")),
        "Socat default connect host has been set to host.minikube.internal"
    );
    assert_eq!(
        get_default_connect_host(&settings),
        "host.minikube.internal"
    );
    assert_eq!(settings.dashboard_port, 51515);
    assert_eq!(settings.bind_address, None);
}

/// An identifier beyond every identifier that the system gives out.
const NO_SUCH_PID: u32 = 0x7fff_fff0;

#[test]
fn a_relay_whose_process_is_gone_is_not_signalled() {
    let sys = get_sys_info();
    let stale = vec![process_of(NO_SUCH_PID, &relay())];
    assert_eq!(stop_socat_tunnel_in(&sys, &stale, &relay()), None);
    assert_eq!(delete_socat_tunnel_in(&sys, &stale, &relay()), nothing());
    assert_eq!(stop_socat_tunnel_in(&sys, &Vec::new(), &relay()), None);
}

#[test]
fn delete_all_goes_through_the_list_of_the_snapshot() {
    let sys = get_sys_info();
    assert_eq!(delete_all_socat_tunnels_in(&sys, &Vec::new()), nothing());
    let stale = vec![
        process_of(NO_SUCH_PID, &relay()),
        process_of(
            NO_SUCH_PID + 1,
            &NetworkRelay::new(Protocol::Udp, 53, "dns", 53),
        ),
    ];
    assert_eq!(delete_all_socat_tunnels_in(&sys, &stale), nothing());
    let odd = vec![ProcessEntry {
        pid: NO_SUCH_PID,
        name: String::from("socat"),
        cmd: strings(&["socat", "-lpkube-minion-socat", "-V"]),
    }];
    assert_eq!(
        delete_all_socat_tunnels_in(&sys, &odd),
        Err(String::from(
            "Failed to read socat tunnel socat -lpkube-minion-socat -V"
        ))
    );
}

#[test]
fn delete_by_index_reads_the_row_of_the_snapshot() {
    let sys = get_sys_info();
    let stale = vec![process_of(NO_SUCH_PID, &relay())];
    assert_eq!(delete_socat_tunnel_by_index_in(&sys, &stale, 0), nothing());
    assert_eq!(
        delete_socat_tunnel_by_index_in(&sys, &stale, 1),
        Err(String::from(
            "Index 1 does not correspond to a socat tunnel"
        ))
    );
    let odd = vec![ProcessEntry {
        pid: NO_SUCH_PID,
        name: String::from("socat"),
        cmd: strings(&["socat", "-lpkube-minion-socat"]),
    }];
    assert_eq!(
        delete_socat_tunnel_by_index_in(&sys, &odd, 0),
        Err(String::from(
            "Failed to read socat tunnel socat -lpkube-minion-socat"
        ))
    );
}
