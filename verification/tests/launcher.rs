use kube_minion::launcher::{
    fingerprint, into_outcome, may_start, request, request_fingerprint, run, spawn_failure_message,
    start,
    LaunchRequest, LaunchResult, ProcessRegistry, FINGERPRINT_FACTOR, FINGERPRINT_SEED, ITEM_END,
};
use kube_minion::results::{CommandResultType, ProcessOutput};
use std::cell::RefCell;

fn strings(items: &[&str]) -> Vec<String> {
    items.iter().map(|item| String::from(*item)).collect()
}

#[test]
fn spawn_failure_prefers_the_callers_text() {
    assert_eq!(
        spawn_failure_message(
            Some(String::from("Could not proxy dashboard")),
            String::from("ENOENT")
        ),
        "Could not proxy dashboard"
    );
    assert_eq!(
        spawn_failure_message(None, String::from("No such file")),
        "No such file"
    );
}

fn mix(h: u64, value: u64) -> u64 {
    h.wrapping_mul(FINGERPRINT_FACTOR).wrapping_add(value)
}

#[test]
fn fingerprint_of_a_small_command() {
    let mut expected = FINGERPRINT_SEED;
    expected = mix(expected, 'l' as u64);
    expected = mix(expected, 's' as u64);
    expected = mix(expected, ITEM_END);
    expected = mix(expected, '-' as u64);
    expected = mix(expected, 'a' as u64);
    expected = mix(expected, ITEM_END);
    assert_eq!(fingerprint("ls", &strings(&["-a"])), expected);
    assert_eq!(
        fingerprint("", &Vec::new()),
        mix(FINGERPRINT_SEED, ITEM_END)
    );
}

#[test]
fn fingerprint_depends_on_program_arguments_and_their_order() {
    let base = fingerprint("socat", &strings(&["-V", "x"]));
    assert_eq!(base, fingerprint("socat", &strings(&["-V", "x"])));
    assert_ne!(base, fingerprint("socat", &strings(&["x", "-V"])));
    assert_ne!(base, fingerprint("socat", &strings(&["-Vx"])));
    assert_ne!(base, fingerprint("socat", &strings(&["-V"])));
    assert_ne!(base, fingerprint("ssh", &strings(&["-V", "x"])));
    assert_ne!(
        fingerprint("ab", &strings(&["c"])),
        fingerprint("a", &strings(&["bc"]))
    );
}

#[test]
fn request_fingerprint_is_that_of_its_command() {
    let made = request(
        "minikube",
        strings(&["tunnel", "-c"]),
        Some(String::from("failed")),
    );
    assert_eq!(made.program, "minikube");
    assert_eq!(made.args, strings(&["tunnel", "-c"]));
    assert_eq!(made.custom_error, Some(String::from("failed")));
    assert_eq!(
        request_fingerprint(&made),
        fingerprint("minikube", &strings(&["tunnel", "-c"]))
    );
}

#[test]
fn second_launch_of_the_same_command_gets_the_first_handle() {
    let mut registry: ProcessRegistry<u32> = ProcessRegistry::new();
    let print = fingerprint("socat", &strings(&["-V"]));
    assert_eq!(registry.len(), 0);
    assert_eq!(registry.get_or_reserve(print, 11), None);
    assert_eq!(registry.get_or_reserve(print, 22), Some(&11));
    assert_eq!(registry.len(), 1);
    assert_eq!(registry.lookup(print), Some(&11));
}

#[test]
fn registry_keeps_one_handle_for_each_fingerprint() {
    let mut registry: ProcessRegistry<String> = ProcessRegistry::new();
    assert_eq!(registry.get_or_reserve(1, String::from("one")), None);
    assert_eq!(registry.get_or_reserve(2, String::from("two")), None);
    assert_eq!(
        registry.get_or_reserve(1, String::from("again")),
        Some(&String::from("one"))
    );
    assert_eq!(registry.lookup(2), Some(&String::from("two")));
    assert_eq!(registry.lookup(3), None);
    assert_eq!(registry.len(), 2);
}

#[test]
fn replace_puts_a_new_handle_in_the_place_of_a_dead_one() {
    let mut registry: ProcessRegistry<u32> = ProcessRegistry::new();
    assert_eq!(registry.get_or_reserve(7, 100), None);
    registry.replace(7, 200);
    assert_eq!(registry.lookup(7), Some(&200));
    assert_eq!(registry.len(), 1);
    registry.replace(8, 300);
    assert_eq!(registry.lookup(8), Some(&300));
    assert_eq!(registry.len(), 2);
}

#[test]
fn run_hands_the_request_to_the_launcher() {
    let seen: RefCell<Vec<LaunchRequest>> = RefCell::new(Vec::new());
    let launch = |handed: LaunchRequest| -> LaunchResult {
        seen.borrow_mut().push(handed);
        Err(String::from("not started"))
    };
    let made = request("kubectl", strings(&["get", "svc"]), None);
    assert_eq!(run(&launch, made.clone()), Err(String::from("not started")));
    assert_eq!(seen.borrow().clone(), vec![made]);
}

#[test]
fn start_hands_the_request_to_the_starter() {
    let seen: RefCell<Vec<LaunchRequest>> = RefCell::new(Vec::new());
    let spawn = |handed: LaunchRequest| seen.borrow_mut().push(handed);
    let made = request("socat", strings(&["-V"]), None);
    start(&spawn, made.clone());
    assert_eq!(seen.borrow().clone(), vec![made]);
}

#[test]
fn launch_results_become_outcomes() {
    let output = ProcessOutput {
        success: false,
        stdout: String::new(),
        stderr: String::from("e"),
    };
    assert_eq!(
        into_outcome(Ok(output.clone())),
        Ok(CommandResultType::ChildProcess(Some(output)))
    );
    assert_eq!(into_outcome(Err(String::from("x"))), Err(String::from("x")));
}

#[test]
fn only_a_running_helper_keeps_a_new_one_from_starting() {
    assert!(may_start(None));
    assert!(may_start(Some(true)));
    assert!(!may_start(Some(false)));
}

#[test]
fn claim_starts_a_helper_once_while_it_runs() {
    let mut registry: ProcessRegistry<u32> = ProcessRegistry::new();
    let asked = std::cell::Cell::new(0);
    let running = |_held: &u32| {
        asked.set(asked.get() + 1);
        false
    };
    assert!(registry.claim(7, 100, &running));
    assert_eq!(asked.get(), 0);
    assert!(!registry.claim(7, 200, &running));
    assert_eq!(asked.get(), 1);
    assert_eq!(registry.lookup(7), Some(&100));
    assert_eq!(registry.len(), 1);
}

#[test]
fn claim_renews_a_helper_that_has_ended() {
    let mut registry: ProcessRegistry<u32> = ProcessRegistry::new();
    let ended = |held: &u32| *held == 100;
    assert!(registry.claim(7, 100, &ended));
    assert!(registry.claim(7, 200, &ended));
    assert_eq!(registry.lookup(7), Some(&200));
    assert!(!registry.claim(7, 300, &ended));
    assert_eq!(registry.lookup(7), Some(&200));
    assert!(registry.claim(8, 100, &ended));
    assert_eq!(registry.len(), 2);
}
