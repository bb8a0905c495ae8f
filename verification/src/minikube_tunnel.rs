//! The cluster tunnel: one `minikube tunnel` process, and the `ssh`
//! forwarders that it leaves behind.

use crate::launcher::{can_spawn, spawned, start, LaunchRequest, LaunchRequestView};
use crate::poller::{
    await_condition, lemma_first_ready_none, lemma_ready_at_kth_call, poll_result,
    DEFAULT_MAX_ATTEMPTS, PollOutcome, PollReport,
};
use crate::results::{
    merge_outcome, nothing, nothing_to_show, outcome_view, plain_lines, printable, printable_line,
    CommandExecutionResult, MergePolicy, OutcomeView,
};
use crate::scanner::{
    all_signals_sent, any_held_matches, any_match, entry_views, find, first_match, get_sys_info,
    hit_views, hits, kill, kill_failure, kill_outcome, kill_process, lemma_listed_match_is_held,
    listed_by_name, matching, one_pattern, processes_by_name, processes_interrupted,
    system_processes, wait, ProcessEntry, ProcessTable,
};
use crate::settings::{or_default, setting_or, Settings, SettingsView};
use crate::text::{decimal, decimal_string, texts};
use vstd::prelude::*;

verus! {

/// The address that the tunnel binds to unless another was set.
pub open spec fn default_bind_address() -> Seq<char> {
    "127.0.0.1"@
}

/// The address that the tunnel binds to under the given settings.
pub open spec fn bind_address_of(settings: SettingsView) -> Seq<char> {
    or_default(settings.bind_address, default_bind_address())
}

/// The address that the tunnel binds to.
pub fn get_bind_address(settings: &Settings) -> (address: String)
    ensures
        address@ == bind_address_of(settings@),
{
    setting_or(&settings.bind_address, "127.0.0.1")
}

/// The name by which tunnel processes are found.
pub open spec fn tunnel_program() -> Seq<char> {
    "minikube"@
}

/// What the command line of a tunnel process holds.
pub open spec fn tunnel_patterns() -> Seq<Seq<char>> {
    seq!["tunnel"@]
}

/// A tunnel process is among the entries.
pub open spec fn tunnel_present(entries: Seq<crate::scanner::ProcessEntryView>) -> bool {
    first_match(entries, tunnel_program(), tunnel_patterns()).is_some()
}

/// Whether a tunnel process is among the entries of a snapshot.
pub fn minikube_tunnel_running(entries: &Vec<ProcessEntry>) -> (running: bool)
    ensures
        running == tunnel_present(entry_views(entries@)),
{
    let patterns = one_pattern("tunnel");
    any_match(entries, "minikube", &patterns)
}

/// A tunnel process is among the processes that the table holds.
pub open spec fn tunnel_held(held: ProcessTable) -> bool {
    any_held_matches(held, tunnel_program(), tunnel_patterns())
}

/// Whether a tunnel process is alive now. It takes a fresh snapshot of the
/// process table and does not fail: the answer is whether the table of that
/// snapshot holds a tunnel process.
pub fn check_minikube_tunnel() -> (running: Result<bool, String>)
    ensures
        running is Ok,
        exists|sys: sysinfo::System| running->Ok_0 == tunnel_held(system_processes(sys)),
{
    let sys = get_sys_info();
    let entries = processes_by_name(&sys, "minikube");
    let running = minikube_tunnel_running(&entries);
    proof {
        lemma_listed_match_is_held(
            system_processes(sys),
            entry_views(entries@),
            tunnel_program(),
            tunnel_patterns(),
        );
        assert(running == tunnel_held(system_processes(sys)));
    }
    Ok(running)
}

/// What the command line of a forwarder left behind by the tunnel holds.
pub open spec fn ssh_tunnel_patterns() -> Seq<Seq<char>> {
    seq!["docker@127.0.0.1"@, "minikube/id_rsa"@, "-L 127.0.0.1:"@]
}

/// The forwarders among the entries, in order.
pub open spec fn ssh_tunnels(entries: Seq<crate::scanner::ProcessEntryView>) -> Seq<
    crate::scanner::ProcessEntryView,
> {
    matching(entries, "ssh"@, ssh_tunnel_patterns())
}

/// The identifiers of the forwarders that the tunnel left behind, in the
/// snapshot's order.
pub fn minikube_ssh_tunnels(entries: &Vec<ProcessEntry>) -> (found: Vec<(u32, String)>)
    ensures
        hit_views(found@) == hits(ssh_tunnels(entry_views(entries@))),
{
    let mut patterns: Vec<String> = Vec::new();
    patterns.push(String::from_str("docker@127.0.0.1"));
    patterns.push(String::from_str("minikube/id_rsa"));
    patterns.push(String::from_str("-L 127.0.0.1:"));
    assert(texts(patterns@) =~= ssh_tunnel_patterns());
    find(entries, "ssh", &patterns)
}

/// The text of the failure to end the forwarder `pid`.
pub open spec fn ssh_kill_failure(pid: u32) -> Seq<char> {
    "Failed to kill minikube ssh tunnel with process id "@ + decimal(pid as nat)
}

/// What the attempt to end one forwarder comes to: success where the signal
/// was sent, the failure that names the process otherwise.
pub fn ssh_kill_verdict(pid: u32, sent: bool) -> (verdict: Result<(), String>)
    ensures
        sent ==> verdict is Ok,
        !sent ==> verdict is Err && verdict->Err_0@ == ssh_kill_failure(pid),
{
    if sent {
        Ok(())
    } else {
        let mut message = String::from_str("Failed to kill minikube ssh tunnel with process id ");
        message.append(decimal_string(pid as u64).as_str());
        Err(message)
    }
}

/// What ending the first `n` of the forwarders comes to, `sent` telling
/// for each whether the signal reached it: success, or the failure that
/// names the first that the signal did not reach.
pub open spec fn forwarders_cleared(
    found: Seq<(u32, Seq<char>)>,
    sent: Seq<bool>,
    n: int,
) -> Result<(), Seq<char>>
    decreases n,
{
    if n <= 0 {
        Ok(())
    } else {
        match forwarders_cleared(found, sent, n - 1) {
            Err(error) => Err(error),
            Ok(()) => if sent[n - 1] {
                Ok(())
            } else {
                Err(ssh_kill_failure(found[n - 1].0))
            },
        }
    }
}

/// The view of a success or failure.
pub open spec fn cleared_view(cleared: Result<(), String>) -> Result<(), Seq<char>> {
    match cleared {
        Ok(()) => Ok(()),
        Err(error) => Err(error@),
    }
}

/// The result is what ending the forwarders among the entries, in their
/// order, comes to under the given answers to the signals, and no signal
/// reached a forwarder that the table does not hold.
pub open spec fn all_forwarders_cleared(
    held: ProcessTable,
    entries: Seq<crate::scanner::ProcessEntryView>,
    sent: Seq<bool>,
    cleared: Result<(), Seq<char>>,
) -> bool {
    let found = hits(ssh_tunnels(entries));
    &&& cleared == forwarders_cleared(found, sent, found.len() as int)
    &&& forall|i: int|
        0 <= i < sent.len() && i < found.len() && #[trigger] sent[i] ==> held.dom().contains(
            found[i].0,
        )
}

/// The entries are what the snapshot lists under the name of `ssh`, and the
/// result is what ending the forwarders among them comes to.
pub open spec fn forwarders_torn_down(
    sys: sysinfo::System,
    entries: Seq<crate::scanner::ProcessEntryView>,
    sent: Seq<bool>,
    cleared: Result<(), Seq<char>>,
) -> bool {
    listed_by_name(system_processes(sys), "ssh"@, entries) && all_forwarders_cleared(
        system_processes(sys),
        entries,
        sent,
        cleared,
    )
}

/// What became of later forwarders does not matter to the first `n`.
proof fn lemma_forwarders_cleared_prefix(
    found: Seq<(u32, Seq<char>)>,
    sent: Seq<bool>,
    more: Seq<bool>,
    n: int,
)
    requires
        n <= sent.len() <= more.len(),
        forall|i: int| 0 <= i < sent.len() ==> sent[i] == more[i],
    ensures
        forwarders_cleared(found, sent, n) == forwarders_cleared(found, more, n),
    decreases n,
{
    if n > 0 {
        lemma_forwarders_cleared_prefix(found, sent, more, n - 1);
    }
}

/// Once the first forwarders have failed, all of them fail in the same
/// way.
proof fn lemma_forwarders_cleared_fails(
    found: Seq<(u32, Seq<char>)>,
    sent: Seq<bool>,
    n: int,
    all: int,
)
    requires
        0 <= n <= all,
        forwarders_cleared(found, sent, n) is Err,
    ensures
        forwarders_cleared(found, sent, all) == forwarders_cleared(found, sent, n),
    decreases all - n,
{
    if n < all {
        lemma_forwarders_cleared_fails(found, sent, n, all - 1);
    }
}

/// Ends the forwarders that `entries`, the processes of the snapshot `sys`,
/// hold, in the snapshot's order: each is sent the kill signal and waited
/// for. It stops at the first that cannot be signalled and fails with the
/// text that names it.
#[verifier::loop_isolation(false)]
pub fn clear_minikube_ssh_tunnels_in(
    sys: &sysinfo::System,
    entries: &Vec<ProcessEntry>,
) -> (cleared: Result<(), String>)
    ensures
        exists|sent: Seq<bool>|
            all_forwarders_cleared(
                system_processes(*sys),
                entry_views(entries@),
                sent,
                cleared_view(cleared),
            ),
        cleared matches Err(error) ==> exists|pid: u32| error@ == ssh_kill_failure(pid),
{
    let targets = minikube_ssh_tunnels(entries);
    let ghost found = hits(ssh_tunnels(entry_views(entries@)));
    let ghost mut answers: Seq<bool> = Seq::empty();
    let mut i: usize = 0;
    while i < targets.len()
        invariant
            i <= targets.len(),
            hit_views(targets@) == found,
            answers.len() == i,
            forwarders_cleared(found, answers, i as int) == Ok::<(), Seq<char>>(()),
            forall|k: int|
                0 <= k < answers.len() && #[trigger] answers[k] ==> system_processes(
                    *sys,
                ).dom().contains(found[k].0),
        decreases targets.len() - i,
    {
        let pid: u32 = targets[i].0;
        assert(found[i as int].0 == pid);
        let sent = match kill(sys, pid) {
            Some(sent) => sent,
            None => false,
        };
        if sent {
            wait(sys, pid);
        }
        proof {
            let ghost before = answers;
            answers = answers.push(sent);
            lemma_forwarders_cleared_prefix(found, before, answers, i as int);
        }
        match ssh_kill_verdict(pid, sent) {
            Ok(()) => {},
            Err(error) => {
                proof {
                    lemma_forwarders_cleared_fails(found, answers, i + 1, found.len() as int);
                    assert(all_forwarders_cleared(
                        system_processes(*sys),
                        entry_views(entries@),
                        answers,
                        Err::<(), Seq<char>>(error@),
                    ));
                }
                return Err(error);
            },
        }
        i += 1;
    }
    proof {
        assert(all_forwarders_cleared(
            system_processes(*sys),
            entry_views(entries@),
            answers,
            Ok::<(), Seq<char>>(()),
        ));
    }
    Ok(())
}

/// Ends the forwarders that a tunnel left behind, in the order in which a
/// fresh snapshot lists them. It stops at the first that cannot be ended
/// and fails with the text that names it.
pub fn clear_minikube_ssh_tunnels() -> (cleared: Result<(), String>)
    ensures
        exists|
            sys: sysinfo::System,
            entries: Seq<crate::scanner::ProcessEntryView>,
            sent: Seq<bool>,
        |
            forwarders_torn_down(sys, entries, sent, cleared_view(cleared)),
        cleared matches Err(error) ==> exists|pid: u32| error@ == ssh_kill_failure(pid),
{
    let sys = get_sys_info();
    let entries = processes_by_name(&sys, "ssh");
    let cleared = clear_minikube_ssh_tunnels_in(&sys, &entries);
    proof {
        let sent = choose|sent: Seq<bool>|
            all_forwarders_cleared(
                system_processes(sys),
                entry_views(entries@),
                sent,
                cleared_view(cleared),
            );
        assert(forwarders_torn_down(sys, entry_views(entries@), sent, cleared_view(cleared)));
    }
    cleared
}

/// The command that starts the tunnel bound to `bind_address`.
pub open spec fn tunnel_request(bind_address: Seq<char>) -> LaunchRequestView {
    LaunchRequestView {
        program: "minikube"@,
        args: seq!["tunnel"@, "-c"@, "--bind-address"@, bind_address],
        custom_error: Some("Failed to start the minikube tunnel"@),
    }
}

/// The command that starts the tunnel bound to `bind_address`.
pub fn minikube_tunnel_command(bind_address: &str) -> (request: LaunchRequest)
    ensures
        request@ == tunnel_request(bind_address@),
{
    let mut args: Vec<String> = Vec::new();
    args.push(String::from_str("tunnel"));
    args.push(String::from_str("-c"));
    args.push(String::from_str("--bind-address"));
    args.push(String::from_str(bind_address));
    assert(texts(args@) =~= tunnel_request(bind_address@).args);
    LaunchRequest {
        program: String::from_str("minikube"),
        args,
        custom_error: Some(String::from_str("Failed to start the minikube tunnel")),
    }
}

/// What is shown once the tunnel was stopped.
pub open spec fn tunnel_stopped() -> OutcomeView {
    plain_lines(seq!["The minikube tunnel has been stopped"@])
}

/// The line that tells of a started tunnel.
pub open spec fn tunnel_started_line(bind_address: Seq<char>) -> Seq<char> {
    "The minikube tunnel has been started and bound to "@ + bind_address
}

/// The failure of a tunnel that was not seen in time.
pub open spec fn tunnel_not_verified() -> Seq<char> {
    "Failed to verify if minikube tunnel has been started"@
}

/// What starting the tunnel comes to once the wait for it is over.
pub open spec fn tunnel_start_result(waited: PollOutcome, bind_address: Seq<char>) -> OutcomeView {
    match waited {
        PollOutcome::Ready => plain_lines(seq![tunnel_started_line(bind_address)]),
        PollOutcome::TimedOut => Err(tunnel_not_verified()),
    }
}

/// The outcome of starting the tunnel, given how the wait for it ended.
pub fn tunnel_start_outcome(waited: PollOutcome, bind_address: &str) -> (outcome:
    CommandExecutionResult)
    ensures
        outcome_view(outcome) == tunnel_start_result(waited, bind_address@),
{
    match waited {
        PollOutcome::Ready => {
            let mut line = String::from_str("The minikube tunnel has been started and bound to ");
            line.append(bind_address);
            printable_line(line)
        },
        PollOutcome::TimedOut => Err(
            String::from_str("Failed to verify if minikube tunnel has been started"),
        ),
    }
}

/// The outcome is the failure to end some forwarder.
pub open spec fn is_ssh_kill_failure(outcome: OutcomeView) -> bool {
    exists|pid: u32|
        outcome == Err::<crate::results::CommandResultView, Seq<char>>(ssh_kill_failure(pid))
}

/// The forwarders of a fresh snapshot were ended, with the given result.
pub open spec fn forwarders_ended(cleared: Result<(), Seq<char>>) -> bool {
    exists|sys: sysinfo::System, entries: Seq<crate::scanner::ProcessEntryView>, sent: Seq<bool>|
        forwarders_torn_down(sys, entries, sent, cleared)
}

/// What stopping the tunnel comes to: the failure to end the tunnel's
/// process where a signal did not reach it; else the failure to end a
/// forwarder, or the line that tells of the stop.
pub open spec fn tunnel_stop_result(all_sent: bool, cleared: Result<(), Seq<char>>) -> OutcomeView {
    if !all_sent {
        Err(kill_failure(tunnel_program(), tunnel_patterns()))
    } else {
        match cleared {
            Err(error) => Err(error),
            Ok(()) => tunnel_stopped(),
        }
    }
}

/// The tunnel processes of a fresh snapshot were sent the interrupt signal,
/// and `all_sent` tells whether every one of the signals was sent.
pub open spec fn tunnel_interrupted(all_sent: bool) -> bool {
    exists|
        sys: sysinfo::System,
        entries: Seq<crate::scanner::ProcessEntryView>,
        answers: Seq<Option<Option<bool>>>,
    |
        processes_interrupted(
            sys,
            entries,
            answers,
            tunnel_program(),
            tunnel_patterns(),
            kill_outcome(tunnel_program(), tunnel_patterns(), all_sent),
        ) && all_sent == all_signals_sent(answers)
}

/// The outcome is what stopping the tunnel came to: the tunnel processes of
/// a fresh snapshot were interrupted, `all_sent` tells whether every signal
/// was sent, and where it was, the forwarders were ended with the result
/// `cleared`.
pub open spec fn tunnel_stopping(
    all_sent: bool,
    cleared: Result<(), Seq<char>>,
    outcome: OutcomeView,
) -> bool {
    &&& tunnel_interrupted(all_sent)
    &&& all_sent ==> forwarders_ended(cleared)
    &&& outcome == tunnel_stop_result(all_sent, cleared)
}

/// The outcome is what an attempt to stop the tunnel came to.
pub open spec fn is_tunnel_stop_result(outcome: OutcomeView) -> bool {
    exists|all_sent: bool, cleared: Result<(), Seq<char>>|
        tunnel_stopping(all_sent, cleared, outcome)
}

/// Each observation is whether the table of some snapshot holds a tunnel
/// process.
pub open spec fn tunnel_looks(observations: Seq<bool>) -> bool {
    forall|i: int|
        0 <= i < observations.len() ==> exists|sys: sysinfo::System|
            (#[trigger] observations[i]) == tunnel_held(#[trigger] system_processes(sys))
}

/// The outcome is what starting the tunnel came to: stale forwarders were
/// ended with the result `cleared`, whose failure is the outcome; else the
/// tunnel was looked for in fresh snapshots, with the given observations in
/// order, within the budget of the wait, and the outcome is what the wait
/// came to.
///
/// Of the looks this says only that each observation is that of some
/// snapshot. How many snapshots were taken, that each was a fresh one and
/// that a pause lay between two of them is not fixed here: a sequence of
/// observations does not tell how it was come by. The count of looks and of
/// pauses is exact where they are tallied, at
/// [`ReadinessPoller::observe`](crate::poller::ReadinessPoller::observe): a
/// caller that has to know them runs the wait itself, step by step, and
/// hands its end to [`tunnel_start_outcome`].
pub open spec fn tunnel_starting(
    cleared: Result<(), Seq<char>>,
    observations: Seq<bool>,
    bind_address: Seq<char>,
    outcome: OutcomeView,
) -> bool {
    &&& forwarders_ended(cleared)
    &&& match cleared {
        Err(error) => outcome == Err::<crate::results::CommandResultView, Seq<char>>(error),
        Ok(()) => {
            &&& tunnel_looks(observations)
            &&& poll_result(observations, DEFAULT_MAX_ATTEMPTS) matches Some(report) && outcome
                == tunnel_start_result(report.outcome, bind_address)
        },
    }
}

/// With its stale forwarders ended, a tunnel that the observations show
/// for the first time at the `k`-th of them, within the budget, has been
/// started: the outcome is the line of the start, and the wait over these
/// observations took `k` looks and `k - 1` pauses.
pub proof fn lemma_tunnel_started_when_seen(
    bind_address: Seq<char>,
    observations: Seq<bool>,
    outcome: OutcomeView,
    k: int,
)
    requires
        tunnel_starting(Ok(()), observations, bind_address, outcome),
        1 <= k <= DEFAULT_MAX_ATTEMPTS,
        k <= observations.len(),
        observations[k - 1],
        forall|i: int| 0 <= i < k - 1 ==> !observations[i],
    ensures
        outcome == plain_lines(seq![tunnel_started_line(bind_address)]),
        poll_result(observations, DEFAULT_MAX_ATTEMPTS) == Some(
            PollReport { outcome: PollOutcome::Ready, calls: k as u32, sleeps: (k - 1) as u32 },
        ),
{
    lemma_ready_at_kth_call(observations, DEFAULT_MAX_ATTEMPTS, k);
}

/// With its stale forwarders ended, a tunnel that none of the observations
/// shows was not seen in time: the budget was spent, with no fewer
/// observations than it allows, and the outcome is the failure that says
/// so.
pub proof fn lemma_tunnel_not_verified_when_never_seen(
    bind_address: Seq<char>,
    observations: Seq<bool>,
    outcome: OutcomeView,
)
    requires
        tunnel_starting(Ok(()), observations, bind_address, outcome),
        forall|i: int| 0 <= i < observations.len() ==> !observations[i],
    ensures
        observations.len() >= DEFAULT_MAX_ATTEMPTS,
        outcome == Err::<crate::results::CommandResultView, Seq<char>>(tunnel_not_verified()),
{
    let limit = if observations.len() < DEFAULT_MAX_ATTEMPTS {
        observations.len() as int
    } else {
        DEFAULT_MAX_ATTEMPTS as int
    };
    lemma_first_ready_none(observations, 0, limit);
}

/// The outcome is what an attempt to start the tunnel came to.
pub open spec fn is_tunnel_start_result(outcome: OutcomeView, bind_address: Seq<char>) -> bool {
    exists|cleared: Result<(), Seq<char>>, observations: Seq<bool>|
        tunnel_starting(cleared, observations, bind_address, outcome)
}

/// Stops the running tunnel: its process is interrupted and waited for,
/// and the forwarders that it leaves behind are ended.
fn stop_running_tunnel() -> (outcome: CommandExecutionResult)
    ensures
        is_tunnel_stop_result(outcome_view(outcome)),
{
    let patterns = one_pattern("tunnel");
    let killed = kill_process("minikube", &patterns);
    proof {
        assert(texts(patterns@) =~= tunnel_patterns());
        let (sys, entries, answers) = choose|
            sys: sysinfo::System,
            entries: Seq<crate::scanner::ProcessEntryView>,
            answers: Seq<Option<Option<bool>>>,
        |
            processes_interrupted(
                sys,
                entries,
                answers,
                "minikube"@,
                texts(patterns@),
                outcome_view(killed),
            );
        assert(processes_interrupted(
            sys,
            entries,
            answers,
            tunnel_program(),
            tunnel_patterns(),
            kill_outcome(tunnel_program(), tunnel_patterns(), killed is Ok),
        ) && (killed is Ok) == all_signals_sent(answers));
        assert(tunnel_interrupted(killed is Ok));
    }
    if killed.is_err() {
        assert(tunnel_stopping(false, Ok::<(), Seq<char>>(()), outcome_view(killed)));
        return killed;
    }
    let cleared = clear_minikube_ssh_tunnels();
    assert(forwarders_ended(cleared_view(cleared)));
    let outcome = match cleared {
        Ok(()) => printable_line(String::from_str("The minikube tunnel has been stopped")),
        Err(error) => Err(error),
    };
    assert(tunnel_stopping(true, cleared_view(cleared), outcome_view(outcome)));
    outcome
}

/// Brings the tunnel into the state opposite to `running`.
///
/// A running tunnel is interrupted and waited for, and its forwarders are
/// ended; neither `spawn` nor `pause` is called, which is why they need not
/// accept anything in that case. Otherwise stale forwarders are ended, the
/// tunnel is handed to `spawn` to run in the background, and its process is
/// looked for up to five times with a `pause` between two looks. The
/// contract fixes the command and what each run of observations comes to;
/// see [`tunnel_starting`] for what it leaves open about the looks
/// themselves.
pub fn toggle_minikube_tunnel<S: Fn(LaunchRequest), P: Fn()>(
    running: bool,
    settings: &Settings,
    spawn: &S,
    pause: &P,
) -> (outcome: CommandExecutionResult)
    requires
        !running ==> can_spawn(spawn) && call_requires(*pause, ()),
    ensures
        running ==> is_tunnel_stop_result(outcome_view(outcome)),
        !running ==> is_tunnel_start_result(outcome_view(outcome), bind_address_of(settings@)),
        !running && !is_ssh_kill_failure(outcome_view(outcome)) ==> spawned(
            spawn,
            tunnel_request(bind_address_of(settings@)),
        ),
{
    if running {
        stop_running_tunnel()
    } else {
        let cleared = clear_minikube_ssh_tunnels();
        assert(forwarders_ended(cleared_view(cleared)));
        match cleared {
            Ok(()) => {},
            Err(error) => {
                let outcome: CommandExecutionResult = Err(error);
                assert(tunnel_starting(
                    cleared_view(cleared),
                    Seq::<bool>::empty(),
                    bind_address_of(settings@),
                    outcome_view(outcome),
                ));
                return outcome;
            },
        }
        let bind_address = get_bind_address(settings);
        start(spawn, minikube_tunnel_command(bind_address.as_str()));
        let look = || -> (running: bool)
            ensures
                exists|sys: sysinfo::System| running == tunnel_held(system_processes(sys)),
            {
                match check_minikube_tunnel() {
                    Ok(running) => running,
                    Err(_) => false,
                }
            };
        let report = await_condition(&look, pause, DEFAULT_MAX_ATTEMPTS);
        let outcome = tunnel_start_outcome(report.outcome, bind_address.as_str());
        proof {
            lemma_start_result_is_no_ssh_failure(report.outcome, bind_address@);
            let observations = choose|observations: Seq<bool>|
                {
                    &&& observations.len() == report.calls
                    &&& forall|i: int|
                        0 <= i < observations.len() ==> call_ensures(
                            look,
                            (),
                            #[trigger] observations[i],
                        )
                    &&& poll_result(observations, DEFAULT_MAX_ATTEMPTS) == Some(report)
                };
            assert(tunnel_looks(observations));
            assert(tunnel_starting(
                cleared_view(cleared),
                observations,
                bind_address@,
                outcome_view(outcome),
            ));
        }
        outcome
    }
}

/// The texts that tell how the start of the tunnel ended are not the text
/// of a forwarder that could not be ended.
proof fn lemma_start_result_is_no_ssh_failure(waited: PollOutcome, bind_address: Seq<char>)
    ensures
        !is_ssh_kill_failure(tunnel_start_result(waited, bind_address)),
{
    reveal_strlit("Failed to verify if minikube tunnel has been started");
    reveal_strlit("Failed to kill minikube ssh tunnel with process id ");
    if is_ssh_kill_failure(tunnel_start_result(waited, bind_address)) {
        let pid = choose|pid: u32|
            tunnel_start_result(waited, bind_address) == Err::<
                crate::results::CommandResultView,
                Seq<char>,
            >(ssh_kill_failure(pid));
        assert(ssh_kill_failure(pid)[10] == 'k');
        assert(tunnel_not_verified()[10] == 'v');
    }
}

/// The outcome is what starting the tunnel anew came to. Where the table
/// of the snapshot holds a tunnel process, the tunnel was stopped with the
/// outcome `stopped`, whose failure is the outcome; in every other case the
/// tunnel was started, and the outcome is what that came to.
pub open spec fn tunnel_renewed(
    sys: sysinfo::System,
    stopped: OutcomeView,
    bind_address: Seq<char>,
    outcome: OutcomeView,
) -> bool {
    if tunnel_held(system_processes(sys)) {
        &&& is_tunnel_stop_result(stopped)
        &&& stopped is Err ==> outcome == stopped
        &&& stopped is Ok ==> is_tunnel_start_result(outcome, bind_address)
    } else {
        is_tunnel_start_result(outcome, bind_address)
    }
}

/// Starts the tunnel anew: a running one, by a fresh snapshot of the
/// process table, is stopped first. Unless the stop failed, or a stale
/// forwarder could not be ended, the command of the tunnel is handed to
/// `spawn`.
pub fn create_minikube_tunnel<S: Fn(LaunchRequest), P: Fn()>(
    settings: &Settings,
    spawn: &S,
    pause: &P,
) -> (outcome: CommandExecutionResult)
    requires
        can_spawn(spawn),
        call_requires(*pause, ()),
    ensures
        exists|sys: sysinfo::System, stopped: OutcomeView|
            tunnel_renewed(sys, stopped, bind_address_of(settings@), outcome_view(outcome)) && ((
            tunnel_held(system_processes(sys)) ==> stopped is Ok) && !is_ssh_kill_failure(
                outcome_view(outcome),
            ) ==> spawned(spawn, tunnel_request(bind_address_of(settings@)))),
        outcome is Ok ==> outcome_view(outcome) == tunnel_start_result(
            PollOutcome::Ready,
            bind_address_of(settings@),
        ) && spawned(spawn, tunnel_request(bind_address_of(settings@))),
{
    let looked = check_minikube_tunnel();
    let ghost sys = choose|sys: sysinfo::System|
        looked->Ok_0 == tunnel_held(system_processes(sys));
    let running = match looked {
        Ok(running) => running,
        Err(_) => false,
    };
    let ghost mut stop_view = nothing_to_show();
    if running {
        let stopped = stop_running_tunnel();
        proof {
            stop_view = outcome_view(stopped);
        }
        if stopped.is_err() {
            assert(tunnel_renewed(
                sys,
                stop_view,
                bind_address_of(settings@),
                outcome_view(stopped),
            ));
            return stopped;
        }
    }
    let outcome = toggle_minikube_tunnel(false, settings, spawn, pause);
    proof {
        assert(tunnel_renewed(sys, stop_view, bind_address_of(settings@), outcome_view(outcome)));
        lemma_started_tunnel_is_ready(outcome_view(outcome), bind_address_of(settings@));
    }
    outcome
}

/// A start of the tunnel that succeeded shows the line of a tunnel that
/// was seen.
proof fn lemma_started_tunnel_is_ready(outcome: OutcomeView, bind_address: Seq<char>)
    requires
        is_tunnel_start_result(outcome, bind_address),
    ensures
        outcome is Ok ==> outcome == tunnel_start_result(PollOutcome::Ready, bind_address),
{
}

/// Stops the tunnel where a fresh snapshot of the process table holds a
/// tunnel process; with none running it does nothing and succeeds.
pub fn stop_minikube_tunnel() -> (outcome: CommandExecutionResult)
    ensures
        exists|sys: sysinfo::System|
            if tunnel_held(#[trigger] system_processes(sys)) {
                is_tunnel_stop_result(outcome_view(outcome))
            } else {
                outcome_view(outcome) == nothing_to_show()
            },
{
    let looked = check_minikube_tunnel();
    let ghost sys = choose|sys: sysinfo::System|
        looked->Ok_0 == tunnel_held(system_processes(sys));
    let running = match looked {
        Ok(running) => running,
        Err(_) => false,
    };
    let outcome = stop_minikube_tunnel_when(running);
    assert(running == tunnel_held(system_processes(sys)));
    outcome
}

/// Stops the tunnel where `running` says that one is there; an absent
/// tunnel is left alone, and the outcome is a success that shows nothing.
pub fn stop_minikube_tunnel_when(running: bool) -> (outcome: CommandExecutionResult)
    ensures
        !running ==> outcome_view(outcome) == nothing_to_show(),
        running ==> is_tunnel_stop_result(outcome_view(outcome)),
{
    if running {
        stop_running_tunnel()
    } else {
        nothing()
    }
}

/// The line that tells of a new bind address.
pub open spec fn bind_address_set_line(bind_address: Seq<char>) -> Seq<char> {
    "The minikube tunnel bind address has been set to "@ + bind_address
}

/// The outcome is what setting a new address came to. Where the table of
/// the snapshot holds a tunnel process, the tunnel was started anew with
/// the outcome `restarted`, and the line of the new address is followed by
/// the line of the started tunnel where that succeeded; where it holds
/// none, the line of the new address stands alone.
pub open spec fn bind_address_changed(
    sys: sysinfo::System,
    restarted: OutcomeView,
    bind_address: Seq<char>,
    outcome: OutcomeView,
) -> bool {
    if tunnel_held(system_processes(sys)) {
        &&& exists|again: sysinfo::System, stopped: OutcomeView|
            tunnel_renewed(again, stopped, bind_address, restarted)
        &&& outcome == plain_lines(
            if restarted is Ok {
                seq![bind_address_set_line(bind_address), tunnel_started_line(bind_address)]
            } else {
                seq![bind_address_set_line(bind_address)]
            },
        )
    } else {
        outcome == plain_lines(seq![bind_address_set_line(bind_address)])
    }
}

/// Sets the address that the tunnel binds to. Setting the address that is
/// already in force changes nothing. Otherwise a running tunnel is started
/// anew on the new address; whether that worked does not change the
/// success of setting the address. Where the address is in force already,
/// neither `spawn` nor `pause` is called, which is why they need not accept
/// anything in that case.
pub fn set_bind_address<S: Fn(LaunchRequest), P: Fn()>(
    settings: &mut Settings,
    bind_address: String,
    spawn: &S,
    pause: &P,
) -> (outcome: CommandExecutionResult)
    requires
        bind_address_of(old(settings)@) != bind_address@ ==> can_spawn(spawn) && call_requires(
            *pause,
            (),
        ),
    ensures
        final(settings)@.dashboard_port == old(settings)@.dashboard_port,
        final(settings)@.default_connect_host == old(settings)@.default_connect_host,
        bind_address_of(final(settings)@) == bind_address@,
        bind_address_of(old(settings)@) == bind_address@ ==> final(settings)@ == old(settings)@
            && outcome_view(outcome) == nothing_to_show(),
        bind_address_of(old(settings)@) != bind_address@ ==> final(settings)@.bind_address == Some(
            bind_address@,
        ) && exists|sys: sysinfo::System, restarted: OutcomeView|
            bind_address_changed(sys, restarted, bind_address@, outcome_view(outcome)) && (
            tunnel_held(system_processes(sys)) && restarted is Ok ==> spawned(
                spawn,
                tunnel_request(bind_address@),
            )),
{
    let current = get_bind_address(settings);
    if current == bind_address {
        return nothing();
    }
    let mut line = String::from_str("The minikube tunnel bind address has been set to ");
    line.append(bind_address.as_str());
    settings.bind_address = Some(bind_address);
    let mut results: Vec<String> = Vec::new();
    results.push(line);
    assert(texts(results@) =~= seq![line@]);
    let looked = check_minikube_tunnel();
    let ghost sys = choose|sys: sysinfo::System|
        looked->Ok_0 == tunnel_held(system_processes(sys));
    let running = match looked {
        Ok(running) => running,
        Err(_) => false,
    };
    let ghost mut restart_view = nothing_to_show();
    if running {
        let restarted = create_minikube_tunnel(settings, spawn, pause);
        proof {
            restart_view = outcome_view(restarted);
        }
        let _ = merge_outcome(&mut results, restarted, MergePolicy::BestEffort);
        proof {
            if restarted is Ok {
                assert(texts(results@) =~= seq![line@, tunnel_started_line(bind_address@)]);
            }
        }
    }
    let outcome = printable(results);
    assert(bind_address_changed(sys, restart_view, bind_address@, outcome_view(outcome)));
    outcome
}

} // verus!
