//! Directory mounts: `minikube mount` processes that make a directory of
//! the host visible inside the cluster. A mount is the pair of the host
//! path and the path inside the cluster.

use crate::launcher::{can_spawn, request, spawned, start, LaunchRequest, LaunchRequestView};
use crate::pattern::{captured_view, captures, group_views, regex_captures};
use crate::poller::{
    await_condition, lemma_first_ready_none, lemma_ready_at_kth_call, poll_result,
    DEFAULT_MAX_ATTEMPTS, PollOutcome, PollReport,
};
use crate::results::{
    listed, listing, merge_outcome, nothing, opt_text, outcome_view, plain_lines, printable,
    printable_line, CommandExecutionResult, CommandResultType, CommandResultView, MergePolicy,
    OutcomeView,
};
use crate::scanner::{
    any_held_matches, entry_views, find, find_first, first_match, get_sys_info, hit_views, hits,
    interrupt, lemma_listed_match_is_held, listed_by_name, matching, one_pattern, processes_by_name,
    system_processes, wait, ProcessEntry, ProcessEntryView, ProcessTable,
};
use crate::socat_tunnel::{hit_lines, lines_of_hits, lines_or_failure};
use crate::text::{concat, decimal, decimal_string, push_text, texts};
use vstd::prelude::*;

verus! {

/// The host path and the path inside the cluster as `minikube mount` takes
/// them: the two with a colon between them.
pub open spec fn mount_spec(host_path: Seq<char>, minikube_path: Seq<char>) -> Seq<char> {
    host_path + ":"@ + minikube_path
}

/// What the command line of the process of a mount holds.
pub open spec fn mount_patterns(host_path: Seq<char>, minikube_path: Seq<char>) -> Seq<Seq<char>> {
    seq!["mount"@, mount_spec(host_path, minikube_path)]
}

/// The identifier of the first process of the snapshot that is the mount's.
pub open spec fn mount_process(
    entries: Seq<ProcessEntryView>,
    host_path: Seq<char>,
    minikube_path: Seq<char>,
) -> Option<u32> {
    first_match(entries, "minikube"@, mount_patterns(host_path, minikube_path))
}

/// The two paths of a mount with a colon between them.
pub fn mount_argument(host_path: &str, minikube_path: &str) -> (argument: String)
    ensures
        argument@ == mount_spec(host_path@, minikube_path@),
{
    let mut argument = String::from_str(host_path);
    argument.append(":");
    argument.append(minikube_path);
    argument
}

/// The identifier of the first process of the snapshot that is the
/// mount's; `None` where the mount is absent.
pub fn check_minikube_mount(
    entries: &Vec<ProcessEntry>,
    host_path: &str,
    minikube_path: &str,
) -> (pid: Option<u32>)
    ensures
        pid == mount_process(entry_views(entries@), host_path@, minikube_path@),
{
    let mut patterns: Vec<String> = Vec::new();
    push_text(&mut patterns, "mount");
    push_text(&mut patterns, mount_argument(host_path, minikube_path).as_str());
    assert(texts(patterns@) =~= mount_patterns(host_path@, minikube_path@));
    find_first(entries, "minikube", &patterns)
}

/// A process of the mount is among the processes that the table holds.
pub open spec fn mount_held(
    held: ProcessTable,
    host_path: Seq<char>,
    minikube_path: Seq<char>,
) -> bool {
    any_held_matches(held, "minikube"@, mount_patterns(host_path, minikube_path))
}

/// There is an answer to the signal exactly where the entries hold a
/// process of the mount and the table holds a process under its identifier.
pub open spec fn mount_attempted(
    held: ProcessTable,
    entries: Seq<ProcessEntryView>,
    host_path: Seq<char>,
    minikube_path: Seq<char>,
    attempt: Option<Option<bool>>,
) -> bool {
    attempt is Some <==> (mount_process(entries, host_path, minikube_path) matches Some(pid)
        && held.dom().contains(pid))
}

/// The entries are what the snapshot lists under the name of `minikube`.
pub open spec fn mounts_listed(sys: sysinfo::System, entries: Seq<ProcessEntryView>) -> bool {
    listed_by_name(system_processes(sys), "minikube"@, entries)
}

/// Whether the mount is present now: a fresh snapshot of the process table
/// is taken, and the answer is whether its table holds a process of the
/// mount.
fn minikube_mount_present(host_path: &str, minikube_path: &str) -> (present: bool)
    ensures
        exists|sys: sysinfo::System|
            present == mount_held(system_processes(sys), host_path@, minikube_path@),
{
    let sys = get_sys_info();
    let entries = processes_by_name(&sys, "minikube");
    let present = check_minikube_mount(&entries, host_path, minikube_path).is_some();
    proof {
        lemma_listed_match_is_held(
            system_processes(sys),
            entry_views(entries@),
            "minikube"@,
            mount_patterns(host_path@, minikube_path@),
        );
        assert(present == mount_held(system_processes(sys), host_path@, minikube_path@));
    }
    present
}

/// What the lines of a report say of a mount.
pub open spec fn mount_described(host_path: Seq<char>, minikube_path: Seq<char>) -> Seq<char> {
    "minikube mount from host path "@ + host_path + " to minikube path "@ + minikube_path
}

/// The line `prefix`, a space, and what the mount joins.
pub fn mount_line(prefix: &str, host_path: &str, minikube_path: &str) -> (line: String)
    ensures
        line@ == prefix@ + " "@ + mount_described(host_path@, minikube_path@),
{
    let mut line = String::from_str(prefix);
    line.append(" ");
    line.append("minikube mount from host path ");
    line.append(host_path);
    line.append(" to minikube path ");
    line.append(minikube_path);
    assert(line@ =~= prefix@ + " "@ + mount_described(host_path@, minikube_path@));
    line
}

/// The command that starts the process of a mount.
pub open spec fn mount_request(
    host_path: Seq<char>,
    minikube_path: Seq<char>,
) -> LaunchRequestView {
    LaunchRequestView {
        program: "minikube"@,
        args: seq!["mount"@, mount_spec(host_path, minikube_path)],
        custom_error: Some("Failed to stop"@ + " "@ + mount_described(host_path, minikube_path)),
    }
}

/// The command that starts the process of a mount.
pub fn minikube_mount_command(host_path: &str, minikube_path: &str) -> (command: LaunchRequest)
    ensures
        command@ == mount_request(host_path@, minikube_path@),
{
    let mut args: Vec<String> = Vec::new();
    push_text(&mut args, "mount");
    push_text(&mut args, mount_argument(host_path, minikube_path).as_str());
    assert(texts(args@) =~= mount_request(host_path@, minikube_path@).args);
    request("minikube", args, Some(mount_line("Failed to stop", host_path, minikube_path)))
}

/// The failure for a host path that is no directory.
pub open spec fn not_a_directory(host_path: Seq<char>) -> Seq<char> {
    host_path + " is not a valid host directory path"@
}

/// The line for a mount that is there already.
pub open spec fn mount_already_exists(host_path: Seq<char>, minikube_path: Seq<char>) -> Seq<char> {
    "Minikube mount from host path "@ + host_path + " to minikube path "@ + minikube_path
        + " already exists"@
}

/// The failure of a mount that was not seen in time.
pub open spec fn mount_not_verified() -> Seq<char> {
    "Failed to verify if minikube mount has been created"@
}

/// What stands in the way of starting a mount: the failure to look at the
/// host path, a host path that is no directory, or a mount that is there
/// already. `None` where the mount is to be started.
pub open spec fn mount_obstacle(
    host_path: Seq<char>,
    minikube_path: Seq<char>,
    host_directory: Result<bool, Seq<char>>,
    existing: Option<u32>,
) -> Option<OutcomeView> {
    match host_directory {
        Err(error) => Some(Err(error)),
        Ok(false) => Some(Err(not_a_directory(host_path))),
        Ok(true) => if existing is Some {
            Some(plain_lines(seq![mount_already_exists(host_path, minikube_path)]))
        } else {
            None
        },
    }
}

/// What starting a mount comes to once the wait for it is over.
pub open spec fn mount_start_result(
    host_path: Seq<char>,
    minikube_path: Seq<char>,
    waited: PollOutcome,
) -> OutcomeView {
    match waited {
        PollOutcome::Ready => plain_lines(
            seq!["Created"@ + " "@ + mount_described(host_path, minikube_path)],
        ),
        PollOutcome::TimedOut => Err(mount_not_verified()),
    }
}

/// The view of what a look at the host path gave.
pub open spec fn directory_view(host_directory: Result<bool, String>) -> Result<bool, Seq<char>> {
    match host_directory {
        Ok(is_directory) => Ok(is_directory),
        Err(error) => Err(error@),
    }
}

/// The outcome that ends the start of a mount before anything is started,
/// where there is one.
pub fn minikube_mount_obstacle(
    host_path: &str,
    minikube_path: &str,
    host_directory: Result<bool, String>,
    existing: Option<u32>,
) -> (obstacle: Option<CommandExecutionResult>)
    ensures
        match mount_obstacle(host_path@, minikube_path@, directory_view(host_directory), existing) {
            Some(outcome) => obstacle is Some && outcome_view(obstacle->0) == outcome,
            None => obstacle is None,
        },
{
    match host_directory {
        Err(error) => Some(Err(error)),
        Ok(false) => Some(Err(concat(host_path, " is not a valid host directory path"))),
        Ok(true) => {
            if existing.is_some() {
                let mut line = String::from_str("Minikube mount from host path ");
                line.append(host_path);
                line.append(" to minikube path ");
                line.append(minikube_path);
                line.append(" already exists");
                assert(line@ =~= mount_already_exists(host_path@, minikube_path@));
                Some(printable_line(line))
            } else {
                None
            }
        },
    }
}

/// The outcome of starting a mount, given how the wait for it ended.
pub fn mount_start_outcome(host_path: &str, minikube_path: &str, waited: PollOutcome) -> (outcome:
    CommandExecutionResult)
    ensures
        outcome_view(outcome) == mount_start_result(host_path@, minikube_path@, waited),
{
    match waited {
        PollOutcome::Ready => printable_line(mount_line("Created", host_path, minikube_path)),
        PollOutcome::TimedOut => Err(
            String::from_str("Failed to verify if minikube mount has been created"),
        ),
    }
}

/// Starts the mount unless something stands in its way. `host_directory`
/// is what a look at the host path gave: whether it is a directory, or the
/// failure to look. `existing` names the process of the mount, where it is
/// there. Where either ends the start, neither `spawn` nor `pause` is
/// called, which is why they need not accept anything in that case.
/// Otherwise the command of the mount is handed to `spawn`, and its process
/// is looked for up to five times with a `pause` between two looks. The
/// contract fixes the command and what each run of observations comes to;
/// see [`mount_awaited`] for what it leaves open about the looks themselves.
pub fn create_minikube_mount_unless<S: Fn(LaunchRequest), P: Fn()>(
    host_path: &str,
    minikube_path: &str,
    host_directory: Result<bool, String>,
    existing: Option<u32>,
    spawn: &S,
    pause: &P,
) -> (outcome: CommandExecutionResult)
    requires
        mount_obstacle(host_path@, minikube_path@, directory_view(host_directory), existing)
            is None ==> can_spawn(spawn) && call_requires(*pause, ()),
    ensures
        mount_created(
            host_path@,
            minikube_path@,
            directory_view(host_directory),
            existing,
            outcome_view(outcome),
        ),
        mount_obstacle(host_path@, minikube_path@, directory_view(host_directory), existing)
            is None ==> spawned(spawn, mount_request(host_path@, minikube_path@)),
{
    match minikube_mount_obstacle(host_path, minikube_path, host_directory, existing) {
        Some(obstacle) => {
            return obstacle;
        },
        None => {},
    }
    start(spawn, minikube_mount_command(host_path, minikube_path));
    let look = || -> (present: bool)
        ensures
            exists|sys: sysinfo::System|
                present == mount_held(system_processes(sys), host_path@, minikube_path@),
        { minikube_mount_present(host_path, minikube_path) };
    let report = await_condition(&look, pause, DEFAULT_MAX_ATTEMPTS);
    let outcome = mount_start_outcome(host_path, minikube_path, report.outcome);
    proof {
        let observations = choose|observations: Seq<bool>|
            {
                &&& observations.len() == report.calls
                &&& forall|i: int|
                    0 <= i < observations.len() ==> call_ensures(
                        look,
                        (),
                        #[trigger] observations[i],
                    )
                &&& poll_result(observations, DEFAULT_MAX_ATTEMPTS) == Some(report)
            };
        assert(mount_looks(host_path@, minikube_path@, observations));
        assert(mount_awaited(host_path@, minikube_path@, observations, outcome_view(outcome)));
    }
    outcome
}

/// The outcome is what the start of a mount comes to where `existing`
/// names its process: what stood in the way, or else what the wait for the
/// started mount gave.
pub open spec fn mount_created(
    host_path: Seq<char>,
    minikube_path: Seq<char>,
    host_directory: Result<bool, Seq<char>>,
    existing: Option<u32>,
    outcome: OutcomeView,
) -> bool {
    match mount_obstacle(host_path, minikube_path, host_directory, existing) {
        Some(obstacle) => outcome == obstacle,
        None => exists|observations: Seq<bool>|
            mount_awaited(host_path, minikube_path, observations, outcome),
    }
}

/// Each observation is whether the table of some snapshot holds a process
/// of the mount.
pub open spec fn mount_looks(
    host_path: Seq<char>,
    minikube_path: Seq<char>,
    observations: Seq<bool>,
) -> bool {
    forall|i: int|
        0 <= i < observations.len() ==> exists|sys: sysinfo::System|
            (#[trigger] observations[i]) == mount_held(
                #[trigger] system_processes(sys),
                host_path,
                minikube_path,
            )
}

/// The mount was looked for in fresh snapshots, with the given observations
/// in order, within the budget of the wait, and the outcome is what the
/// wait came to: the line of the start where an observation found the
/// mount, the failure where the budget was spent without one.
///
/// Of the looks this says only that each observation is that of some
/// snapshot. How many snapshots were taken, that each was a fresh one and
/// that a pause lay between two of them is not fixed here: a sequence of
/// observations does not tell how it was come by. The count of looks and of
/// pauses is exact where they are tallied, at
/// [`ReadinessPoller::observe`](crate::poller::ReadinessPoller::observe): a
/// caller that has to know them runs the wait itself, step by step, and
/// hands its end to [`mount_start_outcome`].
pub open spec fn mount_awaited(
    host_path: Seq<char>,
    minikube_path: Seq<char>,
    observations: Seq<bool>,
    outcome: OutcomeView,
) -> bool {
    &&& mount_looks(host_path, minikube_path, observations)
    &&& poll_result(observations, DEFAULT_MAX_ATTEMPTS) matches Some(report) && outcome
        == mount_start_result(host_path, minikube_path, report.outcome)
}

/// A mount that the observations show for the first time at the `k`-th of
/// them, within the budget, has been started: the outcome is the line of
/// the start, and the wait over these observations took `k` looks and
/// `k - 1` pauses.
pub proof fn lemma_mount_started_when_seen(
    host_path: Seq<char>,
    minikube_path: Seq<char>,
    observations: Seq<bool>,
    outcome: OutcomeView,
    k: int,
)
    requires
        mount_awaited(host_path, minikube_path, observations, outcome),
        1 <= k <= DEFAULT_MAX_ATTEMPTS,
        k <= observations.len(),
        observations[k - 1],
        forall|i: int| 0 <= i < k - 1 ==> !observations[i],
    ensures
        outcome == mount_start_result(host_path, minikube_path, PollOutcome::Ready),
        poll_result(observations, DEFAULT_MAX_ATTEMPTS) == Some(
            PollReport { outcome: PollOutcome::Ready, calls: k as u32, sleeps: (k - 1) as u32 },
        ),
{
    lemma_ready_at_kth_call(observations, DEFAULT_MAX_ATTEMPTS, k);
}

/// A mount that none of the observations shows was not seen in time: the
/// budget was spent, with no fewer observations than it allows, and the
/// outcome is the failure that says so.
pub proof fn lemma_mount_not_verified_when_never_seen(
    host_path: Seq<char>,
    minikube_path: Seq<char>,
    observations: Seq<bool>,
    outcome: OutcomeView,
)
    requires
        mount_awaited(host_path, minikube_path, observations, outcome),
        forall|i: int| 0 <= i < observations.len() ==> !observations[i],
    ensures
        observations.len() >= DEFAULT_MAX_ATTEMPTS,
        outcome == Err::<CommandResultView, Seq<char>>(mount_not_verified()),
{
    let limit = if observations.len() < DEFAULT_MAX_ATTEMPTS {
        observations.len() as int
    } else {
        DEFAULT_MAX_ATTEMPTS as int
    };
    lemma_first_ready_none(observations, 0, limit);
}

/// `existing` names a process exactly where the table of the snapshot holds
/// a process of the mount.
pub open spec fn mount_found(
    sys: sysinfo::System,
    host_path: Seq<char>,
    minikube_path: Seq<char>,
    existing: Option<u32>,
) -> bool {
    existing is Some <==> mount_held(system_processes(sys), host_path, minikube_path)
}

/// The outcome is what the start of a mount came to. A host path that
/// could not be looked at, or that is no directory, ends the start before
/// the process table is read. Else a fresh snapshot was taken, `existing`
/// names a process exactly where its table holds a process of the mount,
/// and the outcome is what the start comes to for it.
pub open spec fn mount_started(
    sys: sysinfo::System,
    host_path: Seq<char>,
    minikube_path: Seq<char>,
    host_directory: Result<bool, Seq<char>>,
    existing: Option<u32>,
    outcome: OutcomeView,
) -> bool {
    &&& host_directory == Ok::<bool, Seq<char>>(true) ==> mount_found(
        sys,
        host_path,
        minikube_path,
        existing,
    )
    &&& mount_created(host_path, minikube_path, host_directory, existing, outcome)
}

/// Starts the mount of `host_path` at `minikube_path` unless the host path
/// is no directory or a fresh snapshot of the process table shows that the
/// mount is present already. Where the host path ends the start, the
/// process table is not read, and neither `spawn` nor `pause` is called,
/// which is why they need not accept anything in that case.
pub fn create_minikube_mount<S: Fn(LaunchRequest), P: Fn()>(
    host_path: &str,
    minikube_path: &str,
    host_directory: Result<bool, String>,
    spawn: &S,
    pause: &P,
) -> (outcome: CommandExecutionResult)
    requires
        host_directory == Ok::<bool, String>(true) ==> can_spawn(spawn) && call_requires(
            *pause,
            (),
        ),
    ensures
        host_directory != Ok::<bool, String>(true) ==> mount_created(
            host_path@,
            minikube_path@,
            directory_view(host_directory),
            None,
            outcome_view(outcome),
        ),
        host_directory == Ok::<bool, String>(true) ==> exists|
            sys: sysinfo::System,
            existing: Option<u32>,
        |
            mount_started(
                sys,
                host_path@,
                minikube_path@,
                directory_view(host_directory),
                existing,
                outcome_view(outcome),
            ) && (existing is None ==> spawned(spawn, mount_request(host_path@, minikube_path@))),
{
    match host_directory {
        Ok(true) => {},
        _ => {
            return create_minikube_mount_unless(
                host_path,
                minikube_path,
                host_directory,
                None,
                spawn,
                pause,
            );
        },
    }
    let sys = get_sys_info();
    let entries = processes_by_name(&sys, "minikube");
    let existing = check_minikube_mount(&entries, host_path, minikube_path);
    proof {
        lemma_listed_match_is_held(
            system_processes(sys),
            entry_views(entries@),
            "minikube"@,
            mount_patterns(host_path@, minikube_path@),
        );
        assert(mount_found(sys, host_path@, minikube_path@, existing));
    }
    let outcome = create_minikube_mount_unless(
        host_path,
        minikube_path,
        host_directory,
        existing,
        spawn,
        pause,
    );
    proof {
        assert(mount_started(
            sys,
            host_path@,
            minikube_path@,
            directory_view(host_directory),
            existing,
            outcome_view(outcome),
        ));
    }
    outcome
}

/// The lines that tell of the attempt to end a mount. `attempt` is `None`
/// where no process of the mount was there to end; else it holds what
/// sending the interrupt signal gave, which is `None` where the platform has
/// no such signal. Only a signal that was sent counts as a stop.
pub open spec fn mount_stop_lines(
    host_path: Seq<char>,
    minikube_path: Seq<char>,
    attempt: Option<Option<bool>>,
) -> Seq<Seq<char>> {
    match attempt {
        None => Seq::empty(),
        Some(Some(true)) => seq!["Stopped"@ + " "@ + mount_described(host_path, minikube_path)],
        Some(_) => seq!["Failed to stop"@ + " "@ + mount_described(host_path, minikube_path)],
    }
}

/// What the attempt to end a mount shows.
pub open spec fn mount_stop_result(
    host_path: Seq<char>,
    minikube_path: Seq<char>,
    attempt: Option<Option<bool>>,
) -> OutcomeView {
    plain_lines(mount_stop_lines(host_path, minikube_path, attempt))
}

/// The outcome of the attempt to end a mount.
pub fn mount_stop_outcome(
    host_path: &str,
    minikube_path: &str,
    attempt: Option<Option<bool>>,
) -> (outcome: CommandExecutionResult)
    ensures
        outcome_view(outcome) == mount_stop_result(host_path@, minikube_path@, attempt),
{
    match attempt {
        None => nothing(),
        Some(Some(true)) => printable_line(mount_line("Stopped", host_path, minikube_path)),
        Some(_) => printable_line(mount_line("Failed to stop", host_path, minikube_path)),
    }
}

/// Sends the interrupt signal to the first process of the mount among
/// `entries`, waits for the process to end where the signal was sent, and
/// hands back what sending it gave. There is an answer exactly where
/// `entries` hold a process of the mount and the snapshot `sys` holds a
/// process under its identifier. An absent mount is left alone: nothing is
/// signalled, and the answer is `None`.
pub fn stop_minikube_mount_in(
    sys: &sysinfo::System,
    entries: &Vec<ProcessEntry>,
    host_path: &str,
    minikube_path: &str,
) -> (attempt: Option<Option<bool>>)
    ensures
        mount_attempted(
            system_processes(*sys),
            entry_views(entries@),
            host_path@,
            minikube_path@,
            attempt,
        ),
{
    match check_minikube_mount(entries, host_path, minikube_path) {
        Some(pid) => {
            let sent = interrupt(sys, pid);
            match sent {
                Some(Some(true)) => {
                    wait(sys, pid);
                },
                _ => {},
            }
            sent
        },
        None => None,
    }
}

/// Interrupts the process of the mount where `entries`, the processes of
/// the snapshot `sys`, hold one. An absent mount is left alone: nothing is
/// signalled and the outcome is a success that shows nothing.
pub fn delete_minikube_mount_in(
    sys: &sysinfo::System,
    entries: &Vec<ProcessEntry>,
    host_path: &str,
    minikube_path: &str,
) -> (outcome: CommandExecutionResult)
    ensures
        exists|attempt: Option<Option<bool>>|
            outcome_view(outcome) == mount_stop_result(host_path@, minikube_path@, attempt)
                && mount_attempted(
                system_processes(*sys),
                entry_views(entries@),
                host_path@,
                minikube_path@,
                attempt,
            ),
{
    let attempt = stop_minikube_mount_in(sys, entries, host_path, minikube_path);
    mount_stop_outcome(host_path, minikube_path, attempt)
}

/// The outcome is what the attempt to end the mount shows, and there was an
/// attempt exactly where the table of the snapshot holds a process of the
/// mount.
pub open spec fn mount_deleted(
    sys: sysinfo::System,
    host_path: Seq<char>,
    minikube_path: Seq<char>,
    attempt: Option<Option<bool>>,
    outcome: OutcomeView,
) -> bool {
    &&& outcome == mount_stop_result(host_path, minikube_path, attempt)
    &&& attempt is Some <==> mount_held(system_processes(sys), host_path, minikube_path)
}

/// Interrupts the process of the mount where one is alive now, by a fresh
/// snapshot of the process table. It does not fail: the outcome shows
/// whether the process was stopped, or nothing where the mount was absent.
pub fn delete_minikube_mount(host_path: &str, minikube_path: &str) -> (outcome:
    CommandExecutionResult)
    ensures
        exists|sys: sysinfo::System, attempt: Option<Option<bool>>|
            mount_deleted(sys, host_path@, minikube_path@, attempt, outcome_view(outcome)),
{
    let sys = get_sys_info();
    let entries = processes_by_name(&sys, "minikube");
    let attempt = stop_minikube_mount_in(&sys, &entries, host_path, minikube_path);
    let outcome = mount_stop_outcome(host_path, minikube_path, attempt);
    proof {
        lemma_listed_match_is_held(
            system_processes(sys),
            entry_views(entries@),
            "minikube"@,
            mount_patterns(host_path@, minikube_path@),
        );
        assert(mount_deleted(sys, host_path@, minikube_path@, attempt, outcome_view(outcome)));
    }
    outcome
}

/// The mounts among the entries, in order.
pub open spec fn mount_processes(entries: Seq<ProcessEntryView>) -> Seq<ProcessEntryView> {
    matching(entries, "minikube"@, seq!["mount"@])
}

/// The mounts in the snapshot, in its order: every process named like
/// `minikube` whose command line holds `mount`, with its identifier and
/// command line.
pub fn minikube_mounts(entries: &Vec<ProcessEntry>) -> (found: Vec<(u32, String)>)
    ensures
        hit_views(found@) == hits(mount_processes(entry_views(entries@))),
{
    let patterns = one_pattern("mount");
    find(entries, "minikube", &patterns)
}

/// What listing the mounts of a snapshot shows: their command lines under
/// a title.
pub open spec fn minikube_mounts_listed(entries: Seq<ProcessEntryView>) -> OutcomeView {
    listed("Minikube mounts:"@, hit_lines(hits(mount_processes(entries))))
}

/// Lists the mounts that the snapshot holds.
pub fn list_minikube_mounts(entries: &Vec<ProcessEntry>) -> (outcome: CommandExecutionResult)
    ensures
        outcome_view(outcome) == minikube_mounts_listed(entry_views(entries@)),
        outcome matches Ok(CommandResultType::PrintableResults(_, _)),
{
    let found = minikube_mounts(entries);
    listing("Minikube mounts:", lines_of_hits(&found))
}

/// Lists the mounts that are alive now, by a fresh snapshot of the process
/// table. It does not fail.
pub fn fetch_minikube_mounts() -> (outcome: CommandExecutionResult)
    ensures
        outcome matches Ok(CommandResultType::PrintableResults(_, _)),
        exists|sys: sysinfo::System, entries: Seq<ProcessEntryView>|
            mounts_listed(sys, entries) && outcome_view(outcome) == minikube_mounts_listed(
                entries,
            ),
{
    let sys = get_sys_info();
    let entries = processes_by_name(&sys, "minikube");
    let outcome = list_minikube_mounts(&entries);
    assert(mounts_listed(sys, entry_views(entries@)));
    outcome
}

/// The pattern that reads a mount from the command line of its process.
pub const MOUNT_PATTERN: &'static str =
    ".+?\\smount\\s+(?<host_path>[^:]+):(?<minikube_path>[^:]+)$";

/// The pattern that reads a mount from the command line of its process.
pub open spec fn mount_pattern() -> Seq<char> {
    MOUNT_PATTERN@
}

/// The paths that captured groups give: the host path and the path inside
/// the cluster are the two groups after the whole match; both must have
/// taken part.
pub open spec fn mount_from_groups(groups: Option<Seq<Option<Seq<char>>>>) -> Option<
    (Seq<char>, Seq<char>),
> {
    match groups {
        Some(groups) => if groups.len() == 3 && groups[1] is Some && groups[2] is Some {
            Some((groups[1]->0, groups[2]->0))
        } else {
            None
        },
        None => None,
    }
}

/// The view of an optional pair of paths.
pub open spec fn paths_view(paths: Option<(String, String)>) -> Option<(Seq<char>, Seq<char>)> {
    match paths {
        Some(paths) => Some((paths.0@, paths.1@)),
        None => None,
    }
}

/// The paths that captured groups give.
pub fn mount_of_groups(groups: Option<Vec<Option<String>>>) -> (paths: Option<(String, String)>)
    ensures
        paths_view(paths) == mount_from_groups(captured_view(groups)),
{
    let groups = match groups {
        Some(groups) => groups,
        None => {
            return None;
        },
    };
    if groups.len() != 3 {
        return None;
    }
    proof {
        assert(group_views(groups@)[1] == opt_text(groups@[1]));
        assert(group_views(groups@)[2] == opt_text(groups@[2]));
    }
    let host_path = match &groups[1] {
        Some(text) => text.clone(),
        None => {
            return None;
        },
    };
    let minikube_path = match &groups[2] {
        Some(text) => text.clone(),
        None => {
            return None;
        },
    };
    Some((host_path, minikube_path))
}

/// Reads the paths of a mount from the command line of its process, as the
/// list shows it; `None` for a line that is not shaped like one.
pub fn parse_minikube_mount(line: &str) -> (paths: Option<(String, String)>)
    ensures
        paths_view(paths) == mount_from_groups(regex_captures(mount_pattern(), line@)),
{
    mount_of_groups(captures(MOUNT_PATTERN, line))
}

/// The failure for a line of the list that is not shaped like a mount.
pub open spec fn unreadable_mount(line: Seq<char>) -> Seq<char> {
    "Failed to read minikube mount "@ + line
}

/// The failure for an index beyond the list.
pub open spec fn no_such_mount(index: usize) -> Seq<char> {
    "Index "@ + decimal(index as nat) + " does not correspond to a minikube mount"@
}

/// The lines of the list of mounts that a snapshot gives.
pub open spec fn mount_rows(entries: Seq<ProcessEntryView>) -> Seq<Seq<char>> {
    hit_lines(hits(mount_processes(entries)))
}

/// The paths that a line of the list is read as.
pub open spec fn mount_read(row: Seq<char>) -> Option<(Seq<char>, Seq<char>)> {
    mount_from_groups(regex_captures(mount_pattern(), row))
}

/// What ending the mounts of the first `n` rows comes to, `attempts`
/// holding for each row what became of the signal: the lines that tell of
/// each attempt, in order, or the failure for the first row that is not
/// shaped like a mount.
pub open spec fn mounts_stopped(
    rows: Seq<Seq<char>>,
    attempts: Seq<Option<Option<bool>>>,
    n: int,
) -> Result<Seq<Seq<char>>, Seq<char>>
    decreases n,
{
    if n <= 0 {
        Ok(Seq::empty())
    } else {
        match mounts_stopped(rows, attempts, n - 1) {
            Err(error) => Err(error),
            Ok(lines) => match mount_read(rows[n - 1]) {
                None => Err(unreadable_mount(rows[n - 1])),
                Some(paths) => Ok(lines + mount_stop_lines(paths.0, paths.1, attempts[n - 1])),
            },
        }
    }
}

/// The outcome is what ending every mount of the entries comes to under the
/// given attempts, and each attempt got its answer exactly where the
/// entries hold a process of the mount that the table holds too.
pub open spec fn all_mounts_stopped(
    held: ProcessTable,
    entries: Seq<ProcessEntryView>,
    attempts: Seq<Option<Option<bool>>>,
    outcome: OutcomeView,
) -> bool {
    let rows = mount_rows(entries);
    &&& outcome == lines_or_failure(mounts_stopped(rows, attempts, rows.len() as int))
    &&& forall|i: int|
        0 <= i < attempts.len() && i < rows.len() ==> (mount_read(rows[i]) matches Some(paths)
            ==> mount_attempted(held, entries, paths.0, paths.1, #[trigger] attempts[i]))
}

/// The entries are what the snapshot lists under the name of `minikube`,
/// and the outcome is what ending every mount among them comes to.
pub open spec fn mounts_torn_down(
    sys: sysinfo::System,
    entries: Seq<ProcessEntryView>,
    attempts: Seq<Option<Option<bool>>>,
    outcome: OutcomeView,
) -> bool {
    mounts_listed(sys, entries) && all_mounts_stopped(
        system_processes(sys),
        entries,
        attempts,
        outcome,
    )
}

/// What became of later rows does not matter to the first `n`.
proof fn lemma_mounts_stopped_prefix(
    rows: Seq<Seq<char>>,
    attempts: Seq<Option<Option<bool>>>,
    more: Seq<Option<Option<bool>>>,
    n: int,
)
    requires
        n <= attempts.len() <= more.len(),
        forall|i: int| 0 <= i < attempts.len() ==> attempts[i] == more[i],
    ensures
        mounts_stopped(rows, attempts, n) == mounts_stopped(rows, more, n),
    decreases n,
{
    if n > 0 {
        lemma_mounts_stopped_prefix(rows, attempts, more, n - 1);
    }
}

/// Once the first rows have failed, all of them fail in the same way.
proof fn lemma_mounts_stopped_fails(
    rows: Seq<Seq<char>>,
    attempts: Seq<Option<Option<bool>>>,
    n: int,
    all: int,
)
    requires
        0 <= n <= all,
        mounts_stopped(rows, attempts, n) is Err,
    ensures
        mounts_stopped(rows, attempts, all) == mounts_stopped(rows, attempts, n),
    decreases all - n,
{
    if n < all {
        lemma_mounts_stopped_fails(rows, attempts, n, all - 1);
    }
}

/// Interrupts every mount that `entries`, the processes of the snapshot
/// `sys`, hold, in the order of the list. Each mount adds the line that
/// tells whether it was stopped. A line of the list that is not shaped like
/// a mount ends the run with a failure.
#[verifier::loop_isolation(false)]
pub fn delete_all_minikube_mounts_in(
    sys: &sysinfo::System,
    entries: &Vec<ProcessEntry>,
) -> (outcome: CommandExecutionResult)
    ensures
        exists|attempts: Seq<Option<Option<bool>>>|
            all_mounts_stopped(
                system_processes(*sys),
                entry_views(entries@),
                attempts,
                outcome_view(outcome),
            ),
{
    let rows = lines_of_hits(&minikube_mounts(entries));
    let mut results: Vec<String> = Vec::new();
    let ghost mut attempts: Seq<Option<Option<bool>>> = Seq::empty();
    let ghost listed = mount_rows(entry_views(entries@));
    proof {
        assert(texts(results@) =~= Seq::<Seq<char>>::empty());
    }
    let mut i: usize = 0;
    while i < rows.len()
        invariant
            i <= rows.len(),
            texts(rows@) == listed,
            attempts.len() == i,
            mounts_stopped(listed, attempts, i as int) == Ok::<Seq<Seq<char>>, Seq<char>>(
                texts(results@),
            ),
            forall|k: int|
                0 <= k < attempts.len() ==> (mount_read(listed[k]) matches Some(paths)
                    ==> mount_attempted(
                    system_processes(*sys),
                    entry_views(entries@),
                    paths.0,
                    paths.1,
                    #[trigger] attempts[k],
                )),
        decreases rows.len() - i,
    {
        assert(listed[i as int] == rows@[i as int]@);
        match parse_minikube_mount(rows[i].as_str()) {
            Some(paths) => {
                let attempt = stop_minikube_mount_in(
                    sys,
                    entries,
                    paths.0.as_str(),
                    paths.1.as_str(),
                );
                let stopped = mount_stop_outcome(paths.0.as_str(), paths.1.as_str(), attempt);
                proof {
                    let ghost before = attempts;
                    attempts = attempts.push(attempt);
                    lemma_mounts_stopped_prefix(listed, before, attempts, i as int);
                }
                let _ = merge_outcome(&mut results, stopped, MergePolicy::FailFast);
            },
            None => {
                let outcome = Err(concat("Failed to read minikube mount ", rows[i].as_str()));
                proof {
                    lemma_mounts_stopped_fails(listed, attempts, i + 1, listed.len() as int);
                    assert(all_mounts_stopped(
                        system_processes(*sys),
                        entry_views(entries@),
                        attempts,
                        outcome_view(outcome),
                    ));
                }
                return outcome;
            },
        }
        i += 1;
    }
    let outcome = printable(results);
    proof {
        assert(all_mounts_stopped(
            system_processes(*sys),
            entry_views(entries@),
            attempts,
            outcome_view(outcome),
        ));
    }
    outcome
}

/// Interrupts every mount that is alive now, in the order of the list that
/// a fresh snapshot gives.
pub fn delete_all_minikube_mounts() -> (outcome: CommandExecutionResult)
    ensures
        exists|
            sys: sysinfo::System,
            entries: Seq<ProcessEntryView>,
            attempts: Seq<Option<Option<bool>>>,
        |
            mounts_torn_down(sys, entries, attempts, outcome_view(outcome)),
{
    let sys = get_sys_info();
    let entries = processes_by_name(&sys, "minikube");
    let outcome = delete_all_minikube_mounts_in(&sys, &entries);
    proof {
        let attempts = choose|attempts: Seq<Option<Option<bool>>>|
            all_mounts_stopped(
                system_processes(sys),
                entry_views(entries@),
                attempts,
                outcome_view(outcome),
            );
        assert(mounts_torn_down(sys, entry_views(entries@), attempts, outcome_view(outcome)));
    }
    outcome
}

/// The outcome is what ending the mount at the zero-based `index` of the
/// list comes to under the given attempt: a failure for an index beyond the
/// list and for a line that is not shaped like a mount; else the line that
/// tells of the stop where the signal was sent, and nothing where it was
/// not. The attempt got its answer exactly where the entries hold a
/// process of the mount that the table holds too.
pub open spec fn mount_stopped_at(
    held: ProcessTable,
    entries: Seq<ProcessEntryView>,
    index: usize,
    attempt: Option<Option<bool>>,
    outcome: OutcomeView,
) -> bool {
    let rows = mount_rows(entries);
    if index >= rows.len() {
        outcome == Err::<CommandResultView, Seq<char>>(no_such_mount(index))
    } else {
        match mount_read(rows[index as int]) {
            None => outcome == Err::<CommandResultView, Seq<char>>(
                unreadable_mount(rows[index as int]),
            ),
            Some(paths) => {
                &&& outcome == plain_lines(
                    if attempt == Some(Some(true)) {
                        mount_stop_lines(paths.0, paths.1, attempt)
                    } else {
                        Seq::empty()
                    },
                )
                &&& mount_attempted(held, entries, paths.0, paths.1, attempt)
            },
        }
    }
}

/// Interrupts the mount at the zero-based `index` of the list that
/// `entries`, the processes of the snapshot `sys`, give.
pub fn delete_minikube_mount_by_index_in(
    sys: &sysinfo::System,
    entries: &Vec<ProcessEntry>,
    index: usize,
) -> (outcome: CommandExecutionResult)
    ensures
        exists|attempt: Option<Option<bool>>|
            mount_stopped_at(
                system_processes(*sys),
                entry_views(entries@),
                index,
                attempt,
                outcome_view(outcome),
            ),
{
    let rows = lines_of_hits(&minikube_mounts(entries));
    if index >= rows.len() {
        let mut message = String::from_str("Index ");
        message.append(decimal_string(index as u64).as_str());
        message.append(" does not correspond to a minikube mount");
        let outcome = Err(message);
        assert(mount_stopped_at(
            system_processes(*sys),
            entry_views(entries@),
            index,
            None,
            outcome_view(outcome),
        ));
        return outcome;
    }
    assert(mount_rows(entry_views(entries@))[index as int] == rows@[index as int]@);
    match parse_minikube_mount(rows[index].as_str()) {
        Some(paths) => {
            let attempt = stop_minikube_mount_in(sys, entries, paths.0.as_str(), paths.1.as_str());
            let outcome = match attempt {
                Some(Some(true)) => mount_stop_outcome(
                    paths.0.as_str(),
                    paths.1.as_str(),
                    attempt,
                ),
                _ => nothing(),
            };
            assert(mount_stopped_at(
                system_processes(*sys),
                entry_views(entries@),
                index,
                attempt,
                outcome_view(outcome),
            ));
            outcome
        },
        None => {
            let outcome = Err(concat("Failed to read minikube mount ", rows[index].as_str()));
            assert(mount_stopped_at(
                system_processes(*sys),
                entry_views(entries@),
                index,
                None,
                outcome_view(outcome),
            ));
            outcome
        },
    }
}

/// The entries are what the snapshot lists under the name of `minikube`,
/// and the outcome is what ending the mount at the index of their list
/// comes to.
pub open spec fn mount_torn_down_at(
    sys: sysinfo::System,
    entries: Seq<ProcessEntryView>,
    index: usize,
    attempt: Option<Option<bool>>,
    outcome: OutcomeView,
) -> bool {
    mounts_listed(sys, entries) && mount_stopped_at(
        system_processes(sys),
        entries,
        index,
        attempt,
        outcome,
    )
}

/// Interrupts the mount at the zero-based `index` of the list that a fresh
/// snapshot gives.
pub fn delete_minikube_mount_by_index(index: usize) -> (outcome: CommandExecutionResult)
    ensures
        exists|
            sys: sysinfo::System,
            entries: Seq<ProcessEntryView>,
            attempt: Option<Option<bool>>,
        |
            mount_torn_down_at(sys, entries, index, attempt, outcome_view(outcome)),
{
    let sys = get_sys_info();
    let entries = processes_by_name(&sys, "minikube");
    let outcome = delete_minikube_mount_by_index_in(&sys, &entries, index);
    proof {
        let attempt = choose|attempt: Option<Option<bool>>|
            mount_stopped_at(
                system_processes(sys),
                entry_views(entries@),
                index,
                attempt,
                outcome_view(outcome),
            );
        assert(mount_torn_down_at(
            sys,
            entry_views(entries@),
            index,
            attempt,
            outcome_view(outcome),
        ));
    }
    outcome
}

} // verus!
