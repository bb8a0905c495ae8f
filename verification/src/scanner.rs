//! Finding live processes by executable name and by parts of their command
//! line, and ending them.
//!
//! A snapshot of the process table is held by `sysinfo` as a table keyed by
//! process id. A list of [`ProcessEntry`] values drawn from it comes in the
//! order in which that table was walked, which nothing here fixes: "the
//! first match" is the first of such a walk, not the oldest process nor the
//! lowest id. The matching rules are verified over such lists; taking the
//! snapshot and sending signals is left to `sysinfo`.

use crate::results::{nothing, nothing_to_show, outcome_view, CommandExecutionResult, OutcomeView};
use crate::text::{all_occur_in, contains, contains_all, join, joined, occurs_in, texts};
use sysinfo::{PidExt, ProcessExt, SystemExt};
use vstd::prelude::*;

verus! {

/// One live process as the operating system reports it.
#[derive(Clone, Debug, PartialEq, Eq)]
pub struct ProcessEntry {
    /// The process identifier.
    pub pid: u32,
    /// The name of the process, which need not be that of its executable.
    pub name: String,
    /// The command line, one argument per item, the program first.
    pub cmd: Vec<String>,
}

/// The mathematical value of a [`ProcessEntry`].
pub struct ProcessEntryView {
    pub pid: u32,
    pub name: Seq<char>,
    pub cmd: Seq<Seq<char>>,
}

impl View for ProcessEntry {
    type V = ProcessEntryView;

    open spec fn view(&self) -> ProcessEntryView {
        ProcessEntryView { pid: self.pid, name: self.name@, cmd: texts(self.cmd@) }
    }
}

/// The views of a snapshot's entries, in order.
pub open spec fn entry_views(entries: Seq<ProcessEntry>) -> Seq<ProcessEntryView> {
    Seq::new(entries.len(), |i: int| entries[i]@)
}

/// The full command line of a process: its arguments with single spaces
/// between them.
pub open spec fn command_line_of(entry: ProcessEntryView) -> Seq<char> {
    joined(entry.cmd, seq![' '])
}

/// The process has `name` in its name and every one of `patterns` in its
/// full command line.
pub open spec fn entry_matches(
    entry: ProcessEntryView,
    name: Seq<char>,
    patterns: Seq<Seq<char>>,
) -> bool {
    occurs_in(entry.name, name) && all_occur_in(command_line_of(entry), patterns)
}

/// The entries of a snapshot that match, in the snapshot's order.
pub open spec fn matching(
    entries: Seq<ProcessEntryView>,
    name: Seq<char>,
    patterns: Seq<Seq<char>>,
) -> Seq<ProcessEntryView>
    decreases entries.len(),
{
    if entries.len() == 0 {
        Seq::empty()
    } else {
        let before = matching(entries.drop_last(), name, patterns);
        if entry_matches(entries.last(), name, patterns) {
            before.push(entries.last())
        } else {
            before
        }
    }
}

/// What a query hands out for each match: its identifier and command line.
pub open spec fn hits(found: Seq<ProcessEntryView>) -> Seq<(u32, Seq<char>)> {
    Seq::new(found.len(), |i: int| (found[i].pid, command_line_of(found[i])))
}

/// The views of a query's answer.
pub open spec fn hit_views(found: Seq<(u32, String)>) -> Seq<(u32, Seq<char>)> {
    Seq::new(found.len(), |i: int| (found[i].0, found[i].1@))
}

/// The full command line of `entry`.
pub fn command_line(entry: &ProcessEntry) -> (line: String)
    ensures
        line@ == command_line_of(entry@),
{
    proof {
        reveal_strlit(" ");
        assert(" "@ =~= seq![' ']);
    }
    join(&entry.cmd, " ")
}

/// Whether `entry` has `name` in its name and every one of `patterns` in its
/// full command line.
pub fn matches_entry(entry: &ProcessEntry, name: &str, patterns: &Vec<String>) -> (hit: bool)
    ensures
        hit == entry_matches(entry@, name@, texts(patterns@)),
{
    if !contains(entry.name.as_str(), name) {
        return false;
    }
    let line = command_line(entry);
    contains_all(line.as_str(), patterns)
}

/// All processes of the snapshot whose name contains `name` and whose full
/// command line contains every one of `patterns`, in the snapshot's order,
/// each with its identifier and command line.
pub fn find(entries: &Vec<ProcessEntry>, name: &str, patterns: &Vec<String>) -> (found: Vec<
    (u32, String),
>)
    ensures
        hit_views(found@) == hits(matching(entry_views(entries@), name@, texts(patterns@))),
{
    let mut found: Vec<(u32, String)> = Vec::new();
    let mut i: usize = 0;
    proof {
        assert(entry_views(entries@).take(0) =~= Seq::<ProcessEntryView>::empty());
        assert(hit_views(found@) =~= hits(Seq::<ProcessEntryView>::empty()));
    }
    while i < entries.len()
        invariant
            i <= entries.len(),
            hit_views(found@) == hits(
                matching(entry_views(entries@).take(i as int), name@, texts(patterns@)),
            ),
        decreases entries.len() - i,
    {
        proof {
            let all = entry_views(entries@);
            assert(all.take(i + 1).drop_last() =~= all.take(i as int));
            assert(all.take(i + 1).last() == entries@[i as int]@);
        }
        if matches_entry(&entries[i], name, patterns) {
            let line = command_line(&entries[i]);
            let ghost before = hit_views(found@);
            found.push((entries[i].pid, line));
            proof {
                let so_far = matching(
                    entry_views(entries@).take(i as int),
                    name@,
                    texts(patterns@),
                );
                assert(hit_views(found@) =~= before.push((entries@[i as int].pid, line@)));
                assert(hits(so_far.push(entries@[i as int]@)) =~= hits(so_far).push(
                    (entries@[i as int].pid, line@),
                ));
            }
        }
        i += 1;
    }
    proof {
        assert(entry_views(entries@).take(entries.len() as int) =~= entry_views(entries@));
    }
    found
}

/// The identifier of the first match, if there is one.
pub open spec fn first_match(
    entries: Seq<ProcessEntryView>,
    name: Seq<char>,
    patterns: Seq<Seq<char>>,
) -> Option<u32> {
    let found = matching(entries, name, patterns);
    if found.len() > 0 {
        Some(found[0].pid)
    } else {
        None
    }
}

/// Nothing before index `n` of the snapshot matches.
proof fn lemma_no_match_so_far(
    entries: Seq<ProcessEntryView>,
    name: Seq<char>,
    patterns: Seq<Seq<char>>,
    n: int,
)
    requires
        0 <= n <= entries.len(),
        forall|k: int| 0 <= k < n ==> !entry_matches(#[trigger] entries[k], name, patterns),
    ensures
        matching(entries.take(n), name, patterns).len() == 0,
    decreases n,
{
    if n > 0 {
        lemma_no_match_so_far(entries, name, patterns, n - 1);
        assert(entries.take(n).drop_last() =~= entries.take(n - 1));
    }
}

/// A longer snapshot keeps the matches of its beginning at the front.
proof fn lemma_matching_extends(
    entries: Seq<ProcessEntryView>,
    name: Seq<char>,
    patterns: Seq<Seq<char>>,
    n: int,
)
    requires
        0 <= n <= entries.len(),
    ensures
        matching(entries.take(n), name, patterns).len() <= matching(entries, name, patterns).len(),
        forall|k: int|
            0 <= k < matching(entries.take(n), name, patterns).len() ==> matching(
                entries,
                name,
                patterns,
            )[k] == matching(entries.take(n), name, patterns)[k],
    decreases entries.len() - n,
{
    if n == entries.len() {
        assert(entries.take(n) =~= entries);
    } else {
        lemma_matching_extends(entries, name, patterns, n + 1);
        assert(entries.take(n + 1).drop_last() =~= entries.take(n));
    }
}

/// The identifier of the first process of the snapshot that matches.
pub fn find_first(entries: &Vec<ProcessEntry>, name: &str, patterns: &Vec<String>) -> (pid: Option<
    u32,
>)
    ensures
        pid == first_match(entry_views(entries@), name@, texts(patterns@)),
{
    let mut i: usize = 0;
    while i < entries.len()
        invariant
            i <= entries.len(),
            forall|k: int|
                0 <= k < i ==> !entry_matches(
                    #[trigger] entry_views(entries@)[k],
                    name@,
                    texts(patterns@),
                ),
        decreases entries.len() - i,
    {
        if matches_entry(&entries[i], name, patterns) {
            proof {
                let all = entry_views(entries@);
                lemma_no_match_so_far(all, name@, texts(patterns@), i as int);
                assert(all.take(i + 1).drop_last() =~= all.take(i as int));
                assert(all.take(i + 1).last() == entries@[i as int]@);
                lemma_matching_extends(all, name@, texts(patterns@), i + 1);
            }
            return Some(entries[i].pid);
        }
        i += 1;
    }
    proof {
        let all = entry_views(entries@);
        lemma_no_match_so_far(all, name@, texts(patterns@), entries.len() as int);
        assert(all.take(entries.len() as int) =~= all);
    }
    None
}

/// Whether any process of the snapshot matches.
pub fn any_match(entries: &Vec<ProcessEntry>, name: &str, patterns: &Vec<String>) -> (present: bool)
    ensures
        present == first_match(entry_views(entries@), name@, texts(patterns@)).is_some(),
{
    find_first(entries, name, patterns).is_some()
}

/// A list that holds the one string `pattern`.
pub fn one_pattern(pattern: &str) -> (patterns: Vec<String>)
    ensures
        texts(patterns@) == seq![pattern@],
{
    let mut patterns: Vec<String> = Vec::new();
    patterns.push(String::from_str(pattern));
    assert(texts(patterns@) =~= seq![pattern@]);
    patterns
}

#[verifier::external_type_specification]
#[verifier::external_body]
pub struct ExSystem(sysinfo::System);

/// Takes a fresh snapshot of the process table with
/// `sysinfo::System::new_with_specifics`, asking for everything about
/// processes and nothing else. Nothing is claimed of what it holds.
#[verifier::external_body]
pub fn get_sys_info() -> (sys: sysinfo::System) {
    sysinfo::System::new_with_specifics(
        sysinfo::RefreshKind::new().with_processes(sysinfo::ProcessRefreshKind::everything()),
    )
}

/// The process table that a snapshot holds: under the identifier of each
/// of its processes, the name and the command line of that process.
pub uninterp spec fn system_processes(sys: sysinfo::System) -> Map<
    u32,
    (Seq<char>, Seq<Seq<char>>),
>;

/// A process table: under the identifier of each process, its name and its
/// command line.
pub type ProcessTable = Map<u32, (Seq<char>, Seq<Seq<char>>)>;

/// The process that a table holds under `pid`.
pub open spec fn held_entry(held: ProcessTable, pid: u32) -> ProcessEntryView {
    ProcessEntryView { pid, name: held[pid].0, cmd: held[pid].1 }
}

/// The table holds a process with `name` in its name and every one of
/// `patterns` in its full command line.
pub open spec fn any_held_matches(
    held: ProcessTable,
    name: Seq<char>,
    patterns: Seq<Seq<char>>,
) -> bool {
    exists|pid: u32|
        held.dom().contains(pid) && entry_matches(#[trigger] held_entry(held, pid), name, patterns)
}

/// The entries are the processes of the table that have `name` in their
/// name: each entry is a process of the table as the table holds it, and
/// each such process of the table is among the entries.
pub open spec fn listed_by_name(
    held: ProcessTable,
    name: Seq<char>,
    found: Seq<ProcessEntryView>,
) -> bool {
    &&& forall|i: int|
        0 <= i < found.len() ==> occurs_in((#[trigger] found[i]).name, name) && held.dom().contains(
            found[i].pid,
        ) && held_entry(held, found[i].pid) == found[i]
    &&& forall|pid: u32|
        #[trigger] held.dom().contains(pid) && occurs_in(held[pid].0, name) ==> exists|i: int|
            0 <= i < found.len() && (#[trigger] found[i]).pid == pid
}

/// Lists the processes of a snapshot with `SystemExt::processes_by_name`,
/// which walks the snapshot's table and keeps the processes whose name
/// contains `name`; their order is that in which the table is walked.
/// Claimed: the entries handed out are the processes of the table that have
/// `name` in their name, each with the identifier, name and command line
/// under which the table holds it.
#[verifier::external_body]
pub(crate) fn processes_by_name(sys: &sysinfo::System, name: &str) -> (found: Vec<ProcessEntry>)
    ensures
        listed_by_name(system_processes(*sys), name@, entry_views(found@)),
{
    sys.processes_by_name(name)
        .map(|p| ProcessEntry {
            pid: p.pid().as_u32(),
            name: p.name().to_string(),
            cmd: p.cmd().to_vec(),
        })
        .collect()
}

/// Sends the kill signal with `ProcessExt::kill` to the process that
/// `SystemExt::process` finds in the snapshot under `pid`: whether the
/// signal was sent, or `None` where the snapshot holds no such process.
/// Claimed: there is an answer exactly where the table holds a process
/// under `pid`; nothing is claimed of the answer itself.
#[verifier::external_body]
pub(crate) fn kill(sys: &sysinfo::System, pid: u32) -> (sent: Option<bool>)
    ensures
        sent is Some <==> system_processes(*sys).dom().contains(pid),
{
    sys.process(sysinfo::Pid::from_u32(pid)).map(|p| p.kill())
}

/// Sends the interrupt signal with `ProcessExt::kill_with` to the process
/// that `SystemExt::process` finds in the snapshot under `pid`. The answer
/// is `None` where the snapshot holds no such process; else it holds what
/// `kill_with` gave: whether the signal was sent, or `None` where the
/// platform has no such signal. Claimed: there is an answer exactly where
/// the table holds a process under `pid`; nothing is claimed of the answer
/// itself.
#[verifier::external_body]
pub(crate) fn interrupt(sys: &sysinfo::System, pid: u32) -> (sent: Option<Option<bool>>)
    ensures
        sent is Some <==> system_processes(*sys).dom().contains(pid),
{
    sys.process(sysinfo::Pid::from_u32(pid)).map(|p| p.kill_with(sysinfo::Signal::Interrupt))
}

/// Waits with `ProcessExt::wait` until the process that the snapshot holds
/// under `pid` has ended; returns at once where the snapshot holds no such
/// process. It does not return while that process lives.
#[verifier::external_body]
pub(crate) fn wait(sys: &sysinfo::System, pid: u32) {
    sys.process(sysinfo::Pid::from_u32(pid)).map(|p| p.wait());
}

/// A snapshot with a match at index `at` has a match.
pub proof fn lemma_match_is_found(
    entries: Seq<ProcessEntryView>,
    name: Seq<char>,
    patterns: Seq<Seq<char>>,
    at: int,
)
    requires
        0 <= at < entries.len(),
        entry_matches(entries[at], name, patterns),
    ensures
        first_match(entries, name, patterns) is Some,
    decreases entries.len(),
{
    if at < entries.len() - 1 {
        lemma_match_is_found(entries.drop_last(), name, patterns, at);
    }
}

/// A snapshot has a match exactly if one of its entries matches.
pub proof fn lemma_first_match_is_an_entry(
    entries: Seq<ProcessEntryView>,
    name: Seq<char>,
    patterns: Seq<Seq<char>>,
)
    ensures
        first_match(entries, name, patterns) is Some <==> exists|i: int|
            0 <= i < entries.len() && entry_matches(#[trigger] entries[i], name, patterns),
{
    if exists|i: int|
        0 <= i < entries.len() && entry_matches(#[trigger] entries[i], name, patterns) {
        let i = choose|i: int|
            0 <= i < entries.len() && entry_matches(#[trigger] entries[i], name, patterns);
        lemma_match_is_found(entries, name, patterns, i);
    } else {
        lemma_no_match_so_far(entries, name, patterns, entries.len() as int);
        assert(entries.take(entries.len() as int) =~= entries);
    }
}

/// Every match of a snapshot is one of its entries, and matches.
pub proof fn lemma_matches_are_entries(
    entries: Seq<ProcessEntryView>,
    name: Seq<char>,
    patterns: Seq<Seq<char>>,
)
    ensures
        forall|k: int|
            0 <= k < matching(entries, name, patterns).len() ==> exists|i: int|
                0 <= i < entries.len() && #[trigger] entries[i] == (#[trigger] matching(
                    entries,
                    name,
                    patterns,
                )[k]) && entry_matches(entries[i], name, patterns),
    decreases entries.len(),
{
    if entries.len() > 0 {
        let before = entries.drop_last();
        lemma_matches_are_entries(before, name, patterns);
        let found = matching(entries, name, patterns);
        assert forall|k: int| 0 <= k < found.len() implies exists|i: int|
            0 <= i < entries.len() && #[trigger] entries[i] == (#[trigger] found[k])
                && entry_matches(entries[i], name, patterns) by {
            if k < matching(before, name, patterns).len() {
                let i = choose|i: int|
                    0 <= i < before.len() && #[trigger] before[i] == (#[trigger] matching(
                        before,
                        name,
                        patterns,
                    )[k]) && entry_matches(before[i], name, patterns);
                assert(entries[i] == before[i]);
            } else {
                assert(entries[entries.len() - 1] == found[k]);
            }
        }
    }
}

/// The entries that were listed by `name` hold a match for `name` and the
/// patterns exactly if the table that they were listed from holds one, and
/// the table holds the first match under its identifier.
pub proof fn lemma_listed_match_is_held(
    held: ProcessTable,
    found: Seq<ProcessEntryView>,
    name: Seq<char>,
    patterns: Seq<Seq<char>>,
)
    requires
        listed_by_name(held, name, found),
    ensures
        first_match(found, name, patterns) is Some <==> any_held_matches(held, name, patterns),
        first_match(found, name, patterns) matches Some(pid) ==> held.dom().contains(pid),
{
    lemma_first_match_is_an_entry(found, name, patterns);
    lemma_matches_are_entries(found, name, patterns);
    if first_match(found, name, patterns) is Some {
        let first = matching(found, name, patterns)[0];
        let at = choose|i: int|
            0 <= i < found.len() && #[trigger] found[i] == first && entry_matches(
                found[i],
                name,
                patterns,
            );
        assert(held.dom().contains(found[at].pid));
    }
    if first_match(found, name, patterns) is Some {
        let i = choose|i: int|
            0 <= i < found.len() && entry_matches(#[trigger] found[i], name, patterns);
        assert(held_entry(held, found[i].pid) == found[i]);
        assert(any_held_matches(held, name, patterns));
    }
    if any_held_matches(held, name, patterns) {
        let pid = choose|pid: u32|
            held.dom().contains(pid) && entry_matches(
                #[trigger] held_entry(held, pid),
                name,
                patterns,
            );
        assert(held.dom().contains(pid) && occurs_in(held[pid].0, name));
        let i = choose|i: int| 0 <= i < found.len() && (#[trigger] found[i]).pid == pid;
        assert(held_entry(held, found[i].pid) == found[i]);
        assert(entry_matches(found[i], name, patterns));
    }
}

/// How `std` writes a list of strings for debugging: in square brackets,
/// each item in double quotes with its special characters escaped.
pub uninterp spec fn debug_text(items: Seq<Seq<char>>) -> Seq<char>;

/// Writes a list of strings with the `Debug` formatting of `std`.
#[verifier::external_body]
fn debug_list(items: &Vec<String>) -> (text: String)
    ensures
        text@ == debug_text(texts(items@)),
{
    format!("{:?}", items)
}

/// The text of the failure to end the processes of a query.
pub open spec fn kill_failure(name: Seq<char>, patterns: Seq<Seq<char>>) -> Seq<char> {
    "Failed to kill "@ + name + " with patterns "@ + debug_text(patterns)
}

/// What ending the processes of a query comes to: nothing to show where
/// every signal was sent, the failure otherwise.
pub open spec fn kill_outcome(name: Seq<char>, patterns: Seq<Seq<char>>, all_sent: bool) -> Result<
    crate::results::CommandResultView,
    Seq<char>,
> {
    if all_sent {
        nothing_to_show()
    } else {
        Err(kill_failure(name, patterns))
    }
}

/// The outcome of ending the processes of a query, given whether the signal
/// reached every one of them.
pub fn kill_verdict(name: &str, patterns: &Vec<String>, all_sent: bool) -> (outcome:
    CommandExecutionResult)
    ensures
        outcome_view(outcome) == kill_outcome(name@, texts(patterns@), all_sent),
{
    if all_sent {
        nothing()
    } else {
        let mut message = String::from_str("Failed to kill ");
        message.append(name);
        message.append(" with patterns ");
        message.append(debug_list(patterns).as_str());
        Err(message)
    }
}

/// Every signal was answered, and the answer was that it was sent.
pub open spec fn all_signals_sent(answers: Seq<Option<Option<bool>>>) -> bool {
    forall|i: int| 0 <= i < answers.len() ==> (#[trigger] answers[i]) == Some(Some(true))
}

/// The entries are what the snapshot lists under `name`; each of them that
/// matches was sent the interrupt signal, with the given answers in the
/// order of the entries, every one of them an answer for a process that the
/// table holds; and the outcome is success exactly where every signal was
/// sent.
pub open spec fn processes_interrupted(
    sys: sysinfo::System,
    entries: Seq<ProcessEntryView>,
    answers: Seq<Option<Option<bool>>>,
    name: Seq<char>,
    patterns: Seq<Seq<char>>,
    outcome: OutcomeView,
) -> bool {
    &&& listed_by_name(system_processes(sys), name, entries)
    &&& answers.len() == matching(entries, name, patterns).len()
    &&& forall|i: int| 0 <= i < answers.len() ==> (#[trigger] answers[i]) is Some
    &&& outcome == kill_outcome(name, patterns, all_signals_sent(answers))
}

/// Interrupts every live process whose name contains `name` and whose full
/// command line contains every one of `patterns`, by a fresh snapshot of
/// the process table, and waits for each that took the signal to end. It
/// fails where a signal could not be sent.
#[verifier::loop_isolation(false)]
pub fn kill_process(name: &str, patterns: &Vec<String>) -> (outcome: CommandExecutionResult)
    ensures
        outcome_view(outcome) == kill_outcome(name@, texts(patterns@), outcome is Ok),
        exists|
            sys: sysinfo::System,
            entries: Seq<ProcessEntryView>,
            answers: Seq<Option<Option<bool>>>,
        |
            processes_interrupted(
                sys,
                entries,
                answers,
                name@,
                texts(patterns@),
                outcome_view(outcome),
            ),
{
    let sys = get_sys_info();
    let entries = processes_by_name(&sys, name);
    let targets = find(&entries, name, patterns);
    let ghost found = matching(entry_views(entries@), name@, texts(patterns@));
    let ghost mut answers: Seq<Option<Option<bool>>> = Seq::empty();
    proof {
        lemma_matches_are_entries(entry_views(entries@), name@, texts(patterns@));
    }
    let mut signalled: Vec<u32> = Vec::new();
    let mut all_sent = true;
    let mut i: usize = 0;
    while i < targets.len()
        invariant
            i <= targets.len(),
            hit_views(targets@) == hits(found),
            answers.len() == i,
            forall|k: int| 0 <= k < answers.len() ==> (#[trigger] answers[k]) is Some,
            all_sent == all_signals_sent(answers),
        decreases targets.len() - i,
    {
        let pid: u32 = targets[i].0;
        proof {
            assert(hit_views(targets@).len() == targets.len());
            assert(hits(found).len() == found.len());
            assert(hit_views(targets@)[i as int].0 == pid);
            assert(hits(found)[i as int].0 == found[i as int].pid);
            let at = choose|at: int|
                0 <= at < entries@.len() && #[trigger] entry_views(entries@)[at] == found[i as int]
                    && entry_matches(entry_views(entries@)[at], name@, texts(patterns@));
            assert(system_processes(sys).dom().contains(entry_views(entries@)[at].pid));
        }
        let answer = interrupt(&sys, pid);
        proof {
            let ghost before = answers;
            answers = answers.push(answer);
            assert(all_signals_sent(answers) == (all_signals_sent(before) && answer == Some(
                Some(true),
            ))) by {
                if all_signals_sent(before) && answer == Some(Some(true)) {
                    assert forall|k: int| 0 <= k < answers.len() implies (#[trigger] answers[k])
                        == Some(Some(true)) by {
                        if k < before.len() {
                            assert(before[k] == answers[k]);
                        }
                    }
                }
                if all_signals_sent(answers) {
                    assert(answers[before.len() as int] == answer);
                    assert forall|k: int| 0 <= k < before.len() implies (#[trigger] before[k])
                        == Some(Some(true)) by {
                        assert(before[k] == answers[k]);
                    }
                }
            }
        }
        match answer {
            Some(Some(true)) => {
                signalled.push(pid);
            },
            _ => {
                all_sent = false;
            },
        }
        i += 1;
    }
    let mut k: usize = 0;
    while k < signalled.len()
        invariant
            k <= signalled.len(),
        decreases signalled.len() - k,
    {
        wait(&sys, signalled[k]);
        k += 1;
    }
    let outcome = kill_verdict(name, patterns, all_sent);
    proof {
        assert(hit_views(targets@).len() == targets.len());
        assert(hits(found).len() == found.len());
        assert(processes_interrupted(
            sys,
            entry_views(entries@),
            answers,
            name@,
            texts(patterns@),
            outcome_view(outcome),
        ));
    }
    outcome
}

} // verus!
