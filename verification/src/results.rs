//! The two shapes in which an operation reports, and how reports are merged
//! and laid out for display.

use crate::text::{decimal, decimal_string, texts, trim, trimmed};
use vstd::prelude::*;

verus! {

/// What a finished external process left behind.
#[derive(Clone, Debug, PartialEq, Eq)]
pub struct ProcessOutput {
    /// Whether the process ended with a zero exit status.
    pub success: bool,
    /// Everything it wrote to its standard output.
    pub stdout: String,
    /// Everything it wrote to its standard error.
    pub stderr: String,
}

/// The mathematical value of a [`ProcessOutput`].
pub struct ProcessOutputView {
    pub success: bool,
    pub stdout: Seq<char>,
    pub stderr: Seq<char>,
}

impl View for ProcessOutput {
    type V = ProcessOutputView;

    open spec fn view(&self) -> ProcessOutputView {
        ProcessOutputView { success: self.success, stdout: self.stdout@, stderr: self.stderr@ }
    }
}

/// The result of one operation: a finished process, or lines ready to show
/// under an optional title.
#[derive(Clone, Debug, PartialEq, Eq)]
pub enum CommandResultType {
    ChildProcess(Option<ProcessOutput>),
    PrintableResults(Option<String>, Vec<String>),
}

/// The mathematical value of a [`CommandResultType`].
pub enum CommandResultView {
    ChildProcess(Option<ProcessOutputView>),
    PrintableResults(Option<Seq<char>>, Seq<Seq<char>>),
}

/// The view of an optional string.
pub open spec fn opt_text(s: Option<String>) -> Option<Seq<char>> {
    match s {
        Some(s) => Some(s@),
        None => None,
    }
}

impl View for CommandResultType {
    type V = CommandResultView;

    open spec fn view(&self) -> CommandResultView {
        match *self {
            CommandResultType::ChildProcess(Some(output)) => CommandResultView::ChildProcess(
                Some(output@),
            ),
            CommandResultType::ChildProcess(None) => CommandResultView::ChildProcess(None),
            CommandResultType::PrintableResults(title, lines) => {
                CommandResultView::PrintableResults(opt_text(title), texts(lines@))
            },
        }
    }
}

/// What every operation returns: its result, or the text of its failure.
pub type CommandExecutionResult = Result<CommandResultType, String>;

/// The mathematical value of a [`CommandExecutionResult`].
pub type OutcomeView = Result<CommandResultView, Seq<char>>;

/// The view of an operation's outcome.
pub open spec fn outcome_view(outcome: CommandExecutionResult) -> OutcomeView {
    match outcome {
        Ok(value) => Ok(value@),
        Err(error) => Err(error@),
    }
}

/// A successful outcome that shows the given lines without a title.
pub open spec fn plain_lines(lines: Seq<Seq<char>>) -> OutcomeView {
    Ok(CommandResultView::PrintableResults(None, lines))
}

/// A successful outcome that shows nothing.
pub open spec fn nothing_to_show() -> OutcomeView {
    plain_lines(Seq::empty())
}

impl CommandResultType {
    /// The finished process of a `ChildProcess` result. Calling it on the
    /// other variant is a programming error, which the precondition rules
    /// out; a caller that no one has verified is stopped there.
    pub fn child_process(self) -> (output: Option<ProcessOutput>)
        requires
            self is ChildProcess,
        ensures
            self == CommandResultType::ChildProcess(output),
    {
        match self {
            CommandResultType::ChildProcess(output) => output,
            CommandResultType::PrintableResults(_, _) => unreached(),
        }
    }

    /// The title and lines of a `PrintableResults` result. Calling it on the
    /// other variant is a programming error, which the precondition rules
    /// out; a caller that no one has verified is stopped there.
    pub fn printable_results(self) -> (shown: (Option<String>, Vec<String>))
        requires
            self is PrintableResults,
        ensures
            self == CommandResultType::PrintableResults(shown.0, shown.1),
    {
        match self {
            CommandResultType::PrintableResults(title, lines) => (title, lines),
            CommandResultType::ChildProcess(_) => unreached(),
        }
    }
}

/// A successful outcome that shows `lines` without a title.
pub fn printable(lines: Vec<String>) -> (outcome: CommandExecutionResult)
    ensures
        outcome_view(outcome) == plain_lines(texts(lines@)),
        outcome == Ok::<CommandResultType, String>(
            CommandResultType::PrintableResults(None, lines),
        ),
{
    Ok(CommandResultType::PrintableResults(None, lines))
}

/// A successful outcome that shows the one line `line`.
pub fn printable_line(line: String) -> (outcome: CommandExecutionResult)
    ensures
        outcome_view(outcome) == plain_lines(seq![line@]),
{
    let mut lines: Vec<String> = Vec::new();
    lines.push(line);
    assert(texts(lines@) =~= seq![line@]);
    printable(lines)
}

/// A successful outcome that shows nothing.
pub fn nothing() -> (outcome: CommandExecutionResult)
    ensures
        outcome_view(outcome) == nothing_to_show(),
{
    let lines: Vec<String> = Vec::new();
    assert(texts(lines@) =~= Seq::<Seq<char>>::empty());
    printable(lines)
}

/// A list under its title, or without a title where the list is empty.
pub open spec fn listed(title: Seq<char>, lines: Seq<Seq<char>>) -> OutcomeView {
    Ok(
        CommandResultView::PrintableResults(
            if lines.len() == 0 {
                None
            } else {
                Some(title)
            },
            lines,
        ),
    )
}

/// A successful outcome that shows `lines` under `title`; an empty list is
/// shown without a title.
pub fn listing(title: &str, lines: Vec<String>) -> (outcome: CommandExecutionResult)
    ensures
        outcome_view(outcome) == listed(title@, texts(lines@)),
        outcome matches Ok(CommandResultType::PrintableResults(_, kept)) && kept == lines,
{
    let title = if lines.len() == 0 {
        None
    } else {
        Some(String::from_str(title))
    };
    Ok(CommandResultType::PrintableResults(title, lines))
}

/// `Some(s)` unless `s` is empty.
pub open spec fn unless_empty(s: Seq<char>) -> Option<Seq<char>> {
    if s.len() == 0 {
        None
    } else {
        Some(s)
    }
}

/// Whether an outcome counts as a success, with what the process wrote to
/// its standard output and standard error where that is not empty. A failure
/// carries its text in the place of the standard error.
pub open spec fn exit_summary(
    outcome: OutcomeView,
) -> (bool, Option<Seq<char>>, Option<Seq<char>>) {
    match outcome {
        Ok(CommandResultView::ChildProcess(Some(output))) => (
            output.success,
            unless_empty(output.stdout),
            unless_empty(output.stderr),
        ),
        Ok(_) => (true, None, None),
        Err(error) => (false, None, Some(error)),
    }
}

/// The text, unless it is empty.
fn keep_unless_empty(s: String) -> (kept: Option<String>)
    ensures
        opt_text(kept) == unless_empty(s@),
{
    if s.as_str().is_empty() {
        None
    } else {
        Some(s)
    }
}

/// Sums an outcome up as (success, standard output, standard error).
pub fn process_exited_with_success(outcome: CommandExecutionResult) -> (summary: (
    bool,
    Option<String>,
    Option<String>,
))
    ensures
        (summary.0, opt_text(summary.1), opt_text(summary.2)) == exit_summary(
            outcome_view(outcome),
        ),
{
    match outcome {
        Ok(CommandResultType::ChildProcess(Some(output))) => {
            let stdout = keep_unless_empty(output.stdout);
            let stderr = keep_unless_empty(output.stderr);
            (output.success, stdout, stderr)
        },
        Ok(_) => (true, None, None),
        Err(error) => (false, None, Some(error)),
    }
}

/// What a command that was waited for comes to: the given lines where it
/// succeeded; otherwise a failure with what it wrote to its standard error
/// (or, where it could not be run, the text of that failure), and with
/// `fallback` where it wrote nothing there.
pub open spec fn concluded(
    raw: OutcomeView,
    shown: Seq<Seq<char>>,
    fallback: Seq<char>,
) -> OutcomeView {
    let summary = exit_summary(raw);
    if summary.0 {
        plain_lines(shown)
    } else {
        match summary.2 {
            Some(error) => Err(error),
            None => Err(fallback),
        }
    }
}

/// Turns what a command came to into the outcome of the operation that ran
/// it: `shown` on success, its own error text or else `fallback` on failure.
pub fn conclude(raw: CommandExecutionResult, shown: Vec<String>, fallback: &str) -> (outcome:
    CommandExecutionResult)
    ensures
        outcome_view(outcome) == concluded(outcome_view(raw), texts(shown@), fallback@),
{
    let summary = process_exited_with_success(raw);
    if summary.0 {
        printable(shown)
    } else {
        match summary.2 {
            Some(error) => Err(error),
            None => Err(String::from_str(fallback)),
        }
    }
}

/// What a command that was waited for comes to where the finished command
/// is itself the result: the outcome as it is where the command succeeded;
/// otherwise a failure with what it wrote to its standard error (or, where
/// it could not be run, the text of that failure), and with `fallback`
/// where it wrote nothing there.
pub open spec fn surfaced(raw: OutcomeView, fallback: Seq<char>) -> OutcomeView {
    let summary = exit_summary(raw);
    if summary.0 {
        raw
    } else {
        match summary.2 {
            Some(error) => Err(error),
            None => Err(fallback),
        }
    }
}

/// Hands on what a command came to: the finished command where it
/// succeeded, its own error text or else `fallback` as a failure where it
/// did not.
pub fn surface(raw: CommandExecutionResult, fallback: &str) -> (outcome: CommandExecutionResult)
    ensures
        outcome_view(outcome) == surfaced(outcome_view(raw), fallback@),
{
    match raw {
        Ok(CommandResultType::ChildProcess(Some(output))) => {
            if output.success {
                Ok(CommandResultType::ChildProcess(Some(output)))
            } else if output.stderr.as_str().is_empty() {
                Err(String::from_str(fallback))
            } else {
                Err(output.stderr)
            }
        },
        other => other,
    }
}

/// What is done with an operation that failed while results are merged.
#[derive(Clone, Copy, PartialEq, Eq, Structural, Debug)]
pub enum MergePolicy {
    /// The failure ends the merge and is handed to the caller.
    FailFast,
    /// The failure is dropped and the merge goes on.
    BestEffort,
}

/// The trimmed text as one line, or no line where nothing is left of it.
pub open spec fn trimmed_line(s: Seq<char>) -> Seq<Seq<char>> {
    if trimmed(s).len() == 0 {
        Seq::empty()
    } else {
        seq![trimmed(s)]
    }
}

/// The lines that a successful result adds to a report: of a finished
/// process its trimmed standard output and then its trimmed standard error,
/// each only where something is left of it; of printable results their lines.
pub open spec fn report_lines(value: CommandResultView) -> Seq<Seq<char>> {
    match value {
        CommandResultView::ChildProcess(Some(output)) => trimmed_line(output.stdout)
            + trimmed_line(output.stderr),
        CommandResultView::ChildProcess(None) => Seq::empty(),
        CommandResultView::PrintableResults(_, lines) => lines,
    }
}

/// The report after one more outcome, and the failure that ends the merge.
pub open spec fn merged(acc: Seq<Seq<char>>, outcome: OutcomeView, policy: MergePolicy) -> (
    Seq<Seq<char>>,
    Option<Seq<char>>,
) {
    match outcome {
        Ok(value) => (acc + report_lines(value), None),
        Err(error) => match policy {
            MergePolicy::FailFast => (acc, Some(error)),
            MergePolicy::BestEffort => (acc, None),
        },
    }
}

/// Adds the trimmed text as one line where something is left of it.
fn push_trimmed(results: &mut Vec<String>, raw: &str)
    ensures
        texts(final(results)@) == texts(old(results)@) + trimmed_line(raw@),
{
    let line = trim(raw);
    if !line.as_str().is_empty() {
        results.push(line);
        assert(texts(results@) =~= texts(old(results)@) + seq![line@]);
    } else {
        assert(texts(results@) =~= texts(old(results)@) + Seq::<Seq<char>>::empty());
    }
}

/// Adds what `outcome` reports to `results`. A failure leaves `results` as it
/// was; it is returned under `FailFast` and dropped under `BestEffort`.
pub fn merge_outcome(
    results: &mut Vec<String>,
    outcome: CommandExecutionResult,
    policy: MergePolicy,
) -> (merge: Result<(), String>)
    ensures
        texts(final(results)@) == merged(texts(old(results)@), outcome_view(outcome), policy).0,
        match merged(texts(old(results)@), outcome_view(outcome), policy).1 {
            Some(error) => merge is Err && merge->Err_0@ == error,
            None => merge is Ok,
        },
        outcome is Err ==> final(results)@ == old(results)@,
{
    match outcome {
        Ok(CommandResultType::ChildProcess(Some(output))) => {
            push_trimmed(results, output.stdout.as_str());
            push_trimmed(results, output.stderr.as_str());
            assert(texts(results@) =~= texts(old(results)@) + report_lines(
                CommandResultType::ChildProcess(Some(output))@,
            ));
            Ok(())
        },
        Ok(CommandResultType::ChildProcess(None)) => {
            assert(texts(results@) =~= texts(old(results)@) + Seq::<Seq<char>>::empty());
            Ok(())
        },
        Ok(CommandResultType::PrintableResults(_, mut lines)) => {
            let ghost added = lines@;
            results.append(&mut lines);
            assert(texts(results@) =~= texts(old(results)@) + texts(added));
            Ok(())
        },
        Err(error) => match policy {
            MergePolicy::FailFast => Err(error),
            MergePolicy::BestEffort => Ok(()),
        },
    }
}

/// Runs `operation` and adds what it reports to `results`; its failure is
/// returned and leaves `results` as they were.
pub fn merge_if_ok<F: FnOnce() -> CommandExecutionResult>(
    results: &mut Vec<String>,
    operation: F,
) -> (merge: Result<(), String>)
    requires
        call_requires(operation, ()),
    ensures
        exists|outcome: CommandExecutionResult|
            {
                &&& call_ensures(operation, (), outcome)
                &&& texts(final(results)@) == merged(
                    texts(old(results)@),
                    outcome_view(outcome),
                    MergePolicy::FailFast,
                ).0
                &&& match outcome {
                    Ok(_) => merge is Ok,
                    Err(error) => merge is Err && merge->Err_0@ == error@ && final(results)@ == old(
                        results,
                    )@,
                }
            },
{
    let outcome = operation();
    let ghost seen = outcome;
    let merge = merge_outcome(results, outcome, MergePolicy::FailFast);
    assert(call_ensures(operation, (), seen));
    merge
}

/// Where a sequence of merges stands: the report so far, and the failure
/// that ended it.
pub struct MergeState {
    pub lines: Seq<Seq<char>>,
    pub failure: Option<Seq<char>>,
}

/// The state after merging `outcomes` in order into an empty report. Once a
/// failure has ended the merge, later outcomes change nothing.
pub open spec fn merge_state(outcomes: Seq<OutcomeView>, policy: MergePolicy) -> MergeState
    decreases outcomes.len(),
{
    if outcomes.len() == 0 {
        MergeState { lines: Seq::empty(), failure: None }
    } else {
        let before = merge_state(outcomes.drop_last(), policy);
        if before.failure is Some {
            before
        } else {
            let step = merged(before.lines, outcomes.last(), policy);
            MergeState { lines: step.0, failure: step.1 }
        }
    }
}

/// The views of a sequence of outcomes.
pub open spec fn outcome_views(outcomes: Seq<CommandExecutionResult>) -> Seq<OutcomeView> {
    Seq::new(outcomes.len(), |i: int| outcome_view(outcomes[i]))
}

/// What a merge over several operations did.
#[derive(Clone, Debug, PartialEq, Eq)]
pub struct MergeReport {
    /// The lines gathered from the operations that succeeded.
    pub lines: Vec<String>,
    /// How many operations were run.
    pub attempted: usize,
    /// The failure that ended the merge; never set under `BestEffort`.
    pub failure: Option<String>,
}

/// Runs `operations` in order and merges what they report. Under `FailFast`
/// the first failure ends the run and no later operation is started; under
/// `BestEffort` every operation is run.
pub fn merge_all<F: Fn() -> CommandExecutionResult>(
    operations: &Vec<F>,
    policy: MergePolicy,
) -> (report: MergeReport)
    requires
        forall|i: int| 0 <= i < operations.len() ==> call_requires(#[trigger] operations[i], ()),
    ensures
        report.attempted <= operations.len(),
        report.failure is None ==> report.attempted == operations.len(),
        report.failure is Some ==> policy == MergePolicy::FailFast,
        exists|outcomes: Seq<CommandExecutionResult>|
            {
                &&& outcomes.len() == report.attempted
                &&& forall|i: int|
                    0 <= i < outcomes.len() ==> call_ensures(
                        operations[i],
                        (),
                        #[trigger] outcomes[i],
                    )
                &&& merge_state(outcome_views(outcomes), policy) == (MergeState {
                    lines: texts(report.lines@),
                    failure: opt_text(report.failure),
                })
                &&& policy == MergePolicy::FailFast ==> forall|i: int|
                    0 <= i < outcomes.len() - 1 ==> (#[trigger] outcomes[i]) is Ok
            },
{
    let mut lines: Vec<String> = Vec::new();
    let mut i: usize = 0;
    let ghost mut seen: Seq<CommandExecutionResult> = Seq::empty();
    proof {
        assert(texts(lines@) =~= Seq::<Seq<char>>::empty());
        assert(outcome_views(seen) =~= Seq::<OutcomeView>::empty());
    }
    while i < operations.len()
        invariant
            i <= operations.len(),
            seen.len() == i,
            forall|k: int|
                0 <= k < operations.len() ==> call_requires(#[trigger] operations[k], ()),
            forall|k: int|
                0 <= k < seen.len() ==> call_ensures(operations[k], (), #[trigger] seen[k]),
            merge_state(outcome_views(seen), policy) == (MergeState {
                lines: texts(lines@),
                failure: None,
            }),
            policy == MergePolicy::FailFast ==> forall|k: int|
                0 <= k < seen.len() ==> (#[trigger] seen[k]) is Ok,
        decreases operations.len() - i,
    {
        let outcome = (operations[i])();
        proof {
            let ghost before = seen;
            seen = seen.push(outcome);
            assert(outcome_views(seen).drop_last() =~= outcome_views(before));
            assert(outcome_views(seen).last() == outcome_view(outcome));
        }
        let merge = merge_outcome(&mut lines, outcome, policy);
        i += 1;
        match merge {
            Ok(()) => {},
            Err(error) => {
                return MergeReport { lines, attempted: i, failure: Some(error) };
            },
        }
    }
    MergeReport { lines, attempted: i, failure: None }
}

/// The line for the entry with the given zero-based index under a title: a
/// tab, the index counted from one, a full stop, a space and the entry.
pub open spec fn numbered_line(index: nat, line: Seq<char>) -> Seq<char> {
    seq!['\t'] + decimal(index + 1) + seq!['.', ' '] + line
}

/// What is written for an outcome, as (lines for the standard output, lines
/// for the standard error). Of a finished process the trimmed outputs are
/// written where they were asked for and not empty; printable results are
/// written in full, numbered below their title where they have one; a
/// failure goes to the standard error where that was asked for.
pub open spec fn rendered(outcome: OutcomeView, stdout: bool, stderr: bool) -> (
    Seq<Seq<char>>,
    Seq<Seq<char>>,
) {
    match outcome {
        Ok(CommandResultView::ChildProcess(Some(output))) => (
            if stdout && output.stdout.len() > 0 {
                seq![trimmed(output.stdout)]
            } else {
                Seq::empty()
            },
            if stderr && output.stderr.len() > 0 {
                seq![trimmed(output.stderr)]
            } else {
                Seq::empty()
            },
        ),
        Ok(CommandResultView::ChildProcess(None)) => (Seq::empty(), Seq::empty()),
        Ok(CommandResultView::PrintableResults(Some(title), lines)) => (
            seq![title] + Seq::new(lines.len(), |i: int| numbered_line(i as nat, lines[i])),
            Seq::empty(),
        ),
        Ok(CommandResultView::PrintableResults(None, lines)) => (lines, Seq::empty()),
        Err(error) => (
            Seq::empty(),
            if stderr {
                seq![error]
            } else {
                Seq::empty()
            },
        ),
    }
}

/// The lines to write for one outcome.
#[derive(Clone, Debug, PartialEq, Eq)]
pub struct Rendered {
    /// Lines for the standard output, in order.
    pub out: Vec<String>,
    /// Lines for the standard error, in order.
    pub err: Vec<String>,
}

/// The trimmed text as one line where it was asked for and is not empty.
fn one_trimmed(wanted: bool, raw: &str) -> (lines: Vec<String>)
    ensures
        texts(lines@) == if wanted && raw@.len() > 0 {
            seq![trimmed(raw@)]
        } else {
            Seq::<Seq<char>>::empty()
        },
{
    let mut lines: Vec<String> = Vec::new();
    if wanted && !raw.is_empty() {
        let line = trim(raw);
        lines.push(line);
        assert(texts(lines@) =~= seq![trimmed(raw@)]);
    } else {
        assert(texts(lines@) =~= Seq::<Seq<char>>::empty());
    }
    lines
}

/// Lays an outcome out for display; `stdout` and `stderr` say which outputs
/// of a finished process, and whether a failure, are to be written.
pub fn render_results(
    outcome: &CommandExecutionResult,
    stdout: bool,
    stderr: bool,
) -> (shown: Rendered)
    ensures
        (texts(shown.out@), texts(shown.err@)) == rendered(outcome_view(*outcome), stdout, stderr),
{
    match outcome {
        Ok(CommandResultType::ChildProcess(Some(output))) => {
            let out = one_trimmed(stdout, output.stdout.as_str());
            let err = one_trimmed(stderr, output.stderr.as_str());
            Rendered { out, err }
        },
        Ok(CommandResultType::ChildProcess(None)) => {
            let out: Vec<String> = Vec::new();
            let err: Vec<String> = Vec::new();
            assert(texts(out@) =~= Seq::<Seq<char>>::empty());
            Rendered { out, err }
        },
        Ok(CommandResultType::PrintableResults(title, lines)) => {
            let mut out: Vec<String> = Vec::new();
            let err: Vec<String> = Vec::new();
            assert(texts(err@) =~= Seq::<Seq<char>>::empty());
            match title {
                Some(title) => {
                    out.push(title.clone());
                    let mut i: usize = 0;
                    assert(texts(out@) =~= seq![title@] + Seq::new(
                        0,
                        |k: int| numbered_line(k as nat, texts(lines@)[k]),
                    ));
                    while i < lines.len()
                        invariant
                            i <= lines.len(),
                            texts(out@) == seq![title@] + Seq::new(
                                i as nat,
                                |k: int| numbered_line(k as nat, texts(lines@)[k]),
                            ),
                        decreases lines.len() - i,
                    {
                        let mut line = String::from_str("\t");
                        line.append(decimal_string((i + 1) as u64).as_str());
                        line.append(". ");
                        line.append(lines[i].as_str());
                        proof {
                            reveal_strlit("\t");
                            reveal_strlit(". ");
                            assert("\t"@ =~= seq!['\t']);
                            assert(". "@ =~= seq!['.', ' ']);
                            assert(line@ =~= numbered_line(i as nat, texts(lines@)[i as int]));
                        }
                        let ghost before = texts(out@);
                        out.push(line);
                        assert(texts(out@) =~= before + seq![line@]);
                        assert(texts(out@) =~= seq![title@] + Seq::new(
                            (i + 1) as nat,
                            |k: int| numbered_line(k as nat, texts(lines@)[k]),
                        ));
                        i += 1;
                    }
                },
                None => {
                    let mut i: usize = 0;
                    while i < lines.len()
                        invariant
                            i <= lines.len(),
                            texts(out@) == texts(lines@).take(i as int),
                        decreases lines.len() - i,
                    {
                        let line = lines[i].clone();
                        let ghost before = texts(out@);
                        out.push(line);
                        assert(texts(out@) =~= before + seq![line@]);
                        assert(texts(out@) =~= texts(lines@).take(i + 1));
                        i += 1;
                    }
                    assert(texts(lines@).take(lines.len() as int) =~= texts(lines@));
                },
            }
            Rendered { out, err }
        },
        Err(error) => {
            let out: Vec<String> = Vec::new();
            let mut err: Vec<String> = Vec::new();
            assert(texts(out@) =~= Seq::<Seq<char>>::empty());
            if stderr {
                err.push(error.clone());
                assert(texts(err@) =~= seq![error@]);
            } else {
                assert(texts(err@) =~= Seq::<Seq<char>>::empty());
            }
            Rendered { out, err }
        },
    }
}

/// Under `BestEffort` no failure ends a merge or shows in its state: the
/// state is the one that the successes alone would have given.
pub proof fn lemma_best_effort_drops_failures(outcomes: Seq<OutcomeView>)
    ensures
        merge_state(outcomes, MergePolicy::BestEffort).failure is None,
        merge_state(outcomes, MergePolicy::BestEffort) == merge_state(
            outcomes.filter(|outcome: OutcomeView| outcome is Ok),
            MergePolicy::BestEffort,
        ),
    decreases outcomes.len(),
{
    let succeeded = |outcome: OutcomeView| outcome is Ok;
    if outcomes.len() == 0 {
        assert(outcomes.filter(succeeded) =~= outcomes);
    } else {
        let before = outcomes.drop_last();
        lemma_best_effort_drops_failures(before);
        assert(outcomes =~= before.push(outcomes.last()));
        Seq::lemma_filter_push(before, outcomes.last(), succeeded);
        if outcomes.last() is Ok {
            let kept = before.filter(succeeded).push(outcomes.last());
            assert(kept.drop_last() =~= before.filter(succeeded));
            lemma_best_effort_drops_failures(before.filter(succeeded));
        }
    }
}

/// While nothing fails, a merge gathers the lines of every outcome in
/// order, under either policy: one more success adds its lines at the end.
pub proof fn lemma_success_adds_its_lines(
    outcomes: Seq<OutcomeView>,
    value: CommandResultView,
    policy: MergePolicy,
)
    requires
        merge_state(outcomes, policy).failure is None,
    ensures
        merge_state(outcomes.push(Ok(value)), policy) == (MergeState {
            lines: merge_state(outcomes, policy).lines + report_lines(value),
            failure: None,
        }),
{
    assert(outcomes.push(Ok(value)).drop_last() =~= outcomes);
}

/// Under `FailFast` the first failure ends the merge: the state holds that
/// failure and the lines of the successes before it, whatever comes after.
pub proof fn lemma_fail_fast_stops_at_first_failure(outcomes: Seq<OutcomeView>, at: int)
    requires
        0 <= at < outcomes.len(),
        outcomes[at] is Err,
        forall|i: int| 0 <= i < at ==> (#[trigger] outcomes[i]) is Ok,
    ensures
        merge_state(outcomes, MergePolicy::FailFast) == (MergeState {
            lines: merge_state(outcomes.take(at), MergePolicy::FailFast).lines,
            failure: Some(outcomes[at]->Err_0),
        }),
        merge_state(outcomes.take(at), MergePolicy::FailFast).failure is None,
    decreases outcomes.len(),
{
    lemma_no_failure_without_a_failing_outcome(outcomes.take(at), MergePolicy::FailFast);
    if at == outcomes.len() - 1 {
        assert(outcomes.drop_last() =~= outcomes.take(at));
    } else {
        let before = outcomes.drop_last();
        assert(before.take(at) =~= outcomes.take(at));
        lemma_fail_fast_stops_at_first_failure(before, at);
    }
}

/// A merge of successes alone has not ended.
pub proof fn lemma_no_failure_without_a_failing_outcome(
    outcomes: Seq<OutcomeView>,
    policy: MergePolicy,
)
    requires
        forall|i: int| 0 <= i < outcomes.len() ==> (#[trigger] outcomes[i]) is Ok,
    ensures
        merge_state(outcomes, policy).failure is None,
    decreases outcomes.len(),
{
    if outcomes.len() > 0 {
        lemma_no_failure_without_a_failing_outcome(outcomes.drop_last(), policy);
    }
}

} // verus!
