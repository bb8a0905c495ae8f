//! Load balancers: services of the cluster that this tool exposes and
//! labels as its own, made, listed and removed by one-shot `kubectl`
//! commands.

use crate::launcher::{
    as_outcome, can_launch, into_outcome, launch_view, launched, request, run, LaunchRequest,
    LaunchRequestView, LaunchResult, LaunchView,
};
use crate::pattern::{regex_split, split, split_view};
use crate::results::{
    listed, listing, outcome_view, plain_lines, printable, surface, surfaced, trimmed_line,
    CommandExecutionResult, CommandResultType, CommandResultView, OutcomeView,
};
use crate::text::{
    concat, contains, decimal, decimal_string, lines, lines_of, occurs_in, push_text, texts, trim,
};
use vstd::prelude::*;

verus! {

/// The command that exposes `resource_type`/`name` of `namespace` as a load
/// balancer named after it.
pub open spec fn load_balancer_expose_request(
    namespace: Seq<char>,
    resource_type: Seq<char>,
    name: Seq<char>,
    port: u16,
    target_port: u16,
) -> LaunchRequestView {
    LaunchRequestView {
        program: "kubectl"@,
        args: seq![
            "-n"@,
            namespace,
            "expose"@,
            resource_type,
            name,
            "--type"@,
            "LoadBalancer"@,
            "--name"@,
            name + "-lb"@,
            "--port"@,
            decimal(port as nat),
            "--target-port"@,
            decimal(target_port as nat),
            "-l"@,
            "reason=kube-minion"@,
        ],
        custom_error: None,
    }
}

/// The command that lists the load balancers of this tool.
pub open spec fn load_balancer_fetch_request() -> LaunchRequestView {
    LaunchRequestView {
        program: "kubectl"@,
        args: seq!["get"@, "svc"@, "-A"@, "-l"@, "reason=kube-minion"@, "--no-headers"@],
        custom_error: Some("Failed to fetch load balancers"@),
    }
}

/// The command that removes the service `name` of `namespace`.
pub open spec fn load_balancer_delete_request(
    namespace: Seq<char>,
    name: Seq<char>,
) -> LaunchRequestView {
    LaunchRequestView {
        program: "kubectl"@,
        args: seq!["-n"@, namespace, "delete"@, "svc"@, name],
        custom_error: None,
    }
}

/// The command that exposes `resource_type`/`name` of `namespace`.
pub fn load_balancer_expose_command(
    namespace: &str,
    resource_type: &str,
    name: &str,
    port: u16,
    target_port: u16,
) -> (command: LaunchRequest)
    ensures
        command@ == load_balancer_expose_request(
            namespace@,
            resource_type@,
            name@,
            port,
            target_port,
        ),
{
    let mut args: Vec<String> = Vec::new();
    push_text(&mut args, "-n");
    push_text(&mut args, namespace);
    push_text(&mut args, "expose");
    push_text(&mut args, resource_type);
    push_text(&mut args, name);
    push_text(&mut args, "--type");
    push_text(&mut args, "LoadBalancer");
    push_text(&mut args, "--name");
    push_text(&mut args, concat(name, "-lb").as_str());
    push_text(&mut args, "--port");
    push_text(&mut args, decimal_string(port as u64).as_str());
    push_text(&mut args, "--target-port");
    push_text(&mut args, decimal_string(target_port as u64).as_str());
    push_text(&mut args, "-l");
    push_text(&mut args, "reason=kube-minion");
    assert(texts(args@) =~= load_balancer_expose_request(
        namespace@,
        resource_type@,
        name@,
        port,
        target_port,
    ).args);
    request("kubectl", args, None)
}

/// The command that lists the load balancers of this tool.
pub fn load_balancer_fetch_command() -> (command: LaunchRequest)
    ensures
        command@ == load_balancer_fetch_request(),
{
    let mut args: Vec<String> = Vec::new();
    push_text(&mut args, "get");
    push_text(&mut args, "svc");
    push_text(&mut args, "-A");
    push_text(&mut args, "-l");
    push_text(&mut args, "reason=kube-minion");
    push_text(&mut args, "--no-headers");
    assert(texts(args@) =~= load_balancer_fetch_request().args);
    request("kubectl", args, Some(String::from_str("Failed to fetch load balancers")))
}

/// The command that removes the service `name` of `namespace`.
pub fn load_balancer_delete_command(namespace: &str, name: &str) -> (command: LaunchRequest)
    ensures
        command@ == load_balancer_delete_request(namespace@, name@),
{
    let mut args: Vec<String> = Vec::new();
    push_text(&mut args, "-n");
    push_text(&mut args, namespace);
    push_text(&mut args, "delete");
    push_text(&mut args, "svc");
    push_text(&mut args, name);
    assert(texts(args@) =~= load_balancer_delete_request(namespace@, name@).args);
    request("kubectl", args, None)
}

/// The general text for a load balancer that could not be made.
pub open spec fn create_failure() -> Seq<char> {
    "Failed to create the load balancer"@
}

/// The general text for a load balancer that could not be removed.
pub open spec fn delete_failure() -> Seq<char> {
    "Failed to delete the load balancer"@
}

/// Exposes `resource_type`/`name` of `namespace` as a load balancer that
/// listens on `port` and forwards to `target_port`. The outcome is the
/// finished command where it succeeded; a command that ended with a failure
/// is a failure, with what it wrote to its standard error or else a general
/// text.
pub fn create_load_balancer<L: Fn(LaunchRequest) -> LaunchResult>(
    namespace: &str,
    resource_type: &str,
    name: &str,
    port: u16,
    target_port: u16,
    launch: &L,
) -> (outcome: CommandExecutionResult)
    requires
        can_launch(launch),
    ensures
        exists|raw: LaunchResult|
            launched(
                launch,
                load_balancer_expose_request(namespace@, resource_type@, name@, port, target_port),
                raw,
            ) && outcome_view(outcome) == surfaced(as_outcome(launch_view(raw)), create_failure()),
{
    surface(
        into_outcome(
            run(
                launch,
                load_balancer_expose_command(namespace, resource_type, name, port, target_port),
            ),
        ),
        "Failed to create the load balancer",
    )
}

/// Removes the load balancer `name` of `namespace`. The outcome is the
/// finished command where it succeeded; a command that ended with a failure
/// is a failure, with what it wrote to its standard error or else a general
/// text.
pub fn remove_load_balancer<L: Fn(LaunchRequest) -> LaunchResult>(
    namespace: &str,
    name: &str,
    launch: &L,
) -> (outcome: CommandExecutionResult)
    requires
        can_launch(launch),
    ensures
        exists|raw: LaunchResult|
            launched(launch, load_balancer_delete_request(namespace@, name@), raw) && outcome_view(
                outcome,
            ) == surfaced(as_outcome(launch_view(raw)), delete_failure()),
{
    surface(
        into_outcome(run(launch, load_balancer_delete_command(namespace, name))),
        "Failed to delete the load balancer",
    )
}

/// The name of the dashboard's own load balancer, which no list shows.
pub open spec fn dashboard_service() -> Seq<char> {
    "kubernetes-dashboard-lb"@
}

/// The lines that do not name the dashboard's own load balancer, in order.
pub open spec fn without_dashboard(rows: Seq<Seq<char>>) -> Seq<Seq<char>>
    decreases rows.len(),
{
    if rows.len() == 0 {
        Seq::empty()
    } else if occurs_in(rows.last(), dashboard_service()) {
        without_dashboard(rows.drop_last())
    } else {
        without_dashboard(rows.drop_last()).push(rows.last())
    }
}

/// The load balancers that the cluster's answer lists: one per line of its
/// standard output, the dashboard's own left out.
pub open spec fn load_balancer_rows(stdout: Seq<char>) -> Seq<Seq<char>> {
    without_dashboard(lines_of(stdout))
}

/// The general text for a list that could not be had.
pub open spec fn fetch_failure() -> Seq<char> {
    "Failed to fetch load balancers"@
}

/// The rows that the answer of the listing command holds: those of its
/// standard output where the command succeeded. A command that could not be
/// run is a failure with the text of that; one that ended with a failure is
/// a failure with what it wrote to its standard error, or else a general
/// text.
pub open spec fn rows_fetched(raw: LaunchView) -> Result<Seq<Seq<char>>, Seq<char>> {
    match raw {
        Err(error) => Err(error),
        Ok(output) => if output.success {
            Ok(load_balancer_rows(output.stdout))
        } else if output.stderr.len() == 0 {
            Err(fetch_failure())
        } else {
            Err(output.stderr)
        },
    }
}

/// The view of rows that were fetched, or of the failure to fetch them.
pub open spec fn rows_view(rows: Result<Vec<String>, String>) -> Result<
    Seq<Seq<char>>,
    Seq<char>,
> {
    match rows {
        Ok(rows) => Ok(texts(rows@)),
        Err(error) => Err(error@),
    }
}

/// What listing comes to: the failure to fetch the rows, or the rows under
/// their title.
pub open spec fn load_balancers_listed(raw: LaunchView) -> OutcomeView {
    match rows_fetched(raw) {
        Ok(rows) => listed("Load balancers:"@, rows),
        Err(error) => Err(error),
    }
}

/// The rows that the standard output of the listing command holds.
pub fn load_balancer_lines(stdout: &str) -> (rows: Vec<String>)
    ensures
        texts(rows@) == load_balancer_rows(stdout@),
{
    let all = lines(stdout);
    let mut rows: Vec<String> = Vec::new();
    let mut i: usize = 0;
    assert(texts(all@).take(0) =~= Seq::<Seq<char>>::empty());
    assert(texts(rows@) =~= Seq::<Seq<char>>::empty());
    while i < all.len()
        invariant
            i <= all.len(),
            texts(all@) == lines_of(stdout@),
            texts(rows@) == without_dashboard(texts(all@).take(i as int)),
        decreases all.len() - i,
    {
        proof {
            assert(texts(all@).take(i + 1).drop_last() =~= texts(all@).take(i as int));
            assert(texts(all@).take(i + 1).last() == all@[i as int]@);
        }
        if !contains(all[i].as_str(), "kubernetes-dashboard-lb") {
            let ghost before = texts(rows@);
            let row = all[i].clone();
            rows.push(row);
            assert(texts(rows@) =~= before.push(all@[i as int]@));
        }
        i += 1;
    }
    assert(texts(all@).take(all.len() as int) =~= texts(all@));
    rows
}

/// Reads the rows out of the answer of the listing command.
pub fn fetched_rows(raw: LaunchResult) -> (rows: Result<Vec<String>, String>)
    ensures
        rows_view(rows) == rows_fetched(launch_view(raw)),
{
    match raw {
        Err(error) => Err(error),
        Ok(output) => {
            if output.success {
                Ok(load_balancer_lines(output.stdout.as_str()))
            } else if output.stderr.as_str().is_empty() {
                Err(String::from_str("Failed to fetch load balancers"))
            } else {
                Err(output.stderr)
            }
        },
    }
}

/// Reads the answer of the listing command.
pub fn load_balancer_listing(raw: LaunchResult) -> (outcome: CommandExecutionResult)
    ensures
        outcome_view(outcome) == load_balancers_listed(launch_view(raw)),
{
    match fetched_rows(raw) {
        Ok(rows) => listing("Load balancers:", rows),
        Err(error) => Err(error),
    }
}

/// Lists the load balancers of this tool, the dashboard's own left out. A
/// listing command that could not be run, or that ended with a failure, is
/// a failure, with what the command wrote to its standard error or else a
/// general text.
pub fn fetch_load_balancers<L: Fn(LaunchRequest) -> LaunchResult>(launch: &L) -> (outcome:
    CommandExecutionResult)
    requires
        can_launch(launch),
    ensures
        exists|raw: LaunchResult|
            launched(launch, load_balancer_fetch_request(), raw) && outcome_view(outcome)
                == load_balancers_listed(launch_view(raw)),
        outcome matches Ok(value) ==> value is PrintableResults,
{
    load_balancer_listing(run(launch, load_balancer_fetch_command()))
}

/// The pattern at which a row is split into its columns: white space.
pub const COLUMN_GAP: &'static str = "\\s+";

/// The pattern at which a row is split into its columns.
pub open spec fn column_gap() -> Seq<char> {
    COLUMN_GAP@
}

/// The namespace and the name that a row gives: its first two columns.
pub open spec fn namespace_and_name(columns: Option<Seq<Seq<char>>>) -> Option<
    (Seq<char>, Seq<char>),
> {
    match columns {
        Some(columns) => if columns.len() >= 2 {
            Some((columns[0], columns[1]))
        } else {
            None
        },
        None => None,
    }
}

/// The view of an optional pair of strings.
pub open spec fn pair_view(pair: Option<(String, String)>) -> Option<(Seq<char>, Seq<char>)> {
    match pair {
        Some(pair) => Some((pair.0@, pair.1@)),
        None => None,
    }
}

/// The first two of the columns of a row, where it has as many.
pub fn first_two_columns(columns: Option<Vec<String>>) -> (pair: Option<(String, String)>)
    ensures
        pair_view(pair) == namespace_and_name(split_view(columns)),
{
    match columns {
        Some(columns) => {
            if columns.len() >= 2 {
                Some((columns[0].clone(), columns[1].clone()))
            } else {
                None
            }
        },
        None => None,
    }
}

/// The namespace and the name of the load balancer that a row of the list
/// describes: the first two of its columns, which white space separates.
pub fn parse_load_balancer(row: &str) -> (pair: Option<(String, String)>)
    ensures
        pair_view(pair) == namespace_and_name(regex_split(column_gap(), row@)),
{
    first_two_columns(split(COLUMN_GAP, row))
}

/// The failure for a row that does not give a namespace and a name.
pub open spec fn unreadable_load_balancer(row: Seq<char>) -> Seq<char> {
    "Failed to read the namespace and name of load balancer "@ + row
}

/// The failure for an index beyond the list.
pub open spec fn no_such_load_balancer(index: usize) -> Seq<char> {
    "Index "@ + decimal(index as nat) + " does not correspond to a load balancer"@
}

/// Removes the load balancer of the given row.
fn delete_row<L: Fn(LaunchRequest) -> LaunchResult>(row: &str, launch: &L) -> (raw: LaunchResult)
    requires
        can_launch(launch),
    ensures
        row_removed(launch, row@, raw),
{
    match parse_load_balancer(row) {
        Some(pair) => run(launch, load_balancer_delete_command(pair.0.as_str(), pair.1.as_str())),
        None => Err(concat("Failed to read the namespace and name of load balancer ", row)),
    }
}

/// The launcher was asked for the list and came back with `fetched`. Where
/// the rows could not be fetched, that failure is the outcome. An index
/// beyond the list is a failure. Otherwise the row at the index was handed to the launcher for
/// removal, and the outcome is the finished command where it succeeded, and
/// a failure where it did not.
pub open spec fn removal_at<L: Fn(LaunchRequest) -> LaunchResult>(
    launch: &L,
    index: usize,
    fetched: LaunchResult,
    outcome: OutcomeView,
) -> bool {
    &&& launched(launch, load_balancer_fetch_request(), fetched)
    &&& match rows_fetched(launch_view(fetched)) {
        Err(error) => outcome == Err::<CommandResultView, Seq<char>>(error),
        Ok(rows) => {
            if index >= rows.len() {
                outcome == Err::<CommandResultView, Seq<char>>(no_such_load_balancer(index))
            } else {
                exists|raw: LaunchResult|
                    row_removed(launch, rows[index as int], raw) && outcome == surfaced(
                        as_outcome(launch_view(raw)),
                        delete_failure(),
                    )
            }
        },
    }
}

/// Removes the load balancer at the zero-based `index` of the list. The
/// outcome is the finished command where it succeeded; a command that ended
/// with a failure is a failure, with what it wrote to its standard error or
/// else a general text. An index beyond the list is a failure, and nothing
/// is removed.
pub fn delete_load_balancer<L: Fn(LaunchRequest) -> LaunchResult>(
    index: usize,
    launch: &L,
) -> (outcome: CommandExecutionResult)
    requires
        can_launch(launch),
    ensures
        exists|fetched: LaunchResult| removal_at(launch, index, fetched, outcome_view(outcome)),
{
    let fetched = run(launch, load_balancer_fetch_command());
    match fetched_rows(fetched) {
        Err(error) => {
            let outcome: CommandExecutionResult = Err(error);
            assert(removal_at(launch, index, fetched, outcome_view(outcome)));
            outcome
        },
        Ok(rows) => {
            if index >= rows.len() {
                let mut message = String::from_str("Index ");
                message.append(decimal_string(index as u64).as_str());
                message.append(" does not correspond to a load balancer");
                let outcome: CommandExecutionResult = Err(message);
                assert(removal_at(launch, index, fetched, outcome_view(outcome)));
                return outcome;
            }
            assert(texts(rows@)[index as int] == rows@[index as int]@);
            let raw = delete_row(rows[index].as_str(), launch);
            let outcome = surface(into_outcome(raw), "Failed to delete the load balancer");
            assert(removal_at(launch, index, fetched, outcome_view(outcome)));
            outcome
        },
    }
}

/// What one removal means for a removal of all: the lines gathered so far
/// with what the command wrote, trimmed, to its standard output where
/// something is left of that; and the failure that ends the run at once,
/// for a command that failed to run or ended with a failure. A command that
/// ended with a failure gives what it wrote to its standard error, or else
/// a general text.
pub open spec fn removal_step(acc: Seq<Seq<char>>, raw: LaunchView) -> (
    Seq<Seq<char>>,
    Option<OutcomeView>,
) {
    match raw {
        Err(error) => (acc, Some(Err(error))),
        Ok(output) => if output.success {
            (acc + trimmed_line(output.stdout), None)
        } else {
            (acc, Some(surfaced(as_outcome(raw), delete_failure())))
        },
    }
}

/// The run of a removal of all is ended by failures alone.
pub proof fn lemma_removal_ends_with_a_failure(acc: Seq<Seq<char>>, raw: LaunchView)
    ensures
        removal_step(acc, raw).1 matches Some(ended) ==> ended is Err,
{
}

/// Takes the result of one removal into the lines gathered so far, or hands
/// back the failure that ends the removal of all.
pub fn record_removal(results: &mut Vec<String>, raw: LaunchResult) -> (ended: Option<
    CommandExecutionResult,
>)
    ensures
        texts(final(results)@) == removal_step(texts(old(results)@), launch_view(raw)).0,
        match removal_step(texts(old(results)@), launch_view(raw)).1 {
            Some(outcome) => ended is Some && outcome_view(ended->0) == outcome,
            None => ended is None,
        },
{
    match raw {
        Err(error) => Some(Err(error)),
        Ok(output) => {
            if output.success {
                let line = trim(output.stdout.as_str());
                if !line.as_str().is_empty() {
                    results.push(line);
                    assert(texts(results@) =~= texts(old(results)@) + seq![line@]);
                } else {
                    assert(texts(results@) =~= texts(old(results)@) + Seq::<Seq<char>>::empty());
                }
                None
            } else {
                Some(
                    surface(
                        Ok(CommandResultType::ChildProcess(Some(output))),
                        "Failed to delete the load balancer",
                    ),
                )
            }
        },
    }
}

/// The launcher was asked to remove the load balancer of `row` and came
/// back with `raw`; for a row that gives no namespace and name nothing was
/// asked, and `raw` is the failure that says so.
pub open spec fn row_removed<L: Fn(LaunchRequest) -> LaunchResult>(
    launch: &L,
    row: Seq<char>,
    raw: LaunchResult,
) -> bool {
    match namespace_and_name(regex_split(column_gap(), row)) {
        Some(pair) => launched(launch, load_balancer_delete_request(pair.0, pair.1), raw),
        None => launch_view(raw) == Err::<crate::results::ProcessOutputView, Seq<char>>(
            unreadable_load_balancer(row),
        ),
    }
}

/// The views of a sequence of launch results.
pub open spec fn launch_views(raws: Seq<LaunchResult>) -> Seq<LaunchView> {
    Seq::new(raws.len(), |i: int| launch_view(raws[i]))
}

/// Where a removal of all stands after the given removals, in order: the
/// lines gathered, and the outcome that ended the run. Once the run has
/// ended, later removals change nothing.
pub open spec fn removal_run(raws: Seq<LaunchView>) -> (Seq<Seq<char>>, Option<OutcomeView>)
    decreases raws.len(),
{
    if raws.len() == 0 {
        (Seq::empty(), None)
    } else {
        let before = removal_run(raws.drop_last());
        if before.1 is Some {
            before
        } else {
            removal_step(before.0, raws.last())
        }
    }
}

/// A removal of all is ended by failures alone.
pub proof fn lemma_removal_run_ends_with_a_failure(raws: Seq<LaunchView>)
    ensures
        removal_run(raws).1 matches Some(ended) ==> ended is Err,
    decreases raws.len(),
{
    if raws.len() > 0 {
        lemma_removal_run_ends_with_a_failure(raws.drop_last());
        lemma_removal_ends_with_a_failure(removal_run(raws.drop_last()).0, raws.last());
    }
}

/// What a removal of all comes to, given the rows of the list and the
/// removals that were made, one for each row from the first on: the outcome
/// that ended the run, or, with every row removed, the lines gathered. No
/// removal was made after one that ended the run.
pub open spec fn all_removed(
    rows: Seq<Seq<char>>,
    raws: Seq<LaunchView>,
    outcome: OutcomeView,
) -> bool {
    &&& raws.len() <= rows.len()
    &&& raws.len() > 0 ==> removal_run(raws.drop_last()).1 is None
    &&& match removal_run(raws).1 {
        Some(ended) => outcome == ended,
        None => raws.len() == rows.len() && outcome == plain_lines(removal_run(raws).0),
    }
}

/// The launcher was asked for the list and came back with `fetched`; where
/// the rows could not be fetched, that failure is the outcome and nothing
/// was removed; otherwise `raws` are the removals that were made for the
/// rows of the list, from the first row on, and the outcome is what they
/// come to.
pub open spec fn removal_of_all<L: Fn(LaunchRequest) -> LaunchResult>(
    launch: &L,
    fetched: LaunchResult,
    raws: Seq<LaunchResult>,
    outcome: OutcomeView,
) -> bool {
    &&& launched(launch, load_balancer_fetch_request(), fetched)
    &&& match rows_fetched(launch_view(fetched)) {
        Err(error) => raws.len() == 0 && outcome == Err::<CommandResultView, Seq<char>>(error),
        Ok(rows) => {
            &&& all_removed(rows, launch_views(raws), outcome)
            &&& forall|i: int|
                0 <= i < raws.len() ==> row_removed(launch, rows[i], #[trigger] raws[i])
        },
    }
}

/// Removes every load balancer of the list, in its order. Where the list
/// cannot be had, that failure is the outcome and nothing is removed. The
/// first removal that cannot be run, or that ends with a failure, ends the
/// run: no later load balancer is touched, and the outcome is that failure,
/// with what the command wrote to its standard error or else a general
/// text. Otherwise the outcome shows what the removals wrote.
#[verifier::loop_isolation(false)]
pub fn delete_all_load_balancers<L: Fn(LaunchRequest) -> LaunchResult>(launch: &L) -> (outcome:
    CommandExecutionResult)
    requires
        can_launch(launch),
    ensures
        exists|fetched: LaunchResult, raws: Seq<LaunchResult>|
            removal_of_all(launch, fetched, raws, outcome_view(outcome)),
{
    let fetched = run(launch, load_balancer_fetch_command());
    match fetched_rows(fetched) {
        Err(error) => {
            let outcome: CommandExecutionResult = Err(error);
            assert(removal_of_all(
                launch,
                fetched,
                Seq::<LaunchResult>::empty(),
                outcome_view(outcome),
            ));
            outcome
        },
        Ok(rows) => {
            let mut results: Vec<String> = Vec::new();
            let ghost mut raws: Seq<LaunchResult> = Seq::empty();
            proof {
                assert(texts(results@) =~= Seq::<Seq<char>>::empty());
                assert(launch_views(raws) =~= Seq::<LaunchView>::empty());
            }
            let mut i: usize = 0;
            while i < rows.len()
                invariant
                    i <= rows.len(),
                    raws.len() == i,
                    removal_run(launch_views(raws)) == (texts(results@), None::<OutcomeView>),
                    forall|k: int|
                        0 <= k < raws.len() ==> row_removed(
                            launch,
                            texts(rows@)[k],
                            #[trigger] raws[k],
                        ),
                decreases rows.len() - i,
            {
                assert(texts(rows@)[i as int] == rows@[i as int]@);
                let raw = delete_row(rows[i].as_str(), launch);
                proof {
                    let ghost before = raws;
                    raws = raws.push(raw);
                    assert(launch_views(raws).drop_last() =~= launch_views(before));
                    assert(launch_views(raws).last() == launch_view(raw));
                }
                match record_removal(&mut results, raw) {
                    Some(ended) => {
                        assert(removal_of_all(launch, fetched, raws, outcome_view(ended)));
                        return ended;
                    },
                    None => {},
                }
                i += 1;
            }
            let outcome = printable(results);
            assert(removal_of_all(launch, fetched, raws, outcome_view(outcome)));
            outcome
        },
    }
}

} // verus!
