//! The external tools that every operation leans on, and the check that
//! each of them can be started.

use crate::launcher::{
    can_launch, launched, request, run, LaunchRequest, LaunchRequestView, LaunchResult,
};
use crate::text::{push_text, texts};
use vstd::prelude::*;

verus! {

/// The tools that must be there, in the order in which they are tried.
pub open spec fn required_tools() -> Seq<Seq<char>> {
    seq!["minikube"@, "kubectl"@, "socat"@, "ssh"@]
}

/// The argument with which each tool is asked for its version.
pub open spec fn version_arguments() -> Seq<Seq<char>> {
    seq!["version"@, "--version"@, "-V"@, "-V"@]
}

/// The command that tries the tool with the given index.
pub open spec fn tool_probe(index: int) -> LaunchRequestView {
    LaunchRequestView {
        program: required_tools()[index],
        args: seq![version_arguments()[index]],
        custom_error: None,
    }
}

/// The failure for a tool that cannot be started.
pub open spec fn could_not_find(tool: Seq<char>) -> Seq<char> {
    "Could not find "@ + tool + " in path"@
}

/// The tool with the given index was tried and could be started.
pub open spec fn tool_found<L: Fn(LaunchRequest) -> LaunchResult>(launch: &L, index: int) -> bool {
    exists|raw: LaunchResult| launched(launch, tool_probe(index), raw) && raw is Ok
}

/// The tool with the given index was tried and could not be started.
pub open spec fn tool_missing<L: Fn(LaunchRequest) -> LaunchResult>(
    launch: &L,
    index: int,
) -> bool {
    exists|raw: LaunchResult| launched(launch, tool_probe(index), raw) && raw is Err
}

/// What one try means: a tool that could be started is there, whatever its
/// exit status; the failure to start it names the tool.
pub fn dependency_verdict(tool: &str, raw: &LaunchResult) -> (verdict: Result<(), String>)
    ensures
        raw is Ok ==> verdict is Ok,
        raw is Err ==> verdict is Err && verdict->Err_0@ == could_not_find(tool@),
{
    match raw {
        Ok(_) => Ok(()),
        Err(_) => {
            let mut message = String::from_str("Could not find ");
            message.append(tool);
            message.append(" in path");
            Err(message)
        },
    }
}

/// Tries the tool `tool` with the one argument `argument`.
fn probe<L: Fn(LaunchRequest) -> LaunchResult>(launch: &L, tool: &str, argument: &str) -> (verdict:
    Result<(), String>)
    requires
        can_launch(launch),
    ensures
        exists|raw: LaunchResult|
            launched(
                launch,
                LaunchRequestView { program: tool@, args: seq![argument@], custom_error: None },
                raw,
            ) && (raw is Ok ==> verdict is Ok) && (raw is Err ==> verdict is Err
                && verdict->Err_0@ == could_not_find(tool@)),
{
    let mut args: Vec<String> = Vec::new();
    push_text(&mut args, argument);
    assert(texts(args@) =~= seq![argument@]);
    let raw = run(launch, request(tool, args, None));
    dependency_verdict(tool, &raw)
}

/// Makes sure that `minikube`, `kubectl`, `socat` and `ssh` can be started,
/// trying them in this order. The first that cannot be started ends the
/// check with the failure that names it, and the tools after it are not
/// tried.
pub fn verify_dependencies<L: Fn(LaunchRequest) -> LaunchResult>(launch: &L) -> (verified: Result<
    (),
    String,
>)
    requires
        can_launch(launch),
    ensures
        match verified {
            Ok(()) => forall|index: int| 0 <= index < 4 ==> tool_found(launch, index),
            Err(error) => exists|index: int|
                {
                    &&& 0 <= index < 4
                    &&& #[trigger] tool_missing(launch, index)
                    &&& error@ == could_not_find(required_tools()[index])
                    &&& forall|earlier: int| 0 <= earlier < index ==> tool_found(launch, earlier)
                },
        },
{
    match probe(launch, "minikube", "version") {
        Ok(()) => {},
        Err(error) => {
            assert(tool_missing(launch, 0));
            return Err(error);
        },
    }
    assert(tool_found(launch, 0));
    match probe(launch, "kubectl", "--version") {
        Ok(()) => {},
        Err(error) => {
            assert(tool_missing(launch, 1));
            return Err(error);
        },
    }
    assert(tool_found(launch, 1));
    match probe(launch, "socat", "-V") {
        Ok(()) => {},
        Err(error) => {
            assert(tool_missing(launch, 2));
            return Err(error);
        },
    }
    assert(tool_found(launch, 2));
    match probe(launch, "ssh", "-V") {
        Ok(()) => {},
        Err(error) => {
            assert(tool_missing(launch, 3));
            return Err(error);
        },
    }
    assert(tool_found(launch, 3));
    Ok(())
}

} // verus!
