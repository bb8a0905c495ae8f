//! What is handed to the operating system to start an external command, the
//! fingerprint of such a command, and the registry that keeps long-running
//! helpers from being started twice.
//!
//! Starting a process is left to the caller: the operations of this library
//! take the launcher as a function from a [`LaunchRequest`] to the outcome.

use crate::results::{
    opt_text, outcome_view, CommandExecutionResult, CommandResultType, CommandResultView,
    OutcomeView, ProcessOutput, ProcessOutputView,
};
use crate::text::{chars_of, texts};
use vstd::prelude::*;

verus! {

/// An external command to start: the program, its arguments in order, and
/// the text to report in place of the operating system's own when the
/// program cannot be started.
#[derive(Clone, Debug, PartialEq, Eq)]
pub struct LaunchRequest {
    pub program: String,
    pub args: Vec<String>,
    pub custom_error: Option<String>,
}

/// The mathematical value of a [`LaunchRequest`].
pub struct LaunchRequestView {
    pub program: Seq<char>,
    pub args: Seq<Seq<char>>,
    pub custom_error: Option<Seq<char>>,
}

impl View for LaunchRequest {
    type V = LaunchRequestView;

    open spec fn view(&self) -> LaunchRequestView {
        LaunchRequestView {
            program: self.program@,
            args: texts(self.args@),
            custom_error: opt_text(self.custom_error),
        }
    }
}

/// What a launcher that waits comes back with: what the finished process
/// left behind, or the text of the failure to start or await it.
pub type LaunchResult = Result<ProcessOutput, String>;

/// The mathematical value of a [`LaunchResult`].
pub type LaunchView = Result<ProcessOutputView, Seq<char>>;

/// The view of what a launcher came back with.
pub open spec fn launch_view(result: LaunchResult) -> LaunchView {
    match result {
        Ok(output) => Ok(output@),
        Err(error) => Err(error@),
    }
}

/// What a launcher came back with, as the outcome of an operation.
pub open spec fn as_outcome(result: LaunchView) -> OutcomeView {
    match result {
        Ok(output) => Ok(CommandResultView::ChildProcess(Some(output))),
        Err(error) => Err(error),
    }
}

/// The launcher accepts every request.
pub open spec fn can_launch<L: Fn(LaunchRequest) -> LaunchResult>(launch: &L) -> bool {
    forall|request: LaunchRequest| call_requires(*launch, (request,))
}

/// The launcher was handed a request with the given value and came back
/// with `result`.
pub open spec fn launched<L: Fn(LaunchRequest) -> LaunchResult>(
    launch: &L,
    request: LaunchRequestView,
    result: LaunchResult,
) -> bool {
    exists|handed: LaunchRequest| handed@ == request && call_ensures(*launch, (handed,), result)
}

/// The starter of detached helpers was handed a request with the given
/// value.
pub open spec fn spawned<S: Fn(LaunchRequest)>(spawn: &S, request: LaunchRequestView) -> bool {
    exists|handed: LaunchRequest| handed@ == request && call_ensures(*spawn, (handed,), ())
}

/// Hands `request` to the launcher and returns what it came back with.
pub fn run<L: Fn(LaunchRequest) -> LaunchResult>(launch: &L, request: LaunchRequest) -> (result:
    LaunchResult)
    requires
        can_launch(launch),
    ensures
        launched(launch, request@, result),
{
    launch(request)
}

/// Hands `request` to the starter of detached helpers.
pub fn start<S: Fn(LaunchRequest)>(spawn: &S, request: LaunchRequest)
    requires
        can_spawn(spawn),
    ensures
        spawned(spawn, request@),
{
    spawn(request)
}

/// What a launcher came back with, as the outcome of an operation.
pub fn into_outcome(result: LaunchResult) -> (outcome: CommandExecutionResult)
    ensures
        outcome_view(outcome) == as_outcome(launch_view(result)),
{
    match result {
        Ok(output) => Ok(CommandResultType::ChildProcess(Some(output))),
        Err(error) => Err(error),
    }
}

/// A request for `program` with the given arguments and failure text.
pub fn request(program: &str, args: Vec<String>, custom_error: Option<String>) -> (request:
    LaunchRequest)
    ensures
        request@ == (LaunchRequestView {
            program: program@,
            args: texts(args@),
            custom_error: opt_text(custom_error),
        }),
{
    LaunchRequest { program: String::from_str(program), args, custom_error }
}

/// The starter of detached helpers accepts every request.
pub open spec fn can_spawn<S: Fn(LaunchRequest)>(spawn: &S) -> bool {
    forall|request: LaunchRequest| call_requires(*spawn, (request,))
}

/// The text reported when a program could not be started: the caller's own
/// where it gave one, else that of the operating system.
pub fn spawn_failure_message(custom_error: Option<String>, os_error: String) -> (message: String)
    ensures
        message@ == match custom_error {
            Some(custom) => custom@,
            None => os_error@,
        },
{
    match custom_error {
        Some(custom) => custom,
        None => os_error,
    }
}

/// The value that ends one item of a command in its fingerprint; no
/// character has it.
pub const ITEM_END: u64 = 0x110000;

/// The fingerprint of the empty input.
pub const FINGERPRINT_SEED: u64 = 14695981039346656037;

/// The factor by which a fingerprint is stretched before the next value is
/// added.
pub const FINGERPRINT_FACTOR: u64 = 1099511628211;

/// The fingerprint `h` after one more value.
pub open spec fn mix(h: u64, value: u64) -> u64 {
    h.wrapping_mul(FINGERPRINT_FACTOR).wrapping_add(value)
}

/// The fingerprint `h` after the characters of `s`.
pub open spec fn mix_text(h: u64, s: Seq<char>) -> u64
    decreases s.len(),
{
    if s.len() == 0 {
        h
    } else {
        mix(mix_text(h, s.drop_last()), s.last() as u64)
    }
}

/// The fingerprint `h` after the items, each followed by [`ITEM_END`].
pub open spec fn mix_items(h: u64, items: Seq<Seq<char>>) -> u64
    decreases items.len(),
{
    if items.len() == 0 {
        h
    } else {
        mix(mix_text(mix_items(h, items.drop_last()), items.last()), ITEM_END)
    }
}

/// The fingerprint of a command: a function of the program's name and of
/// the arguments in their order, and of nothing else.
pub open spec fn fingerprint_of(program: Seq<char>, args: Seq<Seq<char>>) -> u64 {
    mix_items(mix(mix_text(FINGERPRINT_SEED, program), ITEM_END), args)
}

/// The fingerprint `h` after one more value.
fn mix_value(h: u64, value: u64) -> (out: u64)
    ensures
        out == mix(h, value),
{
    h.wrapping_mul(FINGERPRINT_FACTOR).wrapping_add(value)
}

/// The fingerprint `h` after the characters of `s`.
fn mix_str(h: u64, s: &str) -> (out: u64)
    ensures
        out == mix_text(h, s@),
{
    let chars = chars_of(s);
    let mut out: u64 = h;
    let mut i: usize = 0;
    while i < chars.len()
        invariant
            i <= chars.len(),
            chars@ == s@,
            out == mix_text(h, chars@.take(i as int)),
        decreases chars.len() - i,
    {
        proof {
            assert(chars@.take(i + 1).drop_last() =~= chars@.take(i as int));
        }
        out = mix_value(out, chars[i] as u64);
        i += 1;
    }
    proof {
        assert(chars@.take(chars.len() as int) =~= chars@);
    }
    out
}

/// The fingerprint of the command that starts `program` with `args`.
pub fn fingerprint(program: &str, args: &Vec<String>) -> (print: u64)
    ensures
        print == fingerprint_of(program@, texts(args@)),
{
    let mut print: u64 = mix_value(mix_str(FINGERPRINT_SEED, program), ITEM_END);
    let ghost start = print;
    let mut i: usize = 0;
    while i < args.len()
        invariant
            i <= args.len(),
            print == mix_items(start, texts(args@).take(i as int)),
        decreases args.len() - i,
    {
        proof {
            assert(texts(args@).take(i + 1).drop_last() =~= texts(args@).take(i as int));
            assert(texts(args@).take(i + 1).last() == args@[i as int]@);
        }
        print = mix_value(mix_str(print, args[i].as_str()), ITEM_END);
        i += 1;
    }
    proof {
        assert(texts(args@).take(args.len() as int) =~= texts(args@));
    }
    print
}

/// The fingerprint of the command that `request` starts.
pub fn request_fingerprint(request: &LaunchRequest) -> (print: u64)
    ensures
        print == fingerprint_of(request@.program, request@.args),
{
    fingerprint(request.program.as_str(), &request.args)
}

/// What a list of entries holds under each fingerprint.
pub open spec fn entries_map<H>(entries: Seq<(u64, H)>) -> Map<u64, H>
    decreases entries.len(),
{
    if entries.len() == 0 {
        Map::empty()
    } else {
        entries_map(entries.drop_last()).insert(entries.last().0, entries.last().1)
    }
}

/// No two entries have the same fingerprint.
pub open spec fn distinct_prints<H>(entries: Seq<(u64, H)>) -> bool {
    forall|i: int, j: int|
        0 <= i < j < entries.len() ==> (#[trigger] entries[i]).0 != (#[trigger] entries[j]).0
}

/// The registry after a caller with `handle` asked for `print`, and the
/// handle that it was given back: the one already there, or none where the
/// caller's own was put down.
pub open spec fn reserved<H>(held: Map<u64, H>, print: u64, handle: H) -> (Map<u64, H>, Option<H>) {
    if held.dom().contains(print) {
        (held, Some(held[print]))
    } else {
        (held.insert(print, handle), None)
    }
}

/// The handles of the helpers that were started, by the fingerprint of
/// their command. It only grows. It is meant to be shared behind a lock that
/// is held for one call at a time.
pub struct ProcessRegistry<H> {
    entries: Vec<(u64, H)>,
}

impl<H> View for ProcessRegistry<H> {
    type V = Map<u64, H>;

    closed spec fn view(&self) -> Map<u64, H> {
        entries_map(self.entries@)
    }
}

/// With distinct fingerprints, the entries and what they hold under each
/// fingerprint are the same thing.
proof fn lemma_entries_map<H>(entries: Seq<(u64, H)>)
    requires
        distinct_prints(entries),
    ensures
        forall|i: int|
            0 <= i < entries.len() ==> entries_map(entries).dom().contains(
                (#[trigger] entries[i]).0,
            ) && entries_map(entries)[entries[i].0] == entries[i].1,
        forall|print: u64|
            entries_map(entries).dom().contains(print) ==> exists|i: int|
                0 <= i < entries.len() && (#[trigger] entries[i]).0 == print,
        entries_map(entries).dom().finite(),
        entries_map(entries).dom().len() == entries.len(),
    decreases entries.len(),
{
    if entries.len() > 0 {
        let before = entries.drop_last();
        assert(distinct_prints(before)) by {
            assert forall|i: int, j: int| 0 <= i < j < before.len() implies (
            #[trigger] before[i]).0 != (#[trigger] before[j]).0 by {
                assert(before[i] == entries[i]);
                assert(before[j] == entries[j]);
            }
        }
        lemma_entries_map(before);
        let last = entries.last();
        assert(!entries_map(before).dom().contains(last.0)) by {
            if entries_map(before).dom().contains(last.0) {
                let i = choose|i: int| 0 <= i < before.len() && (#[trigger] before[i]).0 == last.0;
                assert(before[i] == entries[i]);
                assert(entries[i].0 != entries[entries.len() - 1].0);
            }
        }
        assert forall|i: int| 0 <= i < entries.len() implies entries_map(entries).dom().contains(
            (#[trigger] entries[i]).0,
        ) && entries_map(entries)[entries[i].0] == entries[i].1 by {
            if i < entries.len() - 1 {
                assert(before[i] == entries[i]);
                assert(entries[i].0 != entries[entries.len() - 1].0);
            }
        }
        assert forall|print: u64| entries_map(entries).dom().contains(print) implies exists|i: int|
            0 <= i < entries.len() && (#[trigger] entries[i]).0 == print by {
            if print == last.0 {
                assert(entries[entries.len() - 1].0 == print);
            } else {
                let i = choose|i: int| 0 <= i < before.len() && (#[trigger] before[i]).0 == print;
                assert(entries[i].0 == print);
            }
        }
    }
}

impl<H> ProcessRegistry<H> {
    /// No fingerprint is held twice.
    pub closed spec fn wf(&self) -> bool {
        distinct_prints(self.entries@)
    }

    /// A registry that holds nothing.
    pub fn new() -> (registry: ProcessRegistry<H>)
        ensures
            registry.wf(),
            registry@ == Map::<u64, H>::empty(),
    {
        ProcessRegistry { entries: Vec::new() }
    }

    /// How many fingerprints are held.
    pub fn len(&self) -> (n: usize)
        requires
            self.wf(),
        ensures
            n == self@.dom().len(),
            self@.dom().finite(),
    {
        proof {
            lemma_entries_map(self.entries@);
        }
        self.entries.len()
    }

    /// The handle held under `print`, if there is one.
    pub fn lookup(&self, print: u64) -> (held: Option<&H>)
        requires
            self.wf(),
        ensures
            match held {
                Some(handle) => self@.dom().contains(print) && *handle == self@[print],
                None => !self@.dom().contains(print),
            },
    {
        proof {
            lemma_entries_map(self.entries@);
        }
        let mut i: usize = 0;
        while i < self.entries.len()
            invariant
                i <= self.entries.len(),
                distinct_prints(self.entries@),
                forall|k: int| 0 <= k < i ==> (#[trigger] self.entries@[k]).0 != print,
            decreases self.entries.len() - i,
        {
            if self.entries[i].0 == print {
                proof {
                    lemma_entries_map(self.entries@);
                }
                return Some(&self.entries[i].1);
            }
            i += 1;
        }
        None
    }

    /// Looks `print` up and, where nothing is held under it, puts `handle`
    /// down for it. The caller is handed the handle that was there before;
    /// `None` tells it that its own was put down and the helper is its to
    /// start. Nothing that was held is changed or removed.
    pub fn get_or_reserve(&mut self, print: u64, handle: H) -> (existing: Option<&H>)
        requires
            old(self).wf(),
        ensures
            final(self).wf(),
            final(self)@ == reserved(old(self)@, print, handle).0,
            match existing {
                Some(held) => reserved(old(self)@, print, handle).1 == Some(*held),
                None => reserved(old(self)@, print, handle).1 is None,
            },
            old(self)@.submap_of(final(self)@),
    {
        proof {
            lemma_entries_map(self.entries@);
        }
        let mut i: usize = 0;
        while i < self.entries.len()
            invariant
                i <= self.entries.len(),
                self.entries@ == old(self).entries@,
                distinct_prints(self.entries@),
                forall|k: int| 0 <= k < i ==> (#[trigger] self.entries@[k]).0 != print,
            decreases self.entries.len() - i,
        {
            if self.entries[i].0 == print {
                proof {
                    lemma_entries_map(self.entries@);
                }
                return Some(&self.entries[i].1);
            }
            i += 1;
        }
        self.entries.push((print, handle));
        proof {
            assert(self.entries@.drop_last() =~= old(self).entries@);
        }
        None
    }

    /// Puts `handle` down for `print` in the place of a handle whose helper
    /// was found to have ended. Nothing else is changed.
    pub fn replace(&mut self, print: u64, handle: H)
        requires
            old(self).wf(),
        ensures
            final(self).wf(),
            final(self)@ == old(self)@.insert(print, handle),
    {
        proof {
            lemma_entries_map(self.entries@);
        }
        let mut i: usize = 0;
        while i < self.entries.len()
            invariant
                i <= self.entries.len(),
                self.entries@ == old(self).entries@,
                distinct_prints(self.entries@),
                forall|k: int| 0 <= k < i ==> (#[trigger] self.entries@[k]).0 != print,
            decreases self.entries.len() - i,
        {
            if self.entries[i].0 == print {
                self.entries.set(i, (print, handle));
                proof {
                    lemma_replaced(old(self).entries@, i as int, handle);
                    assert(self.entries@ =~= old(self).entries@.update(i as int, (print, handle)));
                }
                return ;
            }
            i += 1;
        }
        self.entries.push((print, handle));
        proof {
            assert(self.entries@.drop_last() =~= old(self).entries@);
        }
    }

    /// Decides whether the caller with `handle` is to start the helper for
    /// `print`, and puts its handle down where it is. Where nothing is held
    /// under `print`, the helper is the caller's to start. Where a handle is
    /// held, `has_ended` is asked of it: a helper that has ended is treated
    /// as absent, and the caller's handle takes the place of the old one; a
    /// helper that still runs is not started again, and the registry stays
    /// as it was.
    pub fn claim<F: Fn(&H) -> bool>(&mut self, print: u64, handle: H, has_ended: &F) -> (start:
        bool)
        requires
            old(self).wf(),
            forall|held: &H| call_requires(*has_ended, (held,)),
        ensures
            final(self).wf(),
            !old(self)@.dom().contains(print) ==> start,
            old(self)@.dom().contains(print) ==> call_ensures(
                *has_ended,
                (&old(self)@[print],),
                start,
            ),
            final(self)@ == if start {
                old(self)@.insert(print, handle)
            } else {
                old(self)@
            },
    {
        let earlier_ended = match self.lookup(print) {
            Some(earlier) => Some(has_ended(earlier)),
            None => None,
        };
        let start = may_start(earlier_ended);
        if start {
            self.replace(print, handle);
        }
        start
    }
}

/// Whether a helper is to be started, given what was found of an earlier
/// helper with the same command: `None` where there was none, and else
/// whether it has ended. Only a helper that still runs keeps a new one from
/// being started.
pub fn may_start(earlier_ended: Option<bool>) -> (start: bool)
    ensures
        start == (earlier_ended != Some(false)),
{
    match earlier_ended {
        Some(false) => false,
        _ => true,
    }
}

/// Putting a new handle in the place of one entry changes what is held
/// under its fingerprint and nothing else.
proof fn lemma_replaced<H>(entries: Seq<(u64, H)>, at: int, handle: H)
    requires
        distinct_prints(entries),
        0 <= at < entries.len(),
    ensures
        distinct_prints(entries.update(at, (entries[at].0, handle))),
        entries_map(entries.update(at, (entries[at].0, handle))) == entries_map(entries).insert(
            entries[at].0,
            handle,
        ),
{
    let print = entries[at].0;
    let after = entries.update(at, (print, handle));
    assert(distinct_prints(after)) by {
        assert forall|i: int, j: int| 0 <= i < j < after.len() implies (#[trigger] after[i]).0 != (
        #[trigger] after[j]).0 by {
            assert(after[i].0 == entries[i].0);
            assert(after[j].0 == entries[j].0);
        }
    }
    lemma_entries_map(entries);
    lemma_entries_map(after);
    let left = entries_map(after);
    let right = entries_map(entries).insert(print, handle);
    assert forall|k: u64| left.dom().contains(k) <==> right.dom().contains(k) by {
        if left.dom().contains(k) {
            let i = choose|i: int| 0 <= i < after.len() && (#[trigger] after[i]).0 == k;
            assert(entries[i].0 == k);
        }
        if right.dom().contains(k) && k != print {
            let i = choose|i: int| 0 <= i < entries.len() && (#[trigger] entries[i]).0 == k;
            assert(after[i].0 == k);
        }
        if k == print {
            assert(after[at].0 == k);
        }
    }
    assert forall|k: u64| left.dom().contains(k) implies left[k] == right[k] by {
        let i = choose|i: int| 0 <= i < after.len() && (#[trigger] after[i]).0 == k;
        assert(left[after[i].0] == after[i].1);
        if i != at {
            assert(entries[i].0 == k);
            assert(entries_map(entries)[entries[i].0] == entries[i].1);
        } else {
            assert(k == print);
        }
    }
    assert(left =~= right);
}

/// Of two callers that ask for the same fingerprint one after the other,
/// only the first is told to start the helper; the second is handed the
/// handle of the first, and the registry holds one handle for the
/// fingerprint.
pub proof fn lemma_second_caller_gets_first_handle<H>(
    held: Map<u64, H>,
    print: u64,
    first: H,
    second: H,
)
    requires
        !held.dom().contains(print),
    ensures
        reserved(held, print, first).1 is None,
        reserved(reserved(held, print, first).0, print, second).1 == Some(first),
        reserved(reserved(held, print, first).0, print, second).0 == reserved(held, print, first).0,
{
}

/// Commands with the same program and the same arguments have the same
/// fingerprint, so that the second of two such launches finds the first.
pub proof fn lemma_same_command_same_fingerprint(
    program_a: Seq<char>,
    args_a: Seq<Seq<char>>,
    program_b: Seq<char>,
    args_b: Seq<Seq<char>>,
)
    requires
        program_a == program_b,
        args_a == args_b,
    ensures
        fingerprint_of(program_a, args_a) == fingerprint_of(program_b, args_b),
{
}

/// Asking never removes a handle nor changes one that is held.
pub proof fn lemma_registry_only_grows<H>(held: Map<u64, H>, print: u64, handle: H)
    ensures
        held.submap_of(reserved(held, print, handle).0),
{
}

} // verus!
