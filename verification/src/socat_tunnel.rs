//! Network relays: `socat` processes that listen on a local port and pass
//! what arrives on to a host and port, over TCP or UDP. Any number of them
//! may run side by side. A relay is the four values of [`NetworkRelay`] and
//! nothing else: its process is recognised by the arguments that those four
//! values give, compared in full.

use crate::launcher::{can_spawn, request, start, LaunchRequest, LaunchRequestView};
use crate::pattern::{captured_view, captures, regex_captures};
use crate::poller::{
    await_condition, lemma_first_ready_none, lemma_ready_at_kth_call, poll_result,
    DEFAULT_MAX_ATTEMPTS, PollOutcome, PollReport,
};
use crate::relay_identity::lemma_relay_process_is_its_own;
use crate::results::{
    listed, listing, merge_outcome, nothing, outcome_view, plain_lines, printable, printable_line,
    CommandExecutionResult, CommandResultType, CommandResultView, MergePolicy, OutcomeView,
};
use crate::scanner::{
    entry_views, find, get_sys_info, held_entry, hit_views, hits, kill, listed_by_name, matching,
    one_pattern, processes_by_name, system_processes, wait, ProcessEntry, ProcessEntryView,
    ProcessTable,
};
use crate::settings::{or_default, setting_or, Settings, SettingsView};
use crate::text::{
    concat, contains, decimal, decimal_string, decimal_u16, occurs_in, parse_decimal_u16, push_text,
    texts,
};
use vstd::prelude::*;

verus! {

/// The transport of a relay.
#[derive(Clone, Copy, PartialEq, Eq, Structural, Debug)]
pub enum Protocol {
    Tcp,
    Udp,
}

/// One relay: the transport, the local port it listens on, and the host and
/// port it connects to.
#[derive(Clone, Debug, PartialEq, Eq)]
pub struct NetworkRelay {
    pub protocol: Protocol,
    pub listening_port: u16,
    pub connect_host: String,
    pub connect_port: u16,
}

/// The mathematical value of a [`NetworkRelay`].
pub struct NetworkRelayView {
    pub protocol: Protocol,
    pub listening_port: u16,
    pub connect_host: Seq<char>,
    pub connect_port: u16,
}

impl View for NetworkRelay {
    type V = NetworkRelayView;

    open spec fn view(&self) -> NetworkRelayView {
        NetworkRelayView {
            protocol: self.protocol,
            listening_port: self.listening_port,
            connect_host: self.connect_host@,
            connect_port: self.connect_port,
        }
    }
}

/// How `socat` spells a transport.
pub open spec fn protocol_text(protocol: Protocol) -> Seq<char> {
    match protocol {
        Protocol::Tcp => "tcp"@,
        Protocol::Udp => "udp"@,
    }
}

/// The label that marks a `socat` process as a relay of this tool.
pub open spec fn relay_label() -> Seq<char> {
    "-lpkube-minion-socat"@
}

/// The argument that tells `socat` where to listen.
pub open spec fn listen_spec(relay: NetworkRelayView) -> Seq<char> {
    protocol_text(relay.protocol) + "-listen:"@ + decimal(relay.listening_port as nat)
        + ",fork,reuseaddr"@
}

/// The argument that tells `socat` where to connect.
pub open spec fn connect_spec(relay: NetworkRelayView) -> Seq<char> {
    protocol_text(relay.protocol) + ":"@ + relay.connect_host + ":"@ + decimal(
        relay.connect_port as nat,
    )
}

/// The arguments with which the process of a relay runs.
pub open spec fn relay_args(relay: NetworkRelayView) -> Seq<Seq<char>> {
    seq![relay_label(), listen_spec(relay), connect_spec(relay)]
}

/// What the relay listens on and connects to, as the lines of a report put
/// it.
pub open spec fn relay_described(relay: NetworkRelayView) -> Seq<char> {
    "socat tunnel listening on port "@ + decimal(relay.listening_port as nat)
        + " and connecting to "@ + relay.connect_host + ":"@ + decimal(relay.connect_port as nat)
}

/// The text to report when the process of the relay cannot be started.
pub open spec fn relay_start_failure(relay: NetworkRelayView) -> Seq<char> {
    "Failed to start socat tunnel listening on port "@ + decimal(relay.listening_port as nat)
        + "/"@ + protocol_text(relay.protocol) + " and connecting to "@ + relay.connect_host
        + ":"@ + decimal(relay.connect_port as nat)
}

/// The command that starts the process of a relay.
pub open spec fn relay_request(relay: NetworkRelayView) -> LaunchRequestView {
    LaunchRequestView {
        program: "socat"@,
        args: relay_args(relay),
        custom_error: Some(relay_start_failure(relay)),
    }
}

/// The process is named like `socat` and runs with exactly the arguments of
/// the relay.
pub open spec fn is_relay_process(entry: ProcessEntryView, relay: NetworkRelayView) -> bool {
    &&& occurs_in(entry.name, "socat"@)
    &&& entry.cmd.len() == 4
    &&& entry.cmd[1] == relay_label()
    &&& entry.cmd[2] == listen_spec(relay)
    &&& entry.cmd[3] == connect_spec(relay)
}

/// The identifier of the first process at or after index `from` that is the
/// relay's.
pub open spec fn relay_process_from(
    entries: Seq<ProcessEntryView>,
    relay: NetworkRelayView,
    from: int,
) -> Option<u32>
    decreases entries.len() - from,
{
    if from < 0 || from >= entries.len() {
        None
    } else if is_relay_process(entries[from], relay) {
        Some(entries[from].pid)
    } else {
        relay_process_from(entries, relay, from + 1)
    }
}

/// The identifier of the first process of the snapshot that is the relay's.
pub open spec fn relay_process(entries: Seq<ProcessEntryView>, relay: NetworkRelayView) -> Option<
    u32,
> {
    relay_process_from(entries, relay, 0)
}

impl NetworkRelay {
    /// The relay with the given four values.
    pub fn new(
        protocol: Protocol,
        listening_port: u16,
        connect_host: &str,
        connect_port: u16,
    ) -> (relay: NetworkRelay)
        ensures
            relay@ == (NetworkRelayView {
                protocol,
                listening_port,
                connect_host: connect_host@,
                connect_port,
            }),
    {
        NetworkRelay {
            protocol,
            listening_port,
            connect_host: String::from_str(connect_host),
            connect_port,
        }
    }

    /// Whether `self` and `other` are the same relay: the same in all four
    /// values.
    pub fn same_resource(&self, other: &NetworkRelay) -> (same: bool)
        ensures
            same == (self@ == other@),
    {
        self.protocol == other.protocol && self.listening_port == other.listening_port
            && self.connect_host == other.connect_host && self.connect_port == other.connect_port
    }
}

/// How `socat` spells `protocol`.
pub fn protocol_name(protocol: Protocol) -> (name: &'static str)
    ensures
        name@ == protocol_text(protocol),
{
    match protocol {
        Protocol::Tcp => "tcp",
        Protocol::Udp => "udp",
    }
}

/// The transport that `text` spells: `tcp` or `udp`, in lower case.
pub fn parse_protocol(text: &str) -> (protocol: Option<Protocol>)
    ensures
        protocol == if text@ == "tcp"@ {
            Some(Protocol::Tcp)
        } else if text@ == "udp"@ {
            Some(Protocol::Udp)
        } else {
            None
        },
{
    let given = String::from_str(text);
    if given == String::from_str("tcp") {
        Some(Protocol::Tcp)
    } else if given == String::from_str("udp") {
        Some(Protocol::Udp)
    } else {
        None
    }
}

/// The argument that tells `socat` where to listen.
pub fn listen_argument(relay: &NetworkRelay) -> (argument: String)
    ensures
        argument@ == listen_spec(relay@),
{
    let mut argument = String::from_str(protocol_name(relay.protocol));
    argument.append("-listen:");
    argument.append(decimal_string(relay.listening_port as u64).as_str());
    argument.append(",fork,reuseaddr");
    argument
}

/// The argument that tells `socat` where to connect.
pub fn connect_argument(relay: &NetworkRelay) -> (argument: String)
    ensures
        argument@ == connect_spec(relay@),
{
    let mut argument = String::from_str(protocol_name(relay.protocol));
    argument.append(":");
    argument.append(relay.connect_host.as_str());
    argument.append(":");
    argument.append(decimal_string(relay.connect_port as u64).as_str());
    argument
}

/// The line `prefix`, a space, and what the relay listens on and connects
/// to.
pub fn relay_line(prefix: &str, relay: &NetworkRelay) -> (line: String)
    ensures
        line@ == prefix@ + " "@ + relay_described(relay@),
{
    let mut line = String::from_str(prefix);
    line.append(" ");
    line.append("socat tunnel listening on port ");
    line.append(decimal_string(relay.listening_port as u64).as_str());
    line.append(" and connecting to ");
    line.append(relay.connect_host.as_str());
    line.append(":");
    line.append(decimal_string(relay.connect_port as u64).as_str());
    assert(line@ =~= prefix@ + " "@ + relay_described(relay@));
    line
}

/// The command that starts the process of `relay`.
pub fn socat_tunnel_command(relay: &NetworkRelay) -> (command: LaunchRequest)
    ensures
        command@ == relay_request(relay@),
{
    let mut args: Vec<String> = Vec::new();
    push_text(&mut args, "-lpkube-minion-socat");
    push_text(&mut args, listen_argument(relay).as_str());
    push_text(&mut args, connect_argument(relay).as_str());
    assert(texts(args@) =~= relay_args(relay@));
    let mut failure = String::from_str("Failed to start socat tunnel listening on port ");
    failure.append(decimal_string(relay.listening_port as u64).as_str());
    failure.append("/");
    failure.append(protocol_name(relay.protocol));
    failure.append(" and connecting to ");
    failure.append(relay.connect_host.as_str());
    failure.append(":");
    failure.append(decimal_string(relay.connect_port as u64).as_str());
    assert(failure@ =~= relay_start_failure(relay@));
    request("socat", args, Some(failure))
}

/// Whether `entry` is the process of `relay`.
pub fn is_relay_entry(entry: &ProcessEntry, relay: &NetworkRelay) -> (hit: bool)
    ensures
        hit == is_relay_process(entry@, relay@),
{
    if !contains(entry.name.as_str(), "socat") {
        return false;
    }
    if entry.cmd.len() != 4 {
        return false;
    }
    proof {
        assert(entry@.cmd[1] == entry.cmd@[1]@);
        assert(entry@.cmd[2] == entry.cmd@[2]@);
        assert(entry@.cmd[3] == entry.cmd@[3]@);
    }
    entry.cmd[1] == String::from_str("-lpkube-minion-socat") && entry.cmd[2] == listen_argument(
        relay,
    ) && entry.cmd[3] == connect_argument(relay)
}

/// The identifier of the first process of the snapshot that is the
/// relay's; `None` where the relay is absent.
pub fn check_socat_tunnel(entries: &Vec<ProcessEntry>, relay: &NetworkRelay) -> (pid: Option<u32>)
    ensures
        pid == relay_process(entry_views(entries@), relay@),
{
    let mut i: usize = 0;
    while i < entries.len()
        invariant
            i <= entries.len(),
            relay_process(entry_views(entries@), relay@) == relay_process_from(
                entry_views(entries@),
                relay@,
                i as int,
            ),
        decreases entries.len() - i,
    {
        assert(entry_views(entries@)[i as int] == entries@[i as int]@);
        if is_relay_entry(&entries[i], relay) {
            return Some(entries[i].pid);
        }
        i += 1;
    }
    None
}

/// A process of the relay is among the processes that the table holds.
pub open spec fn relay_held(held: ProcessTable, relay: NetworkRelayView) -> bool {
    exists|pid: u32|
        held.dom().contains(pid) && is_relay_process(#[trigger] held_entry(held, pid), relay)
}

/// There is an answer to the signal exactly where the entries hold a
/// process of the relay and the table holds a process under its identifier.
pub open spec fn relay_attempted(
    held: ProcessTable,
    entries: Seq<ProcessEntryView>,
    relay: NetworkRelayView,
    attempt: Option<bool>,
) -> bool {
    attempt is Some <==> (relay_process(entries, relay) matches Some(pid) && held.dom().contains(
        pid,
    ))
}

/// The entries are what the snapshot lists under the name of `socat`.
pub open spec fn relays_listed(sys: sysinfo::System, entries: Seq<ProcessEntryView>) -> bool {
    listed_by_name(system_processes(sys), "socat"@, entries)
}

/// The entries that were listed under the name of `socat` hold a process of
/// the relay exactly if the table that they were listed from holds one, and
/// the table holds that process under its identifier.
pub proof fn lemma_listed_relay_is_held(
    held: ProcessTable,
    found: Seq<ProcessEntryView>,
    relay: NetworkRelayView,
)
    requires
        listed_by_name(held, "socat"@, found),
    ensures
        relay_process(found, relay) is Some <==> relay_held(held, relay),
        relay_process(found, relay) matches Some(pid) ==> held.dom().contains(pid),
{
    lemma_relay_process_is_its_own(found, relay, 0);
    if relay_process(found, relay) is Some {
        let i = choose|i: int|
            0 <= i < found.len() && (#[trigger] found[i]).pid == relay_process(found, relay)->0
                && is_relay_process(found[i], relay);
        assert(held_entry(held, found[i].pid) == found[i]);
        assert(relay_held(held, relay));
    }
    if relay_held(held, relay) {
        let pid = choose|pid: u32|
            held.dom().contains(pid) && is_relay_process(#[trigger] held_entry(held, pid), relay);
        assert(held.dom().contains(pid) && occurs_in(held[pid].0, "socat"@));
        let i = choose|i: int| 0 <= i < found.len() && (#[trigger] found[i]).pid == pid;
        assert(held_entry(held, found[i].pid) == found[i]);
        assert(is_relay_process(found[i], relay));
    }
}

/// Whether the relay is present now: a fresh snapshot of the process table
/// is taken, and the answer is whether its table holds a process of the
/// relay.
fn socat_tunnel_present(relay: &NetworkRelay) -> (present: bool)
    ensures
        exists|sys: sysinfo::System| present == relay_held(system_processes(sys), relay@),
{
    let sys = get_sys_info();
    let entries = processes_by_name(&sys, "socat");
    let present = check_socat_tunnel(&entries, relay).is_some();
    proof {
        lemma_listed_relay_is_held(system_processes(sys), entry_views(entries@), relay@);
        assert(present == relay_held(system_processes(sys), relay@));
    }
    present
}

/// The relays of this tool among the entries, in order.
pub open spec fn relay_processes(entries: Seq<ProcessEntryView>) -> Seq<ProcessEntryView> {
    matching(entries, "socat"@, seq![relay_label()])
}

/// The relays of this tool in the snapshot, in its order: every process
/// named like `socat` that carries the label, with its identifier and
/// command line.
pub fn socat_tunnels(entries: &Vec<ProcessEntry>) -> (found: Vec<(u32, String)>)
    ensures
        hit_views(found@) == hits(relay_processes(entry_views(entries@))),
{
    let patterns = one_pattern("-lpkube-minion-socat");
    find(entries, "socat", &patterns)
}

/// The command lines of a query's answer.
pub open spec fn hit_lines(found: Seq<(u32, Seq<char>)>) -> Seq<Seq<char>> {
    Seq::new(found.len(), |i: int| found[i].1)
}

/// The command lines of a query's answer, in order.
pub fn lines_of_hits(found: &Vec<(u32, String)>) -> (rows: Vec<String>)
    ensures
        texts(rows@) == hit_lines(hit_views(found@)),
{
    let mut rows: Vec<String> = Vec::new();
    let mut i: usize = 0;
    while i < found.len()
        invariant
            i <= found.len(),
            texts(rows@) == hit_lines(hit_views(found@)).take(i as int),
        decreases found.len() - i,
    {
        let row = found[i].1.clone();
        let ghost before = texts(rows@);
        rows.push(row);
        assert(texts(rows@) =~= before.push(found@[i as int].1@));
        assert(texts(rows@) =~= hit_lines(hit_views(found@)).take(i + 1));
        i += 1;
    }
    assert(hit_lines(hit_views(found@)).take(found.len() as int) =~= hit_lines(hit_views(found@)));
    rows
}

/// What listing the relays of a snapshot shows: their command lines under a
/// title.
pub open spec fn socat_tunnels_listed(entries: Seq<ProcessEntryView>) -> OutcomeView {
    listed("Socat tunnels:"@, hit_lines(hits(relay_processes(entries))))
}

/// Lists the relays of this tool that the snapshot holds.
pub fn list_socat_tunnels(entries: &Vec<ProcessEntry>) -> (outcome: CommandExecutionResult)
    ensures
        outcome_view(outcome) == socat_tunnels_listed(entry_views(entries@)),
        outcome matches Ok(CommandResultType::PrintableResults(_, _)),
{
    let found = socat_tunnels(entries);
    listing("Socat tunnels:", lines_of_hits(&found))
}

/// Lists the relays of this tool that are alive now, by a fresh snapshot of
/// the process table. It does not fail.
pub fn fetch_socat_tunnels() -> (outcome: CommandExecutionResult)
    ensures
        outcome matches Ok(CommandResultType::PrintableResults(_, _)),
        exists|sys: sysinfo::System, entries: Seq<ProcessEntryView>|
            relays_listed(sys, entries) && outcome_view(outcome) == socat_tunnels_listed(entries),
{
    let sys = get_sys_info();
    let entries = processes_by_name(&sys, "socat");
    let outcome = list_socat_tunnels(&entries);
    assert(relays_listed(sys, entry_views(entries@)));
    outcome
}

/// The pattern that reads a relay from the command line of its process.
pub const RELAY_PATTERN: &'static str =
    ".+?\\s(?<protocol>tcp|udp)-listen:(?<listening_port>[0-9]+).+?:(?<connect_host>.+):(?<connect_port>[0-9]+)$";

/// The pattern that reads a relay from the command line of its process.
pub open spec fn relay_pattern() -> Seq<char> {
    RELAY_PATTERN@
}

/// The relay that captured groups describe: the transport, the listening
/// port, the host and the connect port are the groups after the whole
/// match, in this order; each must have taken part, the transport must be
/// `tcp` or `udp`, and each port must be a number of sixteen bits.
pub open spec fn relay_from_groups(groups: Option<Seq<Option<Seq<char>>>>) -> Option<
    NetworkRelayView,
> {
    match groups {
        Some(groups) => if groups.len() == 5 && groups[1] is Some && groups[2] is Some
            && groups[3] is Some && groups[4] is Some && (groups[1]->0 == "tcp"@ || groups[1]->0
            == "udp"@) && decimal_u16(groups[2]->0) is Some && decimal_u16(groups[4]->0) is Some {
            Some(
                NetworkRelayView {
                    protocol: if groups[1]->0 == "tcp"@ {
                        Protocol::Tcp
                    } else {
                        Protocol::Udp
                    },
                    listening_port: decimal_u16(groups[2]->0)->0,
                    connect_host: groups[3]->0,
                    connect_port: decimal_u16(groups[4]->0)->0,
                },
            )
        } else {
            None
        },
        None => None,
    }
}

/// The view of an optional relay.
pub open spec fn relay_view(relay: Option<NetworkRelay>) -> Option<NetworkRelayView> {
    match relay {
        Some(relay) => Some(relay@),
        None => None,
    }
}

/// The relay that captured groups describe.
pub fn relay_of_groups(groups: Option<Vec<Option<String>>>) -> (relay: Option<NetworkRelay>)
    ensures
        relay_view(relay) == relay_from_groups(captured_view(groups)),
{
    let groups = match groups {
        Some(groups) => groups,
        None => {
            return None;
        },
    };
    if groups.len() != 5 {
        return None;
    }
    proof {
        let views = crate::pattern::group_views(groups@);
        assert(views[1] == crate::results::opt_text(groups@[1]));
        assert(views[2] == crate::results::opt_text(groups@[2]));
        assert(views[3] == crate::results::opt_text(groups@[3]));
        assert(views[4] == crate::results::opt_text(groups@[4]));
    }
    let protocol = match &groups[1] {
        Some(text) => match parse_protocol(text.as_str()) {
            Some(protocol) => protocol,
            None => {
                return None;
            },
        },
        None => {
            return None;
        },
    };
    let listening_port: u16 = match &groups[2] {
        Some(text) => match parse_decimal_u16(text.as_str()) {
            Some(port) => port,
            None => {
                return None;
            },
        },
        None => {
            return None;
        },
    };
    let connect_host = match &groups[3] {
        Some(text) => text.clone(),
        None => {
            return None;
        },
    };
    let connect_port: u16 = match &groups[4] {
        Some(text) => match parse_decimal_u16(text.as_str()) {
            Some(port) => port,
            None => {
                return None;
            },
        },
        None => {
            return None;
        },
    };
    Some(NetworkRelay { protocol, listening_port, connect_host, connect_port })
}

/// Reads a relay from the command line of its process, as the list shows
/// it; `None` for a line that is not shaped like one.
pub fn parse_socat_tunnel(line: &str) -> (relay: Option<NetworkRelay>)
    ensures
        relay_view(relay) == relay_from_groups(regex_captures(relay_pattern(), line@)),
{
    relay_of_groups(captures(RELAY_PATTERN, line))
}

/// The lines that tell of the attempt to end a relay. `attempt` is `None`
/// where no process of the relay was there to end, and else tells whether
/// the signal was sent.
pub open spec fn relay_stop_lines(
    relay: NetworkRelayView,
    attempt: Option<bool>,
) -> Seq<Seq<char>> {
    match attempt {
        None => Seq::empty(),
        Some(true) => seq!["Stopped"@ + " "@ + relay_described(relay)],
        Some(false) => seq!["Failed to stop"@ + " "@ + relay_described(relay)],
    }
}

/// What the attempt to end a relay shows.
pub open spec fn relay_stop_result(relay: NetworkRelayView, attempt: Option<bool>) -> OutcomeView {
    plain_lines(relay_stop_lines(relay, attempt))
}

/// The outcome of the attempt to end `relay`.
pub fn relay_stop_outcome(relay: &NetworkRelay, attempt: Option<bool>) -> (outcome:
    CommandExecutionResult)
    ensures
        outcome_view(outcome) == relay_stop_result(relay@, attempt),
{
    match attempt {
        None => nothing(),
        Some(true) => printable_line(relay_line("Stopped", relay)),
        Some(false) => printable_line(relay_line("Failed to stop", relay)),
    }
}

/// Sends the kill signal to the first process of `relay` among `entries`,
/// waits for the process to end where the signal was sent, and tells
/// whether it was sent. There is an answer exactly where `entries` hold a
/// process of the relay and the snapshot `sys` holds a process under its
/// identifier. An absent relay is left alone: nothing is signalled, and the
/// answer is `None`.
pub fn stop_socat_tunnel_in(
    sys: &sysinfo::System,
    entries: &Vec<ProcessEntry>,
    relay: &NetworkRelay,
) -> (attempt: Option<bool>)
    ensures
        relay_attempted(system_processes(*sys), entry_views(entries@), relay@, attempt),
{
    match check_socat_tunnel(entries, relay) {
        Some(pid) => {
            let sent = kill(sys, pid);
            match sent {
                Some(true) => {
                    wait(sys, pid);
                },
                _ => {},
            }
            sent
        },
        None => None,
    }
}

/// Ends the process of `relay` where `entries`, the processes of the
/// snapshot `sys`, hold one. An absent relay is left alone: nothing is
/// signalled and the outcome is a success that shows nothing.
pub fn delete_socat_tunnel_in(
    sys: &sysinfo::System,
    entries: &Vec<ProcessEntry>,
    relay: &NetworkRelay,
) -> (outcome: CommandExecutionResult)
    ensures
        exists|attempt: Option<bool>|
            outcome_view(outcome) == relay_stop_result(relay@, attempt) && relay_attempted(
                system_processes(*sys),
                entry_views(entries@),
                relay@,
                attempt,
            ),
{
    let attempt = stop_socat_tunnel_in(sys, entries, relay);
    relay_stop_outcome(relay, attempt)
}

/// The outcome is what the attempt to end the relay shows, and there was an
/// attempt exactly where the table of the snapshot holds a process of the
/// relay.
pub open spec fn relay_deleted(
    sys: sysinfo::System,
    relay: NetworkRelayView,
    attempt: Option<bool>,
    outcome: OutcomeView,
) -> bool {
    &&& outcome == relay_stop_result(relay, attempt)
    &&& attempt is Some <==> relay_held(system_processes(sys), relay)
}

/// Ends the process of `relay` where one is alive now, by a fresh snapshot
/// of the process table. It does not fail: the outcome shows whether the
/// process was stopped, or nothing where the relay was absent.
pub fn delete_socat_tunnel(relay: &NetworkRelay) -> (outcome: CommandExecutionResult)
    ensures
        exists|sys: sysinfo::System, attempt: Option<bool>|
            relay_deleted(sys, relay@, attempt, outcome_view(outcome)),
{
    let sys = get_sys_info();
    let entries = processes_by_name(&sys, "socat");
    let attempt = stop_socat_tunnel_in(&sys, &entries, relay);
    let outcome = relay_stop_outcome(relay, attempt);
    proof {
        lemma_listed_relay_is_held(system_processes(sys), entry_views(entries@), relay@);
        assert(relay_deleted(sys, relay@, attempt, outcome_view(outcome)));
    }
    outcome
}

/// The failure of a relay that was not seen in time.
pub open spec fn relay_not_verified() -> Seq<char> {
    "Failed to verify if socat tunnel has been started"@
}

/// The line for a relay that is there already.
pub open spec fn relay_already_exists(relay: NetworkRelayView) -> Seq<char> {
    "Socat tunnel listening on port "@ + decimal(relay.listening_port as nat)
        + " and connecting to "@ + relay.connect_host + ":"@ + decimal(relay.connect_port as nat)
        + " already exists"@
}

/// What starting a relay comes to once the wait for it is over.
pub open spec fn relay_start_result(relay: NetworkRelayView, waited: PollOutcome) -> OutcomeView {
    match waited {
        PollOutcome::Ready => plain_lines(seq!["Started"@ + " "@ + relay_described(relay)]),
        PollOutcome::TimedOut => Err(relay_not_verified()),
    }
}

/// The outcome of starting `relay`, given how the wait for it ended.
pub fn relay_start_outcome(relay: &NetworkRelay, waited: PollOutcome) -> (outcome:
    CommandExecutionResult)
    ensures
        outcome_view(outcome) == relay_start_result(relay@, waited),
{
    match waited {
        PollOutcome::Ready => printable_line(relay_line("Started", relay)),
        PollOutcome::TimedOut => Err(
            String::from_str("Failed to verify if socat tunnel has been started"),
        ),
    }
}

/// Each observation is whether the table of some snapshot holds a process
/// of the relay.
pub open spec fn relay_looks(relay: NetworkRelayView, observations: Seq<bool>) -> bool {
    forall|i: int|
        0 <= i < observations.len() ==> exists|sys: sysinfo::System|
            (#[trigger] observations[i]) == relay_held(#[trigger] system_processes(sys), relay)
}

/// The relay was looked for in fresh snapshots, with the given observations
/// in order, within the budget of the wait, and the outcome is what the
/// wait came to: the line of the start where an observation found the
/// relay, the failure where the budget was spent without one.
///
/// Of the looks this says only that each observation is that of some
/// snapshot. How many snapshots were taken, that each was a fresh one and
/// that a pause lay between two of them is not fixed here: a sequence of
/// observations does not tell how it was come by. The count of looks and of
/// pauses is exact where they are tallied, at
/// [`ReadinessPoller::observe`](crate::poller::ReadinessPoller::observe): a
/// caller that has to know them runs the wait itself, step by step, and
/// hands its end to [`relay_start_outcome`].
pub open spec fn relay_awaited(
    relay: NetworkRelayView,
    observations: Seq<bool>,
    outcome: OutcomeView,
) -> bool {
    &&& relay_looks(relay, observations)
    &&& poll_result(observations, DEFAULT_MAX_ATTEMPTS) matches Some(report) && outcome
        == relay_start_result(relay, report.outcome)
}

/// A relay that the observations show for the first time at the `k`-th of
/// them, within the budget, has been started: the outcome is the line of
/// the start, and the wait over these observations took `k` looks and
/// `k - 1` pauses.
pub proof fn lemma_relay_started_when_seen(
    relay: NetworkRelayView,
    observations: Seq<bool>,
    outcome: OutcomeView,
    k: int,
)
    requires
        relay_awaited(relay, observations, outcome),
        1 <= k <= DEFAULT_MAX_ATTEMPTS,
        k <= observations.len(),
        observations[k - 1],
        forall|i: int| 0 <= i < k - 1 ==> !observations[i],
    ensures
        outcome == relay_start_result(relay, PollOutcome::Ready),
        poll_result(observations, DEFAULT_MAX_ATTEMPTS) == Some(
            PollReport { outcome: PollOutcome::Ready, calls: k as u32, sleeps: (k - 1) as u32 },
        ),
{
    lemma_ready_at_kth_call(observations, DEFAULT_MAX_ATTEMPTS, k);
}

/// A relay that none of the observations shows was not seen in time: the
/// budget was spent, with no fewer observations than it allows, and the
/// outcome is the failure that says so.
pub proof fn lemma_relay_not_verified_when_never_seen(
    relay: NetworkRelayView,
    observations: Seq<bool>,
    outcome: OutcomeView,
)
    requires
        relay_awaited(relay, observations, outcome),
        forall|i: int| 0 <= i < observations.len() ==> !observations[i],
    ensures
        observations.len() >= DEFAULT_MAX_ATTEMPTS,
        outcome == Err::<CommandResultView, Seq<char>>(relay_not_verified()),
{
    let limit = if observations.len() < DEFAULT_MAX_ATTEMPTS {
        observations.len() as int
    } else {
        DEFAULT_MAX_ATTEMPTS as int
    };
    lemma_first_ready_none(observations, 0, limit);
}

/// Starts `relay` unless `existing` names a process of it. A relay that is
/// there is left alone: neither `spawn` nor `pause` is called, which is why
/// they need not accept anything in that case. Otherwise the command of the
/// relay is handed to `spawn`, and its process is looked for up to five times with a
/// `pause` between two looks. The contract fixes the command and what each
/// run of observations comes to; see [`relay_awaited`] for what it leaves
/// open about the looks themselves.
pub fn create_socat_tunnel_unless<S: Fn(LaunchRequest), P: Fn()>(
    existing: Option<u32>,
    relay: &NetworkRelay,
    spawn: &S,
    pause: &P,
) -> (outcome: CommandExecutionResult)
    requires
        existing is None ==> can_spawn(spawn) && call_requires(*pause, ()),
    ensures
        existing is Some ==> outcome_view(outcome) == plain_lines(
            seq![relay_already_exists(relay@)],
        ),
        existing is None ==> crate::launcher::spawned(spawn, relay_request(relay@)) && exists|
            observations: Seq<bool>,
        |
            relay_awaited(relay@, observations, outcome_view(outcome)),
{
    if existing.is_some() {
        let mut line = String::from_str("Socat tunnel listening on port ");
        line.append(decimal_string(relay.listening_port as u64).as_str());
        line.append(" and connecting to ");
        line.append(relay.connect_host.as_str());
        line.append(":");
        line.append(decimal_string(relay.connect_port as u64).as_str());
        line.append(" already exists");
        assert(line@ =~= relay_already_exists(relay@));
        return printable_line(line);
    }
    start(spawn, socat_tunnel_command(relay));
    let look = || -> (present: bool)
        ensures
            exists|sys: sysinfo::System| present == relay_held(system_processes(sys), relay@),
        { socat_tunnel_present(relay) };
    let report = await_condition(&look, pause, DEFAULT_MAX_ATTEMPTS);
    let outcome = relay_start_outcome(relay, report.outcome);
    proof {
        let observations = choose|observations: Seq<bool>|
            {
                &&& observations.len() == report.calls
                &&& forall|i: int|
                    0 <= i < observations.len() ==> call_ensures(
                        look,
                        (),
                        #[trigger] observations[i],
                    )
                &&& poll_result(observations, DEFAULT_MAX_ATTEMPTS) == Some(report)
            };
        assert(relay_looks(relay@, observations));
        assert(relay_awaited(relay@, observations, outcome_view(outcome)));
    }
    outcome
}

/// Starts `relay` unless a fresh snapshot of the process table shows that
/// it is present already.
pub fn create_socat_tunnel<S: Fn(LaunchRequest), P: Fn()>(
    relay: &NetworkRelay,
    spawn: &S,
    pause: &P,
) -> (outcome: CommandExecutionResult)
    requires
        can_spawn(spawn),
        call_requires(*pause, ()),
    ensures
        exists|sys: sysinfo::System|
            if relay_held(#[trigger] system_processes(sys), relay@) {
                outcome_view(outcome) == plain_lines(seq![relay_already_exists(relay@)])
            } else {
                crate::launcher::spawned(spawn, relay_request(relay@)) && exists|
                    observations: Seq<bool>,
                |
                    relay_awaited(relay@, observations, outcome_view(outcome))
            },
{
    let sys = get_sys_info();
    let entries = processes_by_name(&sys, "socat");
    let existing = check_socat_tunnel(&entries, relay);
    proof {
        lemma_listed_relay_is_held(system_processes(sys), entry_views(entries@), relay@);
    }
    let outcome = create_socat_tunnel_unless(existing, relay, spawn, pause);
    proof {
        assert(existing is Some <==> relay_held(system_processes(sys), relay@));
    }
    outcome
}

/// The host that new relays connect to unless another was set.
pub open spec fn default_connect_host_of(settings: SettingsView) -> Seq<char> {
    or_default(settings.default_connect_host, "localhost"@)
}

/// The host that new relays connect to unless told otherwise.
pub fn get_default_connect_host(settings: &Settings) -> (host: String)
    ensures
        host@ == default_connect_host_of(settings@),
{
    setting_or(&settings.default_connect_host, "localhost")
}

/// Sets the host that new relays connect to unless told otherwise, and
/// returns the line that says so.
pub fn set_default_connect_host(settings: &mut Settings, connect_host: String) -> (line: String)
    ensures
        final(settings)@ == (SettingsView {
            default_connect_host: Some(connect_host@),
            ..old(settings)@
        }),
        line@ == "Socat default connect host has been set to "@ + connect_host@,
{
    let line = concat("Socat default connect host has been set to ", connect_host.as_str());
    settings.default_connect_host = Some(connect_host);
    line
}

/// The failure for a line of the list that is not shaped like a relay.
pub open spec fn unreadable_relay(line: Seq<char>) -> Seq<char> {
    "Failed to read socat tunnel "@ + line
}

/// The failure for an index beyond the list.
pub open spec fn no_such_relay(index: usize) -> Seq<char> {
    "Index "@ + decimal(index as nat) + " does not correspond to a socat tunnel"@
}

/// The lines of the list of relays that a snapshot gives.
pub open spec fn relay_rows(entries: Seq<ProcessEntryView>) -> Seq<Seq<char>> {
    hit_lines(hits(relay_processes(entries)))
}

/// The relay that a line of the list is read as.
pub open spec fn relay_read(row: Seq<char>) -> Option<NetworkRelayView> {
    relay_from_groups(regex_captures(relay_pattern(), row))
}

/// What ending the relays of the first `n` rows comes to, `attempts`
/// holding for each row what became of the signal: the lines that tell of
/// each attempt, in order, or the failure for the first row that is not
/// shaped like a relay.
pub open spec fn relays_stopped(
    rows: Seq<Seq<char>>,
    attempts: Seq<Option<bool>>,
    n: int,
) -> Result<Seq<Seq<char>>, Seq<char>>
    decreases n,
{
    if n <= 0 {
        Ok(Seq::empty())
    } else {
        match relays_stopped(rows, attempts, n - 1) {
            Err(error) => Err(error),
            Ok(lines) => match relay_read(rows[n - 1]) {
                None => Err(unreadable_relay(rows[n - 1])),
                Some(relay) => Ok(lines + relay_stop_lines(relay, attempts[n - 1])),
            },
        }
    }
}

/// Lines or a failure, as an outcome.
pub open spec fn lines_or_failure(result: Result<Seq<Seq<char>>, Seq<char>>) -> OutcomeView {
    match result {
        Ok(lines) => plain_lines(lines),
        Err(error) => Err(error),
    }
}

/// The outcome is what ending every relay of the entries comes to under the
/// given attempts, and each attempt got its answer exactly where the
/// entries hold a process of the relay that the table holds too.
pub open spec fn all_relays_stopped(
    held: ProcessTable,
    entries: Seq<ProcessEntryView>,
    attempts: Seq<Option<bool>>,
    outcome: OutcomeView,
) -> bool {
    let rows = relay_rows(entries);
    &&& outcome == lines_or_failure(relays_stopped(rows, attempts, rows.len() as int))
    &&& forall|i: int|
        0 <= i < attempts.len() && i < rows.len() ==> (relay_read(rows[i]) matches Some(relay)
            ==> relay_attempted(held, entries, relay, #[trigger] attempts[i]))
}

/// The entries are what the snapshot lists under the name of `socat`, and
/// the outcome is what ending every relay among them comes to.
pub open spec fn relays_torn_down(
    sys: sysinfo::System,
    entries: Seq<ProcessEntryView>,
    attempts: Seq<Option<bool>>,
    outcome: OutcomeView,
) -> bool {
    relays_listed(sys, entries) && all_relays_stopped(
        system_processes(sys),
        entries,
        attempts,
        outcome,
    )
}

/// What became of later rows does not matter to the first `n`.
proof fn lemma_relays_stopped_prefix(
    rows: Seq<Seq<char>>,
    attempts: Seq<Option<bool>>,
    more: Seq<Option<bool>>,
    n: int,
)
    requires
        n <= attempts.len() <= more.len(),
        forall|i: int| 0 <= i < attempts.len() ==> attempts[i] == more[i],
    ensures
        relays_stopped(rows, attempts, n) == relays_stopped(rows, more, n),
    decreases n,
{
    if n > 0 {
        lemma_relays_stopped_prefix(rows, attempts, more, n - 1);
    }
}

/// Once the first rows have failed, all of them fail in the same way.
proof fn lemma_relays_stopped_fails(
    rows: Seq<Seq<char>>,
    attempts: Seq<Option<bool>>,
    n: int,
    all: int,
)
    requires
        0 <= n <= all,
        relays_stopped(rows, attempts, n) is Err,
    ensures
        relays_stopped(rows, attempts, all) == relays_stopped(rows, attempts, n),
    decreases all - n,
{
    if n < all {
        lemma_relays_stopped_fails(rows, attempts, n, all - 1);
    }
}

/// Ends every relay that `entries`, the processes of the snapshot `sys`,
/// hold, in the order of the list. Each relay adds the line that tells
/// whether it was stopped. A line of the list that is not shaped like a
/// relay ends the run with a failure.
#[verifier::loop_isolation(false)]
pub fn delete_all_socat_tunnels_in(sys: &sysinfo::System, entries: &Vec<ProcessEntry>) -> (outcome:
    CommandExecutionResult)
    ensures
        exists|attempts: Seq<Option<bool>>|
            all_relays_stopped(
                system_processes(*sys),
                entry_views(entries@),
                attempts,
                outcome_view(outcome),
            ),
{
    let rows = lines_of_hits(&socat_tunnels(entries));
    let mut results: Vec<String> = Vec::new();
    let ghost mut attempts: Seq<Option<bool>> = Seq::empty();
    let ghost listed = relay_rows(entry_views(entries@));
    proof {
        assert(texts(results@) =~= Seq::<Seq<char>>::empty());
    }
    let mut i: usize = 0;
    while i < rows.len()
        invariant
            i <= rows.len(),
            texts(rows@) == listed,
            attempts.len() == i,
            relays_stopped(listed, attempts, i as int) == Ok::<Seq<Seq<char>>, Seq<char>>(
                texts(results@),
            ),
            forall|k: int|
                0 <= k < attempts.len() ==> (relay_read(listed[k]) matches Some(relay)
                    ==> relay_attempted(
                    system_processes(*sys),
                    entry_views(entries@),
                    relay,
                    #[trigger] attempts[k],
                )),
        decreases rows.len() - i,
    {
        assert(listed[i as int] == rows@[i as int]@);
        match parse_socat_tunnel(rows[i].as_str()) {
            Some(relay) => {
                let attempt = stop_socat_tunnel_in(sys, entries, &relay);
                let stopped = relay_stop_outcome(&relay, attempt);
                proof {
                    let ghost before = attempts;
                    attempts = attempts.push(attempt);
                    lemma_relays_stopped_prefix(listed, before, attempts, i as int);
                }
                let _ = merge_outcome(&mut results, stopped, MergePolicy::FailFast);
            },
            None => {
                let outcome = Err(concat("Failed to read socat tunnel ", rows[i].as_str()));
                proof {
                    lemma_relays_stopped_fails(listed, attempts, i + 1, listed.len() as int);
                    assert(all_relays_stopped(
                        system_processes(*sys),
                        entry_views(entries@),
                        attempts,
                        outcome_view(outcome),
                    ));
                }
                return outcome;
            },
        }
        i += 1;
    }
    let outcome = printable(results);
    proof {
        assert(all_relays_stopped(
            system_processes(*sys),
            entry_views(entries@),
            attempts,
            outcome_view(outcome),
        ));
    }
    outcome
}

/// Ends every relay of this tool that is alive now, in the order of the
/// list that a fresh snapshot gives.
pub fn delete_all_socat_tunnels() -> (outcome: CommandExecutionResult)
    ensures
        exists|sys: sysinfo::System, entries: Seq<ProcessEntryView>, attempts: Seq<Option<bool>>|
            relays_torn_down(sys, entries, attempts, outcome_view(outcome)),
{
    let sys = get_sys_info();
    let entries = processes_by_name(&sys, "socat");
    let outcome = delete_all_socat_tunnels_in(&sys, &entries);
    proof {
        let attempts = choose|attempts: Seq<Option<bool>>|
            all_relays_stopped(
                system_processes(sys),
                entry_views(entries@),
                attempts,
                outcome_view(outcome),
            );
        assert(relays_torn_down(sys, entry_views(entries@), attempts, outcome_view(outcome)));
    }
    outcome
}

/// The outcome is what ending the relay at the zero-based `index` of the
/// list comes to under the given attempt: a failure for an index beyond the
/// list and for a line that is not shaped like a relay; else the line that
/// tells of the stop where the signal was sent, and nothing where it was
/// not. The attempt got its answer exactly where the entries hold a process
/// of the relay that the table holds too.
pub open spec fn relay_stopped_at(
    held: ProcessTable,
    entries: Seq<ProcessEntryView>,
    index: usize,
    attempt: Option<bool>,
    outcome: OutcomeView,
) -> bool {
    let rows = relay_rows(entries);
    if index >= rows.len() {
        outcome == Err::<CommandResultView, Seq<char>>(no_such_relay(index))
    } else {
        match relay_read(rows[index as int]) {
            None => outcome == Err::<CommandResultView, Seq<char>>(
                unreadable_relay(rows[index as int]),
            ),
            Some(relay) => {
                &&& outcome == plain_lines(
                    if attempt == Some(true) {
                        relay_stop_lines(relay, attempt)
                    } else {
                        Seq::empty()
                    },
                )
                &&& relay_attempted(held, entries, relay, attempt)
            },
        }
    }
}

/// Ends the relay at the zero-based `index` of the list that `entries`,
/// the processes of the snapshot `sys`, give.
pub fn delete_socat_tunnel_by_index_in(
    sys: &sysinfo::System,
    entries: &Vec<ProcessEntry>,
    index: usize,
) -> (outcome: CommandExecutionResult)
    ensures
        exists|attempt: Option<bool>|
            relay_stopped_at(
                system_processes(*sys),
                entry_views(entries@),
                index,
                attempt,
                outcome_view(outcome),
            ),
{
    let rows = lines_of_hits(&socat_tunnels(entries));
    if index >= rows.len() {
        let mut message = String::from_str("Index ");
        message.append(decimal_string(index as u64).as_str());
        message.append(" does not correspond to a socat tunnel");
        let outcome = Err(message);
        assert(relay_stopped_at(
            system_processes(*sys),
            entry_views(entries@),
            index,
            None,
            outcome_view(outcome),
        ));
        return outcome;
    }
    assert(relay_rows(entry_views(entries@))[index as int] == rows@[index as int]@);
    match parse_socat_tunnel(rows[index].as_str()) {
        Some(relay) => {
            let attempt = stop_socat_tunnel_in(sys, entries, &relay);
            let outcome = match attempt {
                Some(true) => relay_stop_outcome(&relay, attempt),
                _ => nothing(),
            };
            assert(relay_stopped_at(
                system_processes(*sys),
                entry_views(entries@),
                index,
                attempt,
                outcome_view(outcome),
            ));
            outcome
        },
        None => {
            let outcome = Err(concat("Failed to read socat tunnel ", rows[index].as_str()));
            assert(relay_stopped_at(
                system_processes(*sys),
                entry_views(entries@),
                index,
                None,
                outcome_view(outcome),
            ));
            outcome
        },
    }
}

/// The entries are what the snapshot lists under the name of `socat`, and
/// the outcome is what ending the relay at the index of their list comes
/// to.
pub open spec fn relay_torn_down_at(
    sys: sysinfo::System,
    entries: Seq<ProcessEntryView>,
    index: usize,
    attempt: Option<bool>,
    outcome: OutcomeView,
) -> bool {
    relays_listed(sys, entries) && relay_stopped_at(
        system_processes(sys),
        entries,
        index,
        attempt,
        outcome,
    )
}

/// Ends the relay at the zero-based `index` of the list that a fresh
/// snapshot gives.
pub fn delete_socat_tunnel_by_index(index: usize) -> (outcome: CommandExecutionResult)
    ensures
        exists|sys: sysinfo::System, entries: Seq<ProcessEntryView>, attempt: Option<bool>|
            relay_torn_down_at(sys, entries, index, attempt, outcome_view(outcome)),
{
    let sys = get_sys_info();
    let entries = processes_by_name(&sys, "socat");
    let outcome = delete_socat_tunnel_by_index_in(&sys, &entries, index);
    proof {
        let attempt = choose|attempt: Option<bool>|
            relay_stopped_at(
                system_processes(sys),
                entry_views(entries@),
                index,
                attempt,
                outcome_view(outcome),
            );
        assert(relay_torn_down_at(
            sys,
            entry_views(entries@),
            index,
            attempt,
            outcome_view(outcome),
        ));
    }
    outcome
}

} // verus!
