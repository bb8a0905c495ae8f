//! Why the four values of a relay are its identity: they can be read back
//! from the arguments of its process, so that no process is taken for two
//! relays.

use crate::scanner::ProcessEntryView;
use crate::socat_tunnel::{
    connect_spec, is_relay_process, listen_spec, protocol_text, relay_args, relay_label,
    relay_process, relay_process_from, relay_request, NetworkRelayView, Protocol,
};
use crate::text::{all_digits, decimal, digit_char, digit_value, digits_value, is_digit, occurs_in};
use vstd::prelude::*;

verus! {

/// The decimal notation of a number is made of digits, at least one, and
/// denotes that number.
pub proof fn lemma_decimal_denotes(n: nat)
    ensures
        decimal(n).len() >= 1,
        all_digits(decimal(n)),
        digits_value(decimal(n)) == n,
    decreases n,
{
    if n < 10 {
        let s = decimal(n);
        assert(s =~= seq![digit_char(n as int)]);
        assert(s.drop_last() =~= Seq::<char>::empty());
        assert(digits_value(s.drop_last()) == 0);
        assert(is_digit(digit_char(n as int)));
        assert(digit_value(digit_char(n as int)) == n);
    } else {
        lemma_decimal_denotes(n / 10);
        let s = decimal(n);
        let d = digit_char((n % 10) as int);
        assert(s == decimal(n / 10).push(d));
        assert(s.drop_last() =~= decimal(n / 10));
        assert(s.last() == d);
        assert(is_digit(d));
        assert(digit_value(d) == n % 10);
        assert forall|i: int| 0 <= i < s.len() implies is_digit(#[trigger] s[i]) by {
            if i < s.len() - 1 {
                assert(s[i] == decimal(n / 10)[i]);
            }
        }
    }
}

/// Numbers with the same decimal notation are the same.
pub proof fn lemma_decimal_injective(a: nat, b: nat)
    requires
        decimal(a) == decimal(b),
    ensures
        a == b,
{
    lemma_decimal_denotes(a);
    lemma_decimal_denotes(b);
}

/// A text that ends in a colon and a number gives both the number and what
/// stands before the colon.
pub proof fn lemma_tail_number_unique(x: Seq<char>, p: nat, y: Seq<char>, q: nat)
    requires
        x + seq![':'] + decimal(p) == y + seq![':'] + decimal(q),
    ensures
        x == y,
        p == q,
{
    lemma_decimal_denotes(p);
    lemma_decimal_denotes(q);
    let dp = decimal(p);
    let dq = decimal(q);
    let t = x + seq![':'] + dp;
    let u = y + seq![':'] + dq;
    assert(t.len() == x.len() + 1 + dp.len());
    assert(u.len() == y.len() + 1 + dq.len());
    assert(!is_digit(':'));
    if dp.len() < dq.len() {
        let at = x.len() as int;
        assert(t[at] == ':');
        assert(u[at] == dq[at - y.len() - 1]);
        assert(is_digit(dq[at - y.len() - 1]));
        assert(false);
    }
    if dq.len() < dp.len() {
        let at = y.len() as int;
        assert(u[at] == ':');
        assert(t[at] == dp[at - x.len() - 1]);
        assert(is_digit(dp[at - x.len() - 1]));
        assert(false);
    }
    assert(x.len() == y.len());
    assert(x =~= y) by {
        assert forall|i: int| 0 <= i < x.len() implies x[i] == y[i] by {
            assert(t[i] == x[i]);
            assert(u[i] == y[i]);
        }
    }
    assert(dp =~= dq) by {
        assert forall|i: int| 0 <= i < dp.len() implies dp[i] == dq[i] by {
            assert(t[x.len() + 1 + i] == dp[i]);
            assert(u[y.len() + 1 + i] == dq[i]);
        }
    }
    lemma_decimal_injective(p, q);
}

/// The two transports are spelled with the same number of characters and
/// differ in the first.
proof fn lemma_protocol_texts()
    ensures
        protocol_text(Protocol::Tcp).len() == 3,
        protocol_text(Protocol::Udp).len() == 3,
        protocol_text(Protocol::Tcp)[0] == 't',
        protocol_text(Protocol::Udp)[0] == 'u',
{
    reveal_strlit("tcp");
    reveal_strlit("udp");
}

/// The argument that tells where to listen gives the transport and the
/// listening port.
pub proof fn lemma_listen_spec_identifies(a: NetworkRelayView, b: NetworkRelayView)
    requires
        listen_spec(a) == listen_spec(b),
    ensures
        a.protocol == b.protocol,
        a.listening_port == b.listening_port,
{
    lemma_protocol_texts();
    let mid = "-listen:"@;
    let tail = ",fork,reuseaddr"@;
    let da = decimal(a.listening_port as nat);
    let db = decimal(b.listening_port as nat);
    let la = listen_spec(a);
    let lb = listen_spec(b);
    assert(la[0] == protocol_text(a.protocol)[0]);
    assert(lb[0] == protocol_text(b.protocol)[0]);
    assert(a.protocol == b.protocol);
    assert(la.len() == 3 + mid.len() + da.len() + tail.len());
    assert(lb.len() == 3 + mid.len() + db.len() + tail.len());
    assert(da =~= db) by {
        assert forall|i: int| 0 <= i < da.len() implies da[i] == db[i] by {
            assert(la[3 + mid.len() + i] == da[i]);
            assert(lb[3 + mid.len() + i] == db[i]);
        }
    }
    lemma_decimal_injective(a.listening_port as nat, b.listening_port as nat);
}

/// The argument that tells where to connect gives the host and the connect
/// port, the transport being known.
pub proof fn lemma_connect_spec_identifies(a: NetworkRelayView, b: NetworkRelayView)
    requires
        a.protocol == b.protocol,
        connect_spec(a) == connect_spec(b),
    ensures
        a.connect_host == b.connect_host,
        a.connect_port == b.connect_port,
{
    lemma_protocol_texts();
    reveal_strlit(":");
    assert(":"@ =~= seq![':']);
    let head = protocol_text(a.protocol) + ":"@;
    let ta = a.connect_host + seq![':'] + decimal(a.connect_port as nat);
    let tb = b.connect_host + seq![':'] + decimal(b.connect_port as nat);
    assert(connect_spec(a) =~= head + ta);
    assert(connect_spec(b) =~= head + tb);
    assert(ta =~= (head + ta).subrange(head.len() as int, (head + ta).len() as int));
    assert(tb =~= (head + tb).subrange(head.len() as int, (head + tb).len() as int));
    lemma_tail_number_unique(
        a.connect_host,
        a.connect_port as nat,
        b.connect_host,
        b.connect_port as nat,
    );
}

/// Two relays run with the same arguments exactly if they are the same in
/// transport, listening port, connect host and connect port.
pub proof fn lemma_relay_args_identify(a: NetworkRelayView, b: NetworkRelayView)
    ensures
        relay_args(a) == relay_args(b) <==> a == b,
{
    if relay_args(a) == relay_args(b) {
        assert(relay_args(a)[1] == listen_spec(a));
        assert(relay_args(b)[1] == listen_spec(b));
        assert(relay_args(a)[2] == connect_spec(a));
        assert(relay_args(b)[2] == connect_spec(b));
        lemma_listen_spec_identifies(a, b);
        lemma_connect_spec_identifies(a, b);
    }
}

/// Relays that are the same in all four values are one resource: they take
/// the same processes for theirs, and so have the same presence in every
/// snapshot.
pub proof fn lemma_same_relay_same_presence(
    entries: Seq<ProcessEntryView>,
    a: NetworkRelayView,
    b: NetworkRelayView,
)
    requires
        a.protocol == b.protocol,
        a.listening_port == b.listening_port,
        a.connect_host == b.connect_host,
        a.connect_port == b.connect_port,
    ensures
        a == b,
        relay_process(entries, a) == relay_process(entries, b),
{
}

/// Relays that differ in any of the four values are distinct resources: no
/// process is taken for both, so that ending the one never ends the other.
pub proof fn lemma_distinct_relays_share_no_process(
    entry: ProcessEntryView,
    a: NetworkRelayView,
    b: NetworkRelayView,
)
    requires
        a.protocol != b.protocol || a.listening_port != b.listening_port || a.connect_host
            != b.connect_host || a.connect_port != b.connect_port,
    ensures
        !(is_relay_process(entry, a) && is_relay_process(entry, b)),
{
    if is_relay_process(entry, a) && is_relay_process(entry, b) {
        lemma_listen_spec_identifies(a, b);
        lemma_connect_spec_identifies(a, b);
    }
}

/// The process that was started with the command of a relay, under a name
/// that holds `socat`, is taken for that relay's, whatever the program is
/// called in its command line.
pub proof fn lemma_started_relay_is_recognised(
    pid: u32,
    name: Seq<char>,
    program: Seq<char>,
    relay: NetworkRelayView,
)
    requires
        occurs_in(name, "socat"@),
    ensures
        is_relay_process(
            ProcessEntryView { pid, name, cmd: seq![program] + relay_request(relay).args },
            relay,
        ),
{
    let cmd = seq![program] + relay_request(relay).args;
    assert(cmd.len() == 4);
    assert(cmd[1] == relay_label());
    assert(cmd[2] == listen_spec(relay));
    assert(cmd[3] == connect_spec(relay));
}

/// The process that a snapshot gives for a relay is one of its entries and
/// is that relay's.
pub proof fn lemma_relay_process_is_its_own(
    entries: Seq<ProcessEntryView>,
    relay: NetworkRelayView,
    from: int,
)
    requires
        0 <= from,
    ensures
        match relay_process_from(entries, relay, from) {
            Some(pid) => exists|i: int|
                from <= i < entries.len() && (#[trigger] entries[i]).pid == pid
                    && is_relay_process(entries[i], relay),
            None => forall|i: int|
                from <= i < entries.len() ==> !is_relay_process(#[trigger] entries[i], relay),
        },
    decreases entries.len() - from,
{
    if from < entries.len() {
        if is_relay_process(entries[from], relay) {
            assert(entries[from].pid == relay_process_from(entries, relay, from)->0);
        } else {
            lemma_relay_process_is_its_own(entries, relay, from + 1);
        }
    }
}

/// A relay that a snapshot shows as absent stays absent when a process of
/// another relay is taken out of the snapshot or put into it: the presence
/// of a relay depends on its own processes alone.
pub proof fn lemma_other_relay_does_not_matter(
    entries: Seq<ProcessEntryView>,
    a: NetworkRelayView,
    b: NetworkRelayView,
    other: ProcessEntryView,
)
    requires
        a != b,
        is_relay_process(other, b),
    ensures
        relay_process(entries.push(other), a) == relay_process(entries, a),
{
    lemma_distinct_relays_share_no_process(other, a, b);
    lemma_push_keeps_process(entries, a, other, 0);
}

proof fn lemma_push_keeps_process(
    entries: Seq<ProcessEntryView>,
    relay: NetworkRelayView,
    other: ProcessEntryView,
    from: int,
)
    requires
        0 <= from,
        !is_relay_process(other, relay),
    ensures
        relay_process_from(entries.push(other), relay, from) == relay_process_from(
            entries,
            relay,
            from,
        ),
    decreases entries.len() + 1 - from,
{
    let longer = entries.push(other);
    if from < entries.len() {
        assert(longer[from] == entries[from]);
        if !is_relay_process(entries[from], relay) {
            lemma_push_keeps_process(entries, relay, other, from + 1);
        }
    } else if from == entries.len() {
        assert(longer[from] == other);
        assert(relay_process_from(longer, relay, from + 1) is None);
    }
}

} // verus!
