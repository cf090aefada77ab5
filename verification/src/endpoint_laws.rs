//! What holds of endpoints beyond the plain forms of `endpoint`.
use vstd::prelude::*;
use crate::cisco_asa::endpoint_of;
use crate::endpoint::{bare_host_keeps_default_interface, bare_ipv6_keeps_default_interface};
use crate::endpoint::{endpoint_parts, endpoint_with_interface};
use crate::endpoint::{endpoint_with_interface_and_brackets, is_plain, is_told_apart, slash_port};
use crate::ip::is_ipv6;
use crate::number::{all_digits, decimal_value, is_digit};
use crate::ocsf::EndpointView;
use crate::text::{lemma_trimmed_identity, TrimSet};
use crate::text_laws::{all_in, around, numbers_are_digits, other_texts_are_no_numbers};
use crate::text_laws::trimming_takes_off_both_ends;

verus! {

/// Whether `core` stays whole when white space and brackets are trimmed.
pub open spec fn keeps_its_ends(core: Seq<char>) -> bool {
    &&& core.len() > 0
    &&& !TrimSet::Whitespace.has(core[0]) && !TrimSet::Whitespace.has(core.last())
    &&& !TrimSet::Brackets.has(core[0]) && !TrimSet::Brackets.has(core.last())
}

/// White space around an endpoint, and brackets inside of it, say nothing.
pub proof fn wrapping_says_nothing(
    white_before: Seq<char>,
    brackets_before: Seq<char>,
    core: Seq<char>,
    brackets_behind: Seq<char>,
    white_behind: Seq<char>,
    default: Option<Seq<char>>,
)
    requires
        keeps_its_ends(core),
        all_in(white_before, TrimSet::Whitespace),
        all_in(white_behind, TrimSet::Whitespace),
        all_in(brackets_before, TrimSet::Brackets),
        all_in(brackets_behind, TrimSet::Brackets),
    ensures
        endpoint_parts(
            around(white_before, around(brackets_before, core, brackets_behind), white_behind),
            default,
        ) == endpoint_parts(core, default),
{
    let inner = around(brackets_before, core, brackets_behind);
    if brackets_before.len() > 0 {
        assert(TrimSet::Brackets.has(brackets_before[0]));
        assert(inner[0] == brackets_before[0]);
    } else {
        assert(inner[0] == core[0]);
    }
    if brackets_behind.len() > 0 {
        assert(TrimSet::Brackets.has(brackets_behind[brackets_behind.len() - 1]));
        assert(inner.last() == brackets_behind[brackets_behind.len() - 1]);
    } else {
        assert(inner.last() == core.last());
    }
    trimming_takes_off_both_ends(white_before, inner, white_behind, TrimSet::Whitespace);
    trimming_takes_off_both_ends(brackets_before, core, brackets_behind, TrimSet::Brackets);
    lemma_trimmed_identity(core, TrimSet::Whitespace);
    lemma_trimmed_identity(core, TrimSet::Brackets);
}

/// What stands behind the last slash is the port, where it is a number of 16
/// bits, and no port otherwise.
pub proof fn port_stands_behind_the_last_slash(
    host: Seq<char>,
    tail: Seq<char>,
    default: Option<Seq<char>>,
)
    requires
        host.len() > 0,
        !TrimSet::Whitespace.has(host[0]),
        !TrimSet::Brackets.has(host[0]),
        is_plain(tail),
    ensures
        tail.len() > 0 && all_digits(tail) && decimal_value(tail) <= 65535 ==> endpoint_parts(
            host + seq!['/'] + tail,
            default,
        ).port == Some(decimal_value(tail)),
        tail.len() > 0 && all_digits(tail) && decimal_value(tail) > 65535 ==> endpoint_parts(
            host + seq!['/'] + tail,
            default,
        ).port is None,
        tail.len() == 0 ==> endpoint_parts(host + seq!['/'] + tail, default).port is None,
        (exists|i: int| 0 <= i < tail.len() && !is_digit(#[trigger] tail[i]) && tail[0] != '+')
            ==> endpoint_parts(host + seq!['/'] + tail, default).port is None,
{
    let text = host + seq!['/'] + tail;
    let n = host.len() as int;
    assert(text[n] == '/');
    assert(text[0] == host[0]);
    if tail.len() > 0 {
        assert(text.last() == tail[tail.len() - 1]);
    } else {
        assert(text.last() == '/');
    }
    lemma_trimmed_identity(text, TrimSet::Whitespace);
    lemma_trimmed_identity(text, TrimSet::Brackets);
    text.index_of_last_ensures('/');
    assert(text.index_of_last('/') == Some(n)) by {
        let i = text.index_of_last('/').unwrap();
        if i < n {
            assert(text[n] == '/');
        } else if i > n {
            assert(text[i] == tail[i - n - 1]);
        }
    }
    assert(text.skip(n + 1) =~= tail);
    if tail.len() > 0 && all_digits(tail) {
        numbers_are_digits(tail, 65535);
    }
    other_texts_are_no_numbers(tail, 0, 65535);
    if exists|i: int| 0 <= i < tail.len() && !is_digit(#[trigger] tail[i]) && tail[0] != '+' {
        let i = choose|i: int|
            0 <= i < tail.len() && !is_digit(#[trigger] tail[i]) && tail[0] != '+';
        other_texts_are_no_numbers(tail, i, 65535);
    }
}

// ---------------------------------------------------------------------------
// The endpoint of an event
// ---------------------------------------------------------------------------

/// `interface:ip/port`.
pub open spec fn named_form(name: Seq<char>, ip: Seq<char>, port: nat) -> Seq<char> {
    name + seq![':'] + ip + slash_port(port)
}

/// `interface:ip`.
pub open spec fn named_form_without_port(name: Seq<char>, ip: Seq<char>) -> Seq<char> {
    name + seq![':'] + ip
}

/// `interface:[v6]/port`.
pub open spec fn bracket_form(name: Seq<char>, ip: Seq<char>, port: nat) -> Seq<char> {
    name + seq![':'] + (seq!['['] + ip + seq![']']) + slash_port(port)
}

/// `ip/port`.
pub open spec fn bare_form(ip: Seq<char>, port: nat) -> Seq<char> {
    ip + slash_port(port)
}

/// `[v6]/port`.
pub open spec fn bare_bracket_form(ip: Seq<char>, port: nat) -> Seq<char> {
    seq!['['] + ip + seq![']'] + slash_port(port)
}

/// Whether `name` can stand for an interface in front of `ip`.
pub open spec fn can_name(name: Seq<char>, ip: Seq<char>) -> bool {
    is_plain(name) && is_plain(ip) && !name.contains(':') && is_told_apart(name, ip)
}

/// Whether `ip` can stand without an interface.
pub open spec fn stands_alone(ip: Seq<char>) -> bool {
    is_ipv6(ip) || (is_plain(ip) && ip.len() > 0 && !ip.contains(':'))
}

/// Whether `e` is the endpoint that a message writes as `text`, in whichever of
/// the forms of an endpoint; `default` is the interface of one that names none.
pub open spec fn shows(e: EndpointView, text: Seq<char>, default: Option<Seq<char>>) -> bool {
    &&& e.ip is Some
    &&& e.hostname is None
    &&& forall|name: Seq<char>, ip: Seq<char>, port: nat|
        text == #[trigger] named_form(name, ip, port) && can_name(name, ip) && port <= 65535 ==> e
            == (EndpointView {
            ip: Some(ip),
            port: Some(port as u16),
            interface: Some(name),
            hostname: None,
        })
    &&& forall|name: Seq<char>, ip: Seq<char>|
        text == #[trigger] named_form_without_port(name, ip) && can_name(name, ip) ==> e == (
        EndpointView { ip: Some(ip), port: None, interface: Some(name), hostname: None })
    &&& forall|name: Seq<char>, ip: Seq<char>, port: nat|
        text == #[trigger] bracket_form(name, ip, port) && can_name(name, ip) && port <= 65535
            ==> e == (EndpointView {
            ip: Some(ip),
            port: Some(port as u16),
            interface: Some(name),
            hostname: None,
        })
    &&& forall|ip: Seq<char>, port: nat|
        text == #[trigger] bare_form(ip, port) && stands_alone(ip) && port <= 65535 ==> e == (
        EndpointView { ip: Some(ip), port: Some(port as u16), interface: default, hostname: None })
    &&& forall|ip: Seq<char>, port: nat|
        text == #[trigger] bare_bracket_form(ip, port) && is_ipv6(ip) && port <= 65535 ==> e == (
        EndpointView { ip: Some(ip), port: Some(port as u16), interface: default, hostname: None })
    &&& stands_alone(text) ==> e == (EndpointView {
        ip: Some(text),
        port: None,
        interface: default,
        hostname: None,
    })
}

/// An event shows an endpoint in every form in which a message writes one.
pub proof fn endpoints_are_shown(text: Seq<char>, default: Option<Seq<char>>)
    ensures
        shows(endpoint_of(text, default), text, default),
{
    let e = endpoint_of(text, default);
    assert forall|name: Seq<char>, ip: Seq<char>, port: nat|
        text == #[trigger] named_form(name, ip, port) && can_name(name, ip) && port <= 65535
        implies e == (EndpointView {
        ip: Some(ip),
        port: Some(port as u16),
        interface: Some(name),
        hostname: None,
    }) by {
        endpoint_with_interface(name, ip, port, default);
    }
    assert forall|name: Seq<char>, ip: Seq<char>|
        text == #[trigger] named_form_without_port(name, ip) && can_name(name, ip) implies e == (
    EndpointView { ip: Some(ip), port: None, interface: Some(name), hostname: None }) by {
        endpoint_with_interface(name, ip, 0, default);
    }
    assert forall|name: Seq<char>, ip: Seq<char>, port: nat|
        text == #[trigger] bracket_form(name, ip, port) && can_name(name, ip) && port <= 65535
        implies e == (EndpointView {
        ip: Some(ip),
        port: Some(port as u16),
        interface: Some(name),
        hostname: None,
    }) by {
        endpoint_with_interface_and_brackets(name, ip, port, default);
    }
    assert forall|ip: Seq<char>, port: nat|
        text == #[trigger] bare_form(ip, port) && stands_alone(ip) && port <= 65535 implies e == (
    EndpointView {
        ip: Some(ip),
        port: Some(port as u16),
        interface: default,
        hostname: None,
    }) by {
        lemma_alone(ip, port, default);
    }
    assert forall|ip: Seq<char>, port: nat|
        text == #[trigger] bare_bracket_form(ip, port) && is_ipv6(ip) && port <= 65535 implies e
        == (EndpointView {
        ip: Some(ip),
        port: Some(port as u16),
        interface: default,
        hostname: None,
    }) by {
        bare_ipv6_keeps_default_interface(ip, port, default);
    }
    if stands_alone(text) {
        lemma_alone(text, 0, default);
    }
}

proof fn lemma_alone(ip: Seq<char>, port: nat, default: Option<Seq<char>>)
    requires
        stands_alone(ip),
        port <= 65535,
    ensures
        endpoint_parts(bare_form(ip, port), default).ip == ip,
        endpoint_parts(bare_form(ip, port), default).port == Some(port),
        endpoint_parts(bare_form(ip, port), default).interface == default,
        endpoint_parts(ip, default).ip == ip,
        endpoint_parts(ip, default).port is None,
        endpoint_parts(ip, default).interface == default,
{
    if is_ipv6(ip) {
        bare_ipv6_keeps_default_interface(ip, port, default);
    } else {
        bare_host_keeps_default_interface(ip, port, default);
    }
}

}
