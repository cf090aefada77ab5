//! Reading the endpoint of a connection as a firewall writes it.
use vstd::prelude::*;
use crate::ip::{ip_literal, ip_literal_alphabet, is_ip_char, is_ip_literal, is_ipv6};
use crate::ip::{ipv6_has_a_colon, one_colon_is_no_ip_literal};
use crate::number::{decimal_round_trip, decimal_text, is_digit};
use crate::number::{decimal_text_digits, parse_u16, unsigned_value};
use crate::ocsf::opt_view;
use crate::text::{chars_of, find, lemma_trimmed_identity, rfind, string_of, trim, trimmed, TrimSet};

verus! {

/// What an endpoint string says: the address, the port, and the interface.
pub struct EndpointParts {
    pub ip: Seq<char>,
    pub port: Option<nat>,
    pub interface: Option<Seq<char>>,
}

/// A square bracket.
pub open spec fn is_square(c: char) -> bool {
    c == '[' || c == ']'
}

/// `s` without its square brackets.
pub open spec fn without_squares(s: Seq<char>) -> Seq<char> {
    s.filter(|c: char| !is_square(c))
}

/// `text` without white space, and then without brackets, at its two ends.
pub open spec fn cleaned(text: Seq<char>) -> Seq<char> {
    trimmed(trimmed(text, TrimSet::Whitespace), TrimSet::Brackets)
}

/// What stands before the last slash, where there is one.
pub open spec fn host_text(clean: Seq<char>) -> Seq<char> {
    match clean.index_of_last('/') {
        Some(i) => clean.take(i),
        None => clean,
    }
}

/// The port number behind the last slash, where there is one that reads as a
/// 16-bit number.
pub open spec fn port_number(clean: Seq<char>) -> Option<nat> {
    match clean.index_of_last('/') {
        Some(i) => unsigned_value(clean.skip(i + 1), u16::MAX as nat),
        None => None,
    }
}

/// The address and the interface in a host text. A host that is itself an IP
/// literal has no interface prefix; otherwise what stands before the first
/// colon is the interface.
pub open spec fn host_parts(
    host: Seq<char>,
    default_interface: Option<Seq<char>>,
) -> (Seq<char>, Option<Seq<char>>) {
    if host.contains(':') && is_ip_literal(host) {
        (host, default_interface)
    } else {
        match host.index_of_first(':') {
            Some(i) => (host.skip(i + 1), Some(host.take(i))),
            None => (host, default_interface),
        }
    }
}

/// What the endpoint string `text` says, where `default_interface` is the
/// interface of an endpoint that names none.
pub open spec fn endpoint_parts(
    text: Seq<char>,
    default_interface: Option<Seq<char>>,
) -> EndpointParts {
    let clean = cleaned(text);
    let (ip, interface) = host_parts(without_squares(host_text(clean)), default_interface);
    EndpointParts { ip, port: port_number(clean), interface }
}

/// The characters of an optional string slice.
pub open spec fn opt_str_view(s: Option<&str>) -> Option<Seq<char>> {
    match s {
        Some(s) => Some(s@),
        None => None,
    }
}

/// An optional port as a number.
pub open spec fn opt_port(p: Option<u16>) -> Option<nat> {
    match p {
        Some(p) => Some(p as nat),
        None => None,
    }
}

/// Copies `v[..to]` without its square brackets.
fn drop_squares(v: &Vec<char>, to: usize) -> (r: Vec<char>)
    requires
        to <= v@.len(),
    ensures
        r@ == without_squares(v@.take(to as int)),
{
    let mut r: Vec<char> = Vec::new();
    let mut i: usize = 0;
    assert(v@.take(0) =~= Seq::<char>::empty());
    reveal(Seq::filter);
    while i < to
        invariant
            i <= to <= v@.len(),
            r@ == without_squares(v@.take(i as int)),
        decreases to - i,
    {
        let c: char = v[i];
        if c != '[' && c != ']' {
            r.push(c);
        }
        i += 1;
        proof {
            reveal(Seq::filter);
            assert(v@.take(i as int).drop_last() == v@.take(i - 1));
        }
    }
    r
}

/// A copy of an optional string slice.
pub fn copied(s: Option<&str>) -> (r: Option<String>)
    ensures
        opt_view(r) == opt_str_view(s),
{
    match s {
        Some(s) => Some(s.to_owned()),
        None => None,
    }
}

/// Parses an endpoint string of the form `interface:ip/port`, `ip/port`,
/// `interface:ip`, `ip`, `[v6]/port` or `interface:[v6]/port`.
///
/// The port splits off the last slash first: slashes never occur in addresses.
/// What remains has an interface prefix only if it is not itself an IP literal,
/// so a bare IPv6 endpoint keeps `default_intf` instead of gaining an interface
/// made of its first group.
pub fn parse_endpoint_str(text: &str, default_intf: Option<&str>) -> (r: (
    Option<String>,
    Option<u16>,
    Option<String>,
))
    ensures
        ({
            let parts = endpoint_parts(text@, opt_str_view(default_intf));
            &&& opt_view(r.0) == Some(parts.ip)
            &&& opt_port(r.1) == parts.port
            &&& opt_view(r.2) == parts.interface
        }),
{
    let clean = trim(trim(text, TrimSet::Whitespace).as_str(), TrimSet::Brackets);
    let v = chars_of(clean.as_str());
    let size: usize = v.len();
    let (end, port): (usize, Option<u16>) = match rfind(&v, '/') {
        Some(i) => {
            let tail = string_of(&v, i + 1, size);
            assert(tail@ == v@.skip(i + 1));
            (i, parse_u16(tail.as_str()))
        },
        None => (size, None),
    };
    assert(v@.take(end as int) == host_text(clean@));
    let host = drop_squares(&v, end);
    let n: usize = host.len();
    let colon = find(&host, ':');
    proof {
        host@.index_of_first_ensures(':');
        assert(host@.subrange(0, n as int) == host@);
    }
    match colon {
        Some(i) => {
            if ip_literal(&host) {
                (Some(string_of(&host, 0, n)), port, copied(default_intf))
            } else {
                assert(host@.subrange(i + 1, n as int) == host@.skip(i + 1));
                assert(host@.subrange(0, i as int) == host@.take(i as int));
                (Some(string_of(&host, i + 1, n)), port, Some(string_of(&host, 0, i)))
            }
        },
        None => (Some(string_of(&host, 0, n)), port, copied(default_intf)),
    }
}

// ---------------------------------------------------------------------------
// The forms of an endpoint
// ---------------------------------------------------------------------------

/// Whether `s` can stand in an endpoint without being taken apart: it holds no
/// white space, bracket or slash.
pub open spec fn is_plain(s: Seq<char>) -> bool {
    forall|i: int|
        0 <= i < s.len() ==> {
            &&& !TrimSet::Whitespace.has(#[trigger] s[i])
            &&& !TrimSet::Brackets.has(s[i])
            &&& s[i] != '/'
        }
}

/// Whether `name`, a colon and `ip` together can be told from an IPv6 literal
/// whose first group is `name`. This is so of every `ip` without a colon.
pub open spec fn is_told_apart(name: Seq<char>, ip: Seq<char>) -> bool {
    !ip.contains(':') || !is_ip_literal(name + seq![':'] + ip)
}

/// An interface name with a character that no IP literal holds is told apart
/// from every address.
pub proof fn letters_tell_an_interface_apart(name: Seq<char>, ip: Seq<char>, i: int)
    requires
        0 <= i < name.len(),
        !is_ip_char(name[i]),
    ensures
        is_told_apart(name, ip),
{
    let host = name + seq![':'] + ip;
    assert(host[i] == name[i]);
    if is_ip_literal(host) {
        ip_literal_alphabet(host, i);
    }
}

/// A port number in front of which stands a slash.
pub open spec fn slash_port(port: nat) -> Seq<char> {
    seq!['/'] + decimal_text(port)
}

proof fn lemma_no_squares(s: Seq<char>)
    requires
        forall|i: int| 0 <= i < s.len() ==> !is_square(#[trigger] s[i]),
    ensures
        without_squares(s) == s,
    decreases s.len(),
{
    reveal(Seq::filter);
    if s.len() > 0 {
        lemma_no_squares(s.drop_last());
        assert(s.drop_last().push(s.last()) == s);
    }
}

proof fn lemma_one_square(c: char)
    requires
        is_square(c),
    ensures
        without_squares(seq![c]) == Seq::<char>::empty(),
{
    reveal_with_fuel(Seq::filter, 2);
    assert(seq![c].drop_last() == Seq::<char>::empty());
}

proof fn lemma_squares_concat(a: Seq<char>, b: Seq<char>)
    ensures
        without_squares(a + b) == without_squares(a) + without_squares(b),
{
    Seq::filter_distributes_over_add(a, b, |c: char| !is_square(c));
}

/// Trimming takes a leading bracket, and nothing else, off a text whose first
/// and last other characters stay.
proof fn lemma_cleaned(rest: Seq<char>)
    requires
        rest.len() > 0,
        !TrimSet::Whitespace.has(rest[0]),
        !TrimSet::Whitespace.has(rest.last()),
        !TrimSet::Brackets.has(rest[0]),
        !TrimSet::Brackets.has(rest.last()),
    ensures
        cleaned(rest) == rest,
        cleaned(seq!['['] + rest) == rest,
{
    lemma_trimmed_identity(rest, TrimSet::Whitespace);
    lemma_trimmed_identity(rest, TrimSet::Brackets);
    let text = seq!['['] + rest;
    lemma_trimmed_identity(text, TrimSet::Whitespace);
    assert(text.drop_first() == rest);
    reveal_with_fuel(crate::text::trim_start, 2);
}

/// An endpoint with a port falls apart at its slash.
proof fn lemma_with_port(host: Seq<char>, port: nat)
    requires
        port <= u16::MAX,
        host.len() > 0,
        !host.contains('/'),
        !TrimSet::Whitespace.has(host[0]),
        !TrimSet::Brackets.has(host[0]),
    ensures
        cleaned(host + slash_port(port)) == host + slash_port(port),
        cleaned(seq!['['] + (host + slash_port(port))) == host + slash_port(port),
        host_text(host + slash_port(port)) == host,
        port_number(host + slash_port(port)) == Some(port),
{
    let digits = decimal_text(port);
    let text = host + slash_port(port);
    decimal_text_digits(port);
    assert(is_digit(digits[digits.len() - 1]));
    assert(text.last() == digits.last());
    lemma_cleaned(text);
    let n = host.len() as int;
    assert(text[n] == '/');
    assert(text.index_of_last('/') == Some(n)) by {
        text.index_of_last_ensures('/');
        let i = text.index_of_last('/').unwrap();
        if i < n {
            assert(text[n] == '/');
        } else if i > n {
            assert(text[i] == digits[i - n - 1]);
            assert(is_digit(digits[i - n - 1]));
        }
    }
    assert(text.take(n) == host);
    assert(text.skip(n + 1) == digits);
    decimal_round_trip(port, u16::MAX as nat);
}

/// `name:ip` is the address `ip` on the interface `name`.
proof fn lemma_named_host(name: Seq<char>, ip: Seq<char>, default: Option<Seq<char>>)
    requires
        !name.contains(':'),
        is_told_apart(name, ip),
    ensures
        host_parts(name + seq![':'] + ip, default) == (ip, Some(name)),
{
    let host = name + seq![':'] + ip;
    let n = name.len() as int;
    assert(host[n] == ':');
    if !ip.contains(':') {
        one_colon_is_no_ip_literal(name, ip);
    }
    assert(host.index_of_first(':') == Some(n)) by {
        host.index_of_first_ensures(':');
        let i = host.index_of_first(':').unwrap();
        if i < n {
            assert(name[i] == ':');
        }
    }
    assert(host.take(n) == name);
    assert(host.skip(n + 1) == ip);
}

proof fn lemma_plain(s: Seq<char>)
    requires
        is_plain(s),
    ensures
        !s.contains('/'),
        without_squares(s) == s,
{
    assert forall|i: int| 0 <= i < s.len() implies !is_square(#[trigger] s[i]) by {
        assert(!TrimSet::Brackets.has(s[i]));
    }
    lemma_no_squares(s);
}

/// `interface:ip/port` and `interface:ip` name the interface, the address and
/// the port, unless the interface and the address together read as one IPv6
/// literal.
pub proof fn endpoint_with_interface(
    name: Seq<char>,
    ip: Seq<char>,
    port: nat,
    default: Option<Seq<char>>,
)
    requires
        is_plain(name),
        is_plain(ip),
        !name.contains(':'),
        is_told_apart(name, ip),
        port <= u16::MAX,
    ensures
        endpoint_parts(name + seq![':'] + ip + slash_port(port), default) == (EndpointParts {
            ip,
            port: Some(port),
            interface: Some(name),
        }),
        endpoint_parts(name + seq![':'] + ip, default) == (EndpointParts {
            ip,
            port: None,
            interface: Some(name),
        }),
{
    let host = name + seq![':'] + ip;
    assert(is_plain(host));
    lemma_plain(host);
    lemma_with_port(host, port);
    lemma_named_host(name, ip, default);
    lemma_cleaned(host);
    host.index_of_last_ensures('/');
}

/// `interface:[v6]/port` names the interface, the address and the port, unless
/// the interface and the address together read as one IPv6 literal.
pub proof fn endpoint_with_interface_and_brackets(
    name: Seq<char>,
    ip: Seq<char>,
    port: nat,
    default: Option<Seq<char>>,
)
    requires
        is_plain(name),
        is_plain(ip),
        !name.contains(':'),
        is_told_apart(name, ip),
        port <= u16::MAX,
    ensures
        endpoint_parts(
            name + seq![':'] + (seq!['['] + ip + seq![']']) + slash_port(port),
            default,
        ) == (EndpointParts { ip, port: Some(port), interface: Some(name) }),
{
    let boxed = seq!['['] + ip + seq![']'];
    let front = name + seq![':'];
    let host = front + boxed;
    assert(is_plain(front));
    lemma_plain(front);
    lemma_plain(ip);
    assert(!host.contains('/')) by {
        if host.contains('/') {
            let i = choose|i: int| 0 <= i < host.len() && host[i] == '/';
            if i < front.len() {
                assert(front[i] == '/');
            } else {
                let j = i - front.len() - 1;
                assert(boxed[i - front.len()] == '/');
                assert(ip[j] == '/');
            }
        }
    }
    lemma_with_port(host, port);
    lemma_squares_concat(front, boxed);
    lemma_squares_concat(seq!['['] + ip, seq![']']);
    lemma_squares_concat(seq!['['], ip);
    lemma_one_square('[');
    lemma_one_square(']');
    assert(Seq::<char>::empty() + ip == ip);
    assert(ip + Seq::<char>::empty() == ip);
    lemma_named_host(name, ip, default);
}

/// An IPv6 address without an interface keeps the default one, written bare or
/// in brackets, with a port or without.
pub proof fn bare_ipv6_keeps_default_interface(
    ip: Seq<char>,
    port: nat,
    default: Option<Seq<char>>,
)
    requires
        is_ipv6(ip),
        port <= u16::MAX,
    ensures
        endpoint_parts(ip + slash_port(port), default) == (EndpointParts {
            ip,
            port: Some(port),
            interface: default,
        }),
        endpoint_parts(seq!['['] + ip + seq![']'] + slash_port(port), default) == (EndpointParts {
            ip,
            port: Some(port),
            interface: default,
        }),
        endpoint_parts(ip, default) == (EndpointParts { ip, port: None, interface: default }),
{
    ipv6_has_a_colon(ip);
    assert forall|i: int| 0 <= i < ip.len() implies {
        &&& !TrimSet::Whitespace.has(#[trigger] ip[i])
        &&& !TrimSet::Brackets.has(ip[i])
        &&& ip[i] != '/'
    } by {
        ip_literal_alphabet(ip, i);
    }
    lemma_plain(ip);
    lemma_with_port(ip, port);
    lemma_cleaned(ip);
    ip.index_of_last_ensures('/');
    let half = ip + seq![']'];
    assert(!half.contains('/')) by {
        if half.contains('/') {
            let i = choose|i: int| 0 <= i < half.len() && half[i] == '/';
            assert(ip[i] == '/');
        }
    }
    lemma_with_port(half, port);
    lemma_squares_concat(ip, seq![']']);
    lemma_one_square(']');
    assert(ip + Seq::<char>::empty() == ip);
    assert(seq!['['] + ip + seq![']'] + slash_port(port) == seq!['['] + (half + slash_port(port)));
}

/// An address without a colon and without an interface keeps the default one,
/// with a port or without.
pub proof fn bare_host_keeps_default_interface(
    ip: Seq<char>,
    port: nat,
    default: Option<Seq<char>>,
)
    requires
        is_plain(ip),
        ip.len() > 0,
        !ip.contains(':'),
        port <= u16::MAX,
    ensures
        endpoint_parts(ip + slash_port(port), default) == (EndpointParts {
            ip,
            port: Some(port),
            interface: default,
        }),
        endpoint_parts(ip, default) == (EndpointParts { ip, port: None, interface: default }),
{
    lemma_plain(ip);
    lemma_with_port(ip, port);
    lemma_cleaned(ip);
    ip.index_of_last_ensures('/');
    ip.index_of_first_ensures(':');
}

/// A square bracket inside an endpoint says nothing.
pub proof fn square_brackets_vanish(
    a: Seq<char>,
    bracket: char,
    b: Seq<char>,
    port: nat,
    default: Option<Seq<char>>,
)
    requires
        bracket == '[' || bracket == ']',
        is_plain(a),
        is_plain(b),
        a.len() > 0,
        port <= u16::MAX,
    ensures
        endpoint_parts(a + seq![bracket] + b + slash_port(port), default) == endpoint_parts(
            a + b + slash_port(port),
            default,
        ),
{
    let with = a + seq![bracket] + b;
    let without = a + b;
    assert(is_plain(without));
    lemma_plain(a);
    lemma_plain(b);
    lemma_plain(without);
    assert(!with.contains('/')) by {
        if with.contains('/') {
            let i = choose|i: int| 0 <= i < with.len() && with[i] == '/';
            if i < a.len() {
                assert(a[i] == '/');
            } else {
                assert(b[i - a.len() - 1] == '/');
            }
        }
    }
    lemma_with_port(with, port);
    lemma_with_port(without, port);
    lemma_squares_concat(a + seq![bracket], b);
    lemma_squares_concat(a, seq![bracket]);
    lemma_one_square(bracket);
    assert(a + Seq::<char>::empty() == a);
}

}
