//! What the event of each kind of message holds, part by part.
//!
//! Each law starts from what the patterns find in a line and says where every
//! piece of it shows in the event, and that nothing else does.
use vstd::prelude::*;
use crate::cisco_asa::{activity_of, kind_of, parsed, verdict_of, MessageKind};
use crate::cisco_asa::{BUILT, DENIED_CONN, DENY, DROPPED_ACL, HEADER, SESSION_DISCONNECT, TEARDOWN};
use crate::direction::{default_directions, direction_of};
use crate::endpoint_laws::{endpoints_are_shown, shows};
use crate::number::{all_digits, decimal_text, decimal_value, is_digit};
use crate::ocsf::{ActivityView, ConnectionView, MetadataView, ProductView};
use crate::pattern::captures_of;
use crate::protocol::protocol_number;
use crate::text::{trimmed, uppered, TrimSet};
use crate::text_laws::{numbers_are_digits, other_texts_are_no_numbers};

verus! {

// ---------------------------------------------------------------------------
// The parts of an event
// ---------------------------------------------------------------------------

/// Whether the header of `raw` is found with these three parts.
pub open spec fn is_message(
    raw: Seq<char>,
    severity: Seq<char>,
    code: Seq<char>,
    body: Seq<char>,
) -> bool {
    match captures_of(HEADER@, raw) {
        Some(g) => g.len() == 4 && g[1] == Some(severity) && g[2] == Some(code) && g[3] == Some(
            body,
        ),
        None => false,
    }
}

/// `text`, or `default` without one.
pub open spec fn given(text: Option<Seq<char>>, default: Seq<char>) -> Seq<char> {
    if text is Some {
        text.unwrap()
    } else {
        default
    }
}

/// Whether the event is one of this product, read from `raw` at the time
/// `now_ms`, with that activity and verdict.
pub open spec fn is_event(
    e: ActivityView,
    raw: Seq<char>,
    now_ms: i64,
    number: u32,
    name: Seq<char>,
    verdict: Seq<char>,
) -> bool {
    &&& e.activity_id == number
    &&& e.activity_name == name
    &&& e.disposition == verdict
    &&& e.time == now_ms
    &&& e.metadata == (MetadataView {
        product: ProductView { vendor_name: "Cisco"@, name: "ASA"@, version: None },
        raw_data: raw,
        log_name: ""@,
        log_provider: ""@,
        logged_time: now_ms,
    })
}

/// Whether the connection is one over the protocol of that name.
pub open spec fn runs_over(c: ConnectionView, protocol: Seq<char>) -> bool {
    c.protocol_name == Some(uppered(protocol)) && c.protocol_num == protocol_number(
        uppered(protocol),
    )
}

/// Whether the fields hold `name` with that value, or not at all without one.
pub open spec fn holds_field(
    m: Map<Seq<char>, Seq<char>>,
    name: Seq<char>,
    value: Option<Seq<char>>,
) -> bool {
    match value {
        Some(v) => m.dom().contains(name) && m[name] == v,
        None => !m.dom().contains(name),
    }
}

/// Whether the fields hold the code, and the severity as a number: the one that
/// its digits write, and 6 where that does not fit into a byte.
pub open spec fn holds_header(
    m: Map<Seq<char>, Seq<char>>,
    severity: Seq<char>,
    code: Seq<char>,
) -> bool {
    &&& holds_field(m, "cisco_message_code"@, Some(code))
    &&& m.dom().contains("cisco_severity"@)
    &&& severity.len() > 0 && all_digits(severity) && decimal_value(severity) < 256
        ==> m["cisco_severity"@] == decimal_text(decimal_value(severity))
    &&& severity.len() > 0 && all_digits(severity) && decimal_value(severity) >= 256
        ==> m["cisco_severity"@] == seq!['6']
    &&& forall|i: int|
        0 <= i < severity.len() && !is_digit(#[trigger] severity[i]) && severity[0] != '+'
            ==> m["cisco_severity"@] == seq!['6']
}

/// Whether the fields are those of the header and, beside them, only those of
/// these names.
pub open spec fn holds_only(m: Map<Seq<char>, Seq<char>>, names: Set<Seq<char>>) -> bool {
    forall|k: Seq<char>| #[trigger]
        m.dom().contains(k) ==> k == "cisco_severity"@ || k == "cisco_message_code"@
            || names.contains(k)
}

/// Whether `n` is the count that `text` writes: its digits as a number of 64
/// bits, and nothing where they are none, or too many.
pub open spec fn counts(n: Option<u64>, text: Option<Seq<char>>) -> bool {
    match text {
        Some(t) => {
            &&& t.len() > 0 && all_digits(t) && decimal_value(t) <= u64::MAX ==> n == Some(
                decimal_value(t) as u64,
            )
            &&& t.len() > 0 && all_digits(t) && decimal_value(t) > u64::MAX ==> n is None
            &&& t.len() == 0 ==> n is None
            &&& forall|i: int|
                0 <= i < t.len() && !is_digit(#[trigger] t[i]) && t[0] != '+' ==> n is None
        },
        None => n is None,
    }
}

/// `text` without white space at its ends.
pub open spec fn stripped(text: Option<Seq<char>>) -> Option<Seq<char>> {
    match text {
        Some(t) => Some(trimmed(t, TrimSet::Whitespace)),
        None => None,
    }
}

// ---------------------------------------------------------------------------
// Helpers of the proofs
// ---------------------------------------------------------------------------

proof fn lemma_counts(text: Option<Seq<char>>)
    ensures
        counts(crate::cisco_asa::number_of(text), text),
{
    if let Some(t) = text {
        if t.len() > 0 && all_digits(t) {
            numbers_are_digits(t, u64::MAX as nat);
        }
        other_texts_are_no_numbers(t, 0, u64::MAX as nat);
        assert forall|i: int|
            0 <= i < t.len() && !is_digit(#[trigger] t[i]) && t[0] != '+' implies
            crate::cisco_asa::number_of(text) is None by {
            other_texts_are_no_numbers(t, i, u64::MAX as nat);
        }
    }
}

proof fn lemma_severity(severity: Seq<char>)
    ensures
        severity.len() > 0 && all_digits(severity) && decimal_value(severity) < 256
            ==> crate::cisco_asa::severity_of(Some(severity)) == decimal_value(severity),
        severity.len() > 0 && all_digits(severity) && decimal_value(severity) >= 256
            ==> crate::cisco_asa::severity_of(Some(severity)) == 6,
        forall|i: int|
            0 <= i < severity.len() && !is_digit(#[trigger] severity[i]) && severity[0] != '+'
                ==> crate::cisco_asa::severity_of(Some(severity)) == 6,
        decimal_text(6) == seq!['6'],
{
    if severity.len() > 0 && all_digits(severity) {
        numbers_are_digits(severity, 255);
    }
    assert forall|i: int|
        0 <= i < severity.len() && !is_digit(#[trigger] severity[i]) && severity[0] != '+' implies
        crate::cisco_asa::severity_of(Some(severity)) == 6 by {
        other_texts_are_no_numbers(severity, i, 255);
    }
    assert(decimal_text(6) =~= seq!['6']);
}

proof fn lemma_names()
    ensures
        "cisco_severity"@.len() == 14,
        "cisco_message_code"@.len() == 18,
        "connection_id"@.len() == 13,
        "duration"@.len() == 8,
        "access_group"@.len() == 12,
        "vpn_group"@.len() == 9,
        "username"@.len() == 8,
        "session_type"@.len() == 12,
        "disconnect_reason"@.len() == 17,
        "duration"@ != "username"@,
{
    reveal_strlit("cisco_severity");
    reveal_strlit("cisco_message_code");
    reveal_strlit("connection_id");
    reveal_strlit("duration");
    reveal_strlit("access_group");
    reveal_strlit("vpn_group");
    reveal_strlit("username");
    reveal_strlit("session_type");
    reveal_strlit("disconnect_reason");
    assert("duration"@[0] == 'd' && "username"@[0] == 'u');
}

/// The codes that a pattern is kept for.
pub proof fn codes_announce_their_kind(code: Seq<char>)
    ensures
        kind_of("302013"@) == MessageKind::Built,
        kind_of("302015"@) == MessageKind::Built,
        kind_of("302020"@) == MessageKind::Built,
        kind_of("302014"@) == MessageKind::Teardown,
        kind_of("302016"@) == MessageKind::Teardown,
        kind_of("302021"@) == MessageKind::Teardown,
        kind_of("106023"@) == MessageKind::Deny,
        kind_of("106001"@) == MessageKind::Drop,
        kind_of("106006"@) == MessageKind::Drop,
        kind_of("106007"@) == MessageKind::Drop,
        kind_of("113019"@) == MessageKind::SessionDisconnect,
        kind_of(code) != MessageKind::Other ==> {
            ||| code == "302013"@ || code == "302015"@ || code == "302020"@
            ||| code == "302014"@ || code == "302016"@ || code == "302021"@
            ||| code == "106023"@ || code == "113019"@
            ||| code == "106001"@ || code == "106006"@ || code == "106007"@
        },
{
    reveal_strlit("302013");
    reveal_strlit("302015");
    reveal_strlit("302020");
    reveal_strlit("302014");
    reveal_strlit("302016");
    reveal_strlit("302021");
    reveal_strlit("106023");
    reveal_strlit("106001");
    reveal_strlit("106006");
    reveal_strlit("106007");
    reveal_strlit("113019");
    assert("302013"@[0] == '3' && "302013"@[4] == '1' && "302013"@[5] == '3');
    assert("302015"@[0] == '3' && "302015"@[4] == '1' && "302015"@[5] == '5');
    assert("302020"@[0] == '3' && "302020"@[4] == '2' && "302020"@[5] == '0');
    assert("302014"@[0] == '3' && "302014"@[4] == '1' && "302014"@[5] == '4');
    assert("302016"@[0] == '3' && "302016"@[4] == '1' && "302016"@[5] == '6');
    assert("302021"@[0] == '3' && "302021"@[4] == '2' && "302021"@[5] == '1');
    assert("106023"@[0] == '1' && "106023"@[1] == '0' && "106023"@[4] == '2');
    assert("106001"@[0] == '1' && "106001"@[1] == '0' && "106001"@[4] == '0');
    assert("106006"@[0] == '1' && "106006"@[1] == '0' && "106006"@[4] == '0');
    assert("106007"@[0] == '1' && "106007"@[1] == '0' && "106007"@[4] == '0');
    assert("113019"@[0] == '1' && "113019"@[1] == '1');
}

// ---------------------------------------------------------------------------
// The kinds of message
// ---------------------------------------------------------------------------

/// A connection that was built: the protocol word behind the direction, the
/// number behind `connection`, the source behind `for` and the destination
/// behind `to`.
pub proof fn built_message(
    raw: Seq<char>,
    severity: Seq<char>,
    code: Seq<char>,
    body: Seq<char>,
    g: Seq<Option<Seq<char>>>,
    now_ms: i64,
)
    requires
        is_message(raw, severity, code, body),
        code == "302013"@ || code == "302015"@ || code == "302020"@,
        captures_of(BUILT@, body) == Some(g),
        g.len() == 6,
    ensures
        parsed(raw, now_ms) matches Some(e) && {
            &&& is_event(e, raw, now_ms, 1, "Open"@, "Allowed"@)
            &&& shows(e.src_endpoint, given(g[4], ""@), None)
            &&& shows(e.dst_endpoint, given(g[5], ""@), None)
            &&& runs_over(e.connection_info, given(g[2], "TCP"@))
            &&& e.connection_info.direction == Some(
                match g[1] {
                    Some(word) => direction_of(word),
                    None => "Unknown"@,
                },
            )
            &&& e.traffic is None
            &&& e.unmapped matches Some(m) && {
                &&& holds_header(m, severity, code)
                &&& holds_field(m, "connection_id"@, Some(given(g[3], ""@)))
                &&& holds_only(m, set!["connection_id"@])
            }
        },
{
    codes_announce_their_kind(code);
    default_directions();
    lemma_names();
    lemma_severity(severity);
    endpoints_are_shown(given(g[4], ""@), None);
    endpoints_are_shown(given(g[5], ""@), None);
}

/// A connection that was torn down: the protocol word behind `Teardown`, the
/// number behind `connection`, the source behind `for`, the destination behind
/// `to`, the duration, and the bytes, which count as outgoing.
pub proof fn teardown_message(
    raw: Seq<char>,
    severity: Seq<char>,
    code: Seq<char>,
    body: Seq<char>,
    g: Seq<Option<Seq<char>>>,
    now_ms: i64,
)
    requires
        is_message(raw, severity, code, body),
        code == "302014"@ || code == "302016"@ || code == "302021"@,
        captures_of(TEARDOWN@, body) == Some(g),
        g.len() == 7,
    ensures
        parsed(raw, now_ms) matches Some(e) && {
            &&& is_event(e, raw, now_ms, 2, "Close"@, "Allowed"@)
            &&& shows(e.src_endpoint, given(g[3], ""@), None)
            &&& shows(e.dst_endpoint, given(g[4], ""@), None)
            &&& runs_over(e.connection_info, given(g[1], "TCP"@))
            &&& e.connection_info.direction is None
            &&& match e.traffic {
                Some(t) => t.bytes_out is Some && counts(t.bytes_out, g[6]) && t.bytes_in is None
                    && t.packets_in is None && t.packets_out is None,
                None => counts(None, g[6]),
            }
            &&& e.unmapped matches Some(m) && {
                &&& holds_header(m, severity, code)
                &&& holds_field(m, "connection_id"@, Some(given(g[2], ""@)))
                &&& holds_field(m, "duration"@, g[5])
                &&& holds_only(m, set!["connection_id"@, "duration"@])
            }
        },
{
    codes_announce_their_kind(code);
    lemma_names();
    lemma_severity(severity);
    lemma_counts(g[6]);
    endpoints_are_shown(given(g[3], ""@), None);
    endpoints_are_shown(given(g[4], ""@), None);
}

/// A packet that was denied: the protocol word behind `Deny`, the source behind
/// `src`, the destination behind `dst`, and the access group without its quotes.
pub proof fn deny_message(
    raw: Seq<char>,
    severity: Seq<char>,
    body: Seq<char>,
    g: Seq<Option<Seq<char>>>,
    now_ms: i64,
)
    requires
        is_message(raw, severity, "106023"@, body),
        captures_of(DENY@, body) == Some(g),
        g.len() == 5,
    ensures
        parsed(raw, now_ms) matches Some(e) && {
            &&& is_event(e, raw, now_ms, 99, "Other"@, "Blocked"@)
            &&& shows(e.src_endpoint, given(g[2], ""@), None)
            &&& shows(e.dst_endpoint, given(g[3], ""@), None)
            &&& runs_over(e.connection_info, given(g[1], "TCP"@))
            &&& e.connection_info.direction is None
            &&& e.traffic is None
            &&& e.unmapped matches Some(m) && {
                &&& holds_header(m, severity, "106023"@)
                &&& holds_field(
                    m,
                    "access_group"@,
                    match g[4] {
                        Some(t) => Some(trimmed(t, TrimSet::Quotes)),
                        None => None,
                    },
                )
                &&& holds_only(m, set!["access_group"@])
            }
        },
{
    codes_announce_their_kind("106023"@);
    lemma_names();
    lemma_severity(severity);
    endpoints_are_shown(given(g[2], ""@), None);
    endpoints_are_shown(given(g[3], ""@), None);
}

/// A connection that was denied: the protocol word behind the direction, the
/// source behind `from`, with the interface that the message names behind
/// `interface`, and the destination behind `to`.
pub proof fn denied_connection_message(
    raw: Seq<char>,
    severity: Seq<char>,
    code: Seq<char>,
    body: Seq<char>,
    g: Seq<Option<Seq<char>>>,
    now_ms: i64,
)
    requires
        is_message(raw, severity, code, body),
        code == "106001"@ || code == "106006"@ || code == "106007"@,
        captures_of(DENIED_CONN@, body) == Some(g),
        g.len() == 6,
    ensures
        parsed(raw, now_ms) matches Some(e) && {
            &&& is_event(e, raw, now_ms, 99, "Other"@, "Dropped"@)
            &&& shows(e.src_endpoint, given(g[3], ""@), g[5])
            &&& shows(e.dst_endpoint, given(g[4], ""@), None)
            &&& runs_over(e.connection_info, given(g[2], "TCP"@))
            &&& e.connection_info.direction == Some(
                match g[1] {
                    Some(word) => direction_of(word),
                    None => "Inbound"@,
                },
            )
            &&& e.traffic is None
            &&& e.unmapped matches Some(m) && {
                &&& holds_header(m, severity, code)
                &&& holds_only(m, Set::empty())
            }
        },
{
    codes_announce_their_kind(code);
    default_directions();
    lemma_names();
    lemma_severity(severity);
    endpoints_are_shown(given(g[3], ""@), g[5]);
    endpoints_are_shown(given(g[4], ""@), None);
}

/// A packet that an access list dropped: the protocol word behind `dropped`, the
/// source behind `from` and the destination behind `to`; no direction.
pub proof fn dropped_message(
    raw: Seq<char>,
    severity: Seq<char>,
    code: Seq<char>,
    body: Seq<char>,
    g: Seq<Option<Seq<char>>>,
    now_ms: i64,
)
    requires
        is_message(raw, severity, code, body),
        code == "106001"@ || code == "106006"@ || code == "106007"@,
        captures_of(DENIED_CONN@, body) is None,
        captures_of(DROPPED_ACL@, body) == Some(g),
        g.len() == 4,
    ensures
        parsed(raw, now_ms) matches Some(e) && {
            &&& is_event(e, raw, now_ms, 99, "Other"@, "Dropped"@)
            &&& shows(e.src_endpoint, given(g[2], ""@), None)
            &&& shows(e.dst_endpoint, given(g[3], ""@), None)
            &&& runs_over(e.connection_info, given(g[1], "UDP"@))
            &&& e.connection_info.direction is None
            &&& e.traffic is None
            &&& e.unmapped matches Some(m) && {
                &&& holds_header(m, severity, code)
                &&& holds_only(m, Set::empty())
            }
        },
{
    codes_announce_their_kind(code);
    lemma_names();
    lemma_severity(severity);
    endpoints_are_shown(given(g[2], ""@), None);
    endpoints_are_shown(given(g[3], ""@), None);
}

/// A VPN session that ended. Each field holds what stands behind its own label:
/// `Group`, `Username`, `Session Type`, `Duration` and `Reason`. The address
/// behind `IP` is the source, `Bytes rcv` came in and `Bytes xmt` went out, where
/// both counts can be read.
pub proof fn session_message(
    raw: Seq<char>,
    severity: Seq<char>,
    body: Seq<char>,
    g: Seq<Option<Seq<char>>>,
    now_ms: i64,
)
    requires
        is_message(raw, severity, "113019"@, body),
        captures_of(SESSION_DISCONNECT@, body) == Some(g),
        g.len() == 9,
    ensures
        parsed(raw, now_ms) matches Some(e) && {
            &&& is_event(e, raw, now_ms, 2, "Close"@, "Allowed"@)
            &&& e.src_endpoint.ip == stripped(g[3])
            &&& e.src_endpoint.port is None && e.src_endpoint.interface is None
            &&& e.src_endpoint.hostname is None
            &&& e.dst_endpoint.ip is None && e.dst_endpoint.port is None
            &&& e.dst_endpoint.interface is None && e.dst_endpoint.hostname is None
            &&& e.connection_info.protocol_num is None && e.connection_info.protocol_name is None
            &&& e.connection_info.direction is None
            &&& match e.traffic {
                Some(t) => {
                    &&& t.bytes_in is Some && counts(t.bytes_in, g[7])
                    &&& t.bytes_out is Some && counts(t.bytes_out, g[6])
                    &&& t.packets_in is None && t.packets_out is None
                },
                None => counts(None, g[7]) || counts(None, g[6]),
            }
            &&& e.unmapped matches Some(m) && {
                &&& holds_header(m, severity, "113019"@)
                &&& holds_field(m, "vpn_group"@, stripped(g[1]))
                &&& holds_field(m, "username"@, stripped(g[2]))
                &&& holds_field(m, "session_type"@, stripped(g[4]))
                &&& holds_field(m, "duration"@, stripped(g[5]))
                &&& holds_field(m, "disconnect_reason"@, stripped(g[8]))
                &&& holds_only(
                    m,
                    set![
                        "vpn_group"@,
                        "username"@,
                        "session_type"@,
                        "duration"@,
                        "disconnect_reason"@,
                    ],
                )
            }
        },
{
    codes_announce_their_kind("113019"@);
    lemma_names();
    lemma_severity(severity);
    lemma_counts(g[6]);
    lemma_counts(g[7]);
}

/// Whether a message has a code that no pattern is kept for, or a body that the
/// pattern of its code does not match.
pub open spec fn fits_no_pattern(code: Seq<char>, body: Seq<char>) -> bool {
    &&& code == "302013"@ || code == "302015"@ || code == "302020"@ ==> captures_of(BUILT@, body)
        is None
    &&& code == "302014"@ || code == "302016"@ || code == "302021"@ ==> captures_of(TEARDOWN@, body)
        is None
    &&& code == "106023"@ ==> captures_of(DENY@, body) is None
    &&& code == "106001"@ || code == "106006"@ || code == "106007"@ ==> captures_of(
        DENIED_CONN@,
        body,
    ) is None && captures_of(DROPPED_ACL@, body) is None
    &&& code == "113019"@ ==> captures_of(SESSION_DISCONNECT@, body) is None
}

/// A message that fits no pattern is judged by its words, and its event claims
/// nothing else.
pub proof fn other_message(
    raw: Seq<char>,
    severity: Seq<char>,
    code: Seq<char>,
    body: Seq<char>,
    now_ms: i64,
)
    requires
        is_message(raw, severity, code, body),
        fits_no_pattern(code, body),
    ensures
        parsed(raw, now_ms) matches Some(e) && {
            &&& is_event(
                e,
                raw,
                now_ms,
                activity_of(body),
                match activity_of(body) {
                    1 => "Open"@,
                    2 => "Close"@,
                    _ => "Other"@,
                },
                verdict_of(body),
            )
            &&& e.src_endpoint.ip is None && e.src_endpoint.port is None
            &&& e.src_endpoint.interface is None && e.src_endpoint.hostname is None
            &&& e.dst_endpoint.ip is None && e.dst_endpoint.port is None
            &&& e.dst_endpoint.interface is None && e.dst_endpoint.hostname is None
            &&& e.connection_info.protocol_num is None && e.connection_info.protocol_name is None
            &&& e.connection_info.direction is None
            &&& e.traffic is None
            &&& e.unmapped matches Some(m) && {
                &&& holds_header(m, severity, code)
                &&& holds_only(m, Set::empty())
            }
        },
{
    codes_announce_their_kind(code);
    lemma_names();
    lemma_severity(severity);
}

/// A message that is judged by its words keeps the fields it is given.
pub proof fn given_fields_are_kept(
    raw: Seq<char>,
    body: Seq<char>,
    now_ms: i64,
    fields: Map<Seq<char>, Seq<char>>,
)
    ensures
        ({
            let e = crate::cisco_asa::fallback(raw, body, now_ms, fields);
            &&& e.unmapped == Some(fields)
            &&& e.activity_id == activity_of(body)
            &&& e.disposition == verdict_of(body)
            &&& e.time == now_ms && e.metadata.logged_time == now_ms
            &&& e.metadata.raw_data == raw
            &&& e.traffic is None
        }),
{
}

/// Two denied packets whose protocol words differ, in more than letter case, give
/// events whose protocols differ.
pub proof fn denied_protocols_are_told_apart(
    raw: Seq<char>,
    severity: Seq<char>,
    body: Seq<char>,
    g: Seq<Option<Seq<char>>>,
    other_raw: Seq<char>,
    other_body: Seq<char>,
    h: Seq<Option<Seq<char>>>,
    now_ms: i64,
)
    requires
        is_message(raw, severity, "106023"@, body),
        is_message(other_raw, severity, "106023"@, other_body),
        captures_of(DENY@, body) == Some(g),
        captures_of(DENY@, other_body) == Some(h),
        g.len() == 5 && h.len() == 5,
        g[1] is Some && h[1] is Some,
        uppered(g[1].unwrap()) != uppered(h[1].unwrap()),
    ensures
        parsed(raw, now_ms).unwrap().connection_info.protocol_name != parsed(
            other_raw,
            now_ms,
        ).unwrap().connection_info.protocol_name,
{
    deny_message(raw, severity, body, g, now_ms);
    deny_message(other_raw, severity, other_body, h, now_ms);
}

/// The number of a connection that was torn down shows in its own field and
/// nowhere else.
pub proof fn teardown_number_changes_one_field(
    raw: Seq<char>,
    severity: Seq<char>,
    code: Seq<char>,
    body: Seq<char>,
    g: Seq<Option<Seq<char>>>,
    other_raw: Seq<char>,
    other_body: Seq<char>,
    number: Seq<char>,
    now_ms: i64,
)
    requires
        is_message(raw, severity, code, body),
        is_message(other_raw, severity, code, other_body),
        code == "302014"@ || code == "302016"@ || code == "302021"@,
        captures_of(TEARDOWN@, body) == Some(g),
        g.len() == 7,
        captures_of(TEARDOWN@, other_body) == Some(g.update(2, Some(number))),
    ensures
        ({
            let a = parsed(raw, now_ms).unwrap();
            let b = parsed(other_raw, now_ms).unwrap();
            &&& b.src_endpoint == a.src_endpoint && b.dst_endpoint == a.dst_endpoint
            &&& b.connection_info == a.connection_info
            &&& b.traffic == a.traffic
            &&& b.unmapped == Some(a.unmapped.unwrap().insert("connection_id"@, number))
        }),
{
    codes_announce_their_kind(code);
    lemma_names();
    let a = parsed(raw, now_ms).unwrap();
    let b = parsed(other_raw, now_ms).unwrap();
    assert(b.unmapped.unwrap() =~= a.unmapped.unwrap().insert("connection_id"@, number));
}

}
