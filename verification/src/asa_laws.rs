//! What holds of every Cisco ASA event.
use vstd::prelude::*;
use crate::cisco_asa::{activity_of, event_of, header_fields, kind_of, parsed};
use crate::cisco_asa::{reports_failure, session_disconnect, verdict_of};
use crate::cisco_asa::{HeaderView, MessageKind};
use crate::cisco_asa::{BUILT, DENIED_CONN, DENY, DROPPED_ACL, HEADER, SESSION_DISCONNECT, TEARDOWN};
use crate::direction::{default_directions, direction_of};
use crate::number::decimal_text;
use crate::ocsf::{activity_id, activity_name_of, disposition};
use crate::ocsf::{unknown_connection, unknown_endpoint, ActivityView, MetadataView};
use crate::pattern::{captures_of, group};
use crate::text::{has_phrase, lowered};

verus! {

/// A log line gives an event exactly when it holds a message header.
pub proof fn event_exactly_with_header(raw: Seq<char>, now_ms: i64)
    ensures
        parsed(raw, now_ms) is Some <==> captures_of(HEADER@, raw) is Some,
{
}

/// Nothing of the log line is lost: the event carries it whole, with the product
/// and the time at which it was read.
pub proof fn raw_line_is_kept(raw: Seq<char>, now_ms: i64)
    ensures
        parsed(raw, now_ms) matches Some(e) ==> {
            &&& e.metadata.raw_data == raw
            &&& e.metadata.product.vendor_name == "Cisco"@
            &&& e.metadata.product.name == "ASA"@
            &&& e.metadata.logged_time == now_ms
            &&& e.time == now_ms
        },
{
}

/// Every event carries the severity and the code of its message.
pub proof fn header_is_kept(raw: Seq<char>, h: HeaderView, now_ms: i64)
    ensures
        event_of(raw, h, now_ms).unmapped matches Some(m) && {
            &&& m.dom().contains("cisco_severity"@)
            &&& m["cisco_severity"@] == decimal_text(h.severity as nat)
            &&& m.dom().contains("cisco_message_code"@)
            &&& m["cisco_message_code"@] == h.message_code
        },
{
    reveal_strlit("cisco_severity");
    reveal_strlit("cisco_message_code");
    reveal_strlit("connection_id");
    reveal_strlit("duration");
    reveal_strlit("access_group");
    reveal_strlit("vpn_group");
    reveal_strlit("username");
    reveal_strlit("session_type");
    reveal_strlit("disconnect_reason");
    let severity = "cisco_severity"@;
    let code = "cisco_message_code"@;
    assert(severity.len() == 14 && code.len() == 18);
    assert("connection_id"@.len() == 13);
    assert("duration"@.len() == 8);
    assert("access_group"@.len() == 12);
    assert("vpn_group"@.len() == 9);
    assert("username"@.len() == 8);
    assert("session_type"@.len() == 12);
    assert("disconnect_reason"@.len() == 17);
}

/// The name of the activity is that of its number, and the verdict is one of
/// the four.
pub proof fn vocabulary_is_closed(raw: Seq<char>, h: HeaderView, now_ms: i64)
    ensures
        ({
            let e = event_of(raw, h, now_ms);
            &&& e.activity_name == activity_name_of(e.activity_id)
            &&& e.activity_id == activity_id::OPEN || e.activity_id == activity_id::CLOSE
                || e.activity_id == activity_id::OTHER
            &&& e.disposition == disposition::ALLOWED@ || e.disposition == disposition::BLOCKED@
                || e.disposition == disposition::DROPPED@ || e.disposition
                == disposition::UNKNOWN@
        }),
{
}

/// Where no pattern applies, the words of the body decide, and the event claims
/// no endpoint, protocol or traffic.
pub proof fn words_decide_where_no_pattern_applies(raw: Seq<char>, h: HeaderView, now_ms: i64)
    requires
        match kind_of(h.message_code) {
            MessageKind::Built => captures_of(BUILT@, h.body) is None,
            MessageKind::Teardown => captures_of(TEARDOWN@, h.body) is None,
            MessageKind::Deny => captures_of(DENY@, h.body) is None,
            MessageKind::Drop => captures_of(DENIED_CONN@, h.body) is None && captures_of(
                DROPPED_ACL@,
                h.body,
            ) is None,
            MessageKind::SessionDisconnect => captures_of(SESSION_DISCONNECT@, h.body) is None,
            MessageKind::Other => true,
        },
    ensures
        ({
            let e = event_of(raw, h, now_ms);
            &&& e.activity_id == activity_of(h.body)
            &&& e.disposition == verdict_of(h.body)
            &&& e.src_endpoint == unknown_endpoint()
            &&& e.dst_endpoint == unknown_endpoint()
            &&& e.connection_info == unknown_connection()
            &&& e.traffic is None
            &&& e.unmapped == Some(header_fields(h))
        }),
{
}

/// A failed authentication is blocked, whatever else the line mentions.
pub proof fn failure_wins(body: Seq<char>)
    requires
        reports_failure(body),
    ensures
        verdict_of(body) == disposition::BLOCKED@,
{
}

/// The end of a session is the normal end of permitted traffic: it is allowed
/// under every code, unless the line reports a failed authentication too.
pub proof fn session_end_is_allowed(
    raw: Seq<char>,
    h: HeaderView,
    g: Seq<Option<Seq<char>>>,
    now_ms: i64,
)
    ensures
        has_phrase(lowered(h.body), "session disconnected"@) && !reports_failure(h.body)
            ==> verdict_of(h.body) == disposition::ALLOWED@,
        session_disconnect(raw, h, g, now_ms).disposition == disposition::ALLOWED@,
        session_disconnect(raw, h, g, now_ms).activity_id == activity_id::CLOSE,
{
}

/// The verdict on a failed authentication does not depend on letter case.
pub proof fn failure_is_seen_in_any_case(a: Seq<char>, b: Seq<char>)
    requires
        lowered(a) == lowered(b),
    ensures
        reports_failure(a) == reports_failure(b),
{
}

/// The end of a VPN session has no port, protocol or peer, so the event has
/// none either.
pub proof fn session_end_invents_nothing(
    raw: Seq<char>,
    h: HeaderView,
    g: Seq<Option<Seq<char>>>,
    now_ms: i64,
)
    ensures
        ({
            let e = session_disconnect(raw, h, g, now_ms);
            &&& e.src_endpoint.port is None
            &&& e.src_endpoint.interface is None
            &&& e.dst_endpoint == unknown_endpoint()
            &&& e.connection_info == unknown_connection()
        }),
{
}

/// An event has a direction exactly where its message is of a form with a place
/// for one. Where that place is empty, a connection that was built has an
/// unknown direction, and one that was denied counts as inbound.
pub proof fn direction_comes_from_the_message(raw: Seq<char>, h: HeaderView, now_ms: i64)
    ensures
        event_of(raw, h, now_ms).connection_info.direction == match kind_of(h.message_code) {
            MessageKind::Built => match captures_of(BUILT@, h.body) {
                Some(g) => Some(
                    match group(g, 1) {
                        Some(word) => direction_of(word),
                        None => "Unknown"@,
                    },
                ),
                None => None,
            },
            MessageKind::Drop => match captures_of(DENIED_CONN@, h.body) {
                Some(g) => Some(
                    match group(g, 1) {
                        Some(word) => direction_of(word),
                        None => "Inbound"@,
                    },
                ),
                None => None,
            },
            _ => None,
        },
{
    default_directions();
}

/// The raw line shows in the metadata of an event and nowhere else: the header
/// decides all the rest.
pub proof fn raw_line_shows_only_in_metadata(
    raw: Seq<char>,
    other: Seq<char>,
    h: HeaderView,
    now_ms: i64,
)
    ensures
        event_of(other, h, now_ms) == (ActivityView {
            metadata: MetadataView { raw_data: other, ..event_of(raw, h, now_ms).metadata },
            ..event_of(raw, h, now_ms)
        }),
{
}

/// Two readings of one line differ in their times and in nothing else.
pub proof fn only_times_depend_on_the_clock(raw: Seq<char>, first: i64, second: i64)
    ensures
        match (parsed(raw, first), parsed(raw, second)) {
            (Some(a), Some(b)) => b == (ActivityView {
                time: second,
                metadata: MetadataView { logged_time: second, ..a.metadata },
                ..a
            }),
            (None, None) => true,
            _ => false,
        },
{
}

}
