//! Cisco ASA firewall messages.
//!
//! A message is `%ASA-severity-code: body`. The code decides which pattern the
//! body is held against; a body that does not match, and any other code, is
//! judged by the words it holds.
use vstd::prelude::*;
use crate::clock::now_millis;
use crate::direction::{direction_of, normalize_direction};
use crate::endpoint::{endpoint_parts, parse_endpoint_str};
use crate::fields::FieldMap;
use crate::number::{decimal, decimal_text, parse_u64, parse_u8, unsigned_value};
use crate::ocsf::{activity_id, disposition};
use crate::ocsf::{activity_name_of, unknown_connection, unknown_endpoint};
use crate::ocsf::{ActivityView, ConnectionInfo, ConnectionView, Endpoint, EndpointView};
use crate::ocsf::{Metadata, MetadataView, NetworkActivity, Product, ProductView, Traffic};
use crate::pattern::{captures, captures_of, compile, group, group_or, group_text, group_text_or};
use crate::pattern::{groups_view, header_found_past_preface, starts_nowhere_before};
use crate::pattern::{Groups, Pattern};
use crate::protocol::{protocol_num_from_name, protocol_number};
use crate::text::{contains, has_phrase, lowered, occurs_at, same};
use crate::text::{to_ascii_lowercase, to_ascii_uppercase, trim, trimmed, uppered, TrimSet};

verus! {

/// What every header opens with.
pub const HEADER_MARK: &'static str = "%ASA-";

/// The header that every message starts with: severity, code and body.
pub const HEADER: &'static str = r"%ASA-(\d+)-(\d+):\s*(.*)";

/// A connection was built: direction, protocol, number, source, destination.
pub const BUILT: &'static str = r"Built\s+(inbound|outbound)?\s*([A-Za-z0-9]+)\s+connection\s+(\d+)\s+for\s+([^\s]+)(?:\s+\([^\)]+\))?\s+to\s+([^\s]+)";

/// A connection was torn down: protocol, number, source, destination, duration,
/// bytes.
pub const TEARDOWN: &'static str = r"Teardown\s+([A-Za-z0-9]+)\s+connection\s+(\d+)\s+for\s+([^\s]+)\s+to\s+([^\s]+)(?:.*?duration\s+([^\s]+))?(?:.*?bytes\s+(\d+))?";

/// A packet was denied by an access group: protocol, source, destination, group.
pub const DENY: &'static str = r"Deny\s+([A-Za-z0-9]+)\s+src\s+([^\s]+)\s+dst\s+([^\s]+)(?:.*?by\s+access-group\s+([^\s\[]+))?";

/// A connection was denied: direction, protocol, source, destination, interface.
pub const DENIED_CONN: &'static str = r"(?:(Inbound|Outbound)\s+)?([A-Za-z0-9]+)\s+connection\s+denied\s+from\s+([^\s]+)\s+to\s+([^\s]+)(?:.*?interface\s+([^\s]+))?";

/// A packet was dropped by an access list: protocol, source, destination. The
/// comma behind the destination belongs to no endpoint.
pub const DROPPED_ACL: &'static str = r"(?i)dropped\s+([A-Za-z0-9]+)\s+from\s+([^\s,]+)\s+to\s+([^\s,]+)";

/// A VPN session ended: group, user, address, type, duration, bytes sent, bytes
/// received, reason.
pub const SESSION_DISCONNECT: &'static str = r"Group\s*=\s*([^,]+),\s*Username\s*=\s*([^,]+),\s*IP\s*=\s*([^,\s]+),\s*Session disconnected\.\s*Session Type:\s*([^,]+),\s*Duration:\s*([^,]+),\s*Bytes xmt:\s*(\d+),\s*Bytes rcv:\s*(\d+),\s*Reason:\s*(.+?)\s*$";

// ---------------------------------------------------------------------------
// The parts of an event
// ---------------------------------------------------------------------------

/// The fields of the message header.
#[derive(Debug)]
pub struct Header {
    pub severity: u8,
    pub message_code: String,
    pub body: String,
}

/// The view of a `Header`.
pub struct HeaderView {
    pub severity: u8,
    pub message_code: Seq<char>,
    pub body: Seq<char>,
}

impl View for Header {
    type V = HeaderView;

    open spec fn view(&self) -> HeaderView {
        HeaderView {
            severity: self.severity,
            message_code: self.message_code@,
            body: self.body@,
        }
    }
}

/// The severity that a header writes; 6 where it is no 8-bit number.
pub open spec fn severity_of(text: Option<Seq<char>>) -> u8 {
    match text {
        Some(t) => match unsigned_value(t, u8::MAX as nat) {
            Some(n) => n as u8,
            None => 6,
        },
        None => 6,
    }
}

/// The header in the groups of `HEADER`.
pub open spec fn header_of(g: Seq<Option<Seq<char>>>) -> HeaderView {
    HeaderView {
        severity: severity_of(group(g, 1)),
        message_code: group_or(g, 2, ""@),
        body: group_or(g, 3, ""@),
    }
}

/// The fields that every event carries beside its own.
pub open spec fn header_fields(h: HeaderView) -> Map<Seq<char>, Seq<char>> {
    Map::<Seq<char>, Seq<char>>::empty().insert(
        "cisco_severity"@,
        decimal_text(h.severity as nat),
    ).insert("cisco_message_code"@, h.message_code)
}

/// `m` with the field `name`, where there is a value for it.
pub open spec fn with_field(
    m: Map<Seq<char>, Seq<char>>,
    name: Seq<char>,
    value: Option<Seq<char>>,
) -> Map<Seq<char>, Seq<char>> {
    match value {
        Some(v) => m.insert(name, v),
        None => m,
    }
}

/// Where an event of this product comes from.
pub open spec fn asa_metadata(raw: Seq<char>, now_ms: i64) -> MetadataView {
    MetadataView {
        product: ProductView { vendor_name: "Cisco"@, name: "ASA"@, version: None },
        raw_data: raw,
        log_name: ""@,
        log_provider: ""@,
        logged_time: now_ms,
    }
}

/// An event of this product.
pub open spec fn asa_event(
    activity: u32,
    verdict: Seq<char>,
    src: EndpointView,
    dst: EndpointView,
    connection: ConnectionView,
    traffic: Option<Traffic>,
    raw: Seq<char>,
    now_ms: i64,
    unmapped: Map<Seq<char>, Seq<char>>,
) -> ActivityView {
    ActivityView {
        activity_id: activity,
        activity_name: activity_name_of(activity),
        time: now_ms,
        disposition: verdict,
        src_endpoint: src,
        dst_endpoint: dst,
        connection_info: connection,
        traffic,
        metadata: asa_metadata(raw, now_ms),
        unmapped: Some(unmapped),
    }
}

/// The endpoint that a message writes as `text`.
pub open spec fn endpoint_of(text: Seq<char>, interface: Option<Seq<char>>) -> EndpointView {
    let parts = endpoint_parts(text, interface);
    EndpointView {
        ip: Some(parts.ip),
        port: match parts.port {
            Some(n) => Some(n as u16),
            None => None,
        },
        interface: parts.interface,
        hostname: None,
    }
}

/// A connection over the protocol that a message writes as `protocol`.
pub open spec fn connection_of(protocol: Seq<char>, direction: Option<Seq<char>>) -> ConnectionView {
    ConnectionView {
        protocol_num: protocol_number(uppered(protocol)),
        protocol_name: Some(uppered(protocol)),
        direction,
    }
}

/// The 64-bit number that a group writes.
pub open spec fn number_of(text: Option<Seq<char>>) -> Option<u64> {
    match text {
        Some(t) => match unsigned_value(t, u64::MAX as nat) {
            Some(n) => Some(n as u64),
            None => None,
        },
        None => None,
    }
}

/// A group without the characters of `set` at its ends.
pub open spec fn trimmed_group(
    g: Seq<Option<Seq<char>>>,
    i: int,
    set: TrimSet,
) -> Option<Seq<char>> {
    match group(g, i) {
        Some(t) => Some(trimmed(t, set)),
        None => None,
    }
}

/// Reads the header out of the groups of `HEADER`.
pub fn read_header(g: &Groups) -> (r: Header)
    ensures
        r@ == header_of(groups_view(g@)),
{
    let severity: u8 = match group_text(g, 1) {
        Some(t) => match parse_u8(t) {
            Some(n) => n,
            None => 6,
        },
        None => 6,
    };
    Header {
        severity,
        message_code: group_text_or(g, 2, "").to_owned(),
        body: group_text_or(g, 3, "").to_owned(),
    }
}

/// Starts the fields of an event with those of its header.
pub fn start_fields(h: &Header) -> (r: FieldMap)
    ensures
        r@ == header_fields(h@),
{
    let mut unmapped = FieldMap::new();
    unmapped.insert("cisco_severity".to_owned(), decimal(h.severity as u64));
    unmapped.insert("cisco_message_code".to_owned(), h.message_code.clone());
    unmapped
}

/// Adds the field `name` where there is a value for it.
fn add_field(m: &mut FieldMap, name: &str, value: Option<String>)
    ensures
        final(m)@ == with_field(old(m)@, name@, crate::ocsf::opt_view(value)),
{
    if let Some(v) = value {
        m.insert(name.to_owned(), v);
    }
}

fn make_event(
    activity: u32,
    verdict: &str,
    src: Endpoint,
    dst: Endpoint,
    connection: ConnectionInfo,
    traffic: Option<Traffic>,
    raw: &str,
    now_ms: i64,
    unmapped: FieldMap,
) -> (r: NetworkActivity)
    ensures
        r@ == asa_event(
            activity,
            verdict@,
            src@,
            dst@,
            connection@,
            traffic,
            raw@,
            now_ms,
            unmapped@,
        ),
{
    let product = Product::new("Cisco", "ASA", None);
    let metadata = Metadata::new(product, raw, "", "", now_ms);
    NetworkActivity::new(activity, now_ms, verdict, src, dst, connection, traffic, metadata).with_unmapped(
        unmapped,
    )
}

fn read_endpoint(text: &str, interface: Option<&str>) -> (r: Endpoint)
    ensures
        r@ == endpoint_of(text@, crate::endpoint::opt_str_view(interface)),
{
    let (ip, port, intf) = parse_endpoint_str(text, interface);
    Endpoint::new(ip, port, intf, None)
}

fn read_connection(protocol: &str, direction: Option<String>) -> (r: ConnectionInfo)
    ensures
        r@ == connection_of(protocol@, crate::ocsf::opt_view(direction)),
{
    let name = to_ascii_uppercase(protocol);
    let num = protocol_num_from_name(name.as_str());
    ConnectionInfo::new(num, Some(name), direction)
}

fn read_number(text: Option<&str>) -> (r: Option<u64>)
    ensures
        r == number_of(crate::endpoint::opt_str_view(text)),
{
    match text {
        Some(t) => parse_u64(t),
        None => None,
    }
}

fn read_trimmed(g: &Groups, i: usize, set: TrimSet) -> (r: Option<String>)
    ensures
        crate::ocsf::opt_view(r) == trimmed_group(groups_view(g@), i as int, set),
{
    match group_text(g, i) {
        Some(t) => Some(trim(t, set)),
        None => None,
    }
}

// ---------------------------------------------------------------------------
// One event per kind of message
// ---------------------------------------------------------------------------

/// The event of a message that matches `BUILT`.
pub open spec fn built(
    raw: Seq<char>,
    h: HeaderView,
    g: Seq<Option<Seq<char>>>,
    now_ms: i64,
) -> ActivityView {
    asa_event(
        activity_id::OPEN,
        disposition::ALLOWED@,
        endpoint_of(group_or(g, 4, ""@), None),
        endpoint_of(group_or(g, 5, ""@), None),
        connection_of(
            group_or(g, 2, "TCP"@),
            Some(direction_of(group_or(g, 1, "Unknown"@))),
        ),
        None,
        raw,
        now_ms,
        header_fields(h).insert("connection_id"@, group_or(g, 3, ""@)),
    )
}

/// Makes the event of a message that matches `BUILT`.
pub fn built_event(raw: &str, h: &Header, g: &Groups, now_ms: i64) -> (r: NetworkActivity)
    ensures
        r@ == built(raw@, h@, groups_view(g@), now_ms),
{
    let direction = normalize_direction(group_text_or(g, 1, "Unknown"));
    let connection = read_connection(group_text_or(g, 2, "TCP"), Some(direction));
    let src = read_endpoint(group_text_or(g, 4, ""), None);
    let dst = read_endpoint(group_text_or(g, 5, ""), None);
    let mut unmapped = start_fields(h);
    unmapped.insert("connection_id".to_owned(), group_text_or(g, 3, "").to_owned());
    make_event(
        activity_id::OPEN,
        disposition::ALLOWED,
        src,
        dst,
        connection,
        None,
        raw,
        now_ms,
        unmapped,
    )
}

/// The traffic of a torn-down connection: the bytes count as outgoing.
pub open spec fn teardown_traffic(bytes: Option<u64>) -> Option<Traffic> {
    match bytes {
        Some(b) => Some(
            Traffic { bytes_in: None, bytes_out: Some(b), packets_in: None, packets_out: None },
        ),
        None => None,
    }
}

/// The event of a message that matches `TEARDOWN`.
pub open spec fn teardown(
    raw: Seq<char>,
    h: HeaderView,
    g: Seq<Option<Seq<char>>>,
    now_ms: i64,
) -> ActivityView {
    asa_event(
        activity_id::CLOSE,
        disposition::ALLOWED@,
        endpoint_of(group_or(g, 3, ""@), None),
        endpoint_of(group_or(g, 4, ""@), None),
        connection_of(group_or(g, 1, "TCP"@), None),
        teardown_traffic(number_of(group(g, 6))),
        raw,
        now_ms,
        with_field(
            header_fields(h).insert("connection_id"@, group_or(g, 2, ""@)),
            "duration"@,
            group(g, 5),
        ),
    )
}

/// Makes the event of a message that matches `TEARDOWN`.
pub fn teardown_event(raw: &str, h: &Header, g: &Groups, now_ms: i64) -> (r: NetworkActivity)
    ensures
        r@ == teardown(raw@, h@, groups_view(g@), now_ms),
{
    let connection = read_connection(group_text_or(g, 1, "TCP"), None);
    let src = read_endpoint(group_text_or(g, 3, ""), None);
    let dst = read_endpoint(group_text_or(g, 4, ""), None);
    let traffic = match read_number(group_text(g, 6)) {
        Some(b) => Some(Traffic::new(None, Some(b), None, None)),
        None => None,
    };
    let mut unmapped = start_fields(h);
    unmapped.insert("connection_id".to_owned(), group_text_or(g, 2, "").to_owned());
    add_field(&mut unmapped, "duration", crate::endpoint::copied(group_text(g, 5)));
    make_event(
        activity_id::CLOSE,
        disposition::ALLOWED,
        src,
        dst,
        connection,
        traffic,
        raw,
        now_ms,
        unmapped,
    )
}

/// The event of a message that matches `DENY`.
pub open spec fn deny(
    raw: Seq<char>,
    h: HeaderView,
    g: Seq<Option<Seq<char>>>,
    now_ms: i64,
) -> ActivityView {
    asa_event(
        activity_id::OTHER,
        disposition::BLOCKED@,
        endpoint_of(group_or(g, 2, ""@), None),
        endpoint_of(group_or(g, 3, ""@), None),
        connection_of(group_or(g, 1, "TCP"@), None),
        None,
        raw,
        now_ms,
        with_field(header_fields(h), "access_group"@, trimmed_group(g, 4, TrimSet::Quotes)),
    )
}

/// Makes the event of a message that matches `DENY`.
pub fn deny_event(raw: &str, h: &Header, g: &Groups, now_ms: i64) -> (r: NetworkActivity)
    ensures
        r@ == deny(raw@, h@, groups_view(g@), now_ms),
{
    let connection = read_connection(group_text_or(g, 1, "TCP"), None);
    let src = read_endpoint(group_text_or(g, 2, ""), None);
    let dst = read_endpoint(group_text_or(g, 3, ""), None);
    let mut unmapped = start_fields(h);
    add_field(&mut unmapped, "access_group", read_trimmed(g, 4, TrimSet::Quotes));
    make_event(
        activity_id::OTHER,
        disposition::BLOCKED,
        src,
        dst,
        connection,
        None,
        raw,
        now_ms,
        unmapped,
    )
}

/// The event of a message that matches `DENIED_CONN`. The interface it names is
/// that of the source.
pub open spec fn denied_conn(
    raw: Seq<char>,
    h: HeaderView,
    g: Seq<Option<Seq<char>>>,
    now_ms: i64,
) -> ActivityView {
    asa_event(
        activity_id::OTHER,
        disposition::DROPPED@,
        endpoint_of(group_or(g, 3, ""@), group(g, 5)),
        endpoint_of(group_or(g, 4, ""@), None),
        connection_of(
            group_or(g, 2, "TCP"@),
            Some(direction_of(group_or(g, 1, "Inbound"@))),
        ),
        None,
        raw,
        now_ms,
        header_fields(h),
    )
}

/// Makes the event of a message that matches `DENIED_CONN`.
pub fn denied_conn_event(raw: &str, h: &Header, g: &Groups, now_ms: i64) -> (r: NetworkActivity)
    ensures
        r@ == denied_conn(raw@, h@, groups_view(g@), now_ms),
{
    let direction = normalize_direction(group_text_or(g, 1, "Inbound"));
    let connection = read_connection(group_text_or(g, 2, "TCP"), Some(direction));
    let src = read_endpoint(group_text_or(g, 3, ""), group_text(g, 5));
    let dst = read_endpoint(group_text_or(g, 4, ""), None);
    make_event(
        activity_id::OTHER,
        disposition::DROPPED,
        src,
        dst,
        connection,
        None,
        raw,
        now_ms,
        start_fields(h),
    )
}

/// The event of a message that matches `DROPPED_ACL`. The message names no
/// direction, so neither does the event.
pub open spec fn dropped_acl(
    raw: Seq<char>,
    h: HeaderView,
    g: Seq<Option<Seq<char>>>,
    now_ms: i64,
) -> ActivityView {
    asa_event(
        activity_id::OTHER,
        disposition::DROPPED@,
        endpoint_of(group_or(g, 2, ""@), None),
        endpoint_of(group_or(g, 3, ""@), None),
        connection_of(group_or(g, 1, "UDP"@), None),
        None,
        raw,
        now_ms,
        header_fields(h),
    )
}

/// Makes the event of a message that matches `DROPPED_ACL`.
pub fn dropped_acl_event(raw: &str, h: &Header, g: &Groups, now_ms: i64) -> (r: NetworkActivity)
    ensures
        r@ == dropped_acl(raw@, h@, groups_view(g@), now_ms),
{
    let connection = read_connection(group_text_or(g, 1, "UDP"), None);
    let src = read_endpoint(group_text_or(g, 2, ""), None);
    let dst = read_endpoint(group_text_or(g, 3, ""), None);
    make_event(
        activity_id::OTHER,
        disposition::DROPPED,
        src,
        dst,
        connection,
        None,
        raw,
        now_ms,
        start_fields(h),
    )
}

/// The traffic of a VPN session, where both counts are known.
pub open spec fn session_traffic(rcv: Option<u64>, xmt: Option<u64>) -> Option<Traffic> {
    match (rcv, xmt) {
        (Some(r), Some(x)) => Some(
            Traffic { bytes_in: Some(r), bytes_out: Some(x), packets_in: None, packets_out: None },
        ),
        _ => None,
    }
}

/// The fields of a VPN session that no other place of the event takes.
pub open spec fn session_fields(
    h: HeaderView,
    g: Seq<Option<Seq<char>>>,
) -> Map<Seq<char>, Seq<char>> {
    let m1 = with_field(
        header_fields(h),
        "vpn_group"@,
        trimmed_group(g, 1, TrimSet::Whitespace),
    );
    let m2 = with_field(m1, "username"@, trimmed_group(g, 2, TrimSet::Whitespace));
    let m3 = with_field(m2, "session_type"@, trimmed_group(g, 4, TrimSet::Whitespace));
    let m4 = with_field(m3, "duration"@, trimmed_group(g, 5, TrimSet::Whitespace));
    with_field(m4, "disconnect_reason"@, trimmed_group(g, 8, TrimSet::Whitespace))
}

/// The event of a message that matches `SESSION_DISCONNECT`: the normal end of
/// permitted traffic. The message holds no port and no protocol, so neither
/// does the event.
pub open spec fn session_disconnect(
    raw: Seq<char>,
    h: HeaderView,
    g: Seq<Option<Seq<char>>>,
    now_ms: i64,
) -> ActivityView {
    asa_event(
        activity_id::CLOSE,
        disposition::ALLOWED@,
        EndpointView { ip: trimmed_group(g, 3, TrimSet::Whitespace), ..unknown_endpoint() },
        unknown_endpoint(),
        unknown_connection(),
        session_traffic(number_of(group(g, 7)), number_of(group(g, 6))),
        raw,
        now_ms,
        session_fields(h, g),
    )
}

/// Makes the event of a message that matches `SESSION_DISCONNECT`.
pub fn session_disconnect_event(raw: &str, h: &Header, g: &Groups, now_ms: i64) -> (r:
    NetworkActivity)
    ensures
        r@ == session_disconnect(raw@, h@, groups_view(g@), now_ms),
{
    let mut unmapped = start_fields(h);
    add_field(&mut unmapped, "vpn_group", read_trimmed(g, 1, TrimSet::Whitespace));
    add_field(&mut unmapped, "username", read_trimmed(g, 2, TrimSet::Whitespace));
    add_field(&mut unmapped, "session_type", read_trimmed(g, 4, TrimSet::Whitespace));
    add_field(&mut unmapped, "duration", read_trimmed(g, 5, TrimSet::Whitespace));
    add_field(&mut unmapped, "disconnect_reason", read_trimmed(g, 8, TrimSet::Whitespace));
    let traffic = match (read_number(group_text(g, 7)), read_number(group_text(g, 6))) {
        (Some(rcv), Some(xmt)) => Some(Traffic::new(Some(rcv), Some(xmt), None, None)),
        _ => None,
    };
    let peer_ip = read_trimmed(g, 3, TrimSet::Whitespace);
    make_event(
        activity_id::CLOSE,
        disposition::ALLOWED,
        Endpoint::new(peer_ip, None, None, None),
        Endpoint::default(),
        ConnectionInfo::default(),
        traffic,
        raw,
        now_ms,
        unmapped,
    )
}

// ---------------------------------------------------------------------------
// Messages judged by their words
// ---------------------------------------------------------------------------

/// Whether `body` reports a failed authentication, in any letter case.
pub open spec fn reports_failure(body: Seq<char>) -> bool {
    has_phrase(lowered(body), "authentication failed"@) || has_phrase(
        lowered(body),
        "login failed"@,
    )
}

/// Whether `body` reports permitted traffic.
pub open spec fn reports_success(body: Seq<char>) -> bool {
    ||| has_phrase(body, "Built"@)
    ||| has_phrase(body, "Teardown"@)
    ||| has_phrase(lowered(body), "successful login"@)
    ||| has_phrase(lowered(body), "tunnel established"@)
    ||| has_phrase(lowered(body), "session disconnected"@)
}

/// The verdict that the words of `body` give: a failure wins over a success,
/// which wins over the verbs of denial and of dropping.
pub open spec fn verdict_of(body: Seq<char>) -> Seq<char> {
    if reports_failure(body) {
        disposition::BLOCKED@
    } else if reports_success(body) {
        disposition::ALLOWED@
    } else if has_phrase(body, "Deny"@) || has_phrase(body, "denied"@) {
        disposition::BLOCKED@
    } else if has_phrase(body, "drop"@) || has_phrase(body, "dropped"@) {
        disposition::DROPPED@
    } else {
        disposition::UNKNOWN@
    }
}

/// The activity that the words of `body` report.
pub open spec fn activity_of(body: Seq<char>) -> u32 {
    if has_phrase(body, "Built"@) {
        activity_id::OPEN
    } else if has_phrase(body, "Teardown"@) {
        activity_id::CLOSE
    } else {
        activity_id::OTHER
    }
}

/// The event of a message that is judged by its words alone.
pub open spec fn fallback(
    raw: Seq<char>,
    body: Seq<char>,
    now_ms: i64,
    unmapped: Map<Seq<char>, Seq<char>>,
) -> ActivityView {
    asa_event(
        activity_of(body),
        verdict_of(body),
        unknown_endpoint(),
        unknown_endpoint(),
        unknown_connection(),
        None,
        raw,
        now_ms,
        unmapped,
    )
}

/// The verdict that the words of `body` give.
pub fn fallback_disposition(body: &str) -> (r: &'static str)
    ensures
        r@ == verdict_of(body@),
{
    let low = to_ascii_lowercase(body);
    if contains(low.as_str(), "authentication failed") || contains(low.as_str(), "login failed") {
        disposition::BLOCKED
    } else if contains(body, "Built") || contains(body, "Teardown") || contains(
        low.as_str(),
        "successful login",
    ) || contains(low.as_str(), "tunnel established") || contains(
        low.as_str(),
        "session disconnected",
    ) {
        disposition::ALLOWED
    } else if contains(body, "Deny") || contains(body, "denied") {
        disposition::BLOCKED
    } else if contains(body, "drop") || contains(body, "dropped") {
        disposition::DROPPED
    } else {
        disposition::UNKNOWN
    }
}

/// The activity that the words of `body` report.
pub fn fallback_activity(body: &str) -> (r: u32)
    ensures
        r == activity_of(body@),
{
    if contains(body, "Built") {
        activity_id::OPEN
    } else if contains(body, "Teardown") {
        activity_id::CLOSE
    } else {
        activity_id::OTHER
    }
}

// ---------------------------------------------------------------------------
// The extractor
// ---------------------------------------------------------------------------

/// What kind of message a code announces.
#[derive(Debug, Clone, Copy, PartialEq, Eq, Structural)]
pub enum MessageKind {
    Built,
    Teardown,
    Deny,
    Drop,
    SessionDisconnect,
    Other,
}

/// The kind of message that `code` announces.
pub open spec fn kind_of(code: Seq<char>) -> MessageKind {
    if code == "302013"@ || code == "302015"@ || code == "302020"@ {
        MessageKind::Built
    } else if code == "302014"@ || code == "302016"@ || code == "302021"@ {
        MessageKind::Teardown
    } else if code == "106023"@ {
        MessageKind::Deny
    } else if code == "106001"@ || code == "106006"@ || code == "106007"@ {
        MessageKind::Drop
    } else if code == "113019"@ {
        MessageKind::SessionDisconnect
    } else {
        MessageKind::Other
    }
}

/// The kind of message that `code` announces.
pub fn message_kind(code: &str) -> (r: MessageKind)
    ensures
        r == kind_of(code@),
{
    if same(code, "302013") || same(code, "302015") || same(code, "302020") {
        MessageKind::Built
    } else if same(code, "302014") || same(code, "302016") || same(code, "302021") {
        MessageKind::Teardown
    } else if same(code, "106023") {
        MessageKind::Deny
    } else if same(code, "106001") || same(code, "106006") || same(code, "106007") {
        MessageKind::Drop
    } else if same(code, "113019") {
        MessageKind::SessionDisconnect
    } else {
        MessageKind::Other
    }
}

/// The event of a message with the header `h`.
pub open spec fn event_of(raw: Seq<char>, h: HeaderView, now_ms: i64) -> ActivityView {
    let otherwise = fallback(raw, h.body, now_ms, header_fields(h));
    match kind_of(h.message_code) {
        MessageKind::Built => match captures_of(BUILT@, h.body) {
            Some(g) => built(raw, h, g, now_ms),
            None => otherwise,
        },
        MessageKind::Teardown => match captures_of(TEARDOWN@, h.body) {
            Some(g) => teardown(raw, h, g, now_ms),
            None => otherwise,
        },
        MessageKind::Deny => match captures_of(DENY@, h.body) {
            Some(g) => deny(raw, h, g, now_ms),
            None => otherwise,
        },
        MessageKind::Drop => match captures_of(DENIED_CONN@, h.body) {
            Some(g) => denied_conn(raw, h, g, now_ms),
            None => match captures_of(DROPPED_ACL@, h.body) {
                Some(g) => dropped_acl(raw, h, g, now_ms),
                None => otherwise,
            },
        },
        MessageKind::SessionDisconnect => match captures_of(SESSION_DISCONNECT@, h.body) {
            Some(g) => session_disconnect(raw, h, g, now_ms),
            None => otherwise,
        },
        MessageKind::Other => otherwise,
    }
}

/// What the log line `raw` says, read at the time `now_ms`: nothing where it
/// holds no message header.
pub open spec fn parsed(raw: Seq<char>, now_ms: i64) -> Option<ActivityView> {
    match captures_of(HEADER@, raw) {
        Some(g) => Some(event_of(raw, header_of(g), now_ms)),
        None => None,
    }
}

/// Why a log line gives no event.
#[derive(Debug)]
pub enum ParseError {
    /// The line holds no message header.
    MissingHeader { raw: String },
}

impl ParseError {
    /// The error in words.
    pub fn message(&self) -> (r: String)
        ensures
            r@ == "Raw log does not contain valid %ASA- header: "@ + self->raw@,
    {
        match self {
            ParseError::MissingHeader { raw } => {
                "Raw log does not contain valid %ASA- header: ".to_owned().concat(raw.as_str())
            },
        }
    }
}

/// Whether `r` is the answer to the log line `raw`, read at the time `now_ms`.
pub open spec fn answers(
    r: Result<NetworkActivity, ParseError>,
    raw: Seq<char>,
    now_ms: i64,
) -> bool {
    match r {
        Ok(event) => parsed(raw, now_ms) == Some(event@),
        Err(e) => parsed(raw, now_ms) is None && e->raw@ == raw,
    }
}

/// Whether the first `k` characters of `raw` stand in front of its message: they
/// hold no header mark, and one follows them. A syslog priority, time and host
/// are such a preface.
pub open spec fn is_preface(raw: Seq<char>, k: int) -> bool {
    &&& 0 <= k <= raw.len()
    &&& !has_phrase(raw.take(k), HEADER_MARK@)
    &&& occurs_at(raw, HEADER_MARK@, k)
}

/// What is said of a line, as it is said of the line `raw` that ends in it: the
/// event carries `raw`, and is otherwise the same.
pub open spec fn as_part_of(event: Option<ActivityView>, raw: Seq<char>) -> Option<ActivityView> {
    match event {
        Some(e) => Some(
            ActivityView { metadata: MetadataView { raw_data: raw, ..e.metadata }, ..e },
        ),
        None => None,
    }
}

/// Whether a preface of `raw` changes nothing about its event but the raw line
/// that the event carries.
pub open spec fn preface_changes_nothing(raw: Seq<char>, now_ms: i64) -> bool {
    forall|k: int| #[trigger]
        is_preface(raw, k) ==> parsed(raw, now_ms) == as_part_of(parsed(raw.skip(k), now_ms), raw)
}

/// No header mark starts in a preface, not even one that ends behind it.
proof fn lemma_preface(raw: Seq<char>, k: int)
    requires
        is_preface(raw, k),
    ensures
        starts_nowhere_before(raw, HEADER_MARK@, k),
{
    reveal_strlit("%ASA-");
    let mark = HEADER_MARK@;
    assert(raw.subrange(k, k + 5)[0] == '%');
    assert forall|j: int| 0 <= j < k implies !occurs_at(raw, mark, j) by {
        if occurs_at(raw, mark, j) {
            if j + 5 <= k {
                assert(raw.take(k).subrange(j, j + 5) == raw.subrange(j, j + 5));
                assert(occurs_at(raw.take(k), mark, j));
            } else {
                assert(raw.subrange(j, j + 5)[k - j] == '%');
            }
        }
    }
}

proof fn lemma_header_past_preface(raw: Seq<char>, now_ms: i64)
    requires
        header_found_past_preface(raw, captures_of(HEADER@, raw)),
    ensures
        preface_changes_nothing(raw, now_ms),
{
    assert forall|k: int| #[trigger] is_preface(raw, k) implies parsed(raw, now_ms) == as_part_of(
        parsed(raw.skip(k), now_ms),
        raw,
    ) by {
        lemma_preface(raw, k);
        assert(captures_of(HEADER@, raw.skip(k)) == captures_of(HEADER@, raw));
    }
}

/// The patterns of the extractor.
pub open spec fn asa_patterns() -> Seq<Seq<char>> {
    seq![HEADER@, BUILT@, TEARDOWN@, DENY@, DENIED_CONN@, DROPPED_ACL@, SESSION_DISCONNECT@]
}

/// Reads Cisco ASA messages. Its patterns are compiled once, when it is made.
pub struct CiscoAsaExtractor {
    header: Pattern,
    built: Pattern,
    teardown: Pattern,
    deny: Pattern,
    denied_conn: Pattern,
    dropped_acl: Pattern,
    session_disconnect: Pattern,
}

impl CiscoAsaExtractor {
    /// The sources of the patterns that the extractor runs.
    pub closed spec fn sources(self) -> Seq<Seq<char>> {
        seq![
            self.header@,
            self.built@,
            self.teardown@,
            self.deny@,
            self.denied_conn@,
            self.dropped_acl@,
            self.session_disconnect@,
        ]
    }

    #[verifier::type_invariant]
    spec fn well_formed(self) -> bool {
        &&& self.header@ == HEADER@
        &&& self.built@ == BUILT@
        &&& self.teardown@ == TEARDOWN@
        &&& self.deny@ == DENY@
        &&& self.denied_conn@ == DENIED_CONN@
        &&& self.dropped_acl@ == DROPPED_ACL@
        &&& self.session_disconnect@ == SESSION_DISCONNECT@
    }

    /// Makes an extractor out of the seven patterns. This never fails, and every
    /// extractor runs the same patterns.
    pub fn new() -> (r: Self)
        ensures
            r.sources() == asa_patterns(),
    {
        CiscoAsaExtractor {
            header: compile(HEADER).unwrap(),
            built: compile(BUILT).unwrap(),
            teardown: compile(TEARDOWN).unwrap(),
            deny: compile(DENY).unwrap(),
            denied_conn: compile(DENIED_CONN).unwrap(),
            dropped_acl: compile(DROPPED_ACL).unwrap(),
            session_disconnect: compile(SESSION_DISCONNECT).unwrap(),
        }
    }

    /// Finds the header of the log line `raw`.
    fn find_header(&self, raw: &str) -> (r: Option<Header>)
        ensures
            match r {
                Some(h) => captures_of(HEADER@, raw@) is Some && h@ == header_of(
                    captures_of(HEADER@, raw@).unwrap(),
                ),
                None => captures_of(HEADER@, raw@) is None,
            },
            forall|now_ms: i64| #[trigger] preface_changes_nothing(raw@, now_ms),
    {
        proof {
            use_type_invariant(self);
        }
        let found = captures(&self.header, raw);
        proof {
            assert forall|now_ms: i64| #[trigger] preface_changes_nothing(raw@, now_ms) by {
                lemma_header_past_preface(raw@, now_ms);
            }
        }
        match found {
            Some(g) => Some(read_header(&g)),
            None => None,
        }
    }

    /// Reads the log line `raw` as of now. The clock is read only for a line that
    /// has a header. What stands in front of the message changes nothing but the
    /// raw line that the event carries.
    pub fn parse(&self, raw: &str) -> (r: Result<NetworkActivity, ParseError>)
        ensures
            exists|now_ms: i64| answers(r, raw@, now_ms),
            forall|now_ms: i64| #[trigger] preface_changes_nothing(raw@, now_ms),
    {
        match self.find_header(raw) {
            Some(h) => {
                let now_ms: i64 = now_millis();
                let r = self.parse_message(raw, &h, now_ms);
                assert(answers(r, raw@, now_ms));
                r
            },
            None => {
                let r = Err(ParseError::MissingHeader { raw: raw.to_owned() });
                assert(answers(r, raw@, 0));
                r
            },
        }
    }

    /// Reads the log line `raw` as of the time `now_ms`. What stands in front of
    /// the message changes nothing but the raw line that the event carries.
    pub fn parse_at(&self, raw: &str, now_ms: i64) -> (r: Result<NetworkActivity, ParseError>)
        ensures
            answers(r, raw@, now_ms),
            preface_changes_nothing(raw@, now_ms),
    {
        match self.find_header(raw) {
            Some(h) => self.parse_message(raw, &h, now_ms),
            None => Err(ParseError::MissingHeader { raw: raw.to_owned() }),
        }
    }

    /// Reads the message with the header `h` out of the log line `raw`. This
    /// never fails.
    fn parse_message(&self, raw: &str, h: &Header, now_ms: i64) -> (r: Result<
        NetworkActivity,
        ParseError,
    >)
        ensures
            match r {
                Ok(event) => event@ == event_of(raw@, h@, now_ms),
                Err(_) => false,
            },
    {
        proof {
            use_type_invariant(self);
        }
        let body = h.body.as_str();
        let found: Option<NetworkActivity> = match message_kind(h.message_code.as_str()) {
            MessageKind::Built => match captures(&self.built, body) {
                Some(g) => Some(built_event(raw, h, &g, now_ms)),
                None => None,
            },
            MessageKind::Teardown => match captures(&self.teardown, body) {
                Some(g) => Some(teardown_event(raw, h, &g, now_ms)),
                None => None,
            },
            MessageKind::Deny => match captures(&self.deny, body) {
                Some(g) => Some(deny_event(raw, h, &g, now_ms)),
                None => None,
            },
            MessageKind::Drop => match captures(&self.denied_conn, body) {
                Some(g) => Some(denied_conn_event(raw, h, &g, now_ms)),
                None => match captures(&self.dropped_acl, body) {
                    Some(g) => Some(dropped_acl_event(raw, h, &g, now_ms)),
                    None => None,
                },
            },
            MessageKind::SessionDisconnect => match captures(&self.session_disconnect, body) {
                Some(g) => Some(session_disconnect_event(raw, h, &g, now_ms)),
                None => None,
            },
            MessageKind::Other => None,
        };
        match found {
            Some(event) => Ok(event),
            None => self.fallback_parse(
                raw,
                h.message_code.as_str(),
                body,
                now_ms,
                start_fields(h),
            ),
        }
    }

    /// Judges a message by the words of its body. This never fails.
    pub fn fallback_parse(
        &self,
        raw: &str,
        _message_code: &str,
        body: &str,
        now_ms: i64,
        unmapped: FieldMap,
    ) -> (r: Result<NetworkActivity, ParseError>)
        ensures
            match r {
                Ok(event) => event@ == fallback(raw@, body@, now_ms, unmapped@),
                Err(_) => false,
            },
    {
        Ok(
            make_event(
                fallback_activity(body),
                fallback_disposition(body),
                Endpoint::default(),
                Endpoint::default(),
                ConnectionInfo::default(),
                None,
                raw,
                now_ms,
                unmapped,
            ),
        )
    }
}

impl Default for CiscoAsaExtractor {
    fn default() -> (r: Self)
        ensures
            r.sources() == asa_patterns(),
    {
        Self::new()
    }
}

}
