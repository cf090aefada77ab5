//! What is shown of an archived record.
use serde_json::Value;
use vstd::prelude::*;
use crate::ocsf::opt_view;
use crate::text::{byte_len, cut, cut_back, last_cut};

verus! {

/// The most bytes of a log line that are shown.
pub const PREVIEW_BYTES: usize = 95;

/// A log line as it is shown: where it is too long, it is cut behind the last
/// character that fits.
pub open spec fn preview_of(line: Seq<char>) -> Seq<char> {
    if byte_len(line) > PREVIEW_BYTES {
        cut(line, last_cut(line, PREVIEW_BYTES as int)) + "..."@
    } else {
        line
    }
}

/// A log line as it is shown.
pub fn preview(line: &str) -> (r: String)
    ensures
        r@ == preview_of(line@),
{
    let size: usize = line.as_bytes().len();
    if size > PREVIEW_BYTES {
        cut_back(line, PREVIEW_BYTES).concat("...")
    } else {
        line.to_owned()
    }
}

// ---------------------------------------------------------------------------
// The archived event
// ---------------------------------------------------------------------------

/// A JSON value of the `serde_json` crate.
#[verifier::external_type_specification]
#[verifier::external_body]
pub struct ExValue(serde_json::Value);

/// Why the `serde_json` crate refused a text.
#[verifier::external_type_specification]
#[verifier::external_body]
pub struct ExJsonError(serde_json::Error);

/// Whether `serde_json::from_str` reads the text as one JSON value.
pub uninterp spec fn is_json(text: Seq<char>) -> bool;

/// What `Value::pointer` finds in the JSON value of a text: the member as JSON
/// text and, where it is a string, what the string holds.
pub uninterp spec fn member_of(text: Seq<char>, pointer: Seq<char>) -> Option<
    (Seq<char>, Option<Seq<char>>),
>;

/// A JSON text together with its value.
///
/// Only `read_json` below makes a value of this type, and nothing changes one,
/// so the value is always that of the text.
pub struct Json {
    text: String,
    value: Value,
}

impl View for Json {
    type V = Seq<char>;

    /// The text.
    closed spec fn view(&self) -> Seq<char> {
        self.text@
    }
}

/// A member of a JSON value: as JSON text and, where it is a string, what the
/// string holds.
#[derive(Debug)]
pub struct Member {
    pub json: String,
    pub string: Option<String>,
}

/// The view of a member, where there is one.
pub open spec fn member_view(m: Option<Member>) -> Option<(Seq<char>, Option<Seq<char>>)> {
    match m {
        Some(m) => Some((m.json@, opt_view(m.string))),
        None => None,
    }
}

/// `serde_json::from_str`: reads a text as one JSON value. The contract names
/// which texts are such.
#[verifier::external_body]
fn read_json(text: &str) -> (r: Result<Json, serde_json::Error>)
    ensures
        r is Ok <==> is_json(text@),
        r matches Ok(j) ==> j@ == text@,
{
    serde_json::from_str::<Value>(text).map(|value| Json { text: text.to_string(), value })
}

/// `Value::pointer`: the member that a JSON pointer leads to, given as its JSON
/// text (`Display`) and its string (`Value::as_str`). The contract names the
/// result.
#[verifier::external_body]
fn member(j: &Json, pointer: &str) -> (r: Option<Member>)
    ensures
        member_view(r) == member_of(j@, pointer@),
{
    j.value.pointer(pointer).map(
        |v| Member { json: v.to_string(), string: v.as_str().map(|s| s.to_string()) },
    )
}

/// The JSON text of a member; `null` without one.
pub open spec fn json_or_null(m: Option<(Seq<char>, Option<Seq<char>>)>) -> Seq<char> {
    match m {
        Some((json, _)) => json,
        None => "null"@,
    }
}

/// The string that a member holds, or `default` without one.
pub open spec fn string_or(
    m: Option<(Seq<char>, Option<Seq<char>>)>,
    default: Seq<char>,
) -> Seq<char> {
    match m {
        Some((_, Some(s))) => s,
        _ => default,
    }
}

/// The JSON text of a member; `null` without one.
pub fn shown(m: Option<Member>) -> (r: String)
    ensures
        r@ == json_or_null(member_view(m)),
{
    match m {
        Some(m) => m.json,
        None => "null".to_owned(),
    }
}

/// The string that a member holds, or `default` without one.
pub fn string_of_member(m: Option<Member>, default: &str) -> (r: String)
    ensures
        r@ == string_or(member_view(m), default@),
{
    match m {
        Some(m) => match m.string {
            Some(s) => s,
            None => default.to_owned(),
        },
        None => default.to_owned(),
    }
}

/// What is shown of an archived event. The pairs are an address and a port, or
/// the name and the number of the protocol.
#[derive(Debug)]
pub struct EventSummary {
    pub activity_id: String,
    pub activity_name: String,
    pub disposition: String,
    pub source: Option<(String, String)>,
    pub destination: Option<(String, String)>,
    pub protocol: Option<(String, String)>,
}

/// The view of an `EventSummary`.
pub struct SummaryView {
    pub activity_id: Seq<char>,
    pub activity_name: Seq<char>,
    pub disposition: Seq<char>,
    pub source: Option<(Seq<char>, Seq<char>)>,
    pub destination: Option<(Seq<char>, Seq<char>)>,
    pub protocol: Option<(Seq<char>, Seq<char>)>,
}

/// The view of an optional pair of strings.
pub open spec fn pair_view(p: Option<(String, String)>) -> Option<(Seq<char>, Seq<char>)> {
    match p {
        Some((a, b)) => Some((a@, b@)),
        None => None,
    }
}

impl View for EventSummary {
    type V = SummaryView;

    open spec fn view(&self) -> SummaryView {
        SummaryView {
            activity_id: self.activity_id@,
            activity_name: self.activity_name@,
            disposition: self.disposition@,
            source: pair_view(self.source),
            destination: pair_view(self.destination),
            protocol: pair_view(self.protocol),
        }
    }
}

/// A string and a JSON value out of one object, where the event has that object.
pub open spec fn pair_of(
    object: Option<(Seq<char>, Option<Seq<char>>)>,
    string: Option<(Seq<char>, Option<Seq<char>>)>,
    default: Seq<char>,
    value: Option<(Seq<char>, Option<Seq<char>>)>,
) -> Option<(Seq<char>, Seq<char>)> {
    match object {
        Some(_) => Some((string_or(string, default), json_or_null(value))),
        None => None,
    }
}

/// A string and a JSON value out of one object, where the event has that object.
pub fn summary_pair(
    object: Option<Member>,
    string: Option<Member>,
    default: &str,
    value: Option<Member>,
) -> (r: Option<(String, String)>)
    ensures
        pair_view(r) == pair_of(
            member_view(object),
            member_view(string),
            default@,
            member_view(value),
        ),
{
    match object {
        Some(_) => Some((string_of_member(string, default), shown(value))),
        None => None,
    }
}

/// What is shown of the event in a JSON text.
pub open spec fn summary_of(text: Seq<char>) -> SummaryView {
    SummaryView {
        activity_id: json_or_null(member_of(text, "/activity_id"@)),
        activity_name: string_or(member_of(text, "/activity_name"@), ""@),
        disposition: string_or(member_of(text, "/disposition"@), ""@),
        source: pair_of(
            member_of(text, "/src_endpoint"@),
            member_of(text, "/src_endpoint/ip"@),
            "N/A"@,
            member_of(text, "/src_endpoint/port"@),
        ),
        destination: pair_of(
            member_of(text, "/dst_endpoint"@),
            member_of(text, "/dst_endpoint/ip"@),
            "N/A"@,
            member_of(text, "/dst_endpoint/port"@),
        ),
        protocol: pair_of(
            member_of(text, "/connection_info"@),
            member_of(text, "/connection_info/protocol_name"@),
            ""@,
            member_of(text, "/connection_info/protocol_num"@),
        ),
    }
}

/// What is shown of the archived event in `text`; nothing where it is no JSON.
pub fn event_summary(text: &str) -> (r: Option<EventSummary>)
    ensures
        r is Some <==> is_json(text@),
        r matches Some(s) ==> s@ == summary_of(text@),
{
    match read_json(text) {
        Ok(j) => {
            let source = summary_pair(
                member(&j, "/src_endpoint"),
                member(&j, "/src_endpoint/ip"),
                "N/A",
                member(&j, "/src_endpoint/port"),
            );
            let destination = summary_pair(
                member(&j, "/dst_endpoint"),
                member(&j, "/dst_endpoint/ip"),
                "N/A",
                member(&j, "/dst_endpoint/port"),
            );
            let protocol = summary_pair(
                member(&j, "/connection_info"),
                member(&j, "/connection_info/protocol_name"),
                "",
                member(&j, "/connection_info/protocol_num"),
            );
            Some(
                EventSummary {
                    activity_id: shown(member(&j, "/activity_id")),
                    activity_name: string_of_member(member(&j, "/activity_name"), ""),
                    disposition: string_of_member(member(&j, "/disposition"), ""),
                    source,
                    destination,
                    protocol,
                },
            )
        },
        Err(_) => None,
    }
}

}
