//! What is shown of an archived record, part by part.
use vstd::prelude::*;
use crate::inspect::{member_of, preview_of, summary_of};
use crate::tamper::{altered, annotated, snippet_len, tampered, ADDRESS};
use crate::text::{byte_len, cut};
use crate::text_laws::cuts_are_as_long_as_they_can_be;
use crate::pattern::{captures_of, replacement_of};

verus! {

/// What a JSON pointer leads to in a text, where it leads anywhere.
pub open spec fn has_member(text: Seq<char>, pointer: Seq<char>) -> bool {
    member_of(text, pointer) is Some
}

/// The string at the end of a JSON pointer, where there is one.
pub open spec fn string_at(text: Seq<char>, pointer: Seq<char>) -> Option<Seq<char>> {
    match member_of(text, pointer) {
        Some((_, string)) => string,
        None => None,
    }
}

/// The JSON text at the end of a JSON pointer, where there is any.
pub open spec fn json_at(text: Seq<char>, pointer: Seq<char>) -> Option<Seq<char>> {
    match member_of(text, pointer) {
        Some((json, _)) => Some(json),
        None => None,
    }
}

/// Whether `shown` is the value where there is one, and `default` only where
/// there is none.
pub open spec fn is_or(shown: Seq<char>, value: Option<Seq<char>>, default: Seq<char>) -> bool {
    &&& value is Some ==> shown == value.unwrap()
    &&& value is None ==> shown == default
    &&& shown != default ==> value == Some(shown)
}

/// The destination that is shown is the address under `dst_endpoint.ip` and the
/// port under `dst_endpoint.port`. `N/A` stands for an address that is no string,
/// `null` for a port that is not there.
pub proof fn destination_is_shown(text: Seq<char>)
    ensures
        has_member(text, "/dst_endpoint"@) <==> summary_of(text).destination is Some,
        summary_of(text).destination matches Some((address, port)) ==> {
            &&& is_or(address, string_at(text, "/dst_endpoint/ip"@), "N/A"@)
            &&& is_or(port, json_at(text, "/dst_endpoint/port"@), "null"@)
        },
{
}

/// The source that is shown is the address under `src_endpoint.ip` and the port
/// under `src_endpoint.port`.
pub proof fn source_is_shown(text: Seq<char>)
    ensures
        has_member(text, "/src_endpoint"@) <==> summary_of(text).source is Some,
        summary_of(text).source matches Some((address, port)) ==> {
            &&& is_or(address, string_at(text, "/src_endpoint/ip"@), "N/A"@)
            &&& is_or(port, json_at(text, "/src_endpoint/port"@), "null"@)
        },
{
}

/// The protocol that is shown is the name under `connection_info.protocol_name`,
/// empty without one, and the number under `connection_info.protocol_num`.
pub proof fn protocol_is_shown(text: Seq<char>)
    ensures
        has_member(text, "/connection_info"@) <==> summary_of(text).protocol is Some,
        summary_of(text).protocol matches Some((name, number)) ==> {
            &&& is_or(name, string_at(text, "/connection_info/protocol_name"@), ""@)
            &&& is_or(number, json_at(text, "/connection_info/protocol_num"@), "null"@)
        },
{
}

/// The activity is shown by its number and its name, and the verdict by its
/// name.
pub proof fn activity_is_shown(text: Seq<char>)
    ensures
        is_or(summary_of(text).activity_id, json_at(text, "/activity_id"@), "null"@),
        is_or(summary_of(text).activity_name, string_at(text, "/activity_name"@), ""@),
        is_or(summary_of(text).disposition, string_at(text, "/disposition"@), ""@),
{
}

/// A line of at most 95 bytes is shown whole. Of a longer one the longest
/// beginning of at most 95 bytes is shown, with three dots behind it.
pub proof fn previews_are_beginnings(line: Seq<char>, k: int)
    requires
        0 <= k <= line.len(),
    ensures
        byte_len(line) <= 95 ==> preview_of(line) == line,
        byte_len(line) > 95 ==> exists|part: Seq<char>|
            {
                &&& preview_of(line) == part + seq!['.', '.', '.']
                &&& #[trigger] part.is_prefix_of(line)
                &&& byte_len(part) <= 95
                &&& byte_len(line.take(k)) <= 95 ==> byte_len(line.take(k)) <= byte_len(part)
            },
{
    if byte_len(line) > 95 {
        cuts_are_as_long_as_they_can_be(line, 95, k);
        let part = cut(line, crate::text::last_cut(line, 95));
        reveal_strlit("...");
        assert("..."@ =~= seq!['.', '.', '.']);
        assert(preview_of(line) == part + seq!['.', '.', '.']);
    }
}

/// What is shown of an altered line is its longest beginning of at most 90 bytes.
pub proof fn snippets_are_beginnings(line: Seq<char>, k: int)
    requires
        0 <= k <= line.len(),
    ensures
        cut(line, snippet_len(line)).is_prefix_of(line),
        byte_len(cut(line, snippet_len(line))) <= 90,
        byte_len(line.take(k)) <= 90 ==> byte_len(line.take(k)) <= byte_len(
            cut(line, snippet_len(line)),
        ),
        byte_len(line) <= 90 ==> byte_len(cut(line, snippet_len(line))) == byte_len(line),
{
    let n: int = if byte_len(line) < 90 {
        byte_len(line) as int
    } else {
        90
    };
    cuts_are_as_long_as_they_can_be(line, n, k);
    cuts_are_as_long_as_they_can_be(line, n, line.len() as int);
    assert(line.take(line.len() as int) =~= line);
    if byte_len(line) < 90 {
        lemma_shorter(line, k);
    }
}

proof fn lemma_shorter(line: Seq<char>, k: int)
    requires
        0 <= k <= line.len(),
    ensures
        byte_len(line.take(k)) <= byte_len(line),
    decreases line.len(),
{
    if k > 0 {
        lemma_shorter(line.drop_first(), k - 1);
        assert(line.take(k).drop_first() =~= line.drop_first().take(k - 1));
    }
}

/// A line with an address has the first match of the address pattern replaced;
/// what the replacement gives is the altered line as it stands.
pub proof fn addresses_are_replaced(original: Seq<char>, ip: Seq<char>, replaced: Seq<char>)
    ensures
        captures_of(ADDRESS@, original) is Some ==> tampered(original, ip) == replacement_of(
            ADDRESS@,
            original,
            ip,
        ),
        altered(original, Some(replaced), ip) == replaced,
        captures_of(ADDRESS@, original) is None ==> altered(original, None, ip) == tampered(
            original,
            ip,
        ),
{
}

/// A line without an address keeps all of its text when it is altered, and has
/// the false address in brackets at its end.
pub proof fn notes_stand_behind_the_line(original: Seq<char>, ip: Seq<char>)
    requires
        captures_of(ADDRESS@, original) is None,
    ensures
        original.is_prefix_of(tampered(original, ip)),
        tampered(original, ip) == original + seq![' ', '['] + "SPOOFED_IP:"@ + ip + seq![']'],
{
    reveal_strlit(" [SPOOFED_IP:");
    reveal_strlit("SPOOFED_IP:");
    reveal_strlit("]");
    assert(" [SPOOFED_IP:"@ =~= seq![' ', '['] + "SPOOFED_IP:"@);
    assert("]"@ =~= seq![']']);
    assert(annotated(original, ip) =~= original + seq![' ', '['] + "SPOOFED_IP:"@ + ip + seq![']']);
    assert(tampered(original, ip).take(original.len() as int) =~= original);
}

}
