//! Simulating an adversary who alters an archived log line.
use vstd::prelude::*;
use crate::ocsf::opt_view;
use crate::pattern::{captures_of, compile, first_match, is_match, is_splice};
use crate::pattern::{replace_first, replacement_of};
use crate::text::{byte_len, cut, cut_back, last_cut};

verus! {

/// Four numbers of one to three digits, separated by dots.
pub const ADDRESS: &'static str = r"\b(?:[0-9]{1,3}\.){3}[0-9]{1,3}\b";

/// The most bytes of an altered line that are shown.
pub const SNIPPET_BYTES: usize = 90;

/// `original` with a note of the false address behind it.
pub open spec fn annotated(original: Seq<char>, ip: Seq<char>) -> Seq<char> {
    original + " [SPOOFED_IP:"@ + ip + "]"@
}

/// The altered line: its first address is replaced by `ip`. A line without an
/// address has the false one noted behind it.
pub open spec fn tampered(original: Seq<char>, ip: Seq<char>) -> Seq<char> {
    if captures_of(ADDRESS@, original) is Some {
        replacement_of(ADDRESS@, original, ip)
    } else {
        annotated(original, ip)
    }
}

/// The altered line, given the line with its first address replaced, where it
/// has one.
pub open spec fn altered(original: Seq<char>, replaced: Option<Seq<char>>, ip: Seq<char>) -> Seq<
    char,
> {
    match replaced {
        Some(s) => s,
        None => annotated(original, ip),
    }
}

/// The altered line, given the line with its first address replaced, where it
/// has one.
pub fn altered_line(original: &str, replaced: Option<String>, ip: &str) -> (r: String)
    ensures
        r@ == altered(original@, opt_view(replaced), ip@),
{
    match replaced {
        Some(s) => s,
        None => original.to_owned().concat(" [SPOOFED_IP:").concat(ip).concat("]"),
    }
}

/// Alters a line. A false address without a dollar sign takes the place of the
/// first address, and the rest of the line stays as it is.
pub fn tamper_line(original: &str, ip: &str) -> (r: String)
    ensures
        r@ == tampered(original@, ip@),
        match first_match(ADDRESS@, original@) {
            Some(part) => ip@.contains('$') || is_splice(original@, part, ip@, r@),
            None => true,
        },
{
    let address = compile(ADDRESS).unwrap();
    let replaced = if is_match(&address, original) {
        Some(replace_first(&address, original, ip))
    } else {
        None
    };
    altered_line(original, replaced, ip)
}

/// How many bytes of `line` are shown: as many as fit, in whole characters.
pub open spec fn snippet_len(line: Seq<char>) -> int {
    last_cut(
        line,
        if byte_len(line) < SNIPPET_BYTES {
            byte_len(line) as int
        } else {
            SNIPPET_BYTES as int
        },
    )
}

/// The beginning of an altered line, for display.
pub fn snippet(line: &str) -> (r: String)
    ensures
        r@ == cut(line@, snippet_len(line@)),
{
    let size: usize = line.as_bytes().len();
    let n: usize = if size < SNIPPET_BYTES {
        size
    } else {
        SNIPPET_BYTES
    };
    cut_back(line, n)
}

}
