//! Regular expressions, compiled and run by the `regex` crate.
use regex::Regex;
use vstd::prelude::*;
use crate::cisco_asa::{BUILT, DENIED_CONN, DENY, DROPPED_ACL, HEADER, HEADER_MARK};
use crate::cisco_asa::{SESSION_DISCONNECT, TEARDOWN};
use crate::ocsf::opt_view;
use crate::tamper::ADDRESS;
use crate::text::occurs_at;

verus! {

/// A compiled regular expression of the `regex` crate.
#[verifier::external_type_specification]
#[verifier::external_body]
pub struct ExRegex(regex::Regex);

/// Why the `regex` crate refused a pattern.
#[verifier::external_type_specification]
#[verifier::external_body]
pub struct ExRegexError(regex::Error);

/// What `Regex::captures` finds for the pattern in `text`: `None` where there is
/// no match, otherwise the text of each group of the leftmost-first match,
/// group 0 being the whole match and `None` a group that took no part in it.
pub uninterp spec fn captures_of(
    pattern: Seq<char>,
    text: Seq<char>,
) -> Option<Seq<Option<Seq<char>>>>;

/// What `Regex::replace` makes of `text` when the first match of the pattern is
/// replaced by `by`.
pub uninterp spec fn replacement_of(pattern: Seq<char>, text: Seq<char>, by: Seq<char>) -> Seq<
    char,
>;

/// Whether `pattern` is one that this library runs.
pub open spec fn is_own_pattern(pattern: Seq<char>) -> bool {
    ||| pattern == HEADER@
    ||| pattern == BUILT@
    ||| pattern == TEARDOWN@
    ||| pattern == DENY@
    ||| pattern == DENIED_CONN@
    ||| pattern == DROPPED_ACL@
    ||| pattern == SESSION_DISCONNECT@
    ||| pattern == ADDRESS@
}

/// Whether `needle` starts nowhere before position `k` of `text`.
pub open spec fn starts_nowhere_before(text: Seq<char>, needle: Seq<char>, k: int) -> bool {
    forall|j: int| 0 <= j < k ==> !occurs_at(text, needle, j)
}

/// Whether `found`, what `HEADER` finds in `text`, is also what it finds in
/// `text` without a beginning in which no `HEADER_MARK` starts.
pub open spec fn header_found_past_preface(
    text: Seq<char>,
    found: Option<Seq<Option<Seq<char>>>>,
) -> bool {
    forall|k: int|
        0 <= k <= text.len() && starts_nowhere_before(text, HEADER_MARK@, k)
            ==> #[trigger] captures_of(HEADER@, text.skip(k)) == found
}

/// The part of `text` that the pattern matches first: group 0 of that match.
pub open spec fn first_match(pattern: Seq<char>, text: Seq<char>) -> Option<Seq<char>> {
    match captures_of(pattern, text) {
        Some(g) => group(g, 0),
        None => None,
    }
}

/// Whether `result` is `text` with `by` in the place of one occurrence of `part`.
pub open spec fn is_splice(
    text: Seq<char>,
    part: Seq<char>,
    by: Seq<char>,
    result: Seq<char>,
) -> bool {
    exists|i: int|
        #[trigger] occurs_at(text, part, i) && result == text.take(i) + by + text.skip(
            i + part.len(),
        )
}

/// A pattern together with its compiled form.
///
/// Only `compile` below makes a value of this type, and nothing changes one, so
/// the compiled form is always that of the source.
pub struct Pattern {
    source: String,
    compiled: Regex,
}

impl View for Pattern {
    type V = Seq<char>;

    /// The source of the pattern.
    closed spec fn view(&self) -> Seq<char> {
        self.source@
    }
}

/// The texts of the groups of one match.
pub type Groups = Vec<Option<String>>;

/// The view of the groups of one match.
pub open spec fn groups_view(g: Seq<Option<String>>) -> Seq<Option<Seq<char>>> {
    g.map_values(|o: Option<String>| opt_view(o))
}

/// The view of the groups of a match, where there is one.
pub open spec fn found_view(r: Option<Groups>) -> Option<Seq<Option<Seq<char>>>> {
    match r {
        Some(g) => Some(groups_view(g@)),
        None => None,
    }
}

/// The text of group `i`, where the pattern has such a group and it took part
/// in the match.
pub open spec fn group(g: Seq<Option<Seq<char>>>, i: int) -> Option<Seq<char>> {
    if 0 <= i < g.len() {
        g[i]
    } else {
        None
    }
}

/// The text of group `i`, or `default` without one.
pub open spec fn group_or(
    g: Seq<Option<Seq<char>>>,
    i: int,
    default: Seq<char>,
) -> Seq<char> {
    match group(g, i) {
        Some(t) => t,
        None => default,
    }
}

/// `Regex::new`: compiles a pattern, or says why it is no valid one. The
/// contract says that the patterns of this library are accepted: each is written
/// in the syntax that the crate documents, and compiles to far less than its
/// default size limit. It does not say which other patterns are.
#[verifier::external_body]
pub(crate) fn compile(pattern: &str) -> (r: Result<Pattern, regex::Error>)
    ensures
        is_own_pattern(pattern@) ==> r is Ok,
        r matches Ok(p) ==> p@ == pattern@,
{
    Regex::new(pattern).map(|compiled| Pattern { source: pattern.to_string(), compiled })
}

/// `Regex::captures`: runs a pattern over `text`. The contract names the groups
/// of the leftmost-first match, as a function of the pattern and the text.
///
/// It adds one fact of the pattern `HEADER`. That pattern opens with the literal
/// `HEADER_MARK`, so each of its matches starts where the mark does; and it has
/// no anchor and no word boundary, so a match depends on no text in front of it.
/// A beginning of `text` in which no mark starts therefore changes nothing.
#[verifier::external_body]
pub(crate) fn captures(p: &Pattern, text: &str) -> (r: Option<Groups>)
    ensures
        found_view(r) == captures_of(p@, text@),
        p@ == HEADER@ ==> header_found_past_preface(text@, found_view(r)),
{
    p.compiled.captures(text).map(
        |c| c.iter().map(|m| m.map(|m| m.as_str().to_string())).collect(),
    )
}

/// `Regex::is_match`: whether the pattern matches anywhere in `text`, which is
/// so exactly when `Regex::captures` finds a match.
#[verifier::external_body]
pub(crate) fn is_match(p: &Pattern, text: &str) -> (r: bool)
    ensures
        r == (captures_of(p@, text@) is Some),
{
    p.compiled.is_match(text)
}

/// `Regex::replace`: replaces the leftmost-first match of the pattern in `text`.
/// The contract names the result. It adds that a text without a match comes
/// back unchanged, and that a replacement without a dollar sign is put, as it
/// stands, in the place of the part that matched.
#[verifier::external_body]
pub(crate) fn replace_first(p: &Pattern, text: &str, by: &str) -> (r: String)
    ensures
        r@ == replacement_of(p@, text@, by@),
        captures_of(p@, text@) is None ==> r@ == text@,
        captures_of(p@, text@) is Some && !by@.contains('$') ==> match first_match(p@, text@) {
            Some(part) => is_splice(text@, part, by@, r@),
            None => false,
        },
{
    p.compiled.replace(text, by).into_owned()
}

/// The text of group `i`, where there is one.
pub fn group_text(g: &Groups, i: usize) -> (r: Option<&str>)
    ensures
        match r {
            Some(t) => group(groups_view(g@), i as int) == Some(t@),
            None => group(groups_view(g@), i as int) is None,
        },
{
    if i < g.len() {
        match &g[i] {
            Some(t) => Some(t.as_str()),
            None => None,
        }
    } else {
        None
    }
}

/// The text of group `i`, or `default` without one.
pub fn group_text_or<'a>(g: &'a Groups, i: usize, default: &'a str) -> (r: &'a str)
    ensures
        r@ == group_or(groups_view(g@), i as int, default@),
{
    match group_text(g, i) {
        Some(t) => t,
        None => default,
    }
}

}
