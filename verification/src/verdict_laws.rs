//! How the words of a message decide on its verdict and its activity.
use vstd::prelude::*;
use crate::cisco_asa::{activity_of, reports_failure, reports_success, verdict_of};
use crate::text_laws::{mentions, mentions_in_any_case, phrases_are_mentioned};
use crate::text_laws::phrases_are_mentioned_in_any_case;

verus! {

/// Whether a message tells of a failed login, in any letter case.
pub open spec fn tells_of_failure(body: Seq<char>) -> bool {
    ||| mentions_in_any_case(body, "login failed"@)
    ||| mentions_in_any_case(body, "authentication failed"@)
}

/// Whether a message tells of traffic or of a login that was let through. The
/// two verbs count with their capital letter only, the phrases in any case.
pub open spec fn tells_of_success(body: Seq<char>) -> bool {
    ||| mentions(body, "Teardown"@)
    ||| mentions(body, "Built"@)
    ||| mentions_in_any_case(body, "session disconnected"@)
    ||| mentions_in_any_case(body, "tunnel established"@)
    ||| mentions_in_any_case(body, "successful login"@)
}

/// Whether a message tells of a denial.
pub open spec fn tells_of_denial(body: Seq<char>) -> bool {
    mentions(body, "denied"@) || mentions(body, "Deny"@)
}

proof fn lemma_told(body: Seq<char>)
    ensures
        reports_failure(body) == tells_of_failure(body),
        reports_success(body) == tells_of_success(body),
{
    phrases_are_mentioned_in_any_case(body, "login failed"@);
    phrases_are_mentioned_in_any_case(body, "authentication failed"@);
    phrases_are_mentioned(body, "Teardown"@);
    phrases_are_mentioned(body, "Built"@);
    phrases_are_mentioned_in_any_case(body, "session disconnected"@);
    phrases_are_mentioned_in_any_case(body, "tunnel established"@);
    phrases_are_mentioned_in_any_case(body, "successful login"@);
}

proof fn lemma_verbs(body: Seq<char>)
    ensures
        crate::text::has_phrase(body, "denied"@) == mentions(body, "denied"@),
        crate::text::has_phrase(body, "Deny"@) == mentions(body, "Deny"@),
        crate::text::has_phrase(body, "drop"@) == mentions(body, "drop"@),
        mentions(body, "dropped"@) ==> mentions(body, "drop"@),
        crate::text::has_phrase(body, "dropped"@) == mentions(body, "dropped"@),
{
    phrases_are_mentioned(body, "denied"@);
    phrases_are_mentioned(body, "Deny"@);
    phrases_are_mentioned(body, "drop"@);
    phrases_are_mentioned(body, "dropped"@);
    if mentions(body, "dropped"@) {
        reveal_strlit("drop");
        reveal_strlit("dropped");
        let (before, behind) = choose|before: Seq<char>, behind: Seq<char>|
            body == #[trigger] crate::text_laws::around(before, "dropped"@, behind);
        let rest = seq!['p', 'e', 'd'] + behind;
        assert("dropped"@ =~= "drop"@ + seq!['p', 'e', 'd']);
        assert(body =~= crate::text_laws::around(before, "drop"@, rest));
    }
}

/// A failed login is blocked, whatever else the message tells.
pub proof fn failures_are_blocked(body: Seq<char>)
    requires
        tells_of_failure(body),
    ensures
        verdict_of(body) == "Blocked"@,
{
    lemma_told(body);
}

/// Traffic or a login that was let through is allowed, whatever the message
/// denies or drops.
pub proof fn successes_are_allowed(body: Seq<char>)
    requires
        tells_of_success(body),
        !tells_of_failure(body),
    ensures
        verdict_of(body) == "Allowed"@,
{
    lemma_told(body);
}

/// A denial is blocked, where the message tells of no success.
pub proof fn denials_are_blocked(body: Seq<char>)
    requires
        tells_of_denial(body),
        !tells_of_success(body),
    ensures
        verdict_of(body) == "Blocked"@,
{
    lemma_told(body);
    lemma_verbs(body);
}

/// What is dropped, and neither denied nor let through nor a failed login, is
/// dropped.
pub proof fn drops_are_dropped(body: Seq<char>)
    requires
        mentions(body, "drop"@),
        !tells_of_denial(body),
        !tells_of_success(body),
        !tells_of_failure(body),
    ensures
        verdict_of(body) == "Dropped"@,
{
    lemma_told(body);
    lemma_verbs(body);
}

/// A message without any of the words has no verdict.
pub proof fn silence_is_unknown(body: Seq<char>)
    requires
        !mentions(body, "drop"@),
        !tells_of_denial(body),
        !tells_of_success(body),
        !tells_of_failure(body),
    ensures
        verdict_of(body) == "Unknown"@,
{
    lemma_told(body);
    lemma_verbs(body);
}

/// More text around a failed login does not save it.
pub proof fn failure_survives_more_text(
    before: Seq<char>,
    spelled: Seq<char>,
    behind: Seq<char>,
)
    requires
        crate::text::lowered(spelled) == "login failed"@ || crate::text::lowered(spelled)
            == "authentication failed"@,
    ensures
        verdict_of(crate::text_laws::around(before, spelled, behind)) == "Blocked"@,
{
    failures_are_blocked(crate::text_laws::around(before, spelled, behind));
}

/// `Built` opens a connection; without it `Teardown` closes one; any other
/// message reports another activity. The numbers are those of OCSF.
pub proof fn verbs_give_the_activity(body: Seq<char>)
    ensures
        mentions(body, "Built"@) ==> activity_of(body) == 1,
        !mentions(body, "Built"@) && mentions(body, "Teardown"@) ==> activity_of(body) == 2,
        !mentions(body, "Built"@) && !mentions(body, "Teardown"@) ==> activity_of(body) == 99,
{
    phrases_are_mentioned(body, "Built"@);
    phrases_are_mentioned(body, "Teardown"@);
}

}
