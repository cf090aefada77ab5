//! What holds of the operations on strings and numbers.
use vstd::prelude::*;
use crate::number::{all_digits, decimal_value, is_digit, unsigned_value};
use crate::text::{byte_len, can_cut, cut, cut_is_a_prefix, has_phrase, last_cut};
use crate::text::{last_cut_is_the_last, lower, lowered, occurs_at, trim_end, trim_start, trimmed};
use crate::text::{upper, uppered, TrimSet};

verus! {

// ---------------------------------------------------------------------------
// Words in a text
// ---------------------------------------------------------------------------

/// `word` with `before` and `behind` around it.
pub open spec fn around(before: Seq<char>, word: Seq<char>, behind: Seq<char>) -> Seq<char> {
    before + word + behind
}

/// Whether `text` is `word` with something, or nothing, before and behind it.
pub open spec fn mentions(text: Seq<char>, word: Seq<char>) -> bool {
    exists|before: Seq<char>, behind: Seq<char>| text == #[trigger] around(before, word, behind)
}

/// Whether `text` mentions `word`, where capital letters count as small ones.
pub open spec fn mentions_in_any_case(text: Seq<char>, word: Seq<char>) -> bool {
    exists|before: Seq<char>, spelled: Seq<char>, behind: Seq<char>|
        text == #[trigger] around(before, spelled, behind) && lowered(spelled) == word
}

/// A phrase occurs in a text exactly where the text mentions it.
pub proof fn phrases_are_mentioned(text: Seq<char>, word: Seq<char>)
    ensures
        has_phrase(text, word) <==> mentions(text, word),
{
    if has_phrase(text, word) {
        let i = choose|i: int| occurs_at(text, word, i);
        let behind = text.skip(i + word.len());
        assert(text =~= around(text.take(i), text.subrange(i, i + word.len()), behind));
    }
    if mentions(text, word) {
        let (before, behind) = choose|before: Seq<char>, behind: Seq<char>|
            text == #[trigger] around(before, word, behind);
        let i = before.len() as int;
        assert(text.subrange(i, i + word.len()) =~= word);
        assert(occurs_at(text, word, i));
    }
}

/// A phrase occurs in the lower-case form of a text exactly where the text
/// mentions it in any letter case.
pub proof fn phrases_are_mentioned_in_any_case(text: Seq<char>, word: Seq<char>)
    ensures
        has_phrase(lowered(text), word) <==> mentions_in_any_case(text, word),
{
    if has_phrase(lowered(text), word) {
        let i = choose|i: int| occurs_at(lowered(text), word, i);
        let n = word.len() as int;
        let spelled = text.subrange(i, i + n);
        assert(lowered(spelled) =~= lowered(text).subrange(i, i + n));
        assert(text =~= around(text.take(i), spelled, text.skip(i + n)));
    }
    if mentions_in_any_case(text, word) {
        let (before, spelled, behind) = choose|
            before: Seq<char>,
            spelled: Seq<char>,
            behind: Seq<char>,
        |
            text == #[trigger] around(before, spelled, behind) && lowered(spelled) == word;
        let i = before.len() as int;
        assert(lowered(text).subrange(i, i + word.len()) =~= lowered(spelled));
        assert(occurs_at(lowered(text), word, i));
    }
}

// ---------------------------------------------------------------------------
// Letter case
// ---------------------------------------------------------------------------

/// The letters of the English alphabet, small and then capital, each at the same
/// place of its half.
pub open spec fn is_letter_pair(small: char, capital: char) -> bool {
    'a' <= small <= 'z' && 'A' <= capital <= 'Z' && small as int - 'a' as int == capital as int
        - 'A' as int
}

/// Changing the case of a text keeps its length and swaps each letter for its
/// partner, where that has the wrong case. All else stays.
pub proof fn case_swaps_letters(s: Seq<char>, i: int)
    requires
        0 <= i < s.len(),
    ensures
        lowered(s).len() == s.len() && uppered(s).len() == s.len(),
        'A' <= s[i] <= 'Z' ==> is_letter_pair(lowered(s)[i], s[i]) && uppered(s)[i] == s[i],
        'a' <= s[i] <= 'z' ==> is_letter_pair(s[i], uppered(s)[i]) && lowered(s)[i] == s[i],
        !('A' <= s[i] <= 'Z') && !('a' <= s[i] <= 'z') ==> lowered(s)[i] == s[i] && uppered(s)[i]
            == s[i],
{
    assert(lowered(s)[i] == lower(s[i]));
    assert(uppered(s)[i] == upper(s[i]));
}

/// The case of a text can be changed back and forth.
pub proof fn case_is_all_that_changes(s: Seq<char>)
    ensures
        lowered(uppered(s)) == lowered(s),
        uppered(lowered(s)) == uppered(s),
        lowered(lowered(s)) == lowered(s),
        uppered(uppered(s)) == uppered(s),
{
    assert forall|i: int| 0 <= i < s.len() implies {
        &&& lowered(uppered(s))[i] == lowered(s)[i]
        &&& uppered(lowered(s))[i] == uppered(s)[i]
        &&& lowered(lowered(s))[i] == lowered(s)[i]
        &&& uppered(uppered(s))[i] == uppered(s)[i]
    } by {
        case_swaps_letters(s, i);
        case_swaps_letters(uppered(s), i);
        case_swaps_letters(lowered(s), i);
    }
    assert(lowered(uppered(s)) =~= lowered(s));
    assert(uppered(lowered(s)) =~= uppered(s));
    assert(lowered(lowered(s)) =~= lowered(s));
    assert(uppered(uppered(s)) =~= uppered(s));
}

// ---------------------------------------------------------------------------
// Trimming
// ---------------------------------------------------------------------------

/// Whether every character of `s` belongs to `set`.
pub open spec fn all_in(s: Seq<char>, set: TrimSet) -> bool {
    forall|i: int| 0 <= i < s.len() ==> set.has(#[trigger] s[i])
}

/// Trimming a text whose ends stay, with characters of the set around it, gives
/// that text.
pub proof fn trimming_takes_off_both_ends(
    before: Seq<char>,
    core: Seq<char>,
    behind: Seq<char>,
    set: TrimSet,
)
    requires
        all_in(before, set),
        all_in(behind, set),
        core.len() > 0 ==> !set.has(core[0]) && !set.has(core.last()),
    ensures
        trimmed(around(before, core, behind), set) == core,
{
    let s = around(before, core, behind);
    if core.len() == 0 {
        assert(s =~= before + behind);
        assert(all_in(s, set));
        lemma_all_start(s, set);
    } else {
        lemma_front(before, core + behind, set);
        assert(s =~= before + (core + behind));
        assert(trim_start(s, set) == core + behind);
        lemma_back(core, behind, set);
    }
}

proof fn lemma_all_start(s: Seq<char>, set: TrimSet)
    requires
        all_in(s, set),
    ensures
        trim_start(s, set) == Seq::<char>::empty(),
    decreases s.len(),
{
    if s.len() > 0 {
        assert(set.has(s[0]));
        assert forall|i: int| 0 <= i < s.drop_first().len() implies set.has(
            #[trigger] s.drop_first()[i],
        ) by {
            assert(set.has(s[i + 1]));
        }
        lemma_all_start(s.drop_first(), set);
    } else {
        assert(s =~= Seq::<char>::empty());
    }
}

proof fn lemma_front(before: Seq<char>, rest: Seq<char>, set: TrimSet)
    requires
        all_in(before, set),
        rest.len() > 0,
        !set.has(rest[0]),
    ensures
        trim_start(before + rest, set) == rest,
    decreases before.len(),
{
    if before.len() > 0 {
        let t = before.drop_first();
        assert((before + rest)[0] == before[0]);
        assert(set.has(before[0]));
        assert forall|i: int| 0 <= i < t.len() implies set.has(#[trigger] t[i]) by {
            assert(set.has(before[i + 1]));
        }
        lemma_front(t, rest, set);
        assert((before + rest).drop_first() =~= t + rest);
    } else {
        assert(before + rest =~= rest);
    }
}

proof fn lemma_back(core: Seq<char>, behind: Seq<char>, set: TrimSet)
    requires
        all_in(behind, set),
        core.len() > 0,
        !set.has(core.last()),
    ensures
        trim_end(core + behind, set) == core,
    decreases behind.len(),
{
    if behind.len() > 0 {
        let t = behind.drop_last();
        assert((core + behind).last() == behind[behind.len() - 1]);
        assert(set.has(behind[behind.len() - 1]));
        assert forall|i: int| 0 <= i < t.len() implies set.has(#[trigger] t[i]) by {
            assert(set.has(behind[i]));
        }
        lemma_back(core, t, set);
        assert((core + behind).drop_last() =~= core + t);
    } else {
        assert(core + behind =~= core);
    }
}

/// Which characters are trimmed: spaces and line ends of every script, round and
/// square brackets, and double quotes.
pub proof fn trim_sets_hold(c: char)
    ensures
        TrimSet::Brackets.has(c) <==> seq!['(', ')', '[', ']'].contains(c),
        TrimSet::Quotes.has(c) <==> c == '\"',
        TrimSet::Whitespace.has(c) <==> {
            ||| c == ' ' || c == '\t' || c == '\n' || c == '\r'
            ||| c == '\u{b}' || c == '\u{c}' || c == '\u{85}' || c == '\u{a0}'
            ||| c == '\u{1680}' || c == '\u{2028}' || c == '\u{2029}'
            ||| c == '\u{202f}' || c == '\u{205f}' || c == '\u{3000}'
            ||| '\u{2000}' <= c <= '\u{200a}'
        },
{
    let four = seq!['(', ')', '[', ']'];
    assert(four[0] == '(' && four[1] == ')' && four[2] == '[' && four[3] == ']');
}

// ---------------------------------------------------------------------------
// Numbers
// ---------------------------------------------------------------------------

/// A text reads as a number exactly when it is made of digits, with a plus sign
/// before them or not, and the number is not too large.
pub proof fn numbers_are_digits(digits: Seq<char>, max: nat)
    requires
        digits.len() > 0,
        all_digits(digits),
    ensures
        decimal_value(digits) <= max ==> unsigned_value(digits, max) == Some(
            decimal_value(digits),
        ) && unsigned_value(seq!['+'] + digits, max) == Some(decimal_value(digits)),
        decimal_value(digits) > max ==> unsigned_value(digits, max) is None && unsigned_value(
            seq!['+'] + digits,
            max,
        ) is None,
{
    assert(is_digit(digits[0]));
    assert((seq!['+'] + digits).drop_first() =~= digits);
}

/// A text with anything but digits in it, save a plus sign at its start, reads as
/// no number, and neither does one without a digit.
pub proof fn other_texts_are_no_numbers(s: Seq<char>, i: int, max: nat)
    ensures
        0 <= i < s.len() && !is_digit(s[i]) && (i > 0 || s[0] != '+') ==> unsigned_value(s, max)
            is None,
        s.len() == 0 ==> unsigned_value(s, max) is None,
        s == seq!['+'] ==> unsigned_value(s, max) is None,
{
    if 0 <= i < s.len() && !is_digit(s[i]) && (i > 0 || s[0] != '+') {
        if s[0] == '+' {
            assert(s.drop_first()[i - 1] == s[i]);
        }
    }
    if s == seq!['+'] {
        assert(s.drop_first().len() == 0);
    }
}

/// Each digit counts ten times as much as the one behind it.
pub proof fn digits_are_decimal(digits: Seq<char>, last: char)
    requires
        is_digit(last),
    ensures
        decimal_value(digits.push(last)) == 10 * decimal_value(digits) + (last as int - '0' as int),
        decimal_value(Seq::<char>::empty()) == 0,
{
    assert(digits.push(last).drop_last() =~= digits);
}

// ---------------------------------------------------------------------------
// Cutting
// ---------------------------------------------------------------------------

/// What a cut leaves is the longest beginning of the text that takes up at most
/// `n` bytes.
pub proof fn cuts_are_as_long_as_they_can_be(s: Seq<char>, n: int, k: int)
    requires
        0 <= n <= byte_len(s),
        0 <= k <= s.len(),
    ensures
        cut(s, last_cut(s, n)).is_prefix_of(s),
        byte_len(cut(s, last_cut(s, n))) <= n,
        byte_len(s.take(k)) <= n ==> byte_len(s.take(k)) <= byte_len(cut(s, last_cut(s, n))),
{
    last_cut_is_the_last(s, n);
    cut_is_a_prefix(s, last_cut(s, n));
    lemma_prefix_boundary(s, k);
}

proof fn lemma_prefix_boundary(s: Seq<char>, k: int)
    requires
        0 <= k <= s.len(),
    ensures
        can_cut(s, byte_len(s.take(k)) as int),
{
    lemma_boundary(s.take(k), s.skip(k));
    assert(s.take(k) + s.skip(k) =~= s);
}

proof fn lemma_boundary(a: Seq<char>, b: Seq<char>)
    ensures
        can_cut(a + b, byte_len(a) as int),
    decreases a.len(),
{
    vstd::utf8::encode_utf8_valid_utf8(a + b);
    if a.len() > 0 {
        let s = a + b;
        let t = a.drop_first();
        lemma_boundary(t, b);
        assert(s.drop_first() =~= t + b);
        assert(s[0] == a[0]);
        vstd::utf8::encode_utf8_valid_utf8(t + b);
        vstd::utf8::encode_utf8_first_scalar(s);
        let bytes = vstd::utf8::encode_utf8(s);
        let first = vstd::utf8::encode_scalar(s[0] as u32);
        assert(bytes == first + vstd::utf8::encode_utf8(s.drop_first()));
        assert(vstd::utf8::pop_first_scalar(bytes) =~= vstd::utf8::encode_utf8(s.drop_first()));
        assert(byte_len(a) == first.len() + byte_len(t));
    } else {
        assert(byte_len(a) == 0);
    }
}

}
