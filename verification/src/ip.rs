//! Textual IP addresses.
//!
//! An IPv4 literal is four decimal octets separated by dots. An IPv6 literal is
//! eight hexadecimal groups separated by colons, where one run of zero groups
//! may be written `::` and the last two groups may be written as an IPv4
//! literal.
use vstd::prelude::*;
use crate::number::{all_digits, decimal_value, is_digit};

verus! {

/// An ASCII hexadecimal digit, in either case.
pub open spec fn is_hex(c: char) -> bool {
    is_digit(c) || 'a' <= c <= 'f' || 'A' <= c <= 'F'
}

/// One group of an IPv6 literal: one to four hexadecimal digits.
pub open spec fn is_group(s: Seq<char>) -> bool {
    1 <= s.len() <= 4 && forall|i: int| 0 <= i < s.len() ==> is_hex(#[trigger] s[i])
}

/// One octet of an IPv4 literal: a decimal number of at most 255 without a
/// superfluous leading zero.
pub open spec fn is_octet(s: Seq<char>) -> bool {
    &&& 1 <= s.len() <= 3
    &&& all_digits(s)
    &&& s.len() > 1 ==> s[0] != '0'
    &&& decimal_value(s) <= 255
}

/// `n` octets separated by dots.
pub open spec fn is_dotted(s: Seq<char>, n: nat) -> bool
    decreases n,
{
    if n <= 1 {
        n == 1 && is_octet(s)
    } else {
        match s.index_of_first('.') {
            Some(i) => is_octet(s.take(i)) && is_dotted(s.skip(i + 1), (n - 1) as nat),
            None => false,
        }
    }
}

/// An IPv4 literal.
pub open spec fn is_ipv4(s: Seq<char>) -> bool {
    is_dotted(s, 4)
}

/// The number of 16-bit groups in a non-empty list separated by colons, or
/// `None` where `s` is no such list. Where `v4` holds, the list may end in an
/// IPv4 literal, which counts as two groups.
pub open spec fn groups(s: Seq<char>, v4: bool) -> Option<nat>
    decreases s.len(),
{
    match s.index_of_first(':') {
        Some(i) => {
            if 0 <= i < s.len() && is_group(s.take(i)) {
                plus(1, groups(s.skip(i + 1), v4))
            } else {
                None
            }
        },
        None => {
            if is_group(s) {
                Some(1)
            } else if v4 && is_ipv4(s) {
                Some(2)
            } else {
                None
            }
        },
    }
}

/// As `groups`, for a list that may also be empty.
pub open spec fn groups_or_none(s: Seq<char>, v4: bool) -> Option<nat> {
    if s.len() == 0 {
        Some(0)
    } else {
        groups(s, v4)
    }
}

/// `n` added to a count, where there is one.
pub open spec fn plus(n: nat, m: Option<nat>) -> Option<nat> {
    match m {
        Some(m) => Some(n + m),
        None => None,
    }
}

/// Whether `s` is an IPv6 literal whose `::` stands at position `k`: at least
/// one group is left to it, and no IPv4 literal stands before it.
pub open spec fn compressed_at(s: Seq<char>, k: int) -> bool {
    &&& 0 <= k && k + 2 <= s.len()
    &&& s[k] == ':' && s[k + 1] == ':'
    &&& match (groups_or_none(s.take(k), false), groups_or_none(s.skip(k + 2), true)) {
        (Some(head), Some(tail)) => head + tail <= 7,
        _ => false,
    }
}

/// An IPv6 literal.
pub open spec fn is_ipv6(s: Seq<char>) -> bool {
    groups(s, true) == Some(8nat) || exists|k: int| compressed_at(s, k)
}

/// An IP address as text, of either version.
pub open spec fn is_ip_literal(s: Seq<char>) -> bool {
    is_ipv4(s) || is_ipv6(s)
}

/// The first `c` in `v[from..to]`.
fn find_in(v: &Vec<char>, from: usize, to: usize, c: char) -> (r: Option<usize>)
    requires
        from <= to <= v@.len(),
    ensures
        match r {
            Some(i) => from <= i < to && v@.subrange(from as int, to as int).index_of_first(c)
                == Some(i - from),
            None => v@.subrange(from as int, to as int).index_of_first(c) is None,
        },
{
    let ghost s = v@.subrange(from as int, to as int);
    let mut i: usize = from;
    while i < to
        invariant
            from <= i <= to <= v@.len(),
            s == v@.subrange(from as int, to as int),
            forall|k: int| 0 <= k < i - from ==> s[k] != c,
        decreases to - i,
    {
        if v[i] == c {
            assert(s[i - from] == c);
            proof {
                s.index_of_first_ensures(c);
            }
            return Some(i);
        }
        i += 1;
    }
    proof {
        s.index_of_first_ensures(c);
    }
    None
}

fn group(v: &Vec<char>, from: usize, to: usize) -> (r: bool)
    requires
        from <= to <= v@.len(),
    ensures
        r == is_group(v@.subrange(from as int, to as int)),
{
    let ghost s = v@.subrange(from as int, to as int);
    if to == from || to - from > 4 {
        return false;
    }
    let mut i: usize = from;
    while i < to
        invariant
            from <= i <= to <= v@.len(),
            s == v@.subrange(from as int, to as int),
            forall|k: int| 0 <= k < i - from ==> is_hex(#[trigger] s[k]),
        decreases to - i,
    {
        let c: char = v[i];
        assert(s[i - from] == c);
        if !(('0' <= c && c <= '9') || ('a' <= c && c <= 'f') || ('A' <= c && c <= 'F')) {
            return false;
        }
        i += 1;
    }
    true
}

fn octet(v: &Vec<char>, from: usize, to: usize) -> (r: bool)
    requires
        from <= to <= v@.len(),
    ensures
        r == is_octet(v@.subrange(from as int, to as int)),
{
    let ghost s = v@.subrange(from as int, to as int);
    if to == from || to - from > 3 {
        return false;
    }
    assert(s[0] == v@[from as int]);
    if to - from > 1 && v[from] == '0' {
        return false;
    }
    let mut value: u32 = 0;
    let mut i: usize = from;
    assert(s.take(0) =~= Seq::<char>::empty());
    while i < to
        invariant
            from <= i <= to <= v@.len(),
            to - from <= 3,
            s == v@.subrange(from as int, to as int),
            forall|k: int| 0 <= k < i - from ==> is_digit(#[trigger] s[k]),
            value == decimal_value(s.take(i - from)),
            i - from == 0 ==> value == 0,
            i - from == 1 ==> value <= 9,
            i - from == 2 ==> value <= 99,
            i - from == 3 ==> value <= 999,
        decreases to - i,
    {
        let c: char = v[i];
        assert(s[i - from] == c);
        if !('0' <= c && c <= '9') {
            return false;
        }
        proof {
            let next = s.take(i - from + 1);
            assert(next.drop_last() == s.take(i - from));
            assert(next.last() == c);
        }
        value = value * 10 + ((c as u32) - 48);
        i += 1;
    }
    assert(s.take(to - from) == s);
    value <= 255
}

fn dotted(v: &Vec<char>, from: usize, to: usize, n: u8) -> (r: bool)
    requires
        from <= to <= v@.len(),
        1 <= n <= 4,
    ensures
        r == is_dotted(v@.subrange(from as int, to as int), n as nat),
    decreases n,
{
    let ghost s = v@.subrange(from as int, to as int);
    if n == 1 {
        return octet(v, from, to);
    }
    match find_in(v, from, to, '.') {
        Some(i) => {
            assert(s.take(i - from) == v@.subrange(from as int, i as int));
            assert(s.skip(i - from + 1) == v@.subrange(i + 1, to as int));
            octet(v, from, i) && dotted(v, i + 1, to, n - 1)
        },
        None => false,
    }
}

fn count_groups(v: &Vec<char>, from: usize, to: usize, v4: bool) -> (r: Option<usize>)
    requires
        from <= to <= v@.len(),
    ensures
        match r {
            Some(n) => groups_or_none(v@.subrange(from as int, to as int), v4) == Some(n as nat),
            None => groups_or_none(v@.subrange(from as int, to as int), v4) is None,
        },
        r matches Some(n) ==> n <= to - from + 1,
{
    let ghost s = v@.subrange(from as int, to as int);
    if from == to {
        return Some(0);
    }
    let mut count: usize = 0;
    let mut pos: usize = from;
    loop
        invariant
            from < to,
            from <= pos <= to <= v@.len(),
            s == v@.subrange(from as int, to as int),
            count <= pos - from,
            groups(s, v4) == plus(count as nat, groups(v@.subrange(pos as int, to as int), v4)),
        decreases to - pos,
    {
        let ghost rest = v@.subrange(pos as int, to as int);
        match find_in(v, pos, to, ':') {
            Some(i) => {
                assert(rest.take(i - pos) == v@.subrange(pos as int, i as int));
                assert(rest.skip(i - pos + 1) == v@.subrange(i + 1, to as int));
                if !group(v, pos, i) {
                    return None;
                }
                count += 1;
                pos = i + 1;
            },
            None => {
                if group(v, pos, to) {
                    return Some(count + 1);
                }
                if v4 && dotted(v, pos, to, 4) {
                    assert(rest.len() >= 2) by {
                        rest.index_of_first_ensures('.');
                    }
                    return Some(count + 2);
                }
                return None;
            },
        }
    }
}

/// Tests whether `v` is an IP address as text.
pub fn ip_literal(v: &Vec<char>) -> (r: bool)
    ensures
        r == is_ip_literal(v@),
{
    let n: usize = v.len();
    assert(v@.subrange(0, n as int) == v@);
    if dotted(v, 0, n, 4) {
        return true;
    }
    if n > 0 {
        if let Some(count) = count_groups(v, 0, n, true) {
            if count == 8 {
                return true;
            }
        }
    } else {
        assert(groups(v@, true) is None) by {
            v@.index_of_first_ensures(':');
        }
    }
    let mut k: usize = 0;
    while k < n && n - k >= 2
        invariant
            n == v@.len(),
            k <= n,
            !is_ipv4(v@),
            groups(v@, true) != Some(8nat),
            forall|j: int| 0 <= j < k ==> !compressed_at(v@, j),
        decreases n - k,
    {
        if v[k] == ':' && v[k + 1] == ':' {
            assert(v@.subrange(0, k as int) == v@.take(k as int));
            assert(v@.subrange(k + 2, n as int) == v@.skip(k + 2));
            if let (Some(head), Some(tail)) = (
                count_groups(v, 0, k, false),
                count_groups(v, k + 2, n, true),
            ) {
                if head <= 7 && tail <= 7 && head + tail <= 7 {
                    assert(compressed_at(v@, k as int));
                    return true;
                }
            }
        }
        assert(!compressed_at(v@, k as int));
        k += 1;
    }
    false
}

/// The characters that an IP literal can hold.
pub open spec fn is_ip_char(c: char) -> bool {
    is_hex(c) || c == ':' || c == '.'
}

proof fn lemma_dotted_chars(s: Seq<char>, n: nat, i: int)
    requires
        is_dotted(s, n),
        0 <= i < s.len(),
    ensures
        is_digit(s[i]) || s[i] == '.',
    decreases n,
{
    if n > 1 {
        s.index_of_first_ensures('.');
        let d = s.index_of_first('.').unwrap();
        if i < d {
            assert(is_digit(s.take(d)[i]));
        } else if i > d {
            lemma_dotted_chars(s.skip(d + 1), (n - 1) as nat, i - d - 1);
        }
    }
}

proof fn lemma_groups_chars(s: Seq<char>, v4: bool, i: int)
    requires
        groups(s, v4) is Some,
        0 <= i < s.len(),
    ensures
        is_ip_char(s[i]),
    decreases s.len(),
{
    s.index_of_first_ensures(':');
    match s.index_of_first(':') {
        Some(d) => {
            if i < d {
                assert(is_hex(s.take(d)[i]));
            } else if i > d {
                lemma_groups_chars(s.skip(d + 1), v4, i - d - 1);
            }
        },
        None => {
            if !is_group(s) {
                lemma_dotted_chars(s, 4, i);
            }
        },
    }
}

/// An IP literal holds hexadecimal digits, colons and dots, and nothing else.
pub proof fn ip_literal_alphabet(s: Seq<char>, i: int)
    requires
        is_ip_literal(s),
        0 <= i < s.len(),
    ensures
        is_ip_char(s[i]),
{
    if is_ipv4(s) {
        lemma_dotted_chars(s, 4, i);
    } else if groups(s, true) == Some(8nat) {
        lemma_groups_chars(s, true, i);
    } else {
        let k = choose|k: int| compressed_at(s, k);
        if i < k {
            lemma_groups_chars(s.take(k), false, i);
        } else if i > k + 1 {
            lemma_groups_chars(s.skip(k + 2), true, i - k - 2);
        }
    }
}

/// No IP literal has exactly one colon.
pub proof fn one_colon_is_no_ip_literal(a: Seq<char>, b: Seq<char>)
    requires
        !a.contains(':'),
        !b.contains(':'),
    ensures
        !is_ip_literal(a + seq![':'] + b),
{
    let s = a + seq![':'] + b;
    let n = a.len() as int;
    assert(s[n] == ':');
    if is_ipv4(s) {
        lemma_dotted_chars(s, 4, n);
    }
    assert(s.index_of_first(':') == Some(n)) by {
        s.index_of_first_ensures(':');
        let d = s.index_of_first(':').unwrap();
        if d < n {
            assert(a[d] == ':');
        }
    }
    assert(s.skip(n + 1) == b);
    b.index_of_first_ensures(':');
    reveal_with_fuel(groups, 2);
    assert forall|k: int| !compressed_at(s, k) by {
        if compressed_at(s, k) {
            if k < n {
                assert(a[k] == ':');
            } else {
                assert(b[k - n] == ':');
            }
        }
    }
}

/// Every IPv6 literal holds a colon.
pub proof fn ipv6_has_a_colon(s: Seq<char>)
    requires
        is_ipv6(s),
    ensures
        s.contains(':'),
{
    if groups(s, true) == Some(8nat) {
        s.index_of_first_ensures(':');
    } else {
        let k = choose|k: int| compressed_at(s, k);
        assert(s[k] == ':');
    }
}

}
