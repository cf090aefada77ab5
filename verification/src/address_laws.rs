//! What IP literals look like, seen from the numbers and groups they are made of.
use vstd::prelude::*;
use crate::ip::{compressed_at, groups, groups_or_none, is_dotted, is_group, is_hex, is_ipv4};
use crate::ip::{is_ipv6, is_octet};
use crate::number::{all_digits, decimal_text, decimal_text_digits, decimal_value, digit_char};
use crate::number::{digit_value, is_digit};

verus! {

// ---------------------------------------------------------------------------
// Version 4
// ---------------------------------------------------------------------------

/// Four numbers with dots between them.
pub open spec fn dotted(a: nat, b: nat, c: nat, d: nat) -> Seq<char> {
    decimal_text(a) + seq!['.'] + (decimal_text(b) + seq!['.'] + (decimal_text(c) + seq!['.']
        + decimal_text(d)))
}

/// Digits without a superfluous zero in front are the text of their value.
proof fn lemma_canonical(s: Seq<char>)
    requires
        s.len() > 0,
        all_digits(s),
        s.len() > 1 ==> s[0] != '0',
    ensures
        decimal_text(decimal_value(s)) == s,
        s.len() > 1 ==> decimal_value(s) >= 10,
        s[0] != '0' ==> decimal_value(s) >= 1,
    decreases s.len(),
{
    let t = s.drop_last();
    let last = s.last();
    assert(is_digit(s[s.len() - 1]));
    assert(is_digit(s[0]));
    assert(digit_char(digit_value(last)) == last);
    if s.len() == 1 {
        assert(t =~= Seq::<char>::empty());
        assert(decimal_value(t) == 0);
        assert(decimal_value(s) == digit_value(last));
        assert(decimal_text(decimal_value(s)) =~= s);
    } else {
        assert forall|i: int| 0 <= i < t.len() implies is_digit(#[trigger] t[i]) by {
            assert(is_digit(s[i]));
        }
        assert(t[0] == s[0]);
        lemma_canonical(t);
        let v = decimal_value(t);
        assert(decimal_value(s) == 10 * v + digit_value(last));
        assert((10 * v + digit_value(last)) / 10 == v);
        assert((10 * v + digit_value(last)) % 10 == digit_value(last));
        assert(t.push(last) =~= s);
    }
}

proof fn lemma_text_shape(n: nat)
    ensures
        decimal_text(n).len() > 1 ==> decimal_text(n)[0] != '0',
        n < 10 ==> decimal_text(n).len() == 1,
        10 <= n < 100 ==> decimal_text(n).len() == 2,
        100 <= n < 1000 ==> decimal_text(n).len() == 3,
        n > 0 ==> decimal_text(n)[0] != '0',
    decreases n,
{
    decimal_text_digits(n);
    if n >= 10 {
        lemma_text_shape(n / 10);
        decimal_text_digits(n / 10);
    } else {
        assert(decimal_text(n) =~= seq![digit_char(n)]);
        assert(n > 0 ==> digit_char(n) != '0');
    }
}

/// An octet is the decimal text of a number below 256, and nothing else is.
pub proof fn octets_are_bytes(s: Seq<char>)
    ensures
        is_octet(s) <==> exists|n: nat| n < 256 && s == #[trigger] decimal_text(n),
{
    if is_octet(s) {
        lemma_canonical(s);
        assert(s == decimal_text(decimal_value(s)));
    }
    if exists|n: nat| n < 256 && s == #[trigger] decimal_text(n) {
        let n = choose|n: nat| n < 256 && s == #[trigger] decimal_text(n);
        decimal_text_digits(n);
        lemma_text_shape(n);
    }
}

proof fn lemma_first(a: Seq<char>, c: char, rest: Seq<char>)
    requires
        !a.contains(c),
    ensures
        (a + seq![c] + rest).index_of_first(c) == Some(a.len() as int),
        (a + seq![c] + rest).take(a.len() as int) == a,
        (a + seq![c] + rest).skip(a.len() as int + 1) == rest,
{
    let s = a + seq![c] + rest;
    let n = a.len() as int;
    assert(s[n] == c);
    s.index_of_first_ensures(c);
    let i = s.index_of_first(c).unwrap();
    if i < n {
        assert(a[i] == c);
    }
    assert(s.take(n) =~= a);
    assert(s.skip(n + 1) =~= rest);
}

proof fn lemma_split(s: Seq<char>, c: char, i: int)
    requires
        s.index_of_first(c) == Some(i),
    ensures
        0 <= i < s.len(),
        s == s.take(i) + seq![c] + s.skip(i + 1),
        !s.take(i).contains(c),
{
    s.index_of_first_ensures(c);
    assert(s.contains(c));
    assert(s =~= s.take(i) + seq![c] + s.skip(i + 1));
    if s.take(i).contains(c) {
        let k = choose|k: int| 0 <= k < s.take(i).len() && s.take(i)[k] == c;
        assert(s[k] == c);
    }
}

proof fn lemma_no_dot(n: nat)
    ensures
        !decimal_text(n).contains('.'),
{
    decimal_text_digits(n);
    if decimal_text(n).contains('.') {
        let k = choose|k: int| 0 <= k < decimal_text(n).len() && decimal_text(n)[k] == '.';
        assert(is_digit(decimal_text(n)[k]));
    }
}

/// An IPv4 literal is four numbers below 256 with dots between them, and nothing
/// else is.
pub proof fn ipv4_literals_are_four_bytes(s: Seq<char>)
    ensures
        is_ipv4(s) <==> exists|a: nat, b: nat, c: nat, d: nat|
            a < 256 && b < 256 && c < 256 && d < 256 && s == #[trigger] dotted(a, b, c, d),
{
    reveal_with_fuel(is_dotted, 4);
    if is_ipv4(s) {
        let i = s.index_of_first('.').unwrap();
        lemma_split(s, '.', i);
        let s1 = s.skip(i + 1);
        let j = s1.index_of_first('.').unwrap();
        lemma_split(s1, '.', j);
        let s2 = s1.skip(j + 1);
        let k = s2.index_of_first('.').unwrap();
        lemma_split(s2, '.', k);
        let s3 = s2.skip(k + 1);
        octets_are_bytes(s.take(i));
        octets_are_bytes(s1.take(j));
        octets_are_bytes(s2.take(k));
        octets_are_bytes(s3);
        let a = choose|n: nat| n < 256 && s.take(i) == #[trigger] decimal_text(n);
        let b = choose|n: nat| n < 256 && s1.take(j) == #[trigger] decimal_text(n);
        let c = choose|n: nat| n < 256 && s2.take(k) == #[trigger] decimal_text(n);
        let d = choose|n: nat| n < 256 && s3 == #[trigger] decimal_text(n);
        assert(s == dotted(a, b, c, d));
    }
    if exists|a: nat, b: nat, c: nat, d: nat|
        a < 256 && b < 256 && c < 256 && d < 256 && s == #[trigger] dotted(a, b, c, d) {
        let (a, b, c, d) = choose|a: nat, b: nat, c: nat, d: nat|
            a < 256 && b < 256 && c < 256 && d < 256 && s == #[trigger] dotted(a, b, c, d);
        lemma_no_dot(a);
        lemma_no_dot(b);
        lemma_no_dot(c);
        let s2 = decimal_text(c) + seq!['.'] + decimal_text(d);
        let s1 = decimal_text(b) + seq!['.'] + s2;
        lemma_first(decimal_text(a), '.', s1);
        lemma_first(decimal_text(b), '.', s2);
        lemma_first(decimal_text(c), '.', decimal_text(d));
        octets_are_bytes(decimal_text(a));
        octets_are_bytes(decimal_text(b));
        octets_are_bytes(decimal_text(c));
        octets_are_bytes(decimal_text(d));
    }
}

// ---------------------------------------------------------------------------
// Version 6
// ---------------------------------------------------------------------------

/// The parts with colons between them.
pub open spec fn with_colons(parts: Seq<Seq<char>>) -> Seq<char>
    decreases parts.len(),
{
    if parts.len() == 0 {
        Seq::empty()
    } else if parts.len() == 1 {
        parts[0]
    } else {
        parts[0] + seq![':'] + with_colons(parts.drop_first())
    }
}

/// Whether every part is a group of hexadecimal digits.
pub open spec fn all_groups(parts: Seq<Seq<char>>) -> bool {
    forall|i: int| 0 <= i < parts.len() ==> is_group(#[trigger] parts[i])
}

/// A group is one to four hexadecimal digits.
pub proof fn groups_are_hexadecimal(s: Seq<char>)
    ensures
        is_group(s) <==> 0 < s.len() < 5 && forall|i: int|
            0 <= i < s.len() ==> "0123456789abcdefABCDEF"@.contains(#[trigger] s[i]),
{
    assert forall|c: char| is_hex(c) <==> "0123456789abcdefABCDEF"@.contains(c) by {
        lemma_hex(c);
    }
    if is_group(s) {
        assert forall|i: int| 0 <= i < s.len() implies "0123456789abcdefABCDEF"@.contains(
            #[trigger] s[i],
        ) by {
            assert(is_hex(s[i]));
        }
    }
}

proof fn lemma_hex(c: char)
    ensures
        is_hex(c) <==> "0123456789abcdefABCDEF"@.contains(c),
{
    reveal_strlit("0123456789abcdefABCDEF");
    let all = "0123456789abcdefABCDEF"@;
    if '0' <= c <= '9' {
        assert(all[c as int - '0' as int] == c);
    }
    if 'a' <= c <= 'f' {
        assert(all[10 + c as int - 'a' as int] == c);
    }
    if 'A' <= c <= 'F' {
        assert(all[16 + c as int - 'A' as int] == c);
    }
}

proof fn lemma_group_plain(s: Seq<char>)
    requires
        is_group(s),
    ensures
        !s.contains(':'),
        !is_ipv4(s),
{
    if s.contains(':') {
        let k = choose|k: int| 0 <= k < s.len() && s[k] == ':';
        assert(is_hex(s[k]));
    }
    if is_ipv4(s) {
        lemma_split(s, '.', s.index_of_first('.').unwrap());
        let k = s.index_of_first('.').unwrap();
        assert(s[k] == '.');
        assert(is_hex(s[k]));
    }
}

proof fn lemma_ipv4_plain(s: Seq<char>)
    requires
        is_ipv4(s),
    ensures
        !s.contains(':'),
        !is_group(s),
        s.len() > 0,
{
    if is_group(s) {
        lemma_group_plain(s);
    }
    lemma_split(s, '.', s.index_of_first('.').unwrap());
    if s.contains(':') {
        let k = choose|k: int| 0 <= k < s.len() && s[k] == ':';
        ipv4_literals_are_four_bytes(s);
        lemma_dots_and_digits(s, k);
    }
}

proof fn lemma_dots_and_digits(s: Seq<char>, k: int)
    requires
        is_ipv4(s),
        0 <= k < s.len(),
    ensures
        is_digit(s[k]) || s[k] == '.',
{
    ipv4_literals_are_four_bytes(s);
    let (a, b, c, d) = choose|a: nat, b: nat, c: nat, d: nat|
        a < 256 && b < 256 && c < 256 && d < 256 && s == #[trigger] dotted(a, b, c, d);
    decimal_text_digits(a);
    decimal_text_digits(b);
    decimal_text_digits(c);
    decimal_text_digits(d);
    let la = decimal_text(a).len() as int;
    let lb = decimal_text(b).len() as int;
    let lc = decimal_text(c).len() as int;
    if k < la {
        assert(s[k] == decimal_text(a)[k]);
    } else if k == la {
    } else if k < la + 1 + lb {
        assert(s[k] == decimal_text(b)[k - la - 1]);
    } else if k == la + 1 + lb {
    } else if k < la + lb + 2 + lc {
        assert(s[k] == decimal_text(c)[k - la - lb - 2]);
    } else if k == la + lb + 2 + lc {
    } else {
        assert(s[k] == decimal_text(d)[k - la - lb - lc - 3]);
    }
}

/// The parts of a list: groups, of which the last may be an IPv4 literal where
/// `v4` allows it. Such a literal counts as two.
pub open spec fn is_part_list(parts: Seq<Seq<char>>, v4: bool, n: nat) -> bool {
    &&& parts.len() > 0
    &&& all_groups(parts.drop_last())
    &&& (is_group(parts.last()) && n == parts.len()) || (v4 && is_ipv4(parts.last()) && n
        == parts.len() + 1)
}

/// A list of groups has as many groups as it has parts, an IPv4 literal at its
/// end counting as two; and every text that has a number of groups is such a
/// list.
pub proof fn groups_are_counted(s: Seq<char>, v4: bool, n: nat)
    ensures
        groups(s, v4) == Some(n) <==> exists|parts: Seq<Seq<char>>|
            s == #[trigger] with_colons(parts) && is_part_list(parts, v4, n),
{
    if groups(s, v4) == Some(n) {
        lemma_taken_apart(s, v4, n);
    }
    if exists|parts: Seq<Seq<char>>|
        s == #[trigger] with_colons(parts) && is_part_list(parts, v4, n) {
        let parts = choose|parts: Seq<Seq<char>>|
            s == #[trigger] with_colons(parts) && is_part_list(parts, v4, n);
        lemma_put_together(parts, v4, n);
    }
}

proof fn lemma_taken_apart(s: Seq<char>, v4: bool, n: nat)
    requires
        groups(s, v4) == Some(n),
    ensures
        exists|parts: Seq<Seq<char>>|
            s == #[trigger] with_colons(parts) && is_part_list(parts, v4, n),
    decreases s.len(),
{
    s.index_of_first_ensures(':');
    match s.index_of_first(':') {
        Some(i) => {
            lemma_split(s, ':', i);
            let rest = s.skip(i + 1);
            lemma_taken_apart(rest, v4, (n - 1) as nat);
            let parts = choose|parts: Seq<Seq<char>>|
                rest == #[trigger] with_colons(parts) && is_part_list(parts, v4, (n - 1) as nat);
            let all = seq![s.take(i)] + parts;
            assert(all.drop_first() =~= parts);
            assert(all.last() == parts.last());
            assert(all.drop_last() =~= seq![s.take(i)] + parts.drop_last());
            assert forall|k: int| 0 <= k < all.drop_last().len() implies is_group(
                #[trigger] all.drop_last()[k],
            ) by {
                if k > 0 {
                    assert(is_group(parts.drop_last()[k - 1]));
                }
            }
            assert(s == with_colons(all));
        },
        None => {
            let all = seq![s];
            assert(all.drop_last() =~= Seq::<Seq<char>>::empty());
            assert(s == with_colons(all));
            if !is_group(s) {
                assert(is_ipv4(s));
            }
        },
    }
}

proof fn lemma_put_together(parts: Seq<Seq<char>>, v4: bool, n: nat)
    requires
        is_part_list(parts, v4, n),
    ensures
        groups(with_colons(parts), v4) == Some(n),
        with_colons(parts).len() > 0,
    decreases parts.len(),
{
    let s = with_colons(parts);
    if parts.len() == 1 {
        if is_group(parts[0]) {
            lemma_group_plain(parts[0]);
        } else {
            lemma_ipv4_plain(parts[0]);
        }
        if is_ipv4(parts[0]) {
            lemma_ipv4_plain(parts[0]);
        }
        s.index_of_first_ensures(':');
    } else {
        let rest = parts.drop_first();
        assert(is_group(parts.drop_last()[0]));
        lemma_group_plain(parts[0]);
        assert(rest.last() == parts.last());
        assert(rest.drop_last() =~= parts.drop_last().drop_first());
        assert forall|k: int| 0 <= k < rest.drop_last().len() implies is_group(
            #[trigger] rest.drop_last()[k],
        ) by {
            assert(is_group(parts.drop_last()[k + 1]));
        }
        lemma_put_together(rest, v4, (n - 1) as nat);
        lemma_first(parts[0], ':', with_colons(rest));
    }
}

/// Whether `s` is a list of `n` groups, or empty where `n` is 0.
pub open spec fn is_side(s: Seq<char>, v4: bool, n: nat) -> bool {
    if n == 0 {
        s.len() == 0
    } else {
        exists|parts: Seq<Seq<char>>|
            s == #[trigger] with_colons(parts) && is_part_list(parts, v4, n)
    }
}

/// Two sides with a double colon between them.
pub open spec fn compressed(head: Seq<char>, tail: Seq<char>) -> Seq<char> {
    head + seq![':', ':'] + tail
}

proof fn lemma_side(s: Seq<char>, v4: bool, n: nat)
    ensures
        groups_or_none(s, v4) == Some(n) <==> is_side(s, v4, n),
{
    groups_are_counted(s, v4, n);
    if s.len() == 0 {
        if n > 0 && is_side(s, v4, n) {
            let parts = choose|parts: Seq<Seq<char>>|
                s == #[trigger] with_colons(parts) && is_part_list(parts, v4, n);
            lemma_put_together(parts, v4, n);
        }
    } else {
        if groups(s, v4) == Some(0nat) {
            groups_are_counted(s, v4, 0);
        }
    }
}

/// An IPv6 literal is eight groups with colons between them, or fewer with one
/// double colon in the place of the rest, and nothing else is. The last two
/// groups may be an IPv4 literal.
pub proof fn ipv6_literals_have_eight_groups(s: Seq<char>)
    ensures
        is_ipv6(s) <==> {
            ||| exists|parts: Seq<Seq<char>>|
                s == #[trigger] with_colons(parts) && is_part_list(parts, true, 8)
            ||| exists|head: Seq<char>, tail: Seq<char>, m: nat, n: nat|
                s == #[trigger] compressed(head, tail) && #[trigger] is_side(head, false, m)
                    && #[trigger] is_side(tail, true, n) && m + n < 8
        },
{
    groups_are_counted(s, true, 8);
    if exists|k: int| compressed_at(s, k) {
        let k = choose|k: int| compressed_at(s, k);
        let head = s.take(k);
        let tail = s.skip(k + 2);
        let m = groups_or_none(head, false).unwrap();
        let n = groups_or_none(tail, true).unwrap();
        lemma_side(head, false, m);
        lemma_side(tail, true, n);
        assert(s =~= compressed(head, tail));
        assert(is_side(head, false, m) && is_side(tail, true, n));
    }
    if exists|head: Seq<char>, tail: Seq<char>, m: nat, n: nat|
        s == #[trigger] compressed(head, tail) && #[trigger] is_side(head, false, m)
            && #[trigger] is_side(tail, true, n) && m + n < 8 {
        let (head, tail, m, n) = choose|head: Seq<char>, tail: Seq<char>, m: nat, n: nat|
            s == #[trigger] compressed(head, tail) && #[trigger] is_side(head, false, m)
                && #[trigger] is_side(tail, true, n) && m + n < 8;
        lemma_side(head, false, m);
        lemma_side(tail, true, n);
        let k = head.len() as int;
        assert(s.take(k) =~= head);
        assert(s.skip(k + 2) =~= tail);
        assert(compressed_at(s, k));
    }
}

}
