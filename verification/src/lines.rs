//! Log lines out of what was received or read.
use vstd::prelude::*;
use crate::text::{chars_of, read_utf8, string_of, text_of, trim, trimmed, trimming_is_idempotent};
use crate::text::TrimSet;

verus! {

/// The views of a list of strings.
pub open spec fn views(lines: Seq<String>) -> Seq<Seq<char>> {
    lines.map_values(|l: String| l@)
}

/// The pieces of `s` between line feeds.
pub open spec fn pieces(s: Seq<char>) -> Seq<Seq<char>>
    decreases s.len(),
{
    match s.index_of_first('\n') {
        Some(i) => if 0 <= i < s.len() {
            seq![s.take(i)] + pieces(s.skip(i + 1))
        } else {
            seq![s]
        },
        None => seq![s],
    }
}

/// Each line without white space at its ends, without the lines that are then
/// empty.
pub open spec fn nonblank(lines: Seq<Seq<char>>) -> Seq<Seq<char>>
    decreases lines.len(),
{
    if lines.len() == 0 {
        Seq::empty()
    } else {
        let line = trimmed(lines.last(), TrimSet::Whitespace);
        if line.len() == 0 {
            nonblank(lines.drop_last())
        } else {
            nonblank(lines.drop_last()).push(line)
        }
    }
}

/// The first `n` of `lines`, or all of them where there are fewer.
pub open spec fn at_most(lines: Seq<Seq<char>>, n: int) -> Seq<Seq<char>> {
    if lines.len() <= n {
        lines
    } else {
        lines.take(n)
    }
}

/// The log lines in a received text.
pub open spec fn log_lines_of(text: Seq<char>) -> Seq<Seq<char>> {
    nonblank(pieces(text))
}

/// The log lines in a datagram. One that is no text has none.
pub open spec fn datagram_lines_of(bytes: Seq<u8>) -> Seq<Seq<char>> {
    match text_of(bytes) {
        Some(t) => log_lines_of(t),
        None => Seq::empty(),
    }
}

/// The log lines of two lists, one after the other, are those of the first and
/// then those of the second.
pub proof fn log_lines_keep_their_order(a: Seq<Seq<char>>, b: Seq<Seq<char>>)
    ensures
        nonblank(a + b) == nonblank(a) + nonblank(b),
    decreases b.len(),
{
    if b.len() == 0 {
        assert(a + b == a);
        assert(nonblank(a) + nonblank(b) == nonblank(a));
    } else {
        log_lines_keep_their_order(a, b.drop_last());
        assert((a + b).drop_last() == a + b.drop_last());
        assert((a + b).last() == b.last());
        let line = trimmed(b.last(), TrimSet::Whitespace);
        if line.len() > 0 {
            assert(nonblank(a) + nonblank(b.drop_last()).push(line) == (nonblank(a) + nonblank(
                b.drop_last(),
            )).push(line));
        }
    }
}

/// Adds one line to the list, unless it is blank.
fn keep(lines: &mut Vec<String>, line: &str)
    ensures
        views(final(lines)@) == views(old(lines)@) + nonblank(seq![line@]),
{
    let t = trim(line, TrimSet::Whitespace);
    proof {
        reveal_with_fuel(nonblank, 2);
        assert(seq![line@].drop_last() == Seq::<Seq<char>>::empty());
    }
    let ghost before = views(lines@);
    if t.as_str().is_empty() {
        assert(before + nonblank(seq![line@]) == before);
    } else {
        lines.push(t);
        assert(views(lines@) == before.push(t@));
        assert(nonblank(seq![line@]) == seq![t@]);
        assert(before.push(t@) == before + seq![t@]);
    }
}

/// The log lines among `lines`: trimmed, and without the blank ones.
pub fn nonblank_lines(lines: &Vec<String>) -> (r: Vec<String>)
    ensures
        views(r@) == nonblank(views(lines@)),
{
    let mut r: Vec<String> = Vec::new();
    let mut i: usize = 0;
    assert(views(r@) == Seq::<Seq<char>>::empty());
    assert(views(lines@).take(0) == Seq::<Seq<char>>::empty());
    while i < lines.len()
        invariant
            i <= lines@.len(),
            views(r@) == nonblank(views(lines@).take(i as int)),
        decreases lines@.len() - i,
    {
        keep(&mut r, lines[i].as_str());
        proof {
            let all = views(lines@);
            assert(all.take(i + 1) == all.take(i as int) + seq![lines@[i as int]@]);
            log_lines_keep_their_order(all.take(i as int), seq![lines@[i as int]@]);
        }
        i += 1;
    }
    assert(views(lines@).take(i as int) == views(lines@));
    r
}

/// The log lines in a received text.
pub fn log_lines(text: &str) -> (r: Vec<String>)
    ensures
        views(r@) == log_lines_of(text@),
{
    let v = chars_of(text);
    let n: usize = v.len();
    let mut r: Vec<String> = Vec::new();
    let mut start: usize = 0;
    let mut i: usize = 0;
    assert(views(r@) == Seq::<Seq<char>>::empty());
    assert(v@.skip(0) == v@);
    assert(Seq::<Seq<char>>::empty() + log_lines_of(text@) == log_lines_of(text@));
    while i < n
        invariant
            n == v@.len(),
            v@ == text@,
            start <= i <= n,
            forall|k: int| start <= k < i ==> v@[k] != '\n',
            log_lines_of(text@) == views(r@) + log_lines_of(v@.skip(start as int)),
        decreases n - i,
    {
        if v[i] == '\n' {
            let line = string_of(&v, start, i);
            let ghost before = views(r@);
            keep(&mut r, line.as_str());
            proof {
                let rest = v@.skip(start as int);
                let k = i - start;
                rest.index_of_first_ensures('\n');
                assert(rest[k] == '\n');
                let f = rest.index_of_first('\n').unwrap();
                if f < k {
                    assert(v@[f + start] != '\n');
                }
                assert(f == k);
                assert(rest.take(k) == line@);
                assert(rest.skip(k + 1) == v@.skip(i + 1));
                log_lines_keep_their_order(seq![line@], pieces(v@.skip(i + 1)));
                assert(before + (nonblank(seq![line@]) + log_lines_of(v@.skip(i + 1))) == before
                    + nonblank(seq![line@]) + log_lines_of(v@.skip(i + 1)));
            }
            start = i + 1;
        }
        i += 1;
    }
    let line = string_of(&v, start, n);
    proof {
        let rest = v@.skip(start as int);
        rest.index_of_first_ensures('\n');
        if rest.contains('\n') {
            let f = rest.index_of_first('\n').unwrap();
            assert(v@[f + start] != '\n');
        }
        assert(rest == line@);
    }
    keep(&mut r, line.as_str());
    r
}

/// The log lines in a datagram. One that is no text has none.
pub fn datagram_lines(bytes: &[u8]) -> (r: Vec<String>)
    ensures
        views(r@) == datagram_lines_of(bytes@),
{
    match read_utf8(bytes) {
        Some(t) => log_lines(t),
        None => {
            let r: Vec<String> = Vec::new();
            assert(views(r@) == Seq::<Seq<char>>::empty());
            r
        },
    }
}

/// The views of the lines of several files.
pub open spec fn file_views(files: Seq<Vec<String>>) -> Seq<Seq<Seq<char>>> {
    files.map_values(|f: Vec<String>| views(f@))
}

/// The lines of several files, one file after the other.
pub fn joined_files(files: &Vec<Vec<String>>) -> (r: Vec<String>)
    ensures
        views(r@) == file_views(files@).flatten(),
{
    let ghost all = file_views(files@);
    let mut r: Vec<String> = Vec::new();
    let mut i: usize = 0;
    assert(views(r@) == Seq::<Seq<char>>::empty());
    assert(all.skip(0) == all);
    assert(Seq::<Seq<char>>::empty() + all.flatten() == all.flatten());
    while i < files.len()
        invariant
            i <= files@.len(),
            all == file_views(files@),
            all.flatten() == views(r@) + all.skip(i as int).flatten(),
        decreases files@.len() - i,
    {
        let file = &files[i];
        let ghost before = views(r@);
        let mut k: usize = 0;
        assert(before + views(file@).take(0) == before);
        while k < file.len()
            invariant
                k <= file@.len(),
                views(r@) == before + views(file@).take(k as int),
            decreases file@.len() - k,
        {
            let ghost so_far = views(r@);
            r.push(file[k].clone());
            assert(views(r@) == so_far.push(file@[k as int]@));
            assert(views(file@).take(k + 1) == views(file@).take(k as int).push(
                file@[k as int]@,
            ));
            k += 1;
        }
        proof {
            let rest = all.skip(i as int);
            assert(views(file@).take(k as int) == views(file@));
            assert(rest.first() == views(file@));
            assert(rest.drop_first() == all.skip(i + 1));
            assert(before + (views(file@) + all.skip(i + 1).flatten()) == before + views(file@)
                + all.skip(i + 1).flatten());
        }
        i += 1;
    }
    assert(all.skip(i as int) == Seq::<Seq<Seq<char>>>::empty());
    assert(views(r@) + Seq::<Seq<char>>::empty() == views(r@));
    r
}

/// The first `n` of `lines`, or all of them where there are fewer.
pub fn first_lines(lines: Vec<String>, n: usize) -> (r: Vec<String>)
    ensures
        views(r@) == at_most(views(lines@), n as int),
{
    let mut r = lines;
    if r.len() > n {
        r.truncate(n);
        assert(views(r@) == views(lines@).take(n as int));
    }
    r
}

/// A log line is not empty and has no white space at its ends.
pub proof fn log_lines_are_trimmed(lines: Seq<Seq<char>>, i: int)
    requires
        0 <= i < nonblank(lines).len(),
    ensures
        nonblank(lines)[i].len() > 0,
        trimmed(nonblank(lines)[i], TrimSet::Whitespace) == nonblank(lines)[i],
    decreases lines.len(),
{
    let before = nonblank(lines.drop_last());
    if i < before.len() {
        log_lines_are_trimmed(lines.drop_last(), i);
        assert(nonblank(lines)[i] == before[i]);
    } else {
        trimming_is_idempotent(lines.last(), TrimSet::Whitespace);
    }
}

/// No line with anything but white space in it is lost.
pub proof fn no_log_line_is_lost(lines: Seq<Seq<char>>, i: int)
    requires
        0 <= i < lines.len(),
        trimmed(lines[i], TrimSet::Whitespace).len() > 0,
    ensures
        nonblank(lines).contains(trimmed(lines[i], TrimSet::Whitespace)),
    decreases lines.len(),
{
    let line = trimmed(lines[i], TrimSet::Whitespace);
    let before = nonblank(lines.drop_last());
    if i < lines.len() - 1 {
        assert(lines.drop_last()[i] == lines[i]);
        no_log_line_is_lost(lines.drop_last(), i);
        let k = choose|k: int| 0 <= k < before.len() && before[k] == line;
        assert(nonblank(lines)[k] == line);
    } else {
        assert(nonblank(lines)[before.len() as int] == line);
    }
}

}
