//! The log files that an evaluation runs over.
use vstd::prelude::*;

verus! {

/// The variants of the corpus.
#[derive(Debug, Clone, Copy, PartialEq, Eq, Structural)]
pub enum CorpusKind {
    /// The log files of the data directory itself.
    Core,
    /// Mutated lines with their ground truth beside them.
    Adversarial,
    /// Lines of unseen vendors with their ground truth beside them.
    Holdout,
}

/// The name of a variant.
pub open spec fn kind_name(kind: CorpusKind) -> Seq<char> {
    match kind {
        CorpusKind::Core => "core"@,
        CorpusKind::Adversarial => "adversarial"@,
        CorpusKind::Holdout => "holdout"@,
    }
}

impl CorpusKind {
    /// The name of the variant.
    pub fn as_str(self) -> (r: &'static str)
        ensures
            r@ == kind_name(self),
    {
        match self {
            CorpusKind::Core => "core",
            CorpusKind::Adversarial => "adversarial",
            CorpusKind::Holdout => "holdout",
        }
    }
}

/// Where the lines of a corpus lie under the data directory.
#[derive(Debug, Clone, Copy)]
pub enum CorpusLayout {
    /// In every log file of the directory itself. A ground-truth file may lie
    /// beside them.
    Directory,
    /// In one log file of a subdirectory. A ground-truth file must lie beside it.
    Subdirectory { name: &'static str, log_file: &'static str },
}

/// The view of a `CorpusLayout`: the subdirectory and the log file in it.
pub open spec fn layout_view(l: CorpusLayout) -> Option<(Seq<char>, Seq<char>)> {
    match l {
        CorpusLayout::Directory => None,
        CorpusLayout::Subdirectory { name, log_file } => Some((name@, log_file@)),
    }
}

/// Where the lines of a corpus lie.
pub open spec fn layout_of(kind: CorpusKind) -> Option<(Seq<char>, Seq<char>)> {
    match kind {
        CorpusKind::Core => None,
        CorpusKind::Adversarial => Some(("adversarial"@, "adversarial.log"@)),
        CorpusKind::Holdout => Some(("holdout"@, "holdout.log"@)),
    }
}

/// Where the lines of a corpus lie.
pub fn corpus_layout(kind: CorpusKind) -> (r: CorpusLayout)
    ensures
        layout_view(r) == layout_of(kind),
{
    match kind {
        CorpusKind::Core => CorpusLayout::Directory,
        CorpusKind::Adversarial => CorpusLayout::Subdirectory {
            name: "adversarial",
            log_file: "adversarial.log",
        },
        CorpusKind::Holdout => CorpusLayout::Subdirectory {
            name: "holdout",
            log_file: "holdout.log",
        },
    }
}

/// Whether a ground-truth file is to be read: the core corpus does without one,
/// the others do not.
pub open spec fn is_ground_truth_read(kind: CorpusKind, present: bool) -> bool {
    present || kind != CorpusKind::Core
}

/// Whether a ground-truth file is to be read.
pub fn reads_ground_truth(kind: CorpusKind, present: bool) -> (r: bool)
    ensures
        r == is_ground_truth_read(kind, present),
{
    match kind {
        CorpusKind::Core => present,
        _ => true,
    }
}

// ---------------------------------------------------------------------------
// Choosing the log files of a directory
// ---------------------------------------------------------------------------

/// The byte of a dot.
pub const DOT: u8 = 46;

/// The bytes of `log`.
pub open spec fn log_bytes() -> Seq<u8> {
    seq![108u8, 111u8, 103u8]
}

/// The bytes of `json`.
pub open spec fn json_bytes() -> Seq<u8> {
    seq![106u8, 115u8, 111u8, 110u8]
}

/// The extension of a file name: what stands behind its last dot, unless that
/// dot is its first character.
pub open spec fn extension_of(name: Seq<u8>) -> Option<Seq<u8>> {
    match name.index_of_last(DOT) {
        Some(i) => if i > 0 {
            Some(name.skip(i + 1))
        } else {
            None
        },
        None => None,
    }
}

/// Whether a file of that name holds log lines: its extension is `log` or `json`.
pub open spec fn is_log_name(name: Seq<u8>) -> bool {
    extension_of(name) == Some(log_bytes()) || extension_of(name) == Some(json_bytes())
}

/// Whether `a` comes before `b` in the order of their bytes.
pub open spec fn precedes(a: Seq<u8>, b: Seq<u8>) -> bool
    decreases a.len(),
{
    if b.len() == 0 {
        false
    } else if a.len() == 0 {
        true
    } else if a[0] != b[0] {
        a[0] < b[0]
    } else {
        precedes(a.drop_first(), b.drop_first())
    }
}

proof fn lemma_precedes_irreflexive(a: Seq<u8>)
    ensures
        !precedes(a, a),
    decreases a.len(),
{
    if a.len() > 0 {
        lemma_precedes_irreflexive(a.drop_first());
    }
}

proof fn lemma_precedes_transitive(a: Seq<u8>, b: Seq<u8>, c: Seq<u8>)
    requires
        precedes(a, b),
        precedes(b, c),
    ensures
        precedes(a, c),
    decreases a.len(),
{
    if a.len() > 0 && a[0] == b[0] && b[0] == c[0] {
        lemma_precedes_transitive(a.drop_first(), b.drop_first(), c.drop_first());
    }
}

proof fn lemma_precedes_total(a: Seq<u8>, b: Seq<u8>)
    ensures
        precedes(a, b) || precedes(b, a) || a == b,
    decreases a.len(),
{
    if a.len() > 0 && b.len() > 0 {
        if a[0] == b[0] {
            lemma_precedes_total(a.drop_first(), b.drop_first());
            if a.drop_first() == b.drop_first() {
                assert(a =~= seq![a[0]] + a.drop_first());
                assert(b =~= seq![b[0]] + b.drop_first());
            }
        }
    } else {
        assert(a.len() == 0 && b.len() == 0 ==> a =~= b);
    }
}

/// The views of a list of file names.
pub open spec fn name_views(names: Seq<Vec<u8>>) -> Seq<Seq<u8>> {
    names.map_values(|n: Vec<u8>| n@)
}

/// Whether entry `i` is read before entry `j`: in the order of the names, and
/// for one name in the order of the list.
pub open spec fn read_before(names: Seq<Seq<u8>>, i: int, j: int) -> bool {
    precedes(names[i], names[j]) || (names[i] == names[j] && i < j)
}

/// Whether `order` lists exactly the entries up to `end` that are log files, in
/// the order in which they are read.
pub open spec fn is_reading_order(names: Seq<Seq<u8>>, order: Seq<usize>, end: int) -> bool {
    &&& forall|k: int|
        0 <= k < order.len() ==> 0 <= (#[trigger] order[k]) < end && is_log_name(
            names[order[k] as int],
        )
    &&& forall|j: usize|
        0 <= j < end && is_log_name(names[j as int]) ==> #[trigger] order.contains(j)
    &&& forall|k: int, m: int|
        0 <= k < m < order.len() ==> read_before(
            names,
            (#[trigger] order[k]) as int,
            (#[trigger] order[m]) as int,
        )
}

/// The position of the last dot in a name.
fn last_dot(name: &Vec<u8>) -> (r: Option<usize>)
    ensures
        match r {
            Some(i) => i < name@.len() && name@.index_of_last(DOT) == Some(i as int),
            None => name@.index_of_last(DOT) is None,
        },
{
    let mut i: usize = name.len();
    while i > 0
        invariant
            i <= name@.len(),
            forall|k: int| i <= k < name@.len() ==> name@[k] != DOT,
        decreases i,
    {
        i -= 1;
        if name[i] == DOT {
            proof {
                name@.index_of_last_ensures(DOT);
            }
            return Some(i);
        }
    }
    proof {
        name@.index_of_last_ensures(DOT);
    }
    None
}

/// Whether a file of that name holds log lines.
pub fn has_log_name(name: &Vec<u8>) -> (r: bool)
    ensures
        r == is_log_name(name@),
{
    let n: usize = name.len();
    let ghost log = log_bytes();
    let ghost json = json_bytes();
    match last_dot(name) {
        Some(i) => {
            if i == 0 {
                return false;
            }
            let ghost ext = name@.skip(i + 1);
            if n - i == 4 {
                let r = name[i + 1] == 108u8 && name[i + 2] == 111u8 && name[i + 3] == 103u8;
                proof {
                    if r {
                        assert(ext =~= log);
                    } else {
                        assert(ext[0] == name@[i + 1] && ext[1] == name@[i + 2] && ext[2]
                            == name@[i + 3]);
                        assert(ext != log);
                    }
                    assert(ext.len() != json.len());
                }
                r
            } else if n - i == 5 {
                let r = name[i + 1] == 106u8 && name[i + 2] == 115u8 && name[i + 3] == 111u8
                    && name[i + 4] == 110u8;
                proof {
                    if r {
                        assert(ext =~= json);
                    } else {
                        assert(ext[0] == name@[i + 1] && ext[1] == name@[i + 2] && ext[2]
                            == name@[i + 3] && ext[3] == name@[i + 4]);
                        assert(ext != json);
                    }
                    assert(ext.len() != log.len());
                }
                r
            } else {
                assert(ext.len() != log.len() && ext.len() != json.len());
                false
            }
        },
        None => false,
    }
}

/// Whether `a` comes before `b` in the order of their bytes.
fn comes_before(a: &Vec<u8>, b: &Vec<u8>) -> (r: bool)
    ensures
        r == precedes(a@, b@),
{
    let mut i: usize = 0;
    assert(a@.skip(0) == a@);
    assert(b@.skip(0) == b@);
    while i < a.len() && i < b.len() && a[i] == b[i]
        invariant
            i <= a@.len(),
            i <= b@.len(),
            precedes(a@, b@) == precedes(a@.skip(i as int), b@.skip(i as int)),
        decreases a@.len() - i,
    {
        assert(a@.skip(i as int).drop_first() == a@.skip(i + 1));
        assert(b@.skip(i as int).drop_first() == b@.skip(i + 1));
        i += 1;
    }
    if i == b.len() {
        false
    } else if i == a.len() {
        true
    } else {
        a[i] < b[i]
    }
}

/// The log files among the entries of a directory, in the order of their names,
/// whatever the order of the list. Each is given by its position in the list.
pub fn select_log_files(names: &Vec<Vec<u8>>) -> (order: Vec<usize>)
    ensures
        is_reading_order(name_views(names@), order@, names@.len() as int),
{
    let ghost views = name_views(names@);
    let mut order: Vec<usize> = Vec::new();
    let mut j: usize = 0;
    while j < names.len()
        invariant
            views == name_views(names@),
            j <= names@.len(),
            is_reading_order(views, order@, j as int),
        decreases names@.len() - j,
    {
        if has_log_name(&names[j]) {
            insert_entry(names, &mut order, j);
        }
        j += 1;
    }
    order
}

/// Puts entry `j` in its place among the earlier ones.
fn insert_entry(names: &Vec<Vec<u8>>, order: &mut Vec<usize>, j: usize)
    requires
        j < names@.len(),
        is_log_name(names@[j as int]@),
        is_reading_order(name_views(names@), old(order)@, j as int),
    ensures
        is_reading_order(name_views(names@), final(order)@, j + 1),
{
    let ghost views = name_views(names@);
    let ghost before = order@;
    let mut p: usize = 0;
    while p < order.len() && !comes_before(&names[j], &names[order[p]])
        invariant
            views == name_views(names@),
            j < names@.len(),
            order@ == before,
            is_reading_order(views, before, j as int),
            p <= order@.len(),
            forall|k: int| 0 <= k < p ==> read_before(views, (#[trigger] before[k]) as int, j as int),
        decreases order@.len() - p,
    {
        proof {
            lemma_precedes_total(views[j as int], views[before[p as int] as int]);
        }
        p += 1;
    }
    proof {
        assert forall|k: int| p <= k < before.len() implies read_before(
            views,
            j as int,
            (#[trigger] before[k]) as int,
        ) by {
            if k > p {
                assert(read_before(views, before[p as int] as int, before[k] as int));
                if views[before[p as int] as int] != views[before[k] as int] {
                    lemma_precedes_transitive(
                        views[j as int],
                        views[before[p as int] as int],
                        views[before[k] as int],
                    );
                }
            }
        }
    }
    order.insert(p, j);
    proof {
        let after = order@;
        assert(after == before.insert(p as int, j));
        assert forall|k: int| 0 <= k < after.len() implies 0 <= (#[trigger] after[k]) < j + 1
            && is_log_name(views[after[k] as int]) by {
            if k < p {
                assert(after[k] == before[k]);
            } else if k > p {
                assert(after[k] == before[k - 1]);
            }
        }
        assert forall|i: usize| 0 <= i < j + 1 && is_log_name(views[i as int]) implies #[trigger]
            after.contains(i) by {
            if i == j {
                assert(after[p as int] == j);
            } else {
                assert(before.contains(i));
                let k = choose|k: int| 0 <= k < before.len() && before[k] == i;
                if k < p {
                    assert(after[k] == i);
                } else {
                    assert(after[k + 1] == i);
                }
            }
        }
        assert forall|k: int, m: int| 0 <= k < m < after.len() implies read_before(
            views,
            (#[trigger] after[k]) as int,
            (#[trigger] after[m]) as int,
        ) by {
            let a = if k < p {
                before[k]
            } else if k == p {
                j
            } else {
                before[k - 1]
            };
            let b = if m < p {
                before[m]
            } else if m == p {
                j
            } else {
                before[m - 1]
            };
            assert(after[k] == a && after[m] == b);
        }
    }
}

/// The names that an order lists, in that order.
pub open spec fn names_in_order(names: Seq<Seq<u8>>, order: Seq<usize>) -> Seq<Seq<u8>> {
    order.map_values(|i: usize| names[i as int])
}

/// Whether each name comes before all that follow it.
spec fn ascending(s: Seq<Seq<u8>>) -> bool {
    forall|i: int, j: int| 0 <= i < j < s.len() ==> precedes(#[trigger] s[i], #[trigger] s[j])
}

/// Two ascending lists of the same names are the same list.
proof fn lemma_ascending_unique(s: Seq<Seq<u8>>, t: Seq<Seq<u8>>)
    requires
        ascending(s),
        ascending(t),
        forall|n: Seq<u8>| s.contains(n) <==> t.contains(n),
    ensures
        s == t,
    decreases s.len(),
{
    if s.len() == 0 {
        if t.len() > 0 {
            assert(t.contains(t[0]));
            assert(s.contains(t[0]));
        }
        assert(s =~= t);
    } else {
        let m = s.last();
        assert(s[s.len() - 1] == m);
        assert(s.contains(m));
        assert(t.contains(m));
        let k = choose|k: int| 0 <= k < t.len() && t[k] == m;
        let u = t.last();
        assert(t.contains(u)) by {
            assert(t[t.len() - 1] == u);
        }
        assert(s.contains(u));
        let l = choose|l: int| 0 <= l < s.len() && s[l] == u;
        if k < t.len() - 1 {
            assert(precedes(t[k], t[t.len() - 1]));
            if l < s.len() - 1 {
                assert(precedes(s[l], s[s.len() - 1]));
                lemma_precedes_transitive(m, u, m);
            }
            lemma_precedes_irreflexive(m);
        }
        assert(u == m);
        let s1 = s.drop_last();
        let t1 = t.drop_last();
        assert forall|n: Seq<u8>| s1.contains(n) <==> t1.contains(n) by {
            if s1.contains(n) {
                let i = choose|i: int| 0 <= i < s1.len() && s1[i] == n;
                assert(s[i] == n);
                assert(precedes(s[i], s[s.len() - 1]));
                lemma_precedes_irreflexive(m);
                assert(s.contains(n));
                assert(t.contains(n));
                let j = choose|j: int| 0 <= j < t.len() && t[j] == n;
                assert(t1[j] == n);
            }
            if t1.contains(n) {
                let i = choose|i: int| 0 <= i < t1.len() && t1[i] == n;
                assert(t[i] == n);
                assert(precedes(t[i], t[t.len() - 1]));
                lemma_precedes_irreflexive(m);
                assert(t.contains(n));
                assert(s.contains(n));
                let j = choose|j: int| 0 <= j < s.len() && s[j] == n;
                assert(s1[j] == n);
            }
        }
        assert forall|i: int, j: int| 0 <= i < j < s1.len() implies precedes(
            #[trigger] s1[i],
            #[trigger] s1[j],
        ) by {
            assert(precedes(s[i], s[j]));
        }
        assert forall|i: int, j: int| 0 <= i < j < t1.len() implies precedes(
            #[trigger] t1[i],
            #[trigger] t1[j],
        ) by {
            assert(precedes(t[i], t[j]));
        }
        lemma_ascending_unique(s1, t1);
        assert(s =~= s1.push(m));
        assert(t =~= t1.push(m));
    }
}

proof fn lemma_order(names: Seq<Seq<u8>>, order: Seq<usize>)
    requires
        names.no_duplicates(),
        names.len() <= usize::MAX,
        is_reading_order(names, order, names.len() as int),
    ensures
        ascending(names_in_order(names, order)),
        forall|n: Seq<u8>|
            names_in_order(names, order).contains(n) <==> names.contains(n) && is_log_name(n),
{
    let s = names_in_order(names, order);
    assert forall|i: int, j: int| 0 <= i < j < s.len() implies precedes(
        #[trigger] s[i],
        #[trigger] s[j],
    ) by {
        assert(read_before(names, order[i] as int, order[j] as int));
    }
    assert forall|n: Seq<u8>| s.contains(n) <==> names.contains(n) && is_log_name(n) by {
        if s.contains(n) {
            let k = choose|k: int| 0 <= k < s.len() && s[k] == n;
            assert(names[order[k] as int] == n);
        }
        if names.contains(n) && is_log_name(n) {
            let i = choose|i: int| 0 <= i < names.len() && names[i] == n;
            assert(order.contains(i as usize));
            let k = choose|k: int| 0 <= k < order.len() && order[k] == i as usize;
            assert(s[k] == n);
        }
    }
}

/// The log files are read in one and the same order, however the directory lists
/// them and whatever else it holds.
pub proof fn reading_order_ignores_listing_order(
    first: Seq<Seq<u8>>,
    first_order: Seq<usize>,
    second: Seq<Seq<u8>>,
    second_order: Seq<usize>,
)
    requires
        first.no_duplicates(),
        second.no_duplicates(),
        first.len() <= usize::MAX,
        second.len() <= usize::MAX,
        forall|n: Seq<u8>|
            is_log_name(n) ==> (#[trigger] first.contains(n) <==> second.contains(n)),
        is_reading_order(first, first_order, first.len() as int),
        is_reading_order(second, second_order, second.len() as int),
    ensures
        names_in_order(first, first_order) == names_in_order(second, second_order),
{
    lemma_order(first, first_order);
    lemma_order(second, second_order);
    lemma_ascending_unique(
        names_in_order(first, first_order),
        names_in_order(second, second_order),
    );
}

}
