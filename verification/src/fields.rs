//! A map from field names to field values.
use vstd::prelude::*;
use crate::text::same;

verus! {

/// The map that a list of entries stands for: a later entry overrides an
/// earlier one with the same name.
pub open spec fn map_of(e: Seq<(String, String)>) -> Map<Seq<char>, Seq<char>>
    decreases e.len(),
{
    if e.len() == 0 {
        Map::empty()
    } else {
        map_of(e.drop_last()).insert(e.last().0@, e.last().1@)
    }
}

/// Whether no name occurs twice.
pub open spec fn distinct_names(e: Seq<(String, String)>) -> bool {
    forall|i: int, j: int|
        0 <= i < j < e.len() ==> #[trigger] e[i].0@ != #[trigger] e[j].0@
}

proof fn lemma_names(e: Seq<(String, String)>, k: Seq<char>)
    ensures
        map_of(e).dom().contains(k) <==> exists|i: int| 0 <= i < e.len() && #[trigger] e[i].0@ == k,
    decreases e.len(),
{
    if e.len() > 0 {
        let d = e.drop_last();
        lemma_names(d, k);
        if map_of(e).dom().contains(k) {
            if map_of(d).dom().contains(k) {
                let i = choose|i: int| 0 <= i < d.len() && #[trigger] d[i].0@ == k;
                assert(e[i].0@ == k);
            } else {
                assert(e[e.len() - 1].0@ == k);
            }
        }
        if exists|i: int| 0 <= i < e.len() && #[trigger] e[i].0@ == k {
            let i = choose|i: int| 0 <= i < e.len() && #[trigger] e[i].0@ == k;
            if i < e.len() - 1 {
                assert(d[i].0@ == k);
            }
        }
    }
}

proof fn lemma_value(e: Seq<(String, String)>, i: int)
    requires
        distinct_names(e),
        0 <= i < e.len(),
    ensures
        map_of(e).dom().contains(e[i].0@),
        map_of(e)[e[i].0@] == e[i].1@,
    decreases e.len(),
{
    let d = e.drop_last();
    if i < e.len() - 1 {
        assert(distinct_names(d)) by {
            assert forall|a: int, b: int| 0 <= a < b < d.len() implies #[trigger] d[a].0@
                != #[trigger] d[b].0@ by {
                assert(e[a].0@ != e[b].0@);
            }
        }
        lemma_value(d, i);
        assert(d[i] == e[i]);
        assert(e[i].0@ != e[e.len() - 1].0@);
    }
}

/// A map from names to values.
#[derive(Debug)]
pub struct FieldMap {
    entries: Vec<(String, String)>,
}

impl View for FieldMap {
    type V = Map<Seq<char>, Seq<char>>;

    closed spec fn view(&self) -> Map<Seq<char>, Seq<char>> {
        map_of(self.entries@)
    }
}

impl FieldMap {
    #[verifier::type_invariant]
    spec fn well_formed(self) -> bool {
        distinct_names(self.entries@)
    }

    /// The map without a field.
    pub fn new() -> (r: Self)
        ensures
            r@ == Map::<Seq<char>, Seq<char>>::empty(),
    {
        FieldMap { entries: Vec::new() }
    }

    /// The position of the entry named `name`.
    fn position(e: &Vec<(String, String)>, name: &str) -> (r: Option<usize>)
        ensures
            match r {
                Some(i) => i < e@.len() && e@[i as int].0@ == name@,
                None => forall|i: int| 0 <= i < e@.len() ==> #[trigger] e@[i].0@ != name@,
            },
    {
        let mut i: usize = 0;
        while i < e.len()
            invariant
                i <= e@.len(),
                forall|k: int| 0 <= k < i ==> #[trigger] e@[k].0@ != name@,
            decreases e@.len() - i,
        {
            if same(e[i].0.as_str(), name) {
                return Some(i);
            }
            i += 1;
        }
        None
    }

    /// Sets the field `name` to `value`, whether or not it was there.
    pub fn insert(&mut self, name: String, value: String)
        ensures
            final(self)@ == old(self)@.insert(name@, value@),
    {
        proof {
            use_type_invariant(&*self);
        }
        let mut e: Vec<(String, String)> = Vec::new();
        std::mem::swap(&mut e, &mut self.entries);
        let ghost before = e@;
        match Self::position(&e, name.as_str()) {
            Some(i) => {
                let ghost key = name@;
                let ghost val = value@;
                let entry = (name, value);
                e.set(i, entry);
                proof {
                    assert forall|a: int, b: int| 0 <= a < b < e@.len() implies #[trigger] e@[a].0@
                        != #[trigger] e@[b].0@ by {
                        assert(before[a].0@ != before[b].0@);
                    }
                    assert forall|k: Seq<char>| #[trigger]
                        map_of(e@).dom().contains(k) <==> map_of(before).insert(
                            key,
                            val,
                        ).dom().contains(k) by {
                        lemma_names(e@, k);
                        lemma_names(before, k);
                        lemma_same_names(before, e@, k);
                    }
                    assert forall|k: Seq<char>| #[trigger]
                        map_of(e@).dom().contains(k) implies map_of(e@)[k] == map_of(before).insert(
                        key,
                        val,
                    )[k] by {
                        lemma_names(e@, k);
                        let j = choose|j: int| 0 <= j < e@.len() && #[trigger] e@[j].0@ == k;
                        lemma_value(e@, j);
                        if j != i {
                            lemma_value(before, j);
                            if k == key {
                                lemma_value(e@, i as int);
                                if j < i {
                                    assert(e@[j].0@ != e@[i as int].0@);
                                } else {
                                    assert(e@[i as int].0@ != e@[j].0@);
                                }
                            }
                        }
                    }
                    assert(map_of(e@) =~= map_of(before).insert(key, val));
                }
            },
            None => {
                let entry = (name, value);
                e.push(entry);
                assert(e@.drop_last() == before);
                assert(distinct_names(e@)) by {
                    assert forall|a: int, b: int| 0 <= a < b < e@.len() implies #[trigger] e@[a].0@
                        != #[trigger] e@[b].0@ by {
                        assert(e@[a] == before[a]);
                        if b < before.len() {
                            assert(before[a].0@ != before[b].0@);
                        }
                    }
                }
            },
        }
        self.entries = e;
    }

    /// The value of the field `name`, where there is one.
    pub fn get(&self, name: &str) -> (r: Option<&String>)
        ensures
            match r {
                Some(v) => self@.dom().contains(name@) && self@[name@] == v@,
                None => !self@.dom().contains(name@),
            },
    {
        proof {
            use_type_invariant(self);
        }
        match Self::position(&self.entries, name) {
            Some(i) => {
                proof {
                    lemma_value(self.entries@, i as int);
                }
                Some(&self.entries[i].1)
            },
            None => {
                proof {
                    lemma_names(self.entries@, name@);
                }
                None
            },
        }
    }

    /// The fields as a list that holds each name once.
    pub fn entries(&self) -> (r: &Vec<(String, String)>)
        ensures
            map_of(r@) == self@,
            distinct_names(r@),
    {
        proof {
            use_type_invariant(self);
        }
        &self.entries
    }
}

proof fn lemma_same_names(a: Seq<(String, String)>, b: Seq<(String, String)>, k: Seq<char>)
    requires
        a.len() == b.len(),
        forall|i: int| 0 <= i < a.len() ==> #[trigger] a[i].0@ == #[trigger] b[i].0@,
    ensures
        (exists|i: int| 0 <= i < a.len() && #[trigger] a[i].0@ == k) <==> (exists|i: int|
            0 <= i < b.len() && #[trigger] b[i].0@ == k),
{
    if exists|i: int| 0 <= i < a.len() && #[trigger] a[i].0@ == k {
        let i = choose|i: int| 0 <= i < a.len() && #[trigger] a[i].0@ == k;
        assert(b[i].0@ == k);
    }
    if exists|i: int| 0 <= i < b.len() && #[trigger] b[i].0@ == k {
        let i = choose|i: int| 0 <= i < b.len() && #[trigger] b[i].0@ == k;
        assert(a[i].0@ == k);
    }
}

}
