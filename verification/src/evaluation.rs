//! What an evaluation is asked to do, and the dump of its findings.
use vstd::prelude::*;
use crate::corpus::CorpusKind;
use crate::lines::views;

verus! {

/// The settings of an evaluation, but for the directory it reads.
#[derive(Debug)]
pub struct EvaluationPlan {
    pub engine: String,
    pub corpus: CorpusKind,
    pub duration: u64,
    pub threads: usize,
    pub samples: usize,
    pub out: String,
    pub json_out: Option<String>,
    pub audit_dump: Option<String>,
}

/// Whether `plan` compares both engines over the core corpus, for that long and
/// with that many threads, with a markdown report and no other output.
pub open spec fn is_comparison(plan: EvaluationPlan, duration: u64, threads: usize) -> bool {
    &&& plan.engine@ == "all"@
    &&& plan.corpus == CorpusKind::Core
    &&& plan.duration == duration
    &&& plan.threads == threads
    &&& plan.samples == 10000
    &&& plan.out@ == "eval_hardcore_report.md"@
    &&& plan.json_out is None
    &&& plan.audit_dump is None
}

impl EvaluationPlan {
    /// The evaluation that a comparing benchmark stands for: both engines over
    /// the core corpus, with a markdown report and no other output.
    pub fn comparison(duration: u64, threads: usize) -> (r: Self)
        ensures
            is_comparison(r, duration, threads),
    {
        EvaluationPlan {
            engine: "all".to_owned(),
            corpus: CorpusKind::Core,
            duration,
            threads,
            samples: 10000,
            out: "eval_hardcore_report.md".to_owned(),
            json_out: None,
            audit_dump: None,
        }
    }
}

/// The lines, each followed by a line feed.
pub open spec fn joined(lines: Seq<Seq<char>>) -> Seq<char>
    decreases lines.len(),
{
    if lines.len() == 0 {
        Seq::empty()
    } else {
        joined(lines.drop_last()) + lines.last().push('\n')
    }
}

/// The text of two lists, one after the other, is that of the first and then
/// that of the second.
pub proof fn joined_in_order(a: Seq<Seq<char>>, b: Seq<Seq<char>>)
    ensures
        joined(a + b) == joined(a) + joined(b),
    decreases b.len(),
{
    if b.len() == 0 {
        assert(a + b == a);
        assert(joined(a) + joined(b) == joined(a));
    } else {
        joined_in_order(a, b.drop_last());
        assert((a + b).drop_last() == a + b.drop_last());
        assert((a + b).last() == b.last());
        assert(joined(a) + (joined(b.drop_last()) + b.last().push('\n')) == joined(a) + joined(
            b.drop_last(),
        ) + b.last().push('\n'));
    }
}

/// The text of the dump of an evaluation: the findings of the baseline engine
/// and then those of the tiered one.
pub open spec fn dump_of_both(baseline: Seq<Seq<char>>, tiered: Seq<Seq<char>>) -> Seq<char> {
    joined(baseline + tiered)
}

/// The text of the dump of an evaluation: the findings of the baseline engine
/// and then those of the tiered one, each on a line of its own.
pub fn dump_of(baseline: &Vec<String>, tiered: &Vec<String>) -> (r: String)
    ensures
        r@ == dump_of_both(views(baseline@), views(tiered@)),
{
    proof {
        joined_in_order(views(baseline@), views(tiered@));
    }
    dump_text(baseline).concat(dump_text(tiered).as_str())
}

/// The text of a dump with one finding per line.
pub fn dump_text(findings: &Vec<String>) -> (r: String)
    ensures
        r@ == joined(views(findings@)),
{
    let mut r = String::new();
    let mut i: usize = 0;
    assert(views(findings@).take(0) == Seq::<Seq<char>>::empty());
    while i < findings.len()
        invariant
            i <= findings@.len(),
            r@ == joined(views(findings@).take(i as int)),
        decreases findings@.len() - i,
    {
        let ghost before = r@;
        r.append(findings[i].as_str());
        r.push('\n');
        i += 1;
        proof {
            let all = views(findings@);
            assert(all.take(i as int).drop_last() == all.take(i - 1));
            assert(all.take(i as int).last() == findings@[i - 1]@);
            assert(r@ == before + findings@[i - 1]@.push('\n'));
        }
    }
    assert(views(findings@).take(i as int) == views(findings@));
    r
}

}
