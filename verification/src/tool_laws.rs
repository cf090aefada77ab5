//! What holds of the decisions of the command-line tools.
use vstd::prelude::*;
use crate::audit::{exit_code_of, missing_of, AuditOutcome};
use crate::benchmark::{benchmark_file_names, position_of, published_of, LOT};
use crate::corpus::{is_ground_truth_read, is_log_name, kind_name, layout_of};
use crate::corpus::{is_reading_order, precedes, CorpusKind, DOT};
use crate::direction::direction_of;
use crate::evaluation::{dump_of_both, is_comparison, joined, joined_in_order, EvaluationPlan};
use crate::ingest::{calls_for_alert, counted, flushed, next_of, one_more, queued_line_of};
use crate::ingest::{AlertLevel, BackpressurePolicy, IngestCounters, IngestEvent, IngestStep};
use crate::ingest::{DRAIN_PAUSE_MS, GRACE_MS, TICK_MS};
use crate::lines::{at_most, datagram_lines_of, log_lines_of, nonblank, pieces};
use crate::ocsf::{activity_id, activity_name_of, disposition};
use crate::onboard::{file_names_of, sample_answer, samples_of, MAX_SAMPLES, MIN_SAMPLES};
use crate::protocol::protocol_number;
use crate::text::{lowered, text_of, trimmed, TrimSet};

verus! {

// ---------------------------------------------------------------------------
// Ingestion
// ---------------------------------------------------------------------------

/// A running loop takes one batch per tick and waits again, whether the batch
/// held anything or not.
pub proof fn running_loop_waits_between_batches(grace_over: bool)
    ensures
        next_of(IngestStep::Wait, IngestEvent::Tick) == (IngestStep::Pop { draining: false }),
        next_of(
            IngestStep::Pop { draining: false },
            IngestEvent::Popped { empty: true, grace_over },
        ) == IngestStep::Wait,
        next_of(IngestStep::Process { draining: false }, IngestEvent::Done) == IngestStep::Wait,
{
}

/// The signal starts the drain. The drain takes batch after batch, rests while
/// the queue is empty and the grace period runs, and then flushes and ends.
pub proof fn drain_runs_to_the_end_of_the_grace_period()
    ensures
        next_of(IngestStep::Wait, IngestEvent::Shutdown) == (IngestStep::Pop { draining: true }),
        next_of(IngestStep::Process { draining: true }, IngestEvent::Done) == (IngestStep::Pop {
            draining: true,
        }),
        next_of(
            IngestStep::Pop { draining: true },
            IngestEvent::Popped { empty: true, grace_over: false },
        ) == IngestStep::Pause,
        next_of(IngestStep::Pause, IngestEvent::Done) == (IngestStep::Pop { draining: true }),
        next_of(
            IngestStep::Pop { draining: true },
            IngestEvent::Popped { empty: true, grace_over: true },
        ) == IngestStep::Flush,
        next_of(IngestStep::Flush, IngestEvent::Done) == IngestStep::Finished,
{
}

/// Whether `step` waits for `event`.
pub open spec fn waits_for(step: IngestStep, event: IngestEvent) -> bool {
    match event {
        IngestEvent::Tick | IngestEvent::Shutdown => step == IngestStep::Wait,
        IngestEvent::Popped { .. } => step is Pop,
        IngestEvent::Done => step is Process || step is Pause || step is Flush,
    }
}

/// The loop moves on exactly when the event comes that it waits for, and a run
/// that is over stays over.
pub proof fn only_awaited_events_move_the_loop(step: IngestStep, event: IngestEvent)
    ensures
        waits_for(step, event) <==> next_of(step, event) != step,
        next_of(IngestStep::Finished, event) == IngestStep::Finished,
{
}

/// A drain rests fifty times before the grace period of half a second is over; a
/// running loop looks at the queue every millisecond.
pub proof fn waiting_times()
    ensures
        GRACE_MS == 500,
        GRACE_MS == 50 * DRAIN_PAUSE_MS,
        TICK_MS == 1,
{
}

/// Lines are lost on request only.
pub proof fn blocking_is_the_default()
    ensures
        BackpressurePolicy::chosen(false) == BackpressurePolicy::Block,
        BackpressurePolicy::chosen(true) == BackpressurePolicy::Drop,
{
}

/// Every line counts once. An anomaly counts once more, whatever its level, and
/// so does a block that the line filled.
pub proof fn every_line_counts(c: IngestCounters, anomaly: Option<AlertLevel>, block: bool)
    requires
        c.parsed < u64::MAX && c.blocks < u64::MAX && c.anomalies < u64::MAX,
    ensures
        counted(c, anomaly, block).parsed == c.parsed + 1,
        counted(c, anomaly, block).anomalies == c.anomalies + (if anomaly is Some {
            1int
        } else {
            0int
        }),
        counted(c, anomaly, block).blocks == c.blocks + (if block {
            1int
        } else {
            0int
        }),
        flushed(c, block).blocks == counted(c, anomaly, block).blocks,
        flushed(c, block).parsed == c.parsed && flushed(c, block).anomalies == c.anomalies,
        one_more(u64::MAX) == 0,
{
}

/// High and critical anomalies call for an alert; the others, and lines without
/// one, do not.
pub proof fn grave_anomalies_alert()
    ensures
        calls_for_alert(Some(AlertLevel::Critical)),
        calls_for_alert(Some(AlertLevel::High)),
        !calls_for_alert(Some(AlertLevel::Routine)),
        !calls_for_alert(None),
{
}

/// A message out of the queue is a line unless it is empty or no text.
pub proof fn queued_texts_are_lines(bytes: Seq<u8>)
    ensures
        match text_of(bytes) {
            Some(t) => t.len() > 0 <==> queued_line_of(bytes) == Some(t),
            None => queued_line_of(bytes) is None,
        },
        queued_line_of(bytes) matches Some(t) ==> t.len() > 0,
{
}

// ---------------------------------------------------------------------------
// Lines and samples
// ---------------------------------------------------------------------------

/// A line feed parts a text in two: the lines before it and the lines behind it
/// are found as if each part stood alone.
pub proof fn line_feeds_part_a_text(before: Seq<char>, behind: Seq<char>)
    ensures
        log_lines_of(before + seq!['\n'] + behind) == log_lines_of(before) + log_lines_of(behind),
{
    lemma_pieces(before, behind);
    crate::lines::log_lines_keep_their_order(pieces(before), pieces(behind));
}

proof fn lemma_pieces(before: Seq<char>, behind: Seq<char>)
    ensures
        pieces(before + seq!['\n'] + behind) == pieces(before) + pieces(behind),
    decreases before.len(),
{
    let s = before + seq!['\n'] + behind;
    let n = before.len() as int;
    assert(s[n] == '\n');
    s.index_of_first_ensures('\n');
    before.index_of_first_ensures('\n');
    let i = s.index_of_first('\n').unwrap();
    if before.contains('\n') {
        let j = before.index_of_first('\n').unwrap();
        assert(s[j] == '\n');
        if i < j {
            assert(before[i] == '\n');
        }
        if j < i {
            assert(s[j] == '\n');
        }
        assert(i == j);
        let rest = before.skip(j + 1);
        lemma_pieces(rest, behind);
        assert(s.skip(i + 1) =~= rest + seq!['\n'] + behind);
        assert(s.take(i) =~= before.take(j));
        assert(seq![before.take(j)] + (pieces(rest) + pieces(behind)) =~= seq![before.take(j)]
            + pieces(rest) + pieces(behind));
    } else {
        if i < n {
            assert(before[i] == '\n');
        }
        assert(i == n);
        assert(s.take(n) =~= before);
        assert(s.skip(n + 1) =~= behind);
    }
}

/// A text without a line feed is one line, trimmed, or none where it is blank.
pub proof fn one_line_of_text(s: Seq<char>)
    requires
        !s.contains('\n'),
    ensures
        trimmed(s, TrimSet::Whitespace).len() > 0 ==> log_lines_of(s) == seq![
            trimmed(s, TrimSet::Whitespace),
        ],
        trimmed(s, TrimSet::Whitespace).len() == 0 ==> log_lines_of(s) == Seq::<Seq<char>>::empty(),
{
    s.index_of_first_ensures('\n');
    assert(pieces(s) =~= seq![s]);
    reveal_with_fuel(nonblank, 2);
    assert(seq![s].drop_last() =~= Seq::<Seq<char>>::empty());
}

/// The samples are the first lines that are not blank, up to ten; three are
/// enough.
pub proof fn samples_are_the_first_lines(lines: Seq<Seq<char>>)
    ensures
        samples_of(lines).is_prefix_of(nonblank(lines)),
        samples_of(lines).len() <= 10,
        samples_of(lines).len() < 10 ==> samples_of(lines) == nonblank(lines),
        MAX_SAMPLES == 10 && MIN_SAMPLES == 3,
{
    let all = nonblank(lines);
    if all.len() <= 10 {
        assert(all =~= all.take(all.len() as int));
    }
}

/// Fewer than three lines that are not blank are too few, and their number is
/// told; from three on the samples are given.
pub proof fn three_samples_are_enough(lines: Seq<Seq<char>>)
    ensures
        nonblank(lines).len() < 3 <==> sample_answer(lines) is Err,
        sample_answer(lines) matches Err(n) ==> n == nonblank(lines).len(),
        sample_answer(lines) matches Ok(s) ==> s.is_prefix_of(nonblank(lines)) && s.len() >= 3,
        nonblank(lines).len() >= 10 ==> sample_answer(lines)->Ok_0.len() == 10,
{
    samples_are_the_first_lines(lines);
}

/// A specification is kept in two files with the vendor's name, which differ in
/// their ending.
pub proof fn specifications_are_named_after_the_vendor(vendor: Seq<char>)
    ensures
        file_names_of(vendor).0 == vendor + seq!['.', 'j', 's', 'o', 'n'],
        file_names_of(vendor).1 == vendor + seq!['.', 'y', 'a', 'm', 'l'],
{
    reveal_strlit(".json");
    reveal_strlit(".yaml");
    assert(".json"@ =~= seq!['.', 'j', 's', 'o', 'n']);
    assert(".yaml"@ =~= seq!['.', 'y', 'a', 'm', 'l']);
}

/// A datagram that encodes a text has the lines of the text; one that encodes
/// none has no line.
pub proof fn datagrams_are_texts(text: Seq<char>, bytes: Seq<u8>)
    ensures
        datagram_lines_of(vstd::utf8::encode_utf8(text)) == log_lines_of(text),
        !vstd::utf8::valid_utf8(bytes) ==> datagram_lines_of(bytes).len() == 0,
{
    vstd::utf8::encode_utf8_valid_utf8(text);
    vstd::utf8::encode_utf8_decode_utf8(text);
}

/// Taking the first lines keeps as many as there are, up to the number asked for.
pub proof fn first_lines_are_a_beginning(lines: Seq<Seq<char>>, n: int)
    requires
        0 <= n,
    ensures
        at_most(lines, n).is_prefix_of(lines),
        at_most(lines, n).len() == (if lines.len() < n {
            lines.len() as int
        } else {
            n
        }),
{
    assert(lines =~= lines.take(lines.len() as int));
}

/// The dump holds each finding whole, with a line feed behind it.
pub proof fn findings_are_dumped_in_turn(findings: Seq<Seq<char>>, next: Seq<char>)
    ensures
        joined(findings.push(next)) == joined(findings) + next + seq!['\n'],
        joined(Seq::<Seq<char>>::empty()) == Seq::<char>::empty(),
{
    assert(findings.push(next).drop_last() =~= findings);
    assert(joined(findings) + next.push('\n') =~= joined(findings) + next + seq!['\n']);
}

/// The findings of the baseline engine come first in a dump, and those of the
/// tiered one follow.
pub proof fn baseline_is_dumped_first(baseline: Seq<Seq<char>>, tiered: Seq<Seq<char>>)
    ensures
        dump_of_both(baseline, tiered) == joined(baseline) + joined(tiered),
{
    joined_in_order(baseline, tiered);
}

/// A comparison runs both engines over the core corpus for the time and with the
/// threads that were asked for.
pub proof fn comparisons_run_as_asked(plan: EvaluationPlan, duration: u64, threads: usize)
    requires
        is_comparison(plan, duration, threads),
    ensures
        plan.duration == duration && plan.threads == threads,
        plan.engine@ == "all"@ && plan.corpus == CorpusKind::Core,
        plan.samples == 10_000,
        plan.out@ == "eval_hardcore_report.md"@,
        plan.json_out is None && plan.audit_dump is None,
{
}

// ---------------------------------------------------------------------------
// Audits and benchmarks
// ---------------------------------------------------------------------------

/// The exit code is 1 where an input is missing, 2 where the evidence is broken
/// and 0 where it is sound. The block is missed before the ledger.
pub proof fn audits_end_with_their_code(block: bool, ledger: bool)
    ensures
        block && ledger <==> missing_of(block, ledger) is None,
        missing_of(block, ledger) matches Some(outcome) ==> exit_code_of(outcome) == 1,
        !block ==> missing_of(block, ledger) == Some(AuditOutcome::MissingBlock),
        block && !ledger ==> missing_of(block, ledger) == Some(AuditOutcome::MissingLedger),
        exit_code_of(AuditOutcome::Corrupted) == 2,
        exit_code_of(AuditOutcome::Compared { valid: false }) == 2,
        exit_code_of(AuditOutcome::Compared { valid: true }) == 0,
{
}

/// A worker publishes at every 1024th event and nowhere else, and then a full
/// lot.
pub proof fn lots_are_published_when_full(count: nat)
    ensures
        (count + 1) % 1024 == 0 ==> published_of(count + 1) == published_of(count) + 1024,
        (count + 1) % 1024 != 0 ==> published_of(count + 1) == published_of(count),
        published_of(0) == 0,
        LOT == 1024,
{
}

/// A worker whose number is a line of the corpus starts at that line, and goes on
/// to the next one, or from the last to the first.
pub proof fn workers_go_round_the_corpus(worker: nat, count: nat, size: nat)
    requires
        size > 0,
    ensures
        worker < size ==> position_of(worker, 0, size) == worker,
        position_of(worker, count, size) < size,
        position_of(worker, count, size) + 1 < size ==> position_of(worker, count + 1, size)
            == position_of(worker, count, size) + 1,
        position_of(worker, count, size) + 1 == size ==> position_of(worker, count + 1, size) == 0,
        position_of(worker, count + 1, size) == position_of(worker + 1, count, size),
{
    let x = (worker + count) as int;
    let d = size as int;
    let q = x / d;
    let r = x % d;
    vstd::arithmetic::div_mod::lemma_fundamental_div_mod(x, d);
    vstd::arithmetic::div_mod::lemma_mod_bound(x, d);
    if worker < size {
        vstd::arithmetic::div_mod::lemma_small_mod(worker, size);
    }
    if r + 1 == d {
        assert((q + 1) * d + 0 == d * q + r + 1) by (nonlinear_arith)
            requires
                r + 1 == d,
        ;
        vstd::arithmetic::div_mod::lemma_fundamental_div_mod_converse(x + 1, d, q + 1, 0);
    } else {
        assert(q * d + (r + 1) == d * q + r + 1) by (nonlinear_arith);
        vstd::arithmetic::div_mod::lemma_fundamental_div_mod_converse(x + 1, d, q, r + 1);
    }
}

/// The benchmark reads the logs of five products.
pub proof fn benchmark_reads_five_products()
    ensures
        benchmark_file_names().len() == 5,
        benchmark_file_names()[0] == "cisco_asa"@ + ".log"@,
        benchmark_file_names()[1] == "fortigate"@ + ".log"@,
        benchmark_file_names()[2] == "paloalto"@ + ".log"@,
        benchmark_file_names()[3] == "suricata"@ + ".json"@,
        benchmark_file_names()[4] == "pfsense"@ + ".log"@,
{
    reveal_strlit(".log");
    reveal_strlit(".json");
    reveal_strlit("cisco_asa");
    reveal_strlit("fortigate");
    reveal_strlit("paloalto");
    reveal_strlit("suricata");
    reveal_strlit("pfsense");
    reveal_strlit("cisco_asa.log");
    reveal_strlit("fortigate.log");
    reveal_strlit("paloalto.log");
    reveal_strlit("suricata.json");
    reveal_strlit("pfsense.log");
    assert("cisco_asa.log"@ =~= "cisco_asa"@ + ".log"@);
    assert("fortigate.log"@ =~= "fortigate"@ + ".log"@);
    assert("paloalto.log"@ =~= "paloalto"@ + ".log"@);
    assert("suricata.json"@ =~= "suricata"@ + ".json"@);
    assert("pfsense.log"@ =~= "pfsense"@ + ".log"@);
}

// ---------------------------------------------------------------------------
// The corpus
// ---------------------------------------------------------------------------

/// A file holds log lines exactly when its name is a stem, a dot, and `log` or
/// `json`.
pub proof fn log_files_end_in_log_or_json(stem: Seq<u8>, ending: Seq<u8>)
    requires
        !ending.contains(DOT),
    ensures
        is_log_name(stem + seq![DOT] + ending) <==> stem.len() > 0 && (ending == seq![
            'l' as u8,
            'o' as u8,
            'g' as u8,
        ] || ending == seq!['j' as u8, 's' as u8, 'o' as u8, 'n' as u8]),
        !is_log_name(ending),
        DOT == '.' as u8,
{
    let name = stem + seq![DOT] + ending;
    let n = stem.len() as int;
    assert(name[n] == DOT);
    name.index_of_last_ensures(DOT);
    let i = name.index_of_last(DOT).unwrap();
    if i > n {
        assert(ending[i - n - 1] == DOT);
    }
    assert(i == n);
    assert(name.skip(n + 1) =~= ending);
    ending.index_of_last_ensures(DOT);
    assert(seq!['l' as u8, 'o' as u8, 'g' as u8] =~= crate::corpus::log_bytes());
    assert(seq!['j' as u8, 's' as u8, 'o' as u8, 'n' as u8] =~= crate::corpus::json_bytes());
}

/// Names are ordered by the first byte in which they differ, and a name comes
/// before every longer one that starts with it.
pub proof fn names_are_ordered_by_their_bytes(
    common: Seq<u8>,
    x: u8,
    y: u8,
    a: Seq<u8>,
    b: Seq<u8>,
)
    ensures
        x != y ==> (precedes(common + seq![x] + a, common + seq![y] + b) <==> x < y),
        precedes(common, common + seq![x] + a),
        !precedes(common + seq![x] + a, common),
        !precedes(common, common),
    decreases common.len(),
{
    let s = common + seq![x] + a;
    let t = common + seq![y] + b;
    if common.len() > 0 {
        let rest = common.drop_first();
        names_are_ordered_by_their_bytes(rest, x, y, a, b);
        assert(s.drop_first() =~= rest + seq![x] + a);
        assert(t.drop_first() =~= rest + seq![y] + b);
        assert(s[0] == common[0] && t[0] == common[0]);
    } else {
        assert(s[0] == x && t[0] == y);
    }
}

/// Every log file of a directory is read, once, and no other; and of two files
/// the one whose name comes first is read first.
pub proof fn log_files_are_read_once_each_in_order(
    names: Seq<Seq<u8>>,
    order: Seq<usize>,
    k: int,
    m: int,
)
    requires
        is_reading_order(names, order, names.len() as int),
        names.len() <= usize::MAX,
        0 <= k < m < order.len(),
    ensures
        order[k] != order[m],
        !precedes(names[order[m] as int], names[order[k] as int]),
        is_log_name(names[order[k] as int]) && is_log_name(names[order[m] as int]),
        forall|j: usize|
            0 <= j < names.len() && is_log_name(names[j as int]) ==> #[trigger] order.contains(j),
{
    let a = names[order[k] as int];
    let b = names[order[m] as int];
    assert(crate::corpus::read_before(names, order[k] as int, order[m] as int));
    lemma_one_way(a, b);
    lemma_one_way(a, a);
}

proof fn lemma_one_way(a: Seq<u8>, b: Seq<u8>)
    ensures
        !(precedes(a, b) && precedes(b, a)),
    decreases a.len(),
{
    if a.len() > 0 && b.len() > 0 {
        lemma_one_way(a.drop_first(), b.drop_first());
    }
}

/// The corpora beside the core one lie under their own names, each in a log file
/// that has the name too.
pub proof fn corpora_lie_under_their_names(kind: CorpusKind)
    ensures
        layout_of(kind) is None <==> kind == CorpusKind::Core,
        layout_of(kind) matches Some((directory, file)) ==> directory == kind_name(kind) && file
            == kind_name(kind) + ".log"@,
        kind_name(CorpusKind::Core) == "core"@,
        kind_name(CorpusKind::Adversarial) == "adversarial"@,
        kind_name(CorpusKind::Holdout) == "holdout"@,
{
    reveal_strlit("adversarial");
    reveal_strlit("holdout");
    reveal_strlit(".log");
    reveal_strlit("adversarial.log");
    reveal_strlit("holdout.log");
    assert("adversarial.log"@ =~= "adversarial"@ + ".log"@);
    assert("holdout.log"@ =~= "holdout"@ + ".log"@);
}

/// The ground truth is read wherever it lies; only the core corpus does without.
pub proof fn ground_truth_is_read_where_it_lies(kind: CorpusKind)
    ensures
        is_ground_truth_read(kind, true),
        is_ground_truth_read(CorpusKind::Adversarial, false),
        is_ground_truth_read(CorpusKind::Holdout, false),
        !is_ground_truth_read(CorpusKind::Core, false),
{
}

// ---------------------------------------------------------------------------
// The vocabulary of events
// ---------------------------------------------------------------------------

/// The activities have the numbers of OCSF, and each number its name.
pub proof fn activities_have_their_numbers(id: u32)
    ensures
        activity_id::OPEN == 1 && activity_id::CLOSE == 2 && activity_id::OTHER == 99,
        id == 1 ==> activity_name_of(id) == "Open"@,
        id == 2 ==> activity_name_of(id) == "Close"@,
        id == 99 ==> activity_name_of(id) == "Other"@,
        id != 1 && id != 2 && id != 99 ==> activity_name_of(id) == "Unknown"@,
{
}

/// The four verdicts.
pub proof fn verdicts_have_their_names()
    ensures
        disposition::ALLOWED@ == "Allowed"@,
        disposition::BLOCKED@ == "Blocked"@,
        disposition::DROPPED@ == "Dropped"@,
        disposition::UNKNOWN@ == "Unknown"@,
{
}

/// A word names a direction exactly when it is one of four, in any letter case.
pub proof fn four_words_name_a_direction(word: Seq<char>)
    ensures
        direction_of(word) == "Inbound"@ <==> lowered(word) == "in"@ || lowered(word)
            == "inbound"@,
        direction_of(word) == "Outbound"@ <==> lowered(word) == "out"@ || lowered(word)
            == "outbound"@,
{
    reveal_strlit("in");
    reveal_strlit("inbound");
    reveal_strlit("out");
    reveal_strlit("outbound");
    reveal_strlit("Inbound");
    reveal_strlit("Outbound");
    reveal_strlit("Unknown");
    assert("in"@[0] == 'i' && "inbound"@[0] == 'i');
    assert("out"@[0] == 'o' && "outbound"@[0] == 'o');
    assert("Inbound"@[0] == 'I' && "Outbound"@[0] == 'O' && "Unknown"@[0] == 'U');
}

/// The protocols and their numbers, read from the number to the name. No other
/// name has a number.
pub proof fn protocols_have_their_numbers(name: Seq<char>)
    ensures
        protocol_number(name) == Some(6u8) <==> name == "TCP"@,
        protocol_number(name) == Some(17u8) <==> name == "UDP"@,
        protocol_number(name) == Some(1u8) <==> name == "ICMP"@,
        protocol_number(name) == Some(2u8) <==> name == "IGMP"@,
        protocol_number(name) == Some(47u8) <==> name == "GRE"@,
        protocol_number(name) == Some(50u8) <==> name == "ESP"@,
        protocol_number(name) == Some(51u8) <==> name == "AH"@,
        protocol_number(name) == Some(58u8) <==> name == "ICMP6"@ || name == "ICMPV6"@,
        protocol_number(name) == Some(132u8) <==> name == "SCTP"@,
        protocol_number(name) matches Some(n) ==> {
            ||| n == 6 || n == 17 || n == 1 || n == 2 || n == 47
            ||| n == 50 || n == 51 || n == 58 || n == 132
        },
{
    reveal_strlit("TCP");
    reveal_strlit("UDP");
    reveal_strlit("ICMP");
    reveal_strlit("IGMP");
    reveal_strlit("GRE");
    reveal_strlit("ESP");
    reveal_strlit("AH");
    reveal_strlit("ICMP6");
    reveal_strlit("ICMPV6");
    reveal_strlit("SCTP");
    assert("TCP"@[0] == 'T' && "UDP"@[0] == 'U' && "GRE"@[0] == 'G' && "ESP"@[0] == 'E');
    assert("ICMP"@[1] == 'C' && "IGMP"@[1] == 'G');
    assert("ICMP"@[0] == 'I' && "IGMP"@[0] == 'I' && "SCTP"@[0] == 'S');
    assert("ICMP6"@.len() == 5 && "ICMPV6"@.len() == 6 && "ICMP"@.len() == 4);
    assert("TCP"@.len() == 3 && "UDP"@.len() == 3 && "GRE"@.len() == 3 && "ESP"@.len() == 3);
    assert("AH"@.len() == 2 && "SCTP"@.len() == 4 && "IGMP"@.len() == 4);
}

}
