use ulpf::audit::{exit_code, missing_input, AuditOutcome};
use ulpf::benchmark::{benchmark_files, WorkerTally};
use ulpf::corpus::{corpus_layout, has_log_name, reads_ground_truth, select_log_files};
use ulpf::corpus::{CorpusKind, CorpusLayout};
use ulpf::evaluation::{dump_of, dump_text, EvaluationPlan};
use ulpf::ingest::{next_step, queued_line, AlertLevel, BackpressurePolicy, IngestCounters};
use ulpf::ingest::{IngestEvent, IngestStep};
use ulpf::inspect::{event_summary, preview};
use ulpf::lines::{datagram_lines, first_lines, joined_files, log_lines, nonblank_lines};
use ulpf::onboard::{sample_lines, spec_file_names};
use ulpf::tamper::{altered_line, snippet, tamper_line};

fn strings(s: &[&str]) -> Vec<String> {
    s.iter().map(|s| s.to_string()).collect()
}

#[test]
fn lines_of_a_text() {
    for t in ["", "\n", "a", "a\n", "a\r\nb\r\n", "\n\n a \n\t\nb", "x\ry", " ", "a\n\u{a0}\nb\n\n"] {
        let want: Vec<String> = t
            .lines()
            .map(|l| l.trim().to_string())
            .filter(|l| !l.is_empty())
            .collect();
        assert_eq!(log_lines(t), want, "{:?}", t);
        assert_eq!(datagram_lines(t.as_bytes()), want);
    }
    assert!(datagram_lines(&[b'a', 0xff]).is_empty());
}

#[test]
fn lines_of_a_file() {
    let lines = strings(&[" a ", "", "\t", "b"]);
    assert_eq!(nonblank_lines(&lines), strings(&["a", "b"]));
    assert_eq!(first_lines(strings(&["a", "b", "c"]), 2), strings(&["a", "b"]));
    assert_eq!(first_lines(strings(&["a"]), 2), strings(&["a"]));
}

#[test]
fn samples() {
    assert_eq!(sample_lines(&strings(&["a", " ", "b"])), Err(2));
    assert_eq!(sample_lines(&strings(&["a", " ", "b", "c "])), Ok(strings(&["a", "b", "c"])));
    let many: Vec<String> = (0..20).map(|i| i.to_string()).collect();
    assert_eq!(sample_lines(&many).unwrap(), many[..10].to_vec());
    let (json, yaml) = spec_file_names("Palo-ALTO \u{c9}");
    assert_eq!(json, "palo-alto \u{e9}.json");
    assert_eq!(yaml, "palo-alto \u{e9}.yaml");
}

#[test]
fn ingestion_drains_and_flushes_before_it_ends() {
    let mut step = IngestStep::Wait;
    let events = [
        (IngestEvent::Tick, IngestStep::Pop { draining: false }),
        (IngestEvent::Popped { empty: true, grace_over: true }, IngestStep::Wait),
        (IngestEvent::Tick, IngestStep::Pop { draining: false }),
        (
            IngestEvent::Popped { empty: false, grace_over: false },
            IngestStep::Process { draining: false },
        ),
        (IngestEvent::Done, IngestStep::Wait),
        (IngestEvent::Shutdown, IngestStep::Pop { draining: true }),
        (
            IngestEvent::Popped { empty: false, grace_over: true },
            IngestStep::Process { draining: true },
        ),
        (IngestEvent::Done, IngestStep::Pop { draining: true }),
        (IngestEvent::Popped { empty: true, grace_over: false }, IngestStep::Pause),
        (IngestEvent::Done, IngestStep::Pop { draining: true }),
        (IngestEvent::Popped { empty: true, grace_over: true }, IngestStep::Flush),
        (IngestEvent::Shutdown, IngestStep::Flush),
        (IngestEvent::Done, IngestStep::Finished),
        (IngestEvent::Tick, IngestStep::Finished),
    ];
    for (event, want) in events {
        step = next_step(step, event);
        assert_eq!(step, want);
    }
}

#[test]
fn ingestion_counts_and_alerts() {
    let mut c = IngestCounters::new();
    assert!(!c.count_line(None, false));
    assert!(!c.count_line(Some(AlertLevel::Routine), true));
    assert!(c.count_line(Some(AlertLevel::High), false));
    assert!(c.count_line(Some(AlertLevel::Critical), true));
    c.count_flush(false);
    c.count_flush(true);
    assert_eq!((c.parsed, c.blocks, c.anomalies), (4, 3, 3));
    let mut full = IngestCounters { parsed: u64::MAX, blocks: 0, anomalies: 0 };
    full.count_line(None, false);
    assert_eq!(full.parsed, 0);
}

#[test]
fn lines_are_dropped_only_on_request() {
    assert_eq!(BackpressurePolicy::choose_policy(false), BackpressurePolicy::Block);
    assert_eq!(BackpressurePolicy::choose_policy(true), BackpressurePolicy::Drop);
    assert_eq!(BackpressurePolicy::Block.label(), "block-on-full");
    assert_eq!(BackpressurePolicy::Drop.label(), "drop-on-full");
}

#[test]
fn queued_messages() {
    assert_eq!(queued_line(b"x y"), Some("x y".to_string()));
    assert_eq!(queued_line(b""), None);
    assert_eq!(queued_line(&[0xfe]), None);
}

#[test]
fn received_lines_come_out_of_the_queue_as_they_went_in() {
    let lines = datagram_lines(" caf\u{e9} 1\r\n\n\u{1f525} 2 ".as_bytes());
    assert_eq!(lines, strings(&["caf\u{e9} 1", "\u{1f525} 2"]));
    for line in lines {
        assert_eq!(queued_line(line.as_bytes()), Some(line));
    }
}

#[test]
fn corpus_kinds() {
    assert_eq!(CorpusKind::Core.as_str(), "core");
    assert_eq!(CorpusKind::Adversarial.as_str(), "adversarial");
    assert_eq!(CorpusKind::Holdout.as_str(), "holdout");
    assert!(matches!(corpus_layout(CorpusKind::Core), CorpusLayout::Directory));
    assert!(matches!(
        corpus_layout(CorpusKind::Holdout),
        CorpusLayout::Subdirectory { name: "holdout", log_file: "holdout.log" }
    ));
    assert!(matches!(
        corpus_layout(CorpusKind::Adversarial),
        CorpusLayout::Subdirectory { name: "adversarial", log_file: "adversarial.log" }
    ));
    assert!(!reads_ground_truth(CorpusKind::Core, false));
    assert!(reads_ground_truth(CorpusKind::Core, true));
    assert!(reads_ground_truth(CorpusKind::Holdout, false));
}

#[test]
fn log_file_names() {
    for name in ["a.log", "a.json", "a.b.log", "..log", "a.log.json"] {
        assert!(has_log_name(&name.as_bytes().to_vec()), "{}", name);
    }
    for name in ["", "log", ".log", ".json", "a.LOG", "a.jsonl", "gt.jsonl", "a.csv", "a.", "a.log "] {
        assert!(!has_log_name(&name.as_bytes().to_vec()), "{}", name);
    }
}

#[test]
fn log_files_are_read_in_the_order_of_their_names() {
    let order_of = |names: &[&str]| -> Vec<String> {
        let bytes: Vec<Vec<u8>> = names.iter().map(|n| n.as_bytes().to_vec()).collect();
        select_log_files(&bytes).iter().map(|i| names[*i].to_string()).collect()
    };
    let want = strings(&["B.log", "a.json", "a.log", "ab.log", "b.log"]);
    assert_eq!(order_of(&["b.log", "ab.log", "x.csv", "a.log", "a.json", "B.log"]), want);
    assert_eq!(order_of(&["a.json", "B.log", "b.log", "a.log", "gt.jsonl", "ab.log"]), want);
    assert!(order_of(&["x", "y.txt"]).is_empty());
}

#[test]
fn workers_publish_what_they_count() {
    let mut tally = WorkerTally::new(7, 3);
    let mut published = 0;
    for n in 0..2500usize {
        assert_eq!(tally.position(), (7 + n) % 3);
        published += tally.advance();
    }
    assert_eq!(published, 2048);
    assert_eq!(published + tally.finish(), 2500);
    assert_eq!(benchmark_files().len(), 5);
    assert_eq!(benchmark_files()[3], "suricata.json");
}

#[test]
fn audits_succeed_on_valid_blocks_only() {
    assert_eq!(missing_input(false, false), Some(AuditOutcome::MissingBlock));
    assert_eq!(missing_input(true, false), Some(AuditOutcome::MissingLedger));
    assert_eq!(missing_input(true, true), None);
    assert_eq!(exit_code(AuditOutcome::MissingBlock), 1);
    assert_eq!(exit_code(AuditOutcome::MissingLedger), 1);
    assert_eq!(exit_code(AuditOutcome::Corrupted), 2);
    assert_eq!(exit_code(AuditOutcome::Compared { valid: false }), 2);
    assert_eq!(exit_code(AuditOutcome::Compared { valid: true }), 0);
}

#[test]
fn comparing_benchmark_and_dump() {
    let plan = EvaluationPlan::comparison(5, 16);
    assert_eq!(plan.engine, "all");
    assert_eq!(plan.corpus, CorpusKind::Core);
    assert_eq!((plan.duration, plan.threads, plan.samples), (5, 16, 10000));
    assert_eq!(plan.out, "eval_hardcore_report.md");
    assert!(plan.json_out.is_none() && plan.audit_dump.is_none());
    assert_eq!(dump_text(&strings(&["{}", "x"])), "{}\nx\n");
    assert_eq!(dump_text(&vec![]), "");
    assert_eq!(dump_of(&strings(&["b1", "b2"]), &strings(&["t"])), "b1\nb2\nt\n");
    assert_eq!(dump_of(&vec![], &strings(&["t"])), "t\n");
}

#[test]
fn files_are_joined_in_order() {
    let files = vec![strings(&["a", "b"]), vec![], strings(&["c"])];
    assert_eq!(joined_files(&files), strings(&["a", "b", "c"]));
    assert_eq!(joined_files(&vec![]), strings(&[]));
}

#[test]
fn tampering_replaces_the_first_address() {
    assert_eq!(
        tamper_line("from 10.0.0.1 to 10.0.0.2", "9.9.9.9"),
        "from 9.9.9.9 to 10.0.0.2"
    );
    assert_eq!(
        tamper_line("no address", "9.9.9.9"),
        "no address [SPOOFED_IP:9.9.9.9]"
    );
    assert_eq!(tamper_line("x 1.2.3.4", "$0$0"), "x 1.2.3.41.2.3.4");
    assert_eq!(altered_line("a", Some("b".to_string()), "c"), "b");
    assert_eq!(altered_line("a", None, "c"), "a [SPOOFED_IP:c]");
    assert_eq!(snippet("short"), "short");
    assert_eq!(snippet(&"x".repeat(100)), "x".repeat(90));
    assert_eq!(snippet(&format!("{}\u{e9}yz", "x".repeat(89))), "x".repeat(89));
    assert_eq!(snippet(&format!("{}\u{e9}yz", "x".repeat(88))), format!("{}\u{e9}", "x".repeat(88)));
    assert_eq!(snippet(&"\u{1f525}".repeat(30)), "\u{1f525}".repeat(22));
}

#[test]
fn previews() {
    assert_eq!(preview(&"x".repeat(95)), "x".repeat(95));
    assert_eq!(preview(&"x".repeat(96)), format!("{}...", "x".repeat(95)));
    let line = format!("{}\u{e9}", "x".repeat(93));
    assert_eq!(preview(&line), line);
    let longer = format!("{}\u{e9}y", "x".repeat(93));
    assert_eq!(preview(&longer), format!("{}\u{e9}...", "x".repeat(93)));
    let across = format!("{}\u{e9}y", "x".repeat(94));
    assert_eq!(preview(&across), format!("{}...", "x".repeat(94)));
    assert_eq!(preview(&"\u{1f525}".repeat(24)), format!("{}...", "\u{1f525}".repeat(23)));
}

#[test]
fn summaries_of_archived_events() {
    let s = event_summary(
        "{\"activity_id\": 1, \"activity_name\": \"Open\", \"disposition\": \"Allowed\", \
         \"src_endpoint\": {\"ip\": \"1.2.3.4\", \"port\": 80}, \"dst_endpoint\": {}, \
         \"connection_info\": {\"protocol_name\": \"TCP\", \"protocol_num\": 6}}",
    )
    .unwrap();
    assert_eq!(s.activity_id, "1");
    assert_eq!(s.activity_name, "Open");
    assert_eq!(s.disposition, "Allowed");
    assert_eq!(s.source, Some(("1.2.3.4".to_string(), "80".to_string())));
    assert_eq!(s.destination, Some(("N/A".to_string(), "null".to_string())));
    assert_eq!(s.protocol, Some(("TCP".to_string(), "6".to_string())));

    let s = event_summary("{\"activity_name\": 5}").unwrap();
    assert_eq!(s.activity_id, "null");
    assert_eq!(s.activity_name, "");
    assert_eq!(s.source, None);
    assert_eq!(s.protocol, None);

    assert!(event_summary("{").is_none());
    assert!(event_summary("[]").is_some());
}
