//! The decisions of the ingestion loop.
//!
//! The loop waits for a tick or for the shutdown signal. A tick takes one batch
//! off the queue and processes it. The signal ends the waiting: from then on the
//! queue is drained until it is found empty after the grace period, the partial
//! batch is flushed, and the loop ends.
use vstd::prelude::*;
use vstd::utf8::encode_utf8;
use crate::lines::{log_lines_are_trimmed, log_lines_of, pieces};
use crate::text::{read_utf8, text_of};

verus! {

/// How long a drain waits for lines still in flight, in milliseconds.
pub const GRACE_MS: u64 = 500;

/// How long a drain pauses when it finds the queue empty, in milliseconds.
pub const DRAIN_PAUSE_MS: u64 = 10;

/// How long a running loop waits between two batches, in milliseconds.
pub const TICK_MS: u64 = 1;

/// What the loop does next.
#[derive(Debug, Clone, Copy, PartialEq, Eq, Structural)]
pub enum IngestStep {
    /// Wait for a tick or for the shutdown signal.
    Wait,
    /// Take a batch off the queue.
    Pop { draining: bool },
    /// Process the batch that was taken.
    Process { draining: bool },
    /// Give lines in flight time to reach the queue.
    Pause,
    /// Flush the partial batch.
    Flush,
    /// The loop is over.
    Finished,
}

/// What came of a step.
#[derive(Debug, Clone, Copy, PartialEq, Eq, Structural)]
pub enum IngestEvent {
    /// The waiting time passed.
    Tick,
    /// The shutdown signal came.
    Shutdown,
    /// A batch was taken: whether it was empty, and whether the grace period
    /// was over by then.
    Popped { empty: bool, grace_over: bool },
    /// What was to be done is done.
    Done,
}

/// The step that follows `step` once `event` came of it. An event that the step
/// does not wait for changes nothing.
pub open spec fn next_of(step: IngestStep, event: IngestEvent) -> IngestStep {
    match (step, event) {
        (IngestStep::Wait, IngestEvent::Tick) => IngestStep::Pop { draining: false },
        (IngestStep::Wait, IngestEvent::Shutdown) => IngestStep::Pop { draining: true },
        (
            IngestStep::Pop { draining },
            IngestEvent::Popped { empty, grace_over },
        ) => if !empty {
            IngestStep::Process { draining }
        } else if !draining {
            IngestStep::Wait
        } else if grace_over {
            IngestStep::Flush
        } else {
            IngestStep::Pause
        },
        (IngestStep::Process { draining: false }, IngestEvent::Done) => IngestStep::Wait,
        (IngestStep::Process { draining: true }, IngestEvent::Done) => IngestStep::Pop {
            draining: true,
        },
        (IngestStep::Pause, IngestEvent::Done) => IngestStep::Pop { draining: true },
        (IngestStep::Flush, IngestEvent::Done) => IngestStep::Finished,
        _ => step,
    }
}

/// The step that follows `step` once `event` came of it.
pub fn next_step(step: IngestStep, event: IngestEvent) -> (r: IngestStep)
    ensures
        r == next_of(step, event),
{
    match step {
        IngestStep::Wait => match event {
            IngestEvent::Tick => IngestStep::Pop { draining: false },
            IngestEvent::Shutdown => IngestStep::Pop { draining: true },
            _ => step,
        },
        IngestStep::Pop { draining } => match event {
            IngestEvent::Popped { empty, grace_over } => {
                if !empty {
                    IngestStep::Process { draining }
                } else if !draining {
                    IngestStep::Wait
                } else if grace_over {
                    IngestStep::Flush
                } else {
                    IngestStep::Pause
                }
            },
            _ => step,
        },
        IngestStep::Process { draining } => match event {
            IngestEvent::Done => if draining {
                IngestStep::Pop { draining: true }
            } else {
                IngestStep::Wait
            },
            _ => step,
        },
        IngestStep::Pause => match event {
            IngestEvent::Done => IngestStep::Pop { draining: true },
            _ => step,
        },
        IngestStep::Flush => match event {
            IngestEvent::Done => IngestStep::Finished,
            _ => step,
        },
        IngestStep::Finished => step,
    }
}

/// The steps that the events lead through, the first being `start`.
pub open spec fn trace(start: IngestStep, events: Seq<IngestEvent>) -> Seq<IngestStep>
    decreases events.len(),
{
    if events.len() == 0 {
        seq![start]
    } else {
        let before = trace(start, events.drop_last());
        before.push(next_of(before.last(), events.last()))
    }
}

/// Whether the step belongs to the time after the shutdown signal.
pub open spec fn after_shutdown(step: IngestStep) -> bool {
    match step {
        IngestStep::Wait => false,
        IngestStep::Pop { draining } => draining,
        IngestStep::Process { draining } => draining,
        _ => true,
    }
}

/// A batch that holds anything is processed next, running or draining.
pub proof fn no_batch_is_skipped(draining: bool, grace_over: bool)
    ensures
        next_of(
            IngestStep::Pop { draining },
            IngestEvent::Popped { empty: false, grace_over },
        ) == (IngestStep::Process { draining }),
{
}

/// Once the shutdown signal was seen, the loop never waits for another one.
pub proof fn shutdown_is_final(step: IngestStep, event: IngestEvent)
    requires
        after_shutdown(step),
    ensures
        after_shutdown(next_of(step, event)),
{
}

/// A run flushes the partial batch only once the drain has found the queue
/// empty after the grace period.
pub proof fn flush_follows_an_empty_drain(step: IngestStep, event: IngestEvent)
    requires
        step != IngestStep::Flush,
        next_of(step, event) == IngestStep::Flush,
    ensures
        step == (IngestStep::Pop { draining: true }),
        event == (IngestEvent::Popped { empty: true, grace_over: true }),
{
}

/// A run that is over has seen the shutdown signal and has flushed the partial
/// batch.
pub proof fn finished_run_was_shut_down_and_flushed(events: Seq<IngestEvent>)
    requires
        trace(IngestStep::Wait, events).last() == IngestStep::Finished,
    ensures
        events.contains(IngestEvent::Shutdown),
        trace(IngestStep::Wait, events).contains(IngestStep::Flush),
{
    lemma_reached(events);
}

proof fn lemma_reached(events: Seq<IngestEvent>)
    ensures
        trace(IngestStep::Wait, events).len() == events.len() + 1,
        after_shutdown(trace(IngestStep::Wait, events).last()) ==> events.contains(
            IngestEvent::Shutdown,
        ),
        trace(IngestStep::Wait, events).last() == IngestStep::Finished ==> trace(
            IngestStep::Wait,
            events,
        ).contains(IngestStep::Flush),
    decreases events.len(),
{
    if events.len() > 0 {
        let prev = events.drop_last();
        lemma_reached(prev);
        let before = trace(IngestStep::Wait, prev);
        let steps = trace(IngestStep::Wait, events);
        if after_shutdown(steps.last()) {
            if after_shutdown(before.last()) {
                let k = choose|k: int| 0 <= k < prev.len() && prev[k] == IngestEvent::Shutdown;
                assert(events[k] == IngestEvent::Shutdown);
            } else {
                assert(events[events.len() - 1] == IngestEvent::Shutdown);
            }
        }
        if steps.last() == IngestStep::Finished {
            if before.last() == IngestStep::Finished {
                let k = choose|k: int| 0 <= k < before.len() && before[k] == IngestStep::Flush;
                assert(steps[k] == IngestStep::Flush);
            } else {
                assert(steps[before.len() - 1] == IngestStep::Flush);
            }
        }
    }
}

/// What a full queue does with another line.
#[derive(Debug, Clone, Copy, PartialEq, Eq, Structural)]
pub enum BackpressurePolicy {
    /// The sender waits: no line is ever lost.
    Block,
    /// The line is dropped.
    Drop,
}

impl BackpressurePolicy {
    /// Lines are dropped only on request.
    pub open spec fn chosen(drop_on_full: bool) -> Self {
        if drop_on_full {
            BackpressurePolicy::Drop
        } else {
            BackpressurePolicy::Block
        }
    }

    /// Lines are dropped only on request.
    pub fn choose_policy(drop_on_full: bool) -> (r: Self)
        ensures
            r == Self::chosen(drop_on_full),
            r == BackpressurePolicy::Drop <==> drop_on_full,
            r == BackpressurePolicy::Block <==> !drop_on_full,
    {
        if drop_on_full {
            BackpressurePolicy::Drop
        } else {
            BackpressurePolicy::Block
        }
    }

    /// The policy in words.
    pub open spec fn label_of(self) -> Seq<char> {
        match self {
            BackpressurePolicy::Drop => "drop-on-full"@,
            BackpressurePolicy::Block => "block-on-full"@,
        }
    }

    /// The policy in words.
    pub fn label(self) -> (r: &'static str)
        ensures
            r@ == self.label_of(),
    {
        match self {
            BackpressurePolicy::Drop => "drop-on-full",
            BackpressurePolicy::Block => "block-on-full",
        }
    }
}

/// How grave an anomaly is.
#[derive(Debug, Clone, Copy, PartialEq, Eq, Structural)]
pub enum AlertLevel {
    Routine,
    High,
    Critical,
}

/// What the loop has done so far. The counters wrap around.
#[derive(Debug, Clone, Copy, PartialEq, Eq, Structural)]
pub struct IngestCounters {
    pub parsed: u64,
    pub blocks: u64,
    pub anomalies: u64,
}

/// One more, after the largest number zero.
pub open spec fn one_more(n: u64) -> u64 {
    if n == u64::MAX {
        0
    } else {
        (n + 1) as u64
    }
}

/// The counters after one more line: whether it was anomalous, and whether it
/// filled a block.
pub open spec fn counted(c: IngestCounters, anomaly: Option<AlertLevel>, block: bool) -> IngestCounters {
    IngestCounters {
        parsed: one_more(c.parsed),
        blocks: if block {
            one_more(c.blocks)
        } else {
            c.blocks
        },
        anomalies: if anomaly is Some {
            one_more(c.anomalies)
        } else {
            c.anomalies
        },
    }
}

/// Whether an anomaly calls for a security alert: a high or a critical one does.
pub open spec fn calls_for_alert(anomaly: Option<AlertLevel>) -> bool {
    anomaly == Some(AlertLevel::High) || anomaly == Some(AlertLevel::Critical)
}

/// The counters after the last flush: whether it left a block.
pub open spec fn flushed(c: IngestCounters, block: bool) -> IngestCounters {
    IngestCounters {
        blocks: if block {
            one_more(c.blocks)
        } else {
            c.blocks
        },
        ..c
    }
}

impl IngestCounters {
    pub fn new() -> (r: Self)
        ensures
            r == (IngestCounters { parsed: 0, blocks: 0, anomalies: 0 }),
    {
        IngestCounters { parsed: 0, blocks: 0, anomalies: 0 }
    }

    /// Counts one processed line, and says whether its anomaly calls for a
    /// security alert.
    pub fn count_line(&mut self, anomaly: Option<AlertLevel>, block: bool) -> (alert: bool)
        ensures
            *final(self) == counted(*old(self), anomaly, block),
            alert == calls_for_alert(anomaly),
    {
        self.parsed = self.parsed.wrapping_add(1);
        if block {
            self.blocks = self.blocks.wrapping_add(1);
        }
        match anomaly {
            Some(level) => {
                self.anomalies = self.anomalies.wrapping_add(1);
                match level {
                    AlertLevel::High => true,
                    AlertLevel::Critical => true,
                    AlertLevel::Routine => false,
                }
            },
            None => false,
        }
    }

    /// Counts the block that the last flush left, where it left one.
    pub fn count_flush(&mut self, block: bool)
        ensures
            *final(self) == flushed(*old(self), block),
    {
        if block {
            self.blocks = self.blocks.wrapping_add(1);
        }
    }
}

/// The log line in a queued message: none where it is no text, or empty.
pub open spec fn queued_line_of(bytes: Seq<u8>) -> Option<Seq<char>> {
    match text_of(bytes) {
        Some(t) => if t.len() > 0 {
            Some(t)
        } else {
            None
        },
        None => None,
    }
}

/// The log line in a queued message: none where it is no text, or empty.
pub fn queued_line(bytes: &[u8]) -> (r: Option<String>)
    ensures
        match r {
            Some(s) => queued_line_of(bytes@) == Some(s@),
            None => queued_line_of(bytes@) is None,
        },
{
    match read_utf8(bytes) {
        Some(t) => if t.is_empty() {
            None
        } else {
            Some(t.to_owned())
        },
        None => None,
    }
}

/// The queue loses nothing: a log line that is queued as UTF-8 comes out of the
/// queue as it went in.
pub proof fn queued_lines_come_back(text: Seq<char>, i: int)
    requires
        0 <= i < log_lines_of(text).len(),
    ensures
        queued_line_of(encode_utf8(log_lines_of(text)[i])) == Some(log_lines_of(text)[i]),
{
    let line = log_lines_of(text)[i];
    log_lines_are_trimmed(pieces(text), i);
    vstd::utf8::encode_utf8_valid_utf8(line);
    vstd::utf8::encode_utf8_decode_utf8(line);
}

}
