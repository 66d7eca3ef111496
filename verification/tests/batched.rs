use limpid_output::batched::{
    finish_shutdown_flush, prepare_failed, refused_reason, render_batch, resolve_send_success,
    BatchFlush, BatchedSink, FlushAction, FlushEvent, FlusherStep, RenderedEvent, ShutdownSend,
};
use limpid_output::flush_run::{FlushRun, RunEvent, RunStep, Settled};
use limpid_output::metrics::OutputMetrics;
use limpid_output::otlp::buffer::SendOutcome;
use limpid_output::retry::{BackoffStrategy, RetryConfig};

const RETRY: RetryConfig = RetryConfig {
    max_attempts: 3,
    initial_wait: 10,
    max_wait: 15,
    backoff: BackoffStrategy::Exponential,
};

#[test]
fn consume_event_buffers_below_batch_size() {
    let mut sink: BatchedSink<u8> = BatchedSink::new(2);
    assert!(!sink.consume(1));
    assert_eq!(sink.len(), 1);
    assert!(sink.consume(2));
    let FlusherStep::Flush(batch) = sink.flusher_woke() else { panic!("nothing to flush") };
    assert_eq!(batch, vec![1, 2]);
    assert!(matches!(sink.flusher_woke(), FlusherStep::Sleep));
}

#[test]
fn grpc_shutdown_flushes_pending_batch_buffer() {
    let mut sink: BatchedSink<u8> = BatchedSink::new(100);
    sink.consume(1);
    sink.begin_shutdown();
    assert!(matches!(sink.flusher_woke(), FlusherStep::End));
    sink.consume_shutdown(2);
    assert_eq!(sink.take(), vec![1, 2]);
    assert_eq!(sink.len(), 0);
}

#[test]
fn events_that_cannot_be_rendered_leave_the_batch() {
    let mut metrics = OutputMetrics::new();
    let batch = vec![
        RenderedEvent { event: 'a', rendered: Ok(vec![1]) },
        RenderedEvent { event: 'b', rendered: Err("bad".to_string()) },
        RenderedEvent { event: 'c', rendered: Ok(vec![3]) },
    ];
    let r = render_batch(batch, "batch flush", &mut metrics);
    assert_eq!(r.shippable, vec!['a', 'c']);
    assert_eq!(r.payloads, vec![vec![1], vec![3]]);
    assert_eq!(r.failures, vec![('b', "render failed during batch flush: bad".to_string())]);
    assert_eq!(metrics.events_failed, 1);
}

#[test]
fn the_last_events_are_taken_for_the_refused_ones() {
    let mut metrics = OutputMetrics::new();
    let (delivered, refused) =
        resolve_send_success(vec![1, 2, 3], SendOutcome { rejected: 2 }, &mut metrics);
    assert_eq!(delivered, vec![1]);
    assert_eq!(refused, vec![2, 3]);
    assert_eq!(metrics.events_written, 1);
    assert_eq!(metrics.events_failed, 2);
    assert_eq!(refused_reason(), "collector reported partial_success rejection");
    let (delivered, refused) =
        resolve_send_success(vec![1], SendOutcome { rejected: 9 }, &mut metrics);
    assert!(delivered.is_empty());
    assert_eq!(refused, vec![1]);
}

fn failed(error: &str, stopping: bool) -> FlushEvent {
    FlushEvent::SendFailed { error: error.to_string(), stopping }
}

#[test]
fn flush_failure_routes_batch_to_dlq_and_resolves_recovered() {
    let mut metrics = OutputMetrics::new();
    let mut flush = BatchFlush::new(RETRY, 4);
    let first = flush.step(failed("down", false), &mut metrics);
    assert!(matches!(first, FlushAction::Wait { nanos: 10 }));
    assert!(matches!(flush.step(FlushEvent::WaitOver, &mut metrics), FlushAction::Send));
    let second = flush.step(failed("down", false), &mut metrics);
    assert!(matches!(second, FlushAction::Wait { nanos: 15 }));
    flush.step(FlushEvent::WaitOver, &mut metrics);
    let end = flush.step(failed("down", false), &mut metrics);
    let FlushAction::DeadLetter { reason } = end else { panic!("not dead-lettered") };
    assert_eq!(reason, "flush failed after 3 attempts: down");
    assert_eq!(metrics.events_failed, 4);
    assert_eq!(metrics.retries, 3);
}

#[test]
fn a_shutdown_ends_a_flush_early() {
    let mut metrics = OutputMetrics::new();
    let mut flush = BatchFlush::new(RETRY, 1);
    let end = flush.step(failed("down", true), &mut metrics);
    assert!(matches!(
        end,
        FlushAction::DeadLetter { reason } if reason == "flush failed after 1 attempts: down"
    ));
    let mut flush = BatchFlush::new(RETRY, 1);
    let end = flush.step(FlushEvent::SendCancelled, &mut metrics);
    let FlushAction::DeadLetter { reason } = end else { panic!("not dead-lettered") };
    assert_eq!(
        reason,
        "flush failed after 0 attempts: shutdown cancelled in-flight send (collapsed retry budget)"
    );
    assert_eq!(metrics.retries, 1);
}

#[test]
fn a_batch_that_is_taken_is_resolved_by_the_answer() {
    let mut metrics = OutputMetrics::new();
    let mut flush = BatchFlush::new(RETRY, 2);
    let end = flush
        .step(FlushEvent::Sent { outcome: SendOutcome { rejected: 1 } }, &mut metrics);
    assert!(matches!(end, FlushAction::Resolve { outcome: SendOutcome { rejected: 1 } }));
    assert_eq!(metrics, OutputMetrics::new());
}

#[test]
fn a_batch_that_cannot_be_prepared_is_not_tried() {
    let mut metrics = OutputMetrics::new();
    let end = prepare_failed(3, "bad payload", &mut metrics);
    let FlushAction::DeadLetter { reason } = end else { panic!("not dead-lettered") };
    assert_eq!(reason, "flush failed: bad payload");
    assert_eq!(metrics.events_failed, 3);
    assert_eq!(metrics.retries, 0);
}

#[test]
fn grpc_shutdown_failure_with_error_log_persists_buffer() {
    let mut metrics = OutputMetrics::new();
    let reason_of = |result: ShutdownSend, metrics: &mut OutputMetrics| {
        match finish_shutdown_flush(2, result, metrics) {
            FlushAction::DeadLetter { reason } => reason,
            other => panic!("{other:?}"),
        }
    };
    let failed = ShutdownSend::Failed { error: "down".to_string() };
    assert_eq!(reason_of(failed, &mut metrics), "transport error: down");
    let late = ShutdownSend::TimedOut { limit: "5s".to_string() };
    assert_eq!(
        reason_of(late, &mut metrics),
        "deadline exceeded after 5s during shutdown flush"
    );
    let bad = ShutdownSend::PrepareFailed { error: "bad".to_string() };
    assert_eq!(reason_of(bad, &mut metrics), "transport error: bad");
    assert_eq!(metrics.events_failed, 6);
}

#[test]
fn grpc_shutdown_success_does_not_touch_error_log() {
    let mut metrics = OutputMetrics::new();
    let sent = ShutdownSend::Sent { outcome: SendOutcome { rejected: 0 } };
    let end = finish_shutdown_flush(2, sent, &mut metrics);
    assert!(matches!(end, FlushAction::Resolve { .. }));
    assert_eq!(metrics.events_failed, 0);
}

// From the batch to its dispositions.

fn three() -> Vec<RenderedEvent<char>> {
    vec![
        RenderedEvent { event: 'a', rendered: Ok(vec![1]) },
        RenderedEvent { event: 'b', rendered: Err("bad".to_string()) },
        RenderedEvent { event: 'c', rendered: Ok(vec![3]) },
    ]
}

/// Runs a batch of which one event cannot be rendered, up to its end.
fn ends_with(last: bool, events: Vec<RunEvent>, metrics: &mut OutputMetrics) -> Settled<char> {
    let (mut run, failed, mut step) = FlushRun::new(three(), "site", last, RETRY, metrics);
    assert_eq!(failed, vec![('b', "render failed during site: bad".to_string())]);
    assert!(matches!(&step, RunStep::Prepare { payloads } if payloads == &[vec![1], vec![3]]));
    for event in events {
        assert!(!matches!(step, RunStep::Done { .. }));
        step = run.step(event, metrics);
    }
    match step {
        RunStep::Done { settled } => settled,
        other => panic!("{other:?}"),
    }
}

fn dead(reason: &str) -> Vec<(char, String)> {
    vec![('a', reason.to_string()), ('c', reason.to_string())]
}

#[test]
fn every_event_of_a_sent_batch_is_settled() {
    let mut metrics = OutputMetrics::new();
    let sent = RunEvent::Sent { outcome: SendOutcome { rejected: 1 } };
    let settled = ends_with(false, vec![RunEvent::Prepared, sent], &mut metrics);
    assert_eq!(settled.delivered, vec!['a']);
    let refused = "collector reported partial_success rejection".to_string();
    assert_eq!(settled.dead, vec![('c', refused)]);
    assert_eq!((metrics.events_written, metrics.events_failed), (1, 2));
}

#[test]
fn every_event_of_a_failed_batch_is_settled() {
    let mut metrics = OutputMetrics::new();
    let fail = |error: &str| RunEvent::SendFailed { error: error.to_string(), stopping: false };
    let mut events = vec![RunEvent::Prepared];
    for _ in 1..RETRY.max_attempts {
        events.push(fail("down"));
        events.push(RunEvent::WaitOver);
    }
    events.push(fail("gone"));
    let settled = ends_with(false, events, &mut metrics);
    assert!(settled.delivered.is_empty());
    let reason = format!("flush failed after {} attempts: gone", RETRY.max_attempts);
    assert_eq!(settled.dead, dead(&reason));
    assert_eq!((metrics.events_written, metrics.events_failed), (0, 3));
    assert_eq!(metrics.retries, u64::from(RETRY.max_attempts));
}

#[test]
fn a_run_can_end_before_the_batch_is_sent() {
    let mut metrics = OutputMetrics::new();
    let bad = || RunEvent::PrepareFailed { error: "bad".to_string() };
    let settled = ends_with(false, vec![bad()], &mut metrics);
    assert_eq!(settled.dead, dead("flush failed: bad"));
    let settled = ends_with(true, vec![bad()], &mut metrics);
    assert_eq!(settled.dead, dead("transport error: bad"));
    let settled =
        ends_with(false, vec![RunEvent::Prepared, RunEvent::SendCancelled], &mut metrics);
    let cancelled = "shutdown cancelled in-flight send (collapsed retry budget)";
    assert_eq!(settled.dead, dead(&format!("flush failed after 0 attempts: {cancelled}")));
    assert_eq!(metrics.events_failed, 9);
}

#[test]
fn the_last_run_has_one_attempt() {
    let mut metrics = OutputMetrics::new();
    let fail = RunEvent::SendFailed { error: "down".to_string(), stopping: false };
    let settled = ends_with(true, vec![RunEvent::Prepared, fail], &mut metrics);
    assert_eq!(settled.dead, dead("transport error: down"));
    let late = RunEvent::TimedOut { limit: "5s".to_string() };
    let settled = ends_with(true, vec![RunEvent::Prepared, late], &mut metrics);
    assert_eq!(settled.dead, dead("deadline exceeded after 5s during shutdown flush"));
    let sent = RunEvent::Sent { outcome: SendOutcome { rejected: 0 } };
    let settled = ends_with(true, vec![RunEvent::Prepared, sent], &mut metrics);
    assert_eq!(settled.delivered, vec!['a', 'c']);
    assert_eq!((metrics.events_written, metrics.events_failed), (2, 7));
    assert_eq!(metrics.retries, 0);
}

#[test]
fn a_batch_without_a_payload_is_over_at_once() {
    let mut metrics = OutputMetrics::new();
    let batch = vec![RenderedEvent { event: 'x', rendered: Err("bad".to_string()) }];
    let (_, failed, step) = FlushRun::new(batch, "site", false, RETRY, &mut metrics);
    assert_eq!(failed.len(), 1);
    assert!(matches!(
        step,
        RunStep::Done { settled } if settled.delivered.is_empty() && settled.dead.is_empty()
    ));
    assert_eq!(metrics.events_failed, 1);
}
