use limpid_output::delivery::{
    finish_shutdown, Delivery, DeliveryAction, DeliveryEvent, DeliveryKind, ShutdownWrite,
};
use limpid_output::metrics::OutputMetrics;
use limpid_output::props::{Expr, Property};
use limpid_output::retry::{BackoffStrategy, RetryConfig};
use limpid_output::stdout::{
    count_frame, plan_flags, FlagPlan, FrameAction, FrameEvent, FrameWrite, StdoutOutput,
    StdoutWriteError, WriteFault,
};
use limpid_output::stdout_windows::{
    interrupted, ChunkAction, ChunkEvent, ChunkedWrite, Submission, SubmitAction, SubmitEvent,
    WriteError,
};

fn retry(max_attempts: u32, millis: u64) -> RetryConfig {
    RetryConfig {
        max_attempts,
        initial_wait: millis * 1_000_000,
        max_wait: millis * 1_000_000,
        backoff: BackoffStrategy::Fixed,
    }
}

fn output() -> StdoutOutput {
    StdoutOutput::from_properties("out", &[], retry(2, 50)).unwrap()
}

/// Feeds a frame to a standard output that takes the given numbers of bytes.
fn feed(len: usize, takes: &[usize]) -> (FrameWrite, FrameAction) {
    let (mut write, first) = FrameWrite::new(len, false, false);
    assert!(matches!(first, FrameAction::AwaitTurn));
    let mut action = write.step(FrameEvent::Turn { regular: false, stopping: false });
    for &count in takes {
        assert!(matches!(action, FrameAction::AwaitReadiness));
        assert!(matches!(write.step(FrameEvent::Ready), FrameAction::Write { .. }));
        action = write.step(FrameEvent::Wrote { count, stopping: false });
    }
    (write, action)
}

fn failure(action: FrameAction) -> StdoutWriteError {
    match action {
        FrameAction::Fail { error } => error,
        other => panic!("{other:?}"),
    }
}

#[test]
fn full_stdout_pipe_is_shutdown_interruptible_and_resolves_current_ack() {
    let mut metrics = OutputMetrics::new();
    let (mut write, action) = feed(8, &[]);
    assert!(matches!(action, FrameAction::AwaitReadiness));
    let error = failure(write.step(FrameEvent::SignalChanged { terminal: true }));
    assert_eq!(error.written, 0);
    assert_eq!(error.message(), "stdout write failed: stdout shutdown requested");
    let mut delivery = Delivery::new(DeliveryKind::Stdout, "stdout-full-pipe", retry(1, 1));
    let action = delivery.step(
        DeliveryEvent::Failed { error: error.message(), written: error.written, stopping: true },
        &mut metrics,
    );
    assert!(matches!(action, DeliveryAction::DeadLetter { .. }));
    assert_eq!(metrics.events_written, 0);
}

#[test]
fn partial_stdout_write_then_shutdown_never_retries_confirmed_prefix() {
    let mut metrics = OutputMetrics::new();
    let (mut write, action) = feed(2_097_153, &[65_536]);
    assert!(matches!(action, FrameAction::AwaitReadiness));
    let error = failure(write.step(FrameEvent::SignalChanged { terminal: true }));
    assert_eq!(error.written, 65_536);
    assert_eq!(
        error.message(),
        "stdout write failed after 65536 confirmed byte(s): stdout shutdown requested"
    );
    // Even with attempts left the frame is not begun again.
    let mut delivery = Delivery::new(DeliveryKind::Stdout, "stdout-partial", retry(9, 1));
    let action = delivery.step(
        DeliveryEvent::Failed { error: "e".to_string(), written: error.written, stopping: false },
        &mut metrics,
    );
    assert!(matches!(
        action,
        DeliveryAction::DeadLetter { reason } if reason == "output write stopped after 1 attempt(s): e"
    ));
    assert_eq!(metrics.retries, 1);
    assert_eq!(metrics.bytes_written, 0);
}

#[test]
fn broken_pipe_uses_retry_then_existing_dlq_ack_semantics() {
    let mut metrics = OutputMetrics::new();
    let mut delivery = Delivery::new(DeliveryKind::Stdout, "stdout-epipe", retry(2, 25));
    for attempt in 0..2 {
        let (mut write, _) = feed(6, &[]);
        write.step(FrameEvent::Ready);
        let error = failure(write.step(FrameEvent::WriteFailed { error: "EPIPE".to_string() }));
        assert_eq!(error.message(), "stdout write failed: EPIPE");
        let action = delivery.step(
            DeliveryEvent::Failed { error: error.message(), written: 0, stopping: false },
            &mut metrics,
        );
        if attempt == 0 {
            assert!(matches!(action, DeliveryAction::Wait { nanos: 25_000_000 }));
            delivery.step(DeliveryEvent::WaitElapsed, &mut metrics);
        } else {
            assert!(matches!(action, DeliveryAction::DeadLetter { .. }));
        }
    }
    assert_eq!(metrics.retries, 2);
    assert_eq!(metrics.events_failed, 1);
}

#[test]
fn successful_write_counts_payload_and_adapter_newline_once() {
    let mut metrics = OutputMetrics::new();
    let frame = output().event_frame(b"stdout-payload");
    assert_eq!(frame, b"stdout-payload\n");
    let (_, action) = feed(frame.len(), &[10, 5]);
    assert!(matches!(action, FrameAction::Done));
    count_frame(&frame, &mut metrics);
    let mut delivery = Delivery::new(DeliveryKind::Stdout, "stdout-bytes", retry(1, 1));
    delivery.step(DeliveryEvent::Delivered, &mut metrics);
    assert_eq!(metrics.bytes_written, 15);
    assert_eq!(metrics.events_written, 1);
}

#[test]
fn writer_seam_counts_only_a_fully_confirmed_stdout_frame() {
    let mut metrics = OutputMetrics::new();
    let frame = output().event_frame(b"stdout-payload");
    count_frame(&frame, &mut metrics);
    assert_eq!(metrics.bytes_written, frame.len() as u64);
    assert_eq!(metrics.events_written, 0);
    let (mut write, _) = feed(frame.len(), &[]);
    write.step(FrameEvent::Ready);
    let failed = write.step(FrameEvent::WriteFailed { error: "test failure".to_string() });
    assert!(matches!(failed, FrameAction::Fail { .. }));
    assert_eq!(metrics.bytes_written, frame.len() as u64);
}

#[test]
fn scripted_retry_exposes_backoff_then_clears_on_success() {
    let mut metrics = OutputMetrics::new();
    let mut delivery = Delivery::new(DeliveryKind::Stdout, "stdout-retry", retry(2, 50));
    let wait = delivery.step(
        DeliveryEvent::Failed {
            error: "scripted first failure".to_string(),
            written: 0,
            stopping: false,
        },
        &mut metrics,
    );
    assert!(matches!(wait, DeliveryAction::Wait { nanos: 50_000_000 }));
    assert_eq!(metrics.in_retry, 1);
    let again = delivery.step(DeliveryEvent::WaitElapsed, &mut metrics);
    assert!(matches!(again, DeliveryAction::Attempt));
    let done = delivery.step(DeliveryEvent::Delivered, &mut metrics);
    assert!(matches!(done, DeliveryAction::Deliver));
    assert_eq!(metrics.in_retry, 0);
    assert_eq!(metrics.retries, 1);
    assert_eq!(metrics.events_written, 1);
}

#[test]
fn active_shutdown_clears_scripted_retry_state() {
    let mut metrics = OutputMetrics::new();
    let mut delivery = Delivery::new(DeliveryKind::Stdout, "stdout-shutdown", retry(3, 5_000));
    delivery.step(
        DeliveryEvent::Failed { error: "persistent".to_string(), written: 0, stopping: false },
        &mut metrics,
    );
    assert_eq!(metrics.in_retry, 1);
    let end = delivery.step(DeliveryEvent::ShutdownInWait, &mut metrics);
    let DeliveryAction::DeadLetter { reason } = end else { panic!("not dead-lettered") };
    assert_eq!(
        reason,
        "output write failed and shutdown observed mid-retry after 1 attempts: persistent"
    );
    assert_eq!(metrics.in_retry, 0);
}

#[test]
fn regular_files_are_written_without_regard_to_a_shutdown() {
    let (mut write, _) = FrameWrite::new(10, false, false);
    let first = write.step(FrameEvent::Turn { regular: true, stopping: true });
    assert!(matches!(first, FrameAction::Write { from: 0 }));
    let next = write.step(FrameEvent::Wrote { count: 4, stopping: true });
    assert!(matches!(next, FrameAction::Write { from: 4 }));
    let done = write.step(FrameEvent::Wrote { count: 6, stopping: true });
    assert!(matches!(done, FrameAction::Done));
}

#[test]
fn a_standard_output_that_takes_nothing_fails_the_write() {
    let (_, action) = feed(10, &[3, 0]);
    let error = failure(action);
    assert!(matches!(error.source, WriteFault::WroteNothing));
    assert_eq!(
        error.message(),
        "stdout write failed after 3 confirmed byte(s): stdout write returned zero"
    );
}

#[test]
fn a_shutdown_is_seen_before_the_turn_and_between_writes() {
    let (_, first) = FrameWrite::new(3, false, true);
    assert_eq!(failure(first).written, 0);
    let (mut write, _) = FrameWrite::new(3, false, false);
    let error = failure(write.step(FrameEvent::SignalChanged { terminal: false }));
    assert_eq!(error.message(), "stdout write failed: stdout shutdown signal changed");
    let (mut write, _) = feed(3, &[]);
    write.step(FrameEvent::Ready);
    let error = failure(write.step(FrameEvent::WouldBlock { stopping: true }));
    assert!(matches!(error.source, WriteFault::ShutdownRequested));
}

#[test]
fn a_draining_write_outlasts_a_shutdown() {
    let (mut write, first) = FrameWrite::new(2, true, true);
    assert!(matches!(first, FrameAction::AwaitTurn));
    write.step(FrameEvent::Turn { regular: false, stopping: true });
    write.step(FrameEvent::Ready);
    let next = write.step(FrameEvent::Wrote { count: 1, stopping: true });
    assert!(matches!(next, FrameAction::AwaitReadiness));
    write.step(FrameEvent::Ready);
    let done = write.step(FrameEvent::Wrote { count: 1, stopping: true });
    assert!(matches!(done, FrameAction::Done));
    let mut metrics = OutputMetrics::new();
    let failed = ShutdownWrite::Failed { error: "e".to_string() };
    let end = finish_shutdown(DeliveryKind::Stdout, failed, &mut metrics);
    let DeliveryAction::DeadLetter { reason } = end else { panic!("not dead-lettered") };
    assert_eq!(reason, "output shutdown write failed: e");
}

#[test]
fn blocking_is_switched_off_once() {
    assert_eq!(plan_flags(0o2, 0o4000), FlagPlan { set: Some(0o4002), restore: Some(0o2) });
    assert_eq!(plan_flags(0o4002, 0o4000), FlagPlan { set: None, restore: None });
}

#[test]
fn the_retry_block_is_all_that_is_read() {
    let props = [Property::Block {
        key: "retry".to_string(),
        properties: vec![Property::KeyValue {
            key: "max_attempts".to_string(),
            value: Expr::IntLit(7),
        }],
    }];
    let out = StdoutOutput::from_properties("o", &props, retry(2, 50)).unwrap();
    assert_eq!(out.retry.max_attempts, 7);
    assert_eq!(out.retry.initial_wait, 50_000_000);
}

// The standard output on Windows.

/// Feeds a frame to a writer that takes the given numbers of bytes.
fn feed_chunks(len: usize, takes: &[usize]) -> (ChunkedWrite, ChunkAction, Vec<(usize, usize)>) {
    let (mut write, mut action) = ChunkedWrite::new(len, false);
    let mut parts = Vec::new();
    for &count in takes {
        if let ChunkAction::Write { from, to } = action {
            parts.push((from, to));
        }
        action = write.step(ChunkEvent::Wrote { count, cancelled: false });
    }
    (write, action, parts)
}

fn chunk_failure(action: ChunkAction) -> WriteError {
    match action {
        ChunkAction::Fail { error } => error,
        other => panic!("{other:?}"),
    }
}

#[test]
fn broken_pipe_reports_zero_confirmed_bytes() {
    let (mut write, first) = ChunkedWrite::new(6, false);
    assert!(matches!(first, ChunkAction::Write { from: 0, to: 6 }));
    let failed =
        write.step(ChunkEvent::Failed { error: "broken pipe".to_string(), aborted: false });
    let error = chunk_failure(failed);
    assert!(matches!(&error.source, WriteFault::System { error } if error == "broken pipe"));
    assert_eq!(error.written, 0);
    assert_eq!(error.message(), "stdout write failed after 0 confirmed byte(s): broken pipe");
}

#[test]
fn shutdown_cancels_a_blocked_pipe_and_reports_confirmed_prefix() {
    let (mut write, action, parts) = feed_chunks(1024 * 1024, &[4096]);
    assert_eq!(parts, vec![(0, 4096)]);
    assert!(matches!(action, ChunkAction::Write { from: 4096, to: 8192 }));
    let failed = write.step(ChunkEvent::Failed { error: "aborted".to_string(), aborted: true });
    let error = chunk_failure(failed);
    assert!(matches!(error.source, WriteFault::ShutdownRequested));
    assert_eq!(error.written, 4096);
}

#[test]
fn preexisting_shutdown_writes_nothing() {
    let (_, action) = Submission::new(false, true);
    assert_eq!(action, SubmitAction::Interrupted);
    assert_eq!(interrupted(0).written, 0);
    let (_, first) = ChunkedWrite::new(5, true);
    assert_eq!(chunk_failure(first).written, 0);
}

#[test]
fn drain_writes_even_after_shutdown() {
    let (mut submission, action) = Submission::new(true, true);
    assert_eq!(action, SubmitAction::AwaitTurn);
    assert_eq!(submission.step(SubmitEvent::Turn { stopping: true }), SubmitAction::Submit);
    assert_eq!(submission.step(SubmitEvent::Completed), SubmitAction::Report);
    let (_, done, parts) = feed_chunks(8, &[8]);
    assert!(matches!(done, ChunkAction::Done));
    assert_eq!(parts, vec![(0, 8)]);
}

#[test]
fn a_submitted_frame_is_waited_for() {
    let (mut submission, _) = Submission::new(false, false);
    assert_eq!(submission.step(SubmitEvent::Turn { stopping: false }), SubmitAction::Submit);
    assert_eq!(submission.step(SubmitEvent::SignalChanged), SubmitAction::CancelAndWait);
    assert_eq!(submission.step(SubmitEvent::Completed), SubmitAction::Report);
    let (mut queued, _) = Submission::new(false, false);
    assert_eq!(queued.step(SubmitEvent::SignalChanged), SubmitAction::Interrupted);
}

#[test]
fn a_cancelled_or_stuck_chunk_ends_the_write() {
    let (mut write, _) = ChunkedWrite::new(10_000, false);
    let cancelled = write.step(ChunkEvent::Wrote { count: 4096, cancelled: true });
    assert_eq!(chunk_failure(cancelled).written, 4096);
    let (_, stuck, _) = feed_chunks(10, &[0]);
    assert!(matches!(chunk_failure(stuck).source, WriteFault::WroteNothing));
}
