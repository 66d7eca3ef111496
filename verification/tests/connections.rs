use limpid_output::delivery::{
    finish_shutdown, Delivery, DeliveryAction, DeliveryEvent, DeliveryKind, DeliveryPhase,
    ShutdownWrite,
};
use limpid_output::metrics::OutputMetrics;
use limpid_output::persistent_conn::{
    ReconnectAction, ReconnectEvent, ReconnectWrite, WriteReconnectOutcome,
};
use limpid_output::retry::{BackoffStrategy, RetryConfig};
use limpid_output::stream_attempt::{StreamAction, StreamAttempt, StreamEvent, StreamKind};
use limpid_output::udp_attempt::{UdpAction, UdpAttempt, UdpEvent};

const RETRY: RetryConfig = RetryConfig {
    max_attempts: 3,
    initial_wait: 4,
    max_wait: 6,
    backoff: BackoffStrategy::Exponential,
};

#[test]
fn a_broken_cached_connection_is_replaced_once() {
    let mut metrics = OutputMetrics::new();
    let (mut write, first) = ReconnectWrite::new(true, false, false);
    assert!(matches!(first, ReconnectAction::WriteCached));
    let next = write.step(ReconnectEvent::WriteFailed { error: "reset".to_string() }, &mut metrics);
    assert!(matches!(next, ReconnectAction::Connect));
    assert!(!write.cached());
    let next = write.step(ReconnectEvent::Connected { stopping: false }, &mut metrics);
    assert!(matches!(next, ReconnectAction::WriteFresh));
    let end = write.step(ReconnectEvent::WriteFailed { error: "again".to_string() }, &mut metrics);
    assert!(matches!(
        end,
        ReconnectAction::Done { outcome: WriteReconnectOutcome::Failed { error } } if error == "again"
    ));
    assert_eq!(metrics.events_written, 0);
}

#[test]
fn a_written_frame_is_counted_and_the_connection_kept() {
    let mut metrics = OutputMetrics::new();
    let (mut write, _) = ReconnectWrite::new(true, true, false);
    let end = write.step(ReconnectEvent::Written, &mut metrics);
    assert!(matches!(end, ReconnectAction::Done { outcome: WriteReconnectOutcome::Delivered }));
    assert!(write.cached());
    assert_eq!(metrics.events_written, 1);
}

#[test]
fn a_shutdown_forestalls_a_write_that_heeds_it() {
    let mut metrics = OutputMetrics::new();
    let (_, first) = ReconnectWrite::new(true, true, true);
    assert!(matches!(
        first,
        ReconnectAction::Done { outcome: WriteReconnectOutcome::PreSendShutdown }
    ));
    let (mut write, first) = ReconnectWrite::new(false, true, false);
    assert!(matches!(first, ReconnectAction::Connect));
    let end = write.step(ReconnectEvent::ConnectShutdown, &mut metrics);
    assert!(matches!(
        end,
        ReconnectAction::Done { outcome: WriteReconnectOutcome::PreSendShutdown }
    ));
    let (_, first) = ReconnectWrite::new(true, false, true);
    assert!(matches!(first, ReconnectAction::WriteCached));
}

/// Part of the frame may be out once a write was tried: a shutdown after that is a
/// failure, told with the error of that write.
#[test]
fn a_shutdown_after_a_failed_write_reports_the_write() {
    let broken = || ReconnectEvent::WriteFailed { error: "reset".to_string() };
    for event in [ReconnectEvent::ConnectShutdown, ReconnectEvent::Connected { stopping: true }] {
        let mut metrics = OutputMetrics::new();
        let (mut write, first) = ReconnectWrite::new(true, true, false);
        assert!(matches!(first, ReconnectAction::WriteCached));
        assert!(matches!(write.step(broken(), &mut metrics), ReconnectAction::Connect));
        let end = write.step(event, &mut metrics);
        assert!(matches!(
            end,
            ReconnectAction::Done { outcome: WriteReconnectOutcome::Failed { error } }
                if error == "reset"
        ));
        assert_eq!(metrics.events_written, 0);
    }
    let mut metrics = OutputMetrics::new();
    let (mut write, _) = ReconnectWrite::new(false, true, false);
    let end = write.step(ReconnectEvent::Connected { stopping: true }, &mut metrics);
    assert!(matches!(
        end,
        ReconnectAction::Done { outcome: WriteReconnectOutcome::PreSendShutdown }
    ));
}

fn stream_error(action: StreamAction) -> String {
    match action {
        StreamAction::Failed { error } => error,
        other => panic!("{other:?}"),
    }
}

#[test]
fn an_encrypted_stream_is_written_to_after_its_handshake() {
    let (mut a, first) =
        StreamAttempt::new(StreamKind::SyslogTcp, "h.example:6514", "h.example", true, false);
    assert!(matches!(first, StreamAction::Connect));
    assert!(matches!(a.step(StreamEvent::Connected), StreamAction::Handshake));
    assert!(matches!(a.step(StreamEvent::HandshakeDone), StreamAction::Write));
    assert!(matches!(a.step(StreamEvent::Written), StreamAction::Delivered));
}

#[test]
fn a_plain_stream_needs_no_handshake() {
    let (mut a, _) = StreamAttempt::new(StreamKind::SyslogTcp, "h:514", "h", false, false);
    assert!(matches!(a.step(StreamEvent::Connected), StreamAction::Write));
    let (_, first) = StreamAttempt::new(StreamKind::SyslogTcp, "h:514", "h", false, true);
    assert!(matches!(first, StreamAction::Write));
}

#[test]
fn hosts_that_are_no_server_names_end_the_attempt() {
    let bad = "no host";
    let (mut a, _) = StreamAttempt::new(StreamKind::SyslogTcp, "no host:1", bad, true, false);
    assert_eq!(
        stream_error(a.step(StreamEvent::Connected)),
        "syslog_tcp invalid server name: no host"
    );
    for good in ["h.example", "127.0.0.1", "::1"] {
        let (mut a, _) = StreamAttempt::new(StreamKind::SyslogTls, "x", good, true, false);
        assert!(matches!(a.step(StreamEvent::Connected), StreamAction::Handshake), "{good}");
    }
    let (mut a, _) = StreamAttempt::with_name_verdict(
        StreamKind::SyslogTls,
        "h:1",
        "h",
        true,
        false,
        false,
    );
    assert_eq!(stream_error(a.step(StreamEvent::Connected)), "syslog_tls invalid server name: h");
}

#[test]
fn stream_failures_say_where_they_happened() {
    let start = || StreamAttempt::new(StreamKind::SyslogTls, "h:1", "h.example", true, false).0;
    let mut a = start();
    assert_eq!(stream_error(a.step(StreamEvent::ConnectFailed)), "syslog_tls TCP connect to h:1");
    let mut a = start();
    assert_eq!(
        stream_error(a.step(StreamEvent::ConnectTimedOut)),
        "syslog_tls TCP connect to h:1 timed out"
    );
    let mut a = start();
    a.step(StreamEvent::Connected);
    assert_eq!(
        stream_error(a.step(StreamEvent::HandshakeTimedOut)),
        "syslog_tls TLS handshake to h:1 timed out"
    );
    let mut a = start();
    a.step(StreamEvent::Connected);
    a.step(StreamEvent::HandshakeDone);
    assert_eq!(
        stream_error(a.step(StreamEvent::WriteTimedOut)),
        "syslog_tls write to h:1 timed out"
    );
}

#[test]
fn a_datagram_is_not_sent_once_a_shutdown_is_seen() {
    let mut metrics = OutputMetrics::new();
    let (mut a, _) = UdpAttempt::new("h:1", false, true);
    assert!(matches!(a.step(UdpEvent::Shutdown, &mut metrics), UdpAction::PreSendShutdown));
    let (mut a, _) = UdpAttempt::new("h:1", false, true);
    let none = a.step(UdpEvent::Resolved { addresses: vec![] }, &mut metrics);
    assert!(matches!(none, UdpAction::Failed { .. }));
}

#[test]
fn waits_double_up_to_the_limit() {
    let mut metrics = OutputMetrics::new();
    let mut d = Delivery::new(DeliveryKind::Kafka, "k", RETRY);
    let mut waits = Vec::new();
    loop {
        let failed = DeliveryEvent::Failed {
            error: "down".to_string(),
            written: 0,
            stopping: false,
        };
        match d.step(failed, &mut metrics) {
            DeliveryAction::Wait { nanos } => {
                waits.push(nanos);
                d.step(DeliveryEvent::WaitElapsed, &mut metrics);
            }
            DeliveryAction::DeadLetter { reason } => {
                assert_eq!(reason, "output write failed after 3 attempts: down");
                break;
            }
            other => panic!("{other:?}"),
        }
    }
    assert_eq!(waits, vec![4, 6]);
    assert_eq!(d.phase(), DeliveryPhase::Finished);
    assert_eq!(metrics.retries, 3);
    assert_eq!(metrics.in_retry, 0);
    let fixed = RetryConfig { backoff: BackoffStrategy::Fixed, ..RETRY };
    assert_eq!(fixed.next_wait(4), 4);
    assert_eq!(RETRY.next_wait(u64::MAX), 6);
}

#[test]
fn what_a_shutdown_leaves_is_dead_lettered_with_its_reason() {
    let mut metrics = OutputMetrics::new();
    let mut reason_of = |kind: DeliveryKind, result: ShutdownWrite| {
        match finish_shutdown(kind, result, &mut metrics) {
            DeliveryAction::DeadLetter { reason } => reason,
            other => panic!("{other:?}"),
        }
    };
    let failed = || ShutdownWrite::Failed { error: "e".to_string() };
    let late = || ShutdownWrite::TimedOut { limit: "5s".to_string(), written: false };
    assert_eq!(reason_of(DeliveryKind::File, failed()), "shutdown write failed: e");
    assert_eq!(reason_of(DeliveryKind::File, late()), "shutdown write timed out after 5s");
    assert_eq!(reason_of(DeliveryKind::Kafka, failed()), "e");
    assert_eq!(reason_of(DeliveryKind::Ltp, late()), "LTP shutdown write timed out");
    assert_eq!(metrics.events_failed, 4);
    assert_eq!(metrics.events_written, 0);
}

#[test]
fn a_line_that_is_out_when_the_time_is_up_counts_both_ways() {
    let mut metrics = OutputMetrics::new();
    let late = ShutdownWrite::TimedOut { limit: "5s".to_string(), written: true };
    let end = finish_shutdown(DeliveryKind::File, late, &mut metrics);
    assert!(matches!(
        end,
        DeliveryAction::DeadLetter { reason } if reason == "shutdown write timed out after 5s"
    ));
    assert_eq!((metrics.events_written, metrics.events_failed), (1, 1));
}

#[test]
fn an_attempt_given_up_before_sending_is_dead_lettered() {
    let mut metrics = OutputMetrics::new();
    let mut d = Delivery::new(DeliveryKind::SyslogUdp, "u", RETRY);
    let end = d.step(DeliveryEvent::PreSendShutdown, &mut metrics);
    assert!(matches!(
        end,
        DeliveryAction::DeadLetter { reason }
            if reason == "output 'u': write attempt abandoned on shutdown (pre-send)"
    ));
}
