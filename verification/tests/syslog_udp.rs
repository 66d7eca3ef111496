use limpid_output::delivery::{
    finish_shutdown, Delivery, DeliveryAction, DeliveryEvent, DeliveryKind, ShutdownWrite,
};
use limpid_output::metrics::OutputMetrics;
use limpid_output::peer_rotation::{PeerList, PeerSendError};
use limpid_output::props::{Expr, Property};
use limpid_output::retry::{BackoffStrategy, RetryConfig};
use limpid_output::syslog_peers::{Peer, PEER_COOLDOWN};
use limpid_output::syslog_udp::SyslogUdpOutput;
use limpid_output::udp_attempt::{
    bind_address, ResolvedAddress, UdpAction, UdpAttempt, UdpEvent,
};
use limpid_output::udp_round::{UdpRound, UdpRoundAction, UdpRoundEvent};

type Output = SyslogUdpOutput<()>;

const DEFAULTS: RetryConfig = RetryConfig {
    max_attempts: 3,
    initial_wait: 1_000_000_000,
    max_wait: 30_000_000_000,
    backoff: BackoffStrategy::Exponential,
};

fn kv(key: &str, value: Expr) -> Property {
    Property::KeyValue { key: key.to_string(), value }
}

fn text(s: &str) -> Expr {
    Expr::StringLit(s.to_string())
}

fn block(key: &str, properties: Vec<Property>) -> Property {
    Property::Block { key: key.to_string(), properties }
}

fn peer(host: &str, port: i64) -> Property {
    block("peer", vec![kv("host", text(host)), kv("port", Expr::IntLit(port))])
}

fn build(props: Vec<Property>) -> Output {
    Output::from_properties("u", &props, DEFAULTS).expect("ok")
}

fn build_error(props: Vec<Property>) -> String {
    Output::from_properties("u", &props, DEFAULTS).err().expect("should fail").message().to_string()
}

fn address(text: &str, v6: bool) -> ResolvedAddress {
    ResolvedAddress { text: text.to_string(), v6 }
}

#[test]
fn syslog_udp_build_accepts_single_peer() {
    let u = build(vec![peer("h", 1)]);
    assert_eq!(u.peers.len(), 1);
    assert_eq!(u.peers.peers()[0].address(), "h:1");
}

#[test]
fn build_accepts_peer_with_default_port() {
    let u = build(vec![block("peer", vec![kv("host", text("h"))])]);
    assert_eq!(u.peers.peers()[0].address(), "h:514");
}

#[test]
fn syslog_udp_build_accepts_multiple_peers() {
    let u = build(vec![block("peers", vec![peer("a", 1), peer("b", 2)])]);
    assert_eq!(u.peers.len(), 2);
    assert_eq!(u.peers.peers()[0].address(), "a:1");
    assert_eq!(u.peers.peers()[1].address(), "b:2");
}

#[test]
fn syslog_udp_build_rejects_missing_destination() {
    let msg = build_error(vec![]);
    assert!(msg.contains("either 'peer' or 'peers' is required"), "{}", msg);
}

#[test]
fn from_properties_rejects_peer_and_peers_together() {
    let msg = build_error(vec![peer("a", 1), block("peers", vec![peer("b", 2)])]);
    assert!(msg.contains("mutually exclusive"), "{}", msg);
}

#[test]
fn syslog_udp_build_rejects_empty_peers_block() {
    let msg = build_error(vec![block("peers", vec![])]);
    assert!(msg.contains("peers block must contain at least one peer"), "{}", msg);
}

#[test]
fn syslog_udp_build_rejects_peer_missing_host() {
    let msg = build_error(vec![block("peer", vec![kv("port", Expr::IntLit(514))])]);
    assert!(msg.contains("host"), "{}", msg);
}

#[test]
fn the_retry_block_overrides_the_defaults() {
    let u = build(vec![
        peer("h", 1),
        block(
            "retry",
            vec![
                kv("max_attempts", Expr::IntLit(1)),
                kv("initial_wait", text("1ms")),
                kv("max_wait", text("2ms")),
            ],
        ),
    ]);
    assert_eq!(u.retry.max_attempts, 1);
    assert_eq!(u.retry.initial_wait, 1_000_000);
    assert_eq!(u.retry.max_wait, 2_000_000);
    assert_eq!(u.retry.backoff, BackoffStrategy::Exponential);
}

/// A socket is bound in the family of the address it is to reach.
#[test]
fn send_to_ipv6_loopback_peer() {
    let mut metrics = OutputMetrics::new();
    let (mut attempt, first) = UdpAttempt::new("[::1]:5140", false, false);
    assert!(matches!(first, UdpAction::Lookup));
    let bind = attempt.step(
        UdpEvent::Resolved { addresses: vec![address("[::1]:5140", true)] },
        &mut metrics,
    );
    assert!(matches!(bind, UdpAction::Bind { index: 0, v6: true }));
    assert_eq!(bind_address(true), "[::]:0");
    assert_eq!(bind_address(false), "0.0.0.0:0");
    let connect = attempt.step(UdpEvent::Bound, &mut metrics);
    assert!(matches!(connect, UdpAction::Connect { index: 0 }));
    assert_eq!(attempt.address(0), "[::1]:5140");
    assert!(matches!(attempt.step(UdpEvent::Connected, &mut metrics), UdpAction::Send));
    let sent = attempt.step(UdpEvent::Sent { bytes: 13 }, &mut metrics);
    assert!(matches!(sent, UdpAction::Delivered));
    assert_eq!(metrics.events_written, 0);
    assert_eq!(metrics.bytes_written, 13);
}

#[test]
fn each_address_is_tried_before_the_attempt_fails() {
    let mut metrics = OutputMetrics::new();
    let (mut attempt, _) = UdpAttempt::new("h:1", false, true);
    let a = attempt.step(
        UdpEvent::Resolved {
            addresses: vec![address("[::1]:1", true), address("127.0.0.1:1", false)],
        },
        &mut metrics,
    );
    assert!(matches!(a, UdpAction::Bind { index: 0, v6: true }));
    let b = attempt.step(UdpEvent::BindFailed, &mut metrics);
    assert!(matches!(b, UdpAction::Bind { index: 1, v6: false }));
    attempt.step(UdpEvent::Bound, &mut metrics);
    let last = attempt.step(UdpEvent::ConnectFailed, &mut metrics);
    assert!(matches!(last, UdpAction::Failed { .. }));
    assert_eq!(metrics.bytes_written, 0);
}

#[test]
fn steady_state_consume_success_bumps_events_written_once() {
    let mut metrics = OutputMetrics::new();
    let mut delivery = Delivery::new(DeliveryKind::SyslogUdp, "u", DEFAULTS);
    let action = delivery.step(DeliveryEvent::Delivered, &mut metrics);
    assert!(matches!(action, DeliveryAction::Deliver));
    assert_eq!(metrics.events_written, 1);
    assert_eq!(metrics.events_failed, 0);
}

#[test]
fn shutdown_consume_success_bumps_events_written_once() {
    let mut metrics = OutputMetrics::new();
    let action = finish_shutdown(DeliveryKind::SyslogUdp, ShutdownWrite::Delivered, &mut metrics);
    assert!(matches!(action, DeliveryAction::Deliver));
    assert_eq!(metrics.events_written, 1);
    assert_eq!(metrics.events_failed, 0);
}

#[test]
fn oversized_datagram_send_error_counts_no_confirmed_bytes() {
    let mut metrics = OutputMetrics::new();
    let retry = RetryConfig { max_attempts: 1, ..DEFAULTS };
    let (mut attempt, first) = UdpAttempt::new("127.0.0.1:1", true, true);
    assert!(matches!(first, UdpAction::Send));
    let failed = attempt.step(
        UdpEvent::SendFailed,
        &mut metrics,
    );
    let UdpAction::Failed { error, drop_connection } = failed else { panic!("sent") };
    assert!(drop_connection);
    let mut delivery = Delivery::new(DeliveryKind::SyslogUdp, "udp-failure", retry);
    let action = delivery.step(
        DeliveryEvent::Failed { error, written: 0, stopping: false },
        &mut metrics,
    );
    assert!(matches!(action, DeliveryAction::DeadLetter { .. }));
    assert_eq!(metrics.bytes_written, 0);
    assert_eq!(metrics.events_written, 0);
    assert_eq!(metrics.in_retry, 0);
}

#[test]
fn oversized_datagram_backoff_sets_retry_gauge_until_shutdown() {
    let mut metrics = OutputMetrics::new();
    let retry = RetryConfig {
        max_attempts: 3,
        initial_wait: 5_000_000_000,
        max_wait: 5_000_000_000,
        backoff: BackoffStrategy::Exponential,
    };
    let mut delivery = Delivery::new(DeliveryKind::SyslogUdp, "udp-retry", retry);
    let action = delivery.step(
        DeliveryEvent::Failed { error: "too long".to_string(), written: 0, stopping: false },
        &mut metrics,
    );
    assert!(matches!(action, DeliveryAction::Wait { nanos: 5_000_000_000 }));
    assert_eq!(metrics.retries, 1);
    assert_eq!(metrics.in_retry, 1);
    let action = delivery.step(DeliveryEvent::ShutdownInWait, &mut metrics);
    assert!(matches!(action, DeliveryAction::DeadLetter { .. }));
    assert_eq!(metrics.in_retry, 0);
    assert_eq!(metrics.events_failed, 1);
}

// Rounds over several peers.

fn round_peers() -> PeerList<&'static str> {
    let peer = |host: &str| Peer { host: host.to_string(), port: 514, tls: None };
    PeerList::new(vec![peer("a"), peer("b"), peer("c")])
}

fn other(event: UdpEvent) -> UdpRoundEvent<&'static str> {
    UdpRoundEvent::Other { event }
}

/// Brings the attempt on the peer that a round is at as far as the send.
fn connect_next(
    round: &mut UdpRound<&'static str>,
    list: &mut PeerList<&'static str>,
    socket: &'static str,
    metrics: &mut OutputMetrics,
) {
    let resolved = other(UdpEvent::Resolved { addresses: vec![address("192.0.2.1:514", false)] });
    let action = round.step(list, resolved, 1, metrics);
    assert!(matches!(action, UdpRoundAction::Bind { index: 0, v6: false }));
    let action = round.step(list, UdpRoundEvent::Bound { socket }, 1, metrics);
    assert!(matches!(action, UdpRoundAction::Connect { index: 0 }));
    assert_eq!(round.socket(), Some(&socket));
    let action = round.step(list, other(UdpEvent::Connected), 1, metrics);
    assert!(matches!(action, UdpRoundAction::Send));
}

#[test]
fn a_failed_attempt_cools_its_peer_and_the_round_goes_on() {
    let mut metrics = OutputMetrics::new();
    let mut list = round_peers();
    let (mut round, action) = UdpRound::begin(&mut list, 0, true);
    assert!(matches!(action, UdpRoundAction::Lookup));
    assert_eq!(round.peer(), 0);
    let action = round.step(&mut list, other(UdpEvent::LookupFailed), 10, &mut metrics);
    assert!(matches!(action, UdpRoundAction::Lookup));
    assert_eq!(round.peer(), 1);
    assert!(!list.available(0, 10 + PEER_COOLDOWN - 1));
    assert!(list.available(0, 10 + PEER_COOLDOWN));
    connect_next(&mut round, &mut list, "b0", &mut metrics);
    let action = round.step(&mut list, other(UdpEvent::Sent { bytes: 7 }), 20, &mut metrics);
    assert!(matches!(action, UdpRoundAction::Delivered));
    assert_eq!(metrics.bytes_written, 7);
    assert_eq!(list.peer_metrics()[0].connect_failures, 1);
    assert_eq!(list.peer_metrics()[1].events_written, 1);
    assert_eq!(list.peer_metrics()[2].events_written, 0);
    assert_eq!(list.take_conn(1), Some("b0"));
}

#[test]
fn a_kept_socket_is_used_again_until_a_send_over_it_fails() {
    let mut metrics = OutputMetrics::new();
    let mut list = round_peers();
    list.store_conn(0, "a0");
    let (mut round, action) = UdpRound::begin(&mut list, 0, true);
    assert!(matches!(action, UdpRoundAction::Send));
    assert_eq!(round.socket(), Some(&"a0"));
    let action = round.step(&mut list, other(UdpEvent::SendFailed), 10, &mut metrics);
    assert!(matches!(action, UdpRoundAction::Lookup));
    assert_eq!(round.peer(), 1);
    assert!(!list.available(0, 10));
    assert_eq!(list.take_conn(0), None);
}

#[test]
fn a_shutdown_before_the_send_cools_no_peer() {
    let mut metrics = OutputMetrics::new();
    let mut list = round_peers();
    let (mut round, _) = UdpRound::begin(&mut list, 0, true);
    let action = round.step(&mut list, other(UdpEvent::Shutdown), 10, &mut metrics);
    assert!(matches!(action, UdpRoundAction::PreSendShutdown));
    for idx in 0..3 {
        assert!(list.available(idx, 0));
        assert_eq!(list.peer_metrics()[idx].connect_failures, 0);
    }
}

#[test]
fn a_round_that_fails_has_tried_every_free_peer() {
    let mut metrics = OutputMetrics::new();
    let mut list = round_peers();
    let (mut round, mut action) = UdpRound::begin(&mut list, 0, false);
    let mut tried = Vec::new();
    while matches!(action, UdpRoundAction::Lookup) {
        tried.push(round.peer());
        action = round.step(&mut list, other(UdpEvent::LookupTimedOut), 5, &mut metrics);
    }
    assert_eq!(tried, vec![0, 1, 2]);
    assert!(matches!(
        action,
        UdpRoundAction::Failed { error: PeerSendError::AllPeersUnavailable { n: 3 } }
    ));
    let (_, action) = UdpRound::begin(&mut list, 5, false);
    assert!(matches!(action, UdpRoundAction::Failed { .. }));
    let mut none: PeerList<&'static str> = PeerList::new(Vec::new());
    let (_, action) = UdpRound::begin(&mut none, 0, false);
    assert!(matches!(action, UdpRoundAction::Failed { error: PeerSendError::Empty }));
}
