use limpid_output::error::OutputError;
use limpid_output::metrics::OutputMetrics;
use limpid_output::peer_rotation::{
    finish_write, AttemptOutcome, PeerList, PeerSendError, RotatingPeers, RoundAction,
};
use limpid_output::props::{Expr, Property};
use limpid_output::syslog_peers::{
    iter_peers_block, parse_host_port, parse_peer_or_peers, Peer, PEER_CONNECT_TIMEOUT,
    PEER_COOLDOWN, PEER_HANDSHAKE_TIMEOUT, PEER_WRITE_TIMEOUT,
};
use std::time::Duration;

const SECOND: u64 = 1_000_000_000;

fn peer(host: &str, port: u16) -> Peer {
    Peer { host: host.to_string(), port, tls: None }
}

fn peers(n: usize) -> Vec<Peer> {
    (0..n).map(|idx| peer(&format!("peer-{idx}"), 514 + idx as u16)).collect()
}

/// What each peer would answer: those named fail at the time given.
fn outcomes(n: usize, failing: &[usize], at: u64) -> Vec<AttemptOutcome> {
    (0..n)
        .map(|i| {
            if failing.contains(&i) {
                AttemptOutcome::Failed { at }
            } else {
                AttemptOutcome::Delivered
            }
        })
        .collect()
}

#[test]
fn address_brackets_ipv6_literal() {
    let p = peer("::1", 514);
    assert_eq!(p.address(), "[::1]:514");
    let p = peer("2001:db8::1", 6514);
    assert_eq!(p.address(), "[2001:db8::1]:6514");
}

#[test]
fn address_leaves_ipv4_unbracketed() {
    let p = peer("127.0.0.1", 514);
    assert_eq!(p.address(), "127.0.0.1:514");
}

#[test]
fn address_leaves_hostname_unbracketed() {
    let p = peer("relay.example.com", 514);
    assert_eq!(p.address(), "relay.example.com:514");
}

#[test]
fn address_does_not_double_bracket_ipv6() {
    let p = peer("[::1]", 514);
    assert_eq!(p.address(), "[::1]:514");
}

#[test]
fn peer_timeouts_are_documented_defaults() {
    assert_eq!(Duration::from_nanos(PEER_CONNECT_TIMEOUT), Duration::from_secs(5));
    assert_eq!(Duration::from_nanos(PEER_HANDSHAKE_TIMEOUT), Duration::from_secs(5));
    assert_eq!(Duration::from_nanos(PEER_WRITE_TIMEOUT), Duration::from_secs(10));
}

#[test]
fn empty_peer_list_errors() {
    let mut list = PeerList::<()>::new(Vec::new());
    let err = list.write_with_rotation_at(0, &[]).expect_err("empty list should fail");
    assert!(matches!(err, PeerSendError::Empty));
    assert_eq!(err.message(), "no peers configured");
}

#[test]
fn round_robin_distribution_over_three_peers() {
    let mut list = PeerList::<()>::new(peers(3));
    for _ in 0..9 {
        list.write_with_rotation_at(0, &outcomes(3, &[], 0)).expect("write should succeed");
    }
    let counts: Vec<u64> = list.peer_metrics().iter().map(|m| m.events_written).collect();
    assert_eq!(counts, vec![3, 3, 3]);
}

#[test]
fn single_failure_rotates_to_next() {
    let mut list = PeerList::<()>::new(peers(2));
    list.write_with_rotation_at(0, &outcomes(2, &[0], 0)).expect("second peer should succeed");
    assert_eq!(list.peer_metrics()[0].cooldowns_entered, 1);
    assert_eq!(list.peer_metrics()[1].events_written, 1);
}

#[test]
fn all_peers_failed_in_one_call() {
    let mut list = PeerList::<()>::new(peers(3));
    let err = list
        .write_with_rotation_at(0, &outcomes(3, &[0, 1, 2], 0))
        .expect_err("all peers failed");
    assert!(matches!(err, PeerSendError::AllPeersUnavailable { n: 3 }));
}

#[test]
fn cooldown_skips_peer_until_expiry() {
    let mut list = PeerList::<()>::new(peers(3));
    let now = 100 * SECOND;
    list.write_with_rotation_at(now, &outcomes(3, &[0], now)).expect("peer 1 takes it");
    // The next rounds begin at peers 1 and 2; the one after them at peer 0, which is
    // passed over until its cooldown is over.
    list.write_with_rotation_at(now + SECOND, &outcomes(3, &[], 0)).expect("peer 1");
    list.write_with_rotation_at(now + SECOND, &outcomes(3, &[], 0)).expect("peer 2");
    list.write_with_rotation_at(now + SECOND, &outcomes(3, &[], 0)).expect("peer 1 again");
    let counts: Vec<u64> = list.peer_metrics().iter().map(|m| m.events_written).collect();
    assert_eq!(counts, vec![0, 3, 1]);
    assert!(!list.available(0, now + PEER_COOLDOWN - 1));
    assert!(list.available(0, now + PEER_COOLDOWN));
    list.write_with_rotation_at(now + 6 * SECOND, &outcomes(3, &[], 0)).expect("peer 1");
    list.write_with_rotation_at(now + 6 * SECOND, &outcomes(3, &[], 0)).expect("peer 2");
    list.write_with_rotation_at(now + 6 * SECOND, &outcomes(3, &[], 0)).expect("peer 0");
    assert_eq!(list.peer_metrics()[0].events_written, 1);
}

#[test]
fn cooldown_reset_on_success() {
    let mut list = PeerList::<()>::new(peers(1));
    list.write_with_rotation_at(0, &outcomes(1, &[0], 0)).expect_err("fails");
    let later = 6 * SECOND;
    list.write_with_rotation_at(later, &outcomes(1, &[], 0)).expect("expired peer should succeed");
    // Without a cooldown the peer is free at any time.
    assert!(list.available(0, 0));
}

#[test]
fn rotating_peers_round_robin_and_cooldown_skip() {
    let mut rot = RotatingPeers::new(3);
    assert_eq!(rot.select(0), 0);
    assert_eq!(rot.select(0), 1);
    assert_eq!(rot.select(0), 2);
    rot.mark_failure(0, 0);
    assert_eq!(rot.cooldown_until(0), Some(PEER_COOLDOWN));
    assert_eq!(rot.select(0), 1);
    rot.mark_success(0);
    assert_eq!(rot.select(0), 1);
    assert_eq!(rot.select(0), 2);
    assert_eq!(rot.select(0), 0);
}

#[test]
fn rotating_peers_falls_back_to_rotation_start_when_all_cooled() {
    let mut rot = RotatingPeers::new(2);
    rot.mark_failure(0, 0);
    rot.mark_failure(1, 0);
    assert_eq!(rot.select(0), 0);
    assert_eq!(rot.select(0), 1);
}

#[test]
fn cooldown_measured_from_failure_time_not_attempt_start() {
    let mut list = PeerList::<()>::new(peers(1));
    let start = SECOND;
    let failed = start + 300_000_000;
    list.write_with_rotation_at(start, &outcomes(1, &[0], failed))
        .expect_err("attempt errors, peer cools down");
    assert!(!list.available(0, start + PEER_COOLDOWN));
    assert!(!list.available(0, failed + PEER_COOLDOWN - 1));
    assert!(list.available(0, failed + PEER_COOLDOWN));
}

#[test]
fn connections_stay_with_their_peer() {
    let mut list = PeerList::<u8>::new(peers(2));
    list.store_conn(1, 7);
    assert_eq!(list.take_conn(0), None);
    assert_eq!(list.take_conn(1), Some(7));
    assert_eq!(list.take_conn(1), None);
}

#[test]
fn a_round_visits_each_peer_once() {
    let mut list = PeerList::<()>::new(peers(3));
    list.begin_rotation().unwrap();
    let mut round = list.begin_rotation().unwrap();
    let mut seen = Vec::new();
    while let Some(idx) = round.candidate() {
        seen.push(idx);
        round.advance();
    }
    assert_eq!(seen, vec![1, 2, 0]);
}

/// The start moves on by one with every round, and comes round to the first again;
/// a round goes on from its start until a peer delivers.
#[test]
fn rounds_begin_one_further_each_time() {
    for k in 0..8 {
        let mut list = PeerList::<()>::new(peers(3));
        for _ in 0..k {
            list.write_with_rotation_at(0, &outcomes(3, &[], 0)).unwrap();
        }
        let before: Vec<u64> = list.peer_metrics().iter().map(|m| m.events_written).collect();
        let start = k % 3;
        list.write_with_rotation_at(0, &outcomes(3, &[start], 0)).unwrap();
        let after: Vec<u64> = list.peer_metrics().iter().map(|m| m.events_written).collect();
        for i in 0..3 {
            assert_eq!(after[i] - before[i], u64::from(i == (start + 1) % 3));
        }
        assert_eq!(list.peer_metrics()[start].connect_failures, 1);
    }
}

#[test]
fn a_round_passes_cooling_peers_over_and_ends_with_the_last() {
    let mut list = PeerList::<()>::new(peers(3));
    list.settle(1, AttemptOutcome::Failed { at: 0 });
    let (mut round, action) = list.begin_round(SECOND);
    assert_eq!(action, RoundAction::Try { idx: 0 });
    let action = list.after_attempt(&mut round, SECOND, 0, AttemptOutcome::Failed { at: SECOND });
    assert_eq!(action, RoundAction::Try { idx: 2 });
    let action = list.after_attempt(&mut round, SECOND, 2, AttemptOutcome::Failed { at: SECOND });
    let error = PeerSendError::AllPeersUnavailable { n: 3 };
    assert_eq!(action, RoundAction::Fail { error });
    assert_eq!(list.peer_metrics()[1].connect_failures, 1);
    // The next round begins at peer 1, whose cooldown ends first.
    let (mut round, action) = list.begin_round(PEER_COOLDOWN);
    assert_eq!(action, RoundAction::Try { idx: 1 });
    let action = list.after_attempt(&mut round, PEER_COOLDOWN, 1, AttemptOutcome::Delivered);
    assert_eq!(action, RoundAction::Done);
}

#[test]
fn a_message_counts_once_its_round_delivered() {
    let mut metrics = OutputMetrics::new();
    assert!(finish_write(Ok(()), &mut metrics).is_ok());
    assert_eq!(metrics.events_written, 1);
    let error = PeerSendError::AllPeersUnavailable { n: 2 };
    let refused = finish_write(Err(error), &mut metrics).unwrap_err();
    assert_eq!(refused.message(), "all 2 peers are in cooldown or failed this round");
    assert_eq!(metrics.events_written, 1);
}

#[test]
fn a_round_over_no_peers_fails_at_once() {
    let mut list = PeerList::<()>::new(Vec::new());
    let (_, action) = list.begin_round(0);
    assert_eq!(action, RoundAction::Fail { error: PeerSendError::Empty });
}

fn host_only(host: &str) -> Vec<Property> {
    vec![Property::KeyValue { key: "host".to_string(), value: Expr::StringLit(host.to_string()) }]
}

fn peer_block(host: &str) -> Property {
    Property::Block { key: "peer".to_string(), properties: host_only(host) }
}

fn parse_one(props: &[Property]) -> Result<Peer, OutputError> {
    let (host, port) = parse_host_port(props, 9, "one")?;
    Ok(Peer { host, port, tls: None })
}

#[test]
fn peers_are_read_in_order_and_the_first_error_counts() {
    let good = iter_peers_block(&[peer_block("a"), peer_block("b")], "l", parse_one).unwrap();
    assert_eq!(good[0].address(), "a:9");
    assert_eq!(good[1].address(), "b:9");
    let bad = Property::Block { key: "peer".to_string(), properties: vec![] };
    let err = iter_peers_block(&[peer_block("a"), bad], "l", parse_one).err().unwrap();
    assert_eq!(err.message(), "one requires 'host'");
    let none = iter_peers_block(&[], "l", parse_one).err().unwrap();
    assert!(none.message().contains("at least one peer"), "{}", none.message());
}

#[test]
fn one_peer_or_several_are_told_apart() {
    let one = |label: &str, props: &[Property]| {
        let (host, port) = parse_host_port(props, 9, label)?;
        Ok(Peer { host, port, tls: None })
    };
    let single = parse_peer_or_peers("o", &[peer_block("a")], one).unwrap();
    assert_eq!(single.len(), 1);
    let several = Property::Block {
        key: "peers".to_string(),
        properties: vec![peer_block("a"), peer_block("b")],
    };
    assert_eq!(parse_peer_or_peers("o", &[several], one).unwrap().len(), 2);
    let empty = Property::Block { key: "peer".to_string(), properties: vec![] };
    let err = parse_peer_or_peers("o", &[empty], one).err().unwrap();
    assert_eq!(err.message(), "peer requires 'host'");
}
