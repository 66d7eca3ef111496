use base64::Engine;
use limpid_output::delivery::{
    dead_letter, finish_shutdown, Delivery, DeliveryAction, DeliveryEvent, DeliveryKind,
    ShutdownWrite,
};
use limpid_output::ltp::{
    assemble_frame, check_payload, checked_frame, event_frame, event_meta, event_meta_len,
    hello_frame, intra_latency, stamp_departure, wire_nanos, working_event_meta, FramePrefix,
    HopStamp, LtpMeta, LtpOutput, MAX_META_LEN,
};
use limpid_output::ltp_config::{
    decode_ed25519_spki, endpoint_with_verdict, parse_endpoint, parse_peer, pin_accepts,
    validate_static_properties,
};
use limpid_output::ltp_wire::{encode_hello, encode_meta};
use limpid_output::ltp_write::{LatencyTotals, LtpAction, LtpEvent, LtpWrite};
use limpid_output::metrics::OutputMetrics;
use limpid_output::props::{Expr, Property};
use limpid_output::retry::{BackoffStrategy, RetryConfig};
use prost::encoding::{bytes, decode_key, fixed64, string, DecodeContext};

const SPKI_PREFIX: [u8; 12] =
    [0x30, 0x2a, 0x30, 0x05, 0x06, 0x03, 0x2b, 0x65, 0x70, 0x03, 0x21, 0x00];

const KEY: [u8; 16] = [7; 16];

const DEFAULTS: RetryConfig = RetryConfig {
    max_attempts: 5,
    initial_wait: 1_000_000_000,
    max_wait: 30_000_000_000,
    backoff: BackoffStrategy::Exponential,
};

fn string_property(key: &str, value: &str) -> Property {
    Property::KeyValue { key: key.to_string(), value: Expr::StringLit(value.to_string()) }
}

fn peer_property(node_id: &str, pubkey: &str, endpoint: &str) -> Property {
    Property::Block {
        key: "peer".to_string(),
        properties: vec![
            string_property("node_id", node_id),
            string_property("pubkey", pubkey),
            string_property("endpoint", endpoint),
        ],
    }
}

fn spki(fill: u8) -> Vec<u8> {
    let mut spki = SPKI_PREFIX.to_vec();
    spki.extend_from_slice(&[fill; 32]);
    spki
}

fn encoded_spki(fill: u8) -> String {
    base64::engine::general_purpose::STANDARD.encode(spki(fill))
}

fn peer_error(props: &[Property]) -> String {
    parse_peer("out", props).err().unwrap().message().to_string()
}

const PREFIX: FramePrefix = FramePrefix { magic: *b"LTPX", version: 1 };

/// A stamp: the node's name, the arrival and the departure.
type Hop = (String, u64, u64);

fn decode_stamp(bytes: &[u8]) -> Hop {
    let mut buf = bytes;
    let mut stamp = (String::new(), 0, 0);
    while !buf.is_empty() {
        let (tag, wire) = decode_key(&mut buf).unwrap();
        let context = DecodeContext::default();
        match tag {
            1 => string::merge(wire, &mut stamp.0, &mut buf, context).unwrap(),
            2 => fixed64::merge(wire, &mut stamp.1, &mut buf, context).unwrap(),
            3 => fixed64::merge(wire, &mut stamp.2, &mut buf, context).unwrap(),
            _ => panic!("field {tag}"),
        }
    }
    stamp
}

/// The key and the stamps that encoded metadata hold.
fn decode_meta(encoded: &[u8]) -> (Vec<u8>, Vec<Hop>) {
    let mut buf = encoded;
    let (mut key, mut stamps) = (Vec::new(), Vec::new());
    while !buf.is_empty() {
        let (tag, wire) = decode_key(&mut buf).unwrap();
        let mut field: Vec<u8> = Vec::new();
        bytes::merge(wire, &mut field, &mut buf, DecodeContext::default()).unwrap();
        match tag {
            1 => key = field,
            2 => stamps.push(decode_stamp(&field)),
            _ => panic!("field {tag}"),
        }
    }
    (key, stamps)
}

fn hop(node_id: &str, arrival: u64, departure: u64) -> Hop {
    (node_id.to_string(), arrival, departure)
}

/// The encoded metadata and the payload of a frame.
fn parts_of(frame: &[u8]) -> (Vec<u8>, Vec<u8>) {
    let length = |at: usize| {
        let bytes = [frame[at], frame[at + 1], frame[at + 2], frame[at + 3]];
        u32::from_be_bytes(bytes) as usize
    };
    let end = 9 + length(5);
    assert_eq!(frame.len(), end + 4 + length(end));
    (frame[9..end].to_vec(), frame[end + 4..].to_vec())
}

fn stamp(node_id: &str, arrival: u64, departure: u64) -> HopStamp {
    HopStamp {
        node_id: node_id.to_string(),
        arrival_unix_nano: arrival,
        departure_unix_nano: departure,
    }
}

fn build(node_id: &str) -> Result<LtpOutput, String> {
    let props = [peer_property("peer-a", &encoded_spki(1), "127.0.0.1:7514")];
    let known = vec!["peer-a".to_string()];
    LtpOutput::from_properties("out", &props, &known, Some(node_id), true, DEFAULTS)
        .map_err(|e| e.message().to_string())
}

#[test]
fn config_accepts_one_peer_and_defaults_port_7514() {
    let peer =
        parse_peer("out", &[peer_property("peer-a", &encoded_spki(1), "collector.example")])
            .unwrap();
    assert_eq!(peer.node_id, "peer-a");
    assert_eq!(peer.address, "collector.example:7514");
    assert_eq!(peer.public_key_spki, spki(1));
}

#[test]
fn config_rejects_peer_cardinality_fields_spki_and_endpoint_errors() {
    let pubkey = encoded_spki(1);
    assert!(peer_error(&[]).contains("exactly one"));
    assert!(peer_error(&[
        peer_property("a", &pubkey, "one.example"),
        peer_property("b", &pubkey, "two.example"),
    ])
    .contains("exactly one"));
    for (key, expected) in [
        ("node_id", "node_id requires a string value"),
        ("pubkey", "pubkey requires a string value"),
        ("endpoint", "endpoint requires a string value"),
    ] {
        let mut properties = Vec::new();
        for (k, v) in [("node_id", "peer-a"), ("pubkey", pubkey.as_str()), ("endpoint", "host")] {
            if k != key {
                properties.push(string_property(k, v));
            }
        }
        let error = peer_error(&[Property::Block { key: "peer".to_string(), properties }]);
        assert!(error.contains(expected), "{error}");
    }
    let bad_spki = base64::engine::general_purpose::STANDARD.encode([0u8; 44]);
    assert!(peer_error(&[peer_property("peer-a", &bad_spki, "host")]).contains("Ed25519 SPKI"));
    assert!(peer_error(&[peer_property("peer-a", &pubkey, "host:70000")]).contains("port"));
}

#[test]
fn the_static_check_agrees_with_the_parser() {
    let good = [peer_property("peer-a", &encoded_spki(1), "host")];
    assert!(validate_static_properties("out", &good).is_ok());
    let err = validate_static_properties("out", &[]).err().unwrap();
    assert_eq!(err.message(), "output 'out': exactly one peer block is required");
}

#[test]
fn public_keys_are_decoded_from_base64() {
    assert_eq!(decode_ed25519_spki("o", &encoded_spki(9)).unwrap(), spki(9));
    let err = decode_ed25519_spki("o", "not base64!").err().unwrap();
    assert_eq!(err.message(), "output 'o': peer pubkey is not valid base64");
}

#[test]
fn endpoints_come_in_four_shapes() {
    let cases = [
        ("host", "host", "host:7514"),
        ("host:1", "host", "host:1"),
        ("::1", "::1", "[::1]:7514"),
        ("[::1]", "::1", "[::1]:7514"),
        ("[::1]:9", "::1", "[::1]:9"),
    ];
    for (text, host, address) in cases {
        let e = parse_endpoint("o", text).unwrap();
        assert_eq!(e.host, host);
        assert_eq!(e.address, address);
        let again = parse_endpoint("o", address).unwrap();
        assert_eq!(again.host, host);
        assert_eq!(again.address, address);
    }
    assert_eq!(parse_endpoint("o", "h:+007").unwrap().address, "h:7");
    for text in ["", ":1", "host:", "host:x", "[::1", "[::1]x", "[nope]", "a:b:c"] {
        assert!(parse_endpoint("o", text).is_err(), "{text}");
    }
    assert!(endpoint_with_verdict("o", "[::1]", false).is_err());
    assert!(endpoint_with_verdict("o", "host", false).is_ok());
}

#[test]
fn build_accepts_the_exact_event_metadata_limit_and_rejects_limit_plus_one() {
    let mut low = 0usize;
    let mut high = MAX_META_LEN + 1;
    while low < high {
        let middle = (low + high).div_ceil(2);
        if event_meta_len(&"n".repeat(middle)) <= MAX_META_LEN {
            low = middle;
        } else {
            high = middle - 1;
        }
    }
    assert_eq!(event_meta_len(&"n".repeat(low)), MAX_META_LEN);
    assert_eq!(event_meta_len(&"n".repeat(low + 1)), MAX_META_LEN + 1);
    assert!(hello_frame(&"n".repeat(low + 1), PREFIX).is_ok());
    build(&"n".repeat(low)).unwrap();
    let error = build(&"n".repeat(low + 1)).err().unwrap();
    assert!(error.contains("LTP event metadata 65537 bytes"), "{error}");
}

#[test]
fn what_the_node_lacks_is_named() {
    let props = [peer_property("peer-a", &encoded_spki(1), "h")];
    let known = vec!["peer-a".to_string()];
    let missing = |known: &Vec<String>, id: Option<&str>, key: bool| {
        LtpOutput::from_properties("o", &props, known, id, key, DEFAULTS)
            .err()
            .unwrap()
            .message()
            .to_string()
    };
    assert!(missing(&vec![], Some("n"), true).contains("peer metrics are unavailable"));
    assert!(missing(&known, None, true).contains("node identity is unavailable"));
    assert!(missing(&known, Some("n"), false).contains("node key is unavailable"));
}

#[test]
fn event_frame_carries_only_key_own_stamp_and_egress() {
    let mut working = working_event_meta("node-a", &KEY, Some(100), &[]);
    let frame = event_frame(&mut working, Some(200), PREFIX, b"egress").unwrap();
    let (encoded, payload) = parts_of(&frame);
    assert_eq!(payload, b"egress");
    assert_eq!(decode_meta(&encoded), (KEY.to_vec(), vec![hop("node-a", 100, 200)]));
    assert!(!frame.windows(6).any(|window| window == b"secret"));
    assert!(!frame.windows(7).any(|window| window == b"ingress"));
    let meta = working.meta();
    assert_eq!(meta.key, KEY);
    assert_eq!(meta.stamps.len(), 1);
    assert_eq!(meta.stamps[0].node_id, "node-a");
    assert_eq!(meta.stamps[0].arrival_unix_nano, 100);
    assert_eq!(meta.stamps[0].departure_unix_nano, 200);
    assert_eq!(intra_latency(&working), 100);
    let frame = assemble_frame(PREFIX, b"meta", b"egress");
    assert_eq!(frame, b"LTPX\x01\x00\x00\x00\x04meta\x00\x00\x00\x06egress");
}

/// A retry carries the payload, the key and the stamps of the attempt before; only
/// this node's departure is another.
#[test]
fn two_attempts_carry_the_same_event() {
    let stamps = [stamp("peer", 1, 2)];
    let mut working = working_event_meta("node-a", &KEY, Some(100), &stamps);
    for (now, shown) in [(Some(300), 300), (Some(301), 301), (Some(-5), 0), (None, 0)] {
        let frame = event_frame(&mut working, now, PREFIX, b"payload").unwrap();
        let (encoded, payload) = parts_of(&frame);
        assert_eq!(payload, b"payload");
        let stamps = vec![hop("peer", 1, 2), hop("node-a", 100, shown)];
        assert_eq!(decode_meta(&encoded), (KEY.to_vec(), stamps));
    }
}

#[test]
fn frames_keep_to_the_metadata_limit() {
    let longest = vec![0u8; MAX_META_LEN];
    let (meta, payload) = parts_of(&checked_frame(PREFIX, &longest, b"p").unwrap());
    assert_eq!((meta.len(), payload), (MAX_META_LEN, b"p".to_vec()));
    let longer = vec![0u8; MAX_META_LEN + 1];
    let err = checked_frame(PREFIX, &longer, b"p").err().unwrap();
    assert_eq!(err.message(), "LTP frame is too long");
}

/// The name with which metadata of a key and one stamp are encoded in `len` bytes.
fn name_for(len: usize) -> String {
    ((len - 128)..=len)
        .map(|n| "n".repeat(n))
        .find(|name| encode_meta(&event_meta(name, &KEY, 123, 1)).len() == len)
        .unwrap()
}

#[test]
fn exact_metadata_limit_from_input_encodes_through_the_real_output_path() {
    let node_id = name_for(MAX_META_LEN);
    let stamps = [stamp(&node_id, 123, 0)];
    let mut working = working_event_meta(&node_id, &KEY, Some(123), &stamps);
    let frame = event_frame(&mut working, Some(200), PREFIX, b"payload").unwrap();
    let (encoded, payload) = parts_of(&frame);
    assert_eq!(encoded.len(), MAX_META_LEN);
    assert_eq!(decode_meta(&encoded).1.last().unwrap().2, 200);
    assert_eq!(payload, b"payload");
}

#[test]
fn metadata_one_byte_above_the_limit_are_refused() {
    let node_id = name_for(MAX_META_LEN + 1);
    let mut working = working_event_meta(&node_id, &KEY, Some(123), &[]);
    let err = event_frame(&mut working, Some(200), PREFIX, b"payload").err().unwrap();
    assert_eq!(err.message(), "LTP frame is too long");
    assert_eq!(working.meta().stamps[0].departure_unix_nano, 200);
}

/// Fields come in the order of their numbers; those that are empty or zero are left
/// out.
#[test]
fn metadata_have_one_encoding() {
    let meta = LtpMeta { key: vec![9, 8], stamps: vec![stamp("ab", 0x0102, 0), stamp("", 0, 1)] };
    let expected = [
        0x0a, 2, 9, 8, 0x12, 13, 0x0a, 2, b'a', b'b', 0x11, 2, 1, 0, 0, 0, 0, 0, 0, 0x12, 9, 0x19,
        1, 0, 0, 0, 0, 0, 0, 0,
    ];
    assert_eq!(encode_meta(&meta), expected);
    assert!(encode_meta(&LtpMeta { key: vec![], stamps: vec![] }).is_empty());
    let long = LtpMeta { key: vec![7; 300], stamps: vec![] };
    assert_eq!(encode_meta(&long)[..4], [0x0a, 0xac, 2, 7]);
    let accented = event_meta("\u{e9}", &KEY, 1, 2);
    let stamps = vec![hop("\u{e9}", 1, 2)];
    assert_eq!(decode_meta(&encode_meta(&accented)), (KEY.to_vec(), stamps));
}

#[test]
fn the_hello_carries_the_name_and_no_payload() {
    let frame = hello_frame("node-a", PREFIX).unwrap();
    assert_eq!(frame, b"LTPX\x01\x00\x00\x00\x08\x0a\x06node-a\x00\x00\x00\x00");
    assert_eq!(frame[frame.len() - 4..], [0, 0, 0, 0]);
    assert_eq!(encode_hello("node-a"), b"\x0a\x06node-a");
    assert!(encode_hello("").is_empty());
}

#[test]
fn the_metadata_of_an_event_that_begins_here_hold_one_stamp() {
    let meta = event_meta("n", &KEY, 1, 2);
    assert_eq!(meta.key, KEY);
    assert_eq!(meta.stamps.len(), 1);
    assert_eq!(meta.stamps[0].departure_unix_nano, 2);
}

#[test]
fn sixteen_hop_delivery_clones_once_and_reuses_working_metadata_across_attempts() {
    let mut stamps: Vec<HopStamp> =
        (0..15).map(|i| stamp(&format!("peer-{i}"), i, i + 1)).collect();
    stamps.push(stamp("node-a", 100, 0));
    let mut working = working_event_meta("node-a", &KEY, Some(100), &stamps);
    for now in [300, 301] {
        stamp_departure(&mut working, Some(now));
        let meta = working.meta();
        assert_eq!(meta.stamps.len(), 16);
        assert_eq!(working.local_stamp(), 15);
        for i in 0..15 {
            assert_eq!(meta.stamps[i].node_id, stamps[i].node_id);
            assert_eq!(meta.stamps[i].departure_unix_nano, stamps[i].departure_unix_nano);
        }
        assert_eq!(meta.stamps[15].node_id, "node-a");
        assert_ne!(meta.stamps[15].departure_unix_nano, 0);
    }
    assert_eq!(stamps[15].departure_unix_nano, 0);
}

#[test]
fn fanout_outputs_build_independent_exact_capacity_metadata_without_mutating_prefix() {
    let stamps = vec![stamp("peer", 1, 2)];
    let mut a = working_event_meta("node-a", &KEY, Some(100), &stamps);
    let mut b = working_event_meta("node-b", &KEY, Some(100), &stamps);
    stamp_departure(&mut a, Some(200));
    stamp_departure(&mut b, Some(300));
    assert_eq!(b.meta().stamps[0].node_id, "peer");
    assert_eq!(a.meta().stamps[1].node_id, "node-a");
    assert_eq!(a.meta().stamps[1].departure_unix_nano, 200);
    assert_eq!(b.meta().stamps[1].node_id, "node-b");
    assert_eq!(b.meta().stamps[1].departure_unix_nano, 300);
    assert_eq!(stamps.len(), 1);
    assert_eq!(stamps[0].departure_unix_nano, 2);
}

#[test]
fn output_appends_one_local_stamp_when_input_history_ends_at_a_peer() {
    let stamps: Vec<HopStamp> =
        (0..15).map(|i| stamp(&format!("peer-{i}"), i, i + 1)).collect();
    let working = working_event_meta("node-a", &KEY, Some(100), &stamps);
    assert_eq!(working.meta().stamps.len(), 16);
    assert_eq!(working.local_stamp(), 15);
    assert_eq!(working.meta().stamps[15].node_id, "node-a");
    assert_eq!(working.meta().stamps[15].departure_unix_nano, 0);
}

#[test]
fn negative_or_unrepresentable_timestamps_map_to_zero() {
    let mut working = working_event_meta("node-a", &KEY, Some(-1), &[]);
    stamp_departure(&mut working, Some(-1));
    assert_eq!(working.meta().stamps[0].arrival_unix_nano, 0);
    assert_eq!(working.meta().stamps[0].departure_unix_nano, 0);
    assert_eq!(wire_nanos(None), 0);
    assert_eq!(wire_nanos(Some(5)), 5);
}

#[test]
fn rebuilding_an_attempt_refreshes_only_departure_time() {
    let mut working = working_event_meta("node-a", &KEY, Some(100), &[]);
    stamp_departure(&mut working, Some(300));
    assert_eq!(working.meta().stamps[0].departure_unix_nano, 300);
    stamp_departure(&mut working, Some(301));
    assert_eq!(working.meta().key, KEY);
    assert_eq!(working.meta().stamps[0].arrival_unix_nano, 100);
    assert_eq!(working.meta().stamps[0].departure_unix_nano, 301);
}

#[test]
fn rpk_verifier_pins_exact_spki_and_requires_rpk_negotiation() {
    assert!(pin_accepts(&spki(1), &spki(1), 0));
    assert!(!pin_accepts(&spki(1), &spki(2), 0));
    assert!(!pin_accepts(&spki(1), &[0x30, 0x00], 0));
    assert!(!pin_accepts(&spki(1), &spki(1), 1));
}

fn start(cached: bool, drain: bool, stopping: bool) -> (LtpWrite, LtpAction) {
    LtpWrite::new(cached, drain, stopping)
}

fn no_latencies() -> LatencyTotals {
    LatencyTotals { count: 0, sum: 0 }
}

#[test]
fn event_delivery_requires_flush_and_counts_only_a_flushed_outer_frame() {
    let mut metrics = OutputMetrics::new();
    let mut latencies = no_latencies();
    let (mut write, first) = start(true, false, false);
    assert!(matches!(first, LtpAction::WriteEvent));
    let failed = write.step(
        LtpEvent::EventFailed { error: "scripted flush failure".to_string() },
        &mut metrics,
        &mut latencies,
    );
    assert!(matches!(failed, LtpAction::Failed { .. }));
    assert_eq!(metrics.bytes_written, 0);
    assert_eq!(latencies.count, 0);

    let (mut write, _) = start(true, false, false);
    let done = write.step(
        LtpEvent::EventWritten { frame_len: 42, latency: 100 },
        &mut metrics,
        &mut latencies,
    );
    assert!(matches!(done, LtpAction::Delivered));
    assert_eq!(metrics.bytes_written, 42);
    assert_eq!(latencies, LatencyTotals { count: 1, sum: 100 });
}

#[test]
fn departure_is_sampled_after_the_hello_flush() {
    let mut metrics = OutputMetrics::new();
    let mut latencies = no_latencies();
    let (mut write, first) = start(false, false, false);
    assert!(matches!(first, LtpAction::Connect));
    let hello =
        write.step(LtpEvent::Connected { stopping: false }, &mut metrics, &mut latencies);
    assert!(matches!(hello, LtpAction::WriteHello));
    let event = write.step(LtpEvent::HelloWritten, &mut metrics, &mut latencies);
    assert!(matches!(event, LtpAction::WriteEvent));
}

#[test]
fn oversize_payload_routes_directly_to_dlq_without_connect_or_retry() {
    let mut metrics = OutputMetrics::new();
    let refused = check_payload(1025, 1024).err().unwrap();
    assert_eq!(refused.message(), "LTP payload length 1025 exceeds the 1024 byte limit");
    let action = dead_letter(refused.message().to_string(), &mut metrics);
    assert!(matches!(action, DeliveryAction::DeadLetter { .. }));
    assert_eq!(metrics.retries, 0);
    assert_eq!(metrics.bytes_written, 0);
    assert_eq!(metrics.events_failed, 1);
}

#[test]
fn payload_at_the_exact_limit_enters_the_send_path() {
    assert!(check_payload(1024, 1024).is_ok());
}

#[test]
fn shutdown_success_counts_the_flushed_event_frame_once() {
    let mut metrics = OutputMetrics::new();
    let mut latencies = no_latencies();
    let (mut write, first) = start(false, true, true);
    assert!(matches!(first, LtpAction::Connect));
    write.step(LtpEvent::Connected { stopping: true }, &mut metrics, &mut latencies);
    write.step(LtpEvent::HelloWritten, &mut metrics, &mut latencies);
    write.step(LtpEvent::EventWritten { frame_len: 9, latency: 1 }, &mut metrics, &mut latencies);
    let action = finish_shutdown(DeliveryKind::Ltp, ShutdownWrite::Delivered, &mut metrics);
    assert!(matches!(action, DeliveryAction::Deliver));
    assert_eq!(metrics.bytes_written, 9);
    assert_eq!(metrics.events_written, 1);
    assert_eq!(latencies.count, 1);
}

#[test]
fn cancelled_cached_shutdown_write_drops_stream_and_reconnects_with_hello() {
    let mut metrics = OutputMetrics::new();
    let mut latencies = no_latencies();
    let (mut write, _) = start(true, true, true);
    let action = write.step(LtpEvent::TimedOut, &mut metrics, &mut latencies);
    let LtpAction::Failed { error } = action else { panic!("not failed") };
    assert_eq!(error, "LTP shutdown write timed out");
    assert!(!write.kept);
    assert_eq!(metrics.bytes_written, 0);
    let (mut next, first) = start(write.kept, true, true);
    assert!(matches!(first, LtpAction::Connect));
    let hello = next.step(LtpEvent::Connected { stopping: true }, &mut metrics, &mut latencies);
    assert!(matches!(hello, LtpAction::WriteHello));
}

#[test]
fn every_new_connection_sends_hello_before_its_event() {
    for _ in 0..2 {
        let mut metrics = OutputMetrics::new();
        let mut latencies = no_latencies();
        let (mut write, first) = start(false, false, false);
        let mut seen = vec![format!("{first:?}")];
        for event in [
            LtpEvent::Connected { stopping: false },
            LtpEvent::HelloWritten,
            LtpEvent::EventWritten { frame_len: 1, latency: 0 },
        ] {
            seen.push(format!("{:?}", write.step(event, &mut metrics, &mut latencies)));
        }
        assert_eq!(seen, vec!["Connect", "WriteHello", "WriteEvent", "Delivered"]);
        assert!(write.kept);
    }
}

#[test]
fn connect_failure_uses_the_existing_retry_and_dlq_contract() {
    let mut metrics = OutputMetrics::new();
    let mut latencies = no_latencies();
    let (mut write, _) = start(false, false, false);
    let action = write.step(
        LtpEvent::ConnectFailed { error: "refused".to_string() },
        &mut metrics,
        &mut latencies,
    );
    let LtpAction::Failed { error } = action else { panic!("not failed") };
    let retry = RetryConfig { max_attempts: 1, ..DEFAULTS };
    let mut delivery = Delivery::new(DeliveryKind::Ltp, "out", retry);
    let end = delivery
        .step(DeliveryEvent::Failed { error, written: 0, stopping: false }, &mut metrics);
    let DeliveryAction::DeadLetter { reason } = end else { panic!("not dead-lettered") };
    assert_eq!(reason, "LTP write failed after 1 attempts: refused");
    assert_eq!(metrics.retries, 1);
    assert_eq!(metrics.bytes_written, 0);
    assert_eq!(latencies.count, 0);
}

#[test]
fn pre_send_shutdown_cancels_without_connect_or_retry() {
    let mut metrics = OutputMetrics::new();
    let (_, first) = start(false, false, true);
    assert!(matches!(first, LtpAction::PreSendShutdown));
    let mut delivery = Delivery::new(DeliveryKind::Ltp, "out", DEFAULTS);
    let end = delivery.step(DeliveryEvent::PreSendShutdown, &mut metrics);
    let DeliveryAction::DeadLetter { reason } = end else { panic!("not dead-lettered") };
    assert_eq!(reason, "LTP write abandoned on shutdown before event bytes");
    assert_eq!(metrics.retries, 0);
    assert_eq!(metrics.bytes_written, 0);
}

#[test]
fn a_shutdown_while_connecting_stops_the_attempt() {
    let mut metrics = OutputMetrics::new();
    let mut latencies = no_latencies();
    let (mut write, _) = start(false, false, false);
    let a = write.step(LtpEvent::ConnectShutdown, &mut metrics, &mut latencies);
    assert!(matches!(a, LtpAction::PreSendShutdown));
    let (mut write, _) = start(false, false, false);
    let b = write.step(LtpEvent::Connected { stopping: true }, &mut metrics, &mut latencies);
    assert!(matches!(b, LtpAction::PreSendShutdown));
    assert!(!write.kept);
}
