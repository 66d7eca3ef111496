use limpid_output::metrics::OutputMetrics;
use limpid_output::otlp::buffer::{
    count_sent, settle_flush, shutdown_step, BatchBuffer, FlushResult, SendOutcome, ShutdownStep,
};
use limpid_output::otlp::config::{judge, parse_settings, OtlpKind};
use limpid_output::otlp::grpc::{
    metadata_key, needs_tls, response_outcome as grpc_outcome, settle_send, OtlpGrpcOutput,
};
use limpid_output::otlp::http::{
    combined_pem, request_body, response_outcome, status_error, status_is_success, HttpProtocol,
    OtlpHttpOutput,
};
use limpid_output::otlp::merge::{
    attrs_eq, build_request, decode_drained_to_request, merge_by_resource, merge_by_scope,
    schema_urls_compatible, BatchLevel,
};
use limpid_output::otlp::model::{
    InstrumentationScope, KeyValue, Resource, ResourceLogs, ScopeLogs,
};
use limpid_output::otlp::ship::{Ship, ShipAction, ShipEvent};
use limpid_output::otlp::single::{
    self, AfterWrite, ClientSetup, OtlpOutput, Protocol,
};
use limpid_output::peer_rotation::RotatingPeers;
use limpid_output::props::{Expr, Property};
use limpid_output::retry::{BackoffStrategy, RetryConfig};
use opentelemetry_proto::tonic::collector::logs::v1 as collector;
use opentelemetry_proto::tonic::common::v1 as common;
use opentelemetry_proto::tonic::logs::v1 as logs;
use opentelemetry_proto::tonic::resource::v1 as resource;
use prost::Message;

const DEFAULTS: RetryConfig = RetryConfig {
    max_attempts: 5,
    initial_wait: 1_000_000_000,
    max_wait: 30_000_000_000,
    backoff: BackoffStrategy::Exponential,
};

const MILLI: u64 = 1_000_000;

fn prop_str(key: &str, val: &str) -> Property {
    Property::KeyValue { key: key.to_string(), value: Expr::StringLit(val.to_string()) }
}

fn prop_int(key: &str, val: i64) -> Property {
    Property::KeyValue { key: key.to_string(), value: Expr::IntLit(val) }
}

fn prop_ident(key: &str, val: &str) -> Property {
    Property::KeyValue { key: key.to_string(), value: Expr::Ident(vec![val.to_string()]) }
}

fn block(key: &str, properties: Vec<Property>) -> Property {
    Property::Block { key: key.to_string(), properties }
}

fn peer_block(endpoint: &str) -> Property {
    block("peer", vec![prop_str("endpoint", endpoint)])
}

fn peers_block_with(peers: Vec<Property>) -> Property {
    block("peers", peers)
}

fn one_peer_props(endpoint: &str) -> Vec<Property> {
    vec![peers_block_with(vec![peer_block(endpoint)])]
}

fn tls_peer(endpoint: &str, tls: Vec<Property>) -> Vec<Property> {
    vec![peers_block_with(vec![block(
        "peer",
        vec![prop_str("endpoint", endpoint), block("tls", tls)],
    )])]
}

fn http(props: &[Property]) -> OtlpHttpOutput {
    OtlpHttpOutput::from_properties("o", props, DEFAULTS).unwrap()
}

fn http_error(props: &[Property]) -> String {
    OtlpHttpOutput::from_properties("o", props, DEFAULTS).err().unwrap().message().to_string()
}

fn grpc(props: &[Property]) -> OtlpGrpcOutput {
    OtlpGrpcOutput::from_properties("o", props, DEFAULTS).unwrap()
}

fn grpc_error(props: &[Property]) -> String {
    OtlpGrpcOutput::from_properties("o", props, DEFAULTS).err().unwrap().message().to_string()
}

fn otlp(props: &[Property]) -> Result<OtlpOutput, String> {
    OtlpOutput::from_properties("o", props, ClientSetup::Ready)
        .map_err(|e| e.message().to_string())
}

// Merging.

fn text_value(s: &str) -> Vec<u8> {
    common::AnyValue {
        value: Some(common::any_value::Value::StringValue(s.to_string())),
    }
    .encode_to_vec()
}

fn record(t: u64) -> Vec<u8> {
    logs::LogRecord { time_unix_nano: t, ..Default::default() }.encode_to_vec()
}

fn time_of(record: &[u8]) -> u64 {
    logs::LogRecord::decode(record).unwrap().time_unix_nano
}

fn singleton(svc: &str, scope: &str, t: u64) -> ResourceLogs {
    ResourceLogs {
        resource: Some(Resource {
            attributes: vec![KeyValue {
                key: "service.name".to_string(),
                value: Some(text_value(svc)),
            }],
            dropped_attributes_count: 0,
        }),
        scope_logs: vec![ScopeLogs {
            scope: Some(InstrumentationScope {
                name: scope.to_string(),
                version: "0".to_string(),
                attributes: vec![],
                dropped_attributes_count: 0,
            }),
            log_records: vec![record(t)],
            schema_url: String::new(),
        }],
        schema_url: String::new(),
    }
}

fn singleton_with_schema(svc: &str, scope: &str, t: u64, schema: &str) -> ResourceLogs {
    let mut rl = singleton(svc, scope, t);
    rl.schema_url = schema.to_string();
    rl
}

#[test]
fn merge_by_resource_collapses_same_resource() {
    let req = merge_by_resource(vec![
        singleton("svc-a", "scope-1", 1),
        singleton("svc-a", "scope-2", 2),
    ]);
    assert_eq!(req.resource_logs.len(), 1);
    assert_eq!(req.resource_logs[0].scope_logs.len(), 2);
}

#[test]
fn merge_by_resource_keeps_distinct_resources_separate() {
    let req = merge_by_resource(vec![
        singleton("svc-a", "scope-1", 1),
        singleton("svc-b", "scope-1", 2),
    ]);
    assert_eq!(req.resource_logs.len(), 2);
}

#[test]
fn merge_by_resource_does_not_drop_distinct_schema_urls() {
    let req = merge_by_resource(vec![
        singleton_with_schema("svc-a", "scope-1", 1, "https://schemas.example.com/v1"),
        singleton_with_schema("svc-a", "scope-1", 2, "https://schemas.example.com/v2"),
    ]);
    assert_eq!(req.resource_logs.len(), 2, "different schema_urls must stay distinct");
    let urls: Vec<&str> = req.resource_logs.iter().map(|rl| rl.schema_url.as_str()).collect();
    assert!(urls.contains(&"https://schemas.example.com/v1"));
    assert!(urls.contains(&"https://schemas.example.com/v2"));
}

#[test]
fn merge_by_resource_merges_empty_into_existing_schema_url() {
    let req = merge_by_resource(vec![
        singleton_with_schema("svc-a", "scope-1", 1, "https://schemas.example.com/v1"),
        singleton_with_schema("svc-a", "scope-2", 2, ""),
    ]);
    assert_eq!(req.resource_logs.len(), 1);
    assert_eq!(req.resource_logs[0].schema_url, "https://schemas.example.com/v1");
    assert_eq!(req.resource_logs[0].scope_logs.len(), 2);
}

#[test]
fn merge_by_resource_promotes_empty_acc_with_incoming_schema_url() {
    let req = merge_by_resource(vec![
        singleton_with_schema("svc-a", "scope-1", 1, ""),
        singleton_with_schema("svc-a", "scope-2", 2, "https://schemas.example.com/v1"),
    ]);
    assert_eq!(req.resource_logs.len(), 1);
    assert_eq!(req.resource_logs[0].schema_url, "https://schemas.example.com/v1");
}

#[test]
fn merge_by_scope_does_not_drop_distinct_scope_schema_urls() {
    let mut a = singleton("svc-a", "scope-1", 1);
    a.scope_logs[0].schema_url = "https://schemas.example.com/scope/v1".to_string();
    let mut b = singleton("svc-a", "scope-1", 2);
    b.scope_logs[0].schema_url = "https://schemas.example.com/scope/v2".to_string();
    let req = merge_by_scope(vec![a, b]);
    assert_eq!(req.resource_logs.len(), 1);
    assert_eq!(req.resource_logs[0].scope_logs.len(), 2);
    let urls: Vec<&str> =
        req.resource_logs[0].scope_logs.iter().map(|sl| sl.schema_url.as_str()).collect();
    assert!(urls.contains(&"https://schemas.example.com/scope/v1"));
    assert!(urls.contains(&"https://schemas.example.com/scope/v2"));
}

#[test]
fn merge_by_scope_collapses_same_resource_and_scope() {
    let req = merge_by_scope(vec![
        singleton("svc-a", "scope-1", 1),
        singleton("svc-a", "scope-1", 2),
    ]);
    assert_eq!(req.resource_logs.len(), 1);
    assert_eq!(req.resource_logs[0].scope_logs.len(), 1);
    assert_eq!(req.resource_logs[0].scope_logs[0].log_records.len(), 2);
    let times: Vec<u64> = req.resource_logs[0].scope_logs[0]
        .log_records
        .iter()
        .map(|lr| time_of(lr))
        .collect();
    assert_eq!(times, vec![1, 2]);
}

#[test]
fn merge_by_scope_handles_three_levels() {
    let req = merge_by_scope(vec![
        singleton("svc-a", "scope-1", 1),
        singleton("svc-a", "scope-1", 2),
        singleton("svc-a", "scope-2", 3),
        singleton("svc-a", "scope-2", 4),
        singleton("svc-b", "scope-1", 5),
        singleton("svc-b", "scope-1", 6),
        singleton("svc-b", "scope-2", 7),
        singleton("svc-b", "scope-2", 8),
    ]);
    assert_eq!(req.resource_logs.len(), 2);
    for rl in &req.resource_logs {
        assert_eq!(rl.scope_logs.len(), 2);
        for sl in &rl.scope_logs {
            assert_eq!(sl.log_records.len(), 2);
        }
    }
    let total_records: usize = req
        .resource_logs
        .iter()
        .flat_map(|rl| rl.scope_logs.iter())
        .map(|sl| sl.log_records.len())
        .sum();
    assert_eq!(total_records, 8);
}

fn key(k: &str) -> KeyValue {
    KeyValue { key: k.to_string(), value: None }
}

fn pair(k: &str, v: &str) -> KeyValue {
    KeyValue { key: k.to_string(), value: Some(text_value(v)) }
}

#[test]
fn attrs_eq_is_order_insensitive() {
    assert!(attrs_eq(&[key("k1"), key("k2")], &[key("k2"), key("k1")]));
}

#[test]
fn attributes_differ_in_keys_values_and_number() {
    assert!(attrs_eq(&[pair("k", "v")], &[pair("k", "v")]));
    assert!(!attrs_eq(&[pair("k", "v")], &[pair("k", "w")]));
    assert!(!attrs_eq(&[pair("k", "v")], &[key("k")]));
    assert!(!attrs_eq(&[key("k")], &[key("k"), key("k")]));
    assert!(!attrs_eq(&[key("a"), key("a"), key("b")], &[key("a"), key("b"), key("b")]));
}

/// A key may occur several times: what counts is which pairs there are, and how often.
#[test]
fn repeated_attributes_match_in_any_order() {
    let (v, w) = (|| pair("k", "v"), || pair("k", "w"));
    assert!(attrs_eq(&[v(), w()], &[w(), v()]));
    assert!(attrs_eq(&[v(), w(), v()], &[v(), v(), w()]));
    assert!(!attrs_eq(&[v(), w(), v()], &[v(), w(), w()]));
    assert!(attrs_eq(&[v(), key("k"), pair("j", "v")], &[key("k"), pair("j", "v"), v()]));
}

#[test]
fn resources_with_repeated_attributes_merge() {
    let with = |attributes: Vec<KeyValue>, t: u64| {
        let mut r = singleton("svc", "s", t);
        r.resource = Some(Resource { attributes, dropped_attributes_count: 0 });
        r
    };
    let req = merge_by_scope(vec![
        with(vec![pair("k", "v"), pair("k", "w")], 1),
        with(vec![pair("k", "w"), pair("k", "v")], 2),
        with(vec![pair("k", "w"), pair("k", "w")], 3),
    ]);
    assert_eq!(req.resource_logs.len(), 2);
    let times: Vec<u64> =
        req.resource_logs[0].scope_logs[0].log_records.iter().map(|r| time_of(r)).collect();
    assert_eq!(times, vec![1, 2]);
}

/// A merged batch stays as it is when it is merged again, also where a missing schema
/// URL was filled in.
#[test]
fn merging_again_changes_nothing() {
    let batch = || {
        vec![
            singleton("a", "s", 1),
            singleton_with_schema("b", "s", 2, "v1"),
            singleton_with_schema("a", "t", 3, "v1"),
            singleton_with_schema("a", "s", 4, "v2"),
            singleton("b", "s", 5),
        ]
    };
    let shape = |list: &[ResourceLogs]| -> Vec<(String, Vec<Vec<u64>>)> {
        list.iter()
            .map(|rl| {
                let times = rl.scope_logs.iter();
                let times = times.map(|sl| sl.log_records.iter().map(|r| time_of(r)).collect());
                (rl.schema_url.clone(), times.collect())
            })
            .collect()
    };
    let v = |s: &str| s.to_string();
    let once = merge_by_resource(batch());
    let expected =
        vec![(v("v1"), vec![vec![1], vec![3]]), (v("v1"), vec![vec![2], vec![5]]), (v("v2"), vec![vec![4]])];
    assert_eq!(shape(&once.resource_logs), expected);
    assert_eq!(shape(&merge_by_resource(once.resource_logs).resource_logs), expected);
    let once = merge_by_scope(batch());
    let expected =
        vec![(v("v1"), vec![vec![1], vec![3]]), (v("v1"), vec![vec![2, 5]]), (v("v2"), vec![vec![4]])];
    assert_eq!(shape(&once.resource_logs), expected);
    assert_eq!(shape(&merge_by_scope(once.resource_logs).resource_logs), expected);
}

/// A value that is no number equals no value, itself included; equal numbers are
/// equal whatever their encoding.
#[test]
fn attribute_values_are_compared_as_values() {
    let double = |d: f64| {
        common::AnyValue { value: Some(common::any_value::Value::DoubleValue(d)) }.encode_to_vec()
    };
    let of = |bytes: Vec<u8>| vec![KeyValue { key: "k".to_string(), value: Some(bytes) }];
    assert!(!attrs_eq(&of(double(f64::NAN)), &of(double(f64::NAN))));
    assert!(attrs_eq(&of(double(0.0)), &of(double(-0.0))));
}

#[test]
fn schema_urls_agree_where_one_is_missing() {
    assert!(schema_urls_compatible("", "v1"));
    assert!(schema_urls_compatible("v1", ""));
    assert!(schema_urls_compatible("v1", "v1"));
    assert!(!schema_urls_compatible("v1", "v2"));
}

#[test]
fn an_unmerged_request_keeps_its_entries() {
    let req = build_request(
        vec![singleton("a", "s", 1), singleton("a", "s", 2)],
        BatchLevel::Unmerged,
    );
    assert_eq!(req.resource_logs.len(), 2);
    assert!(matches!(BatchLevel::parse("none", "o"), Ok(BatchLevel::Unmerged)));
    assert!(matches!(BatchLevel::parse("resource", "o"), Ok(BatchLevel::Resource)));
    assert!(matches!(BatchLevel::parse("scope", "o"), Ok(BatchLevel::Scope)));
    let err = BatchLevel::parse("tenant", "o").err().unwrap();
    assert_eq!(
        err.message(),
        "output 'o': unknown batch_level 'tenant' (expected none, resource, or scope)"
    );
}

// The wire.

fn singleton_bytes(time_unix_nano: u64) -> Vec<u8> {
    logs::ResourceLogs {
        resource: Some(resource::Resource {
            attributes: vec![common::KeyValue {
                key: "host".to_string(),
                value: Some(common::AnyValue {
                    value: Some(common::any_value::Value::StringValue("h1".to_string())),
                }),
            }],
            dropped_attributes_count: 3,
        }),
        scope_logs: vec![logs::ScopeLogs {
            scope: Some(common::InstrumentationScope {
                name: "limpid-test".to_string(),
                version: "0.5.0".to_string(),
                attributes: vec![],
                dropped_attributes_count: 1,
            }),
            log_records: vec![logs::LogRecord {
                time_unix_nano,
                severity_number: 9,
                severity_text: "INFO".to_string(),
                ..Default::default()
            }],
            schema_url: "s".to_string(),
        }],
        schema_url: "r".to_string(),
    }
    .encode_to_vec()
}

#[test]
fn round_trip_protobuf() {
    let drained = vec![singleton_bytes(123)];
    let req = decode_drained_to_request(&drained, BatchLevel::Unmerged).unwrap();
    let body = request_body(HttpProtocol::Protobuf, &req).unwrap();
    let got = collector::ExportLogsServiceRequest::decode(&body[..]).unwrap();
    assert_eq!(got.resource_logs.len(), 1);
    assert_eq!(got.resource_logs[0].scope_logs[0].log_records[0].time_unix_nano, 123);
    assert_eq!(got.resource_logs[0], logs::ResourceLogs::decode(&drained[0][..]).unwrap());
}

#[test]
fn round_trip_json() {
    let drained = vec![singleton_bytes(456)];
    let req = decode_drained_to_request(&drained, BatchLevel::Scope).unwrap();
    let body = request_body(HttpProtocol::Json, &req).unwrap();
    let got: collector::ExportLogsServiceRequest = serde_json::from_slice(&body).unwrap();
    assert_eq!(got.resource_logs.len(), 1);
    assert_eq!(got.resource_logs[0].scope_logs[0].log_records[0].time_unix_nano, 456);
    assert_eq!(got.resource_logs[0].schema_url, "r");
}

const LEVELS: [BatchLevel; 3] = [BatchLevel::Unmerged, BatchLevel::Resource, BatchLevel::Scope];

#[test]
fn a_payload_that_is_no_log_data_fails_the_batch() {
    let drained = vec![singleton_bytes(1), vec![0xff, 0xff]];
    for level in LEVELS {
        let err = decode_drained_to_request(&drained, level).err().unwrap();
        assert!(err.message().contains("not a valid ResourceLogs proto"), "{}", err.message());
    }
}

/// Whatever the level, a batch carries the same records under the same resource and
/// scope, in the order in which they came.
#[test]
fn every_level_carries_the_same_records() {
    let drained = vec![singleton_bytes(3), singleton_bytes(1), singleton_bytes(2)];
    for (level, entries) in LEVELS.into_iter().zip([3, 1, 1]) {
        let req = decode_drained_to_request(&drained, level).unwrap();
        assert_eq!(req.resource_logs.len(), entries);
        let mut times = Vec::new();
        for rl in &req.resource_logs {
            assert_eq!(rl.resource.as_ref().unwrap().attributes[0].key, "host");
            for sl in &rl.scope_logs {
                assert_eq!(sl.scope.as_ref().unwrap().name, "limpid-test");
                times.extend(sl.log_records.iter().map(|r| time_of(r)));
            }
        }
        assert_eq!(times, vec![3, 1, 2]);
    }
}

fn answer(rejected: i64) -> collector::ExportLogsServiceResponse {
    collector::ExportLogsServiceResponse {
        partial_success: Some(collector::ExportLogsPartialSuccess {
            rejected_log_records: rejected,
            error_message: "test partial-success".to_string(),
        }),
    }
}

#[test]
fn http_partial_success_rejected_log_records_routes_to_events_failed() {
    let mut metrics = OutputMetrics::new();
    let outcome = response_outcome(HttpProtocol::Protobuf, &answer(2).encode_to_vec());
    count_sent(&mut metrics, 3, outcome);
    assert_eq!(metrics.events_written, 1);
    assert_eq!(metrics.events_failed, 2);
}

#[test]
fn grpc_partial_success_rejected_log_records_routes_to_events_failed() {
    let mut metrics = OutputMetrics::new();
    count_sent(&mut metrics, 3, grpc_outcome(Some(2)));
    assert_eq!(metrics.events_written, 1);
    assert_eq!(metrics.events_failed, 2);
    count_sent(&mut metrics, 3, grpc_outcome(Some(-1)));
    assert_eq!(metrics.events_written, 4);
    count_sent(&mut metrics, 3, SendOutcome { rejected: 100 });
    assert_eq!(metrics.events_failed, 5);
}

#[test]
fn responses_are_read_in_the_encoding_of_the_request() {
    let json = serde_json::to_vec(&answer(2)).unwrap();
    assert_eq!(response_outcome(HttpProtocol::Json, &json).rejected, 2);
    assert_eq!(response_outcome(HttpProtocol::Json, b"").rejected, 0);
    assert_eq!(response_outcome(HttpProtocol::Json, b"not json").rejected, 0);
    assert_eq!(response_outcome(HttpProtocol::Protobuf, &[0xff]).rejected, 0);
    assert_eq!(response_outcome(HttpProtocol::Protobuf, b"").rejected, 0);
}

#[test]
fn statuses_are_told_apart() {
    assert!(status_is_success(200) && status_is_success(299));
    assert!(!status_is_success(199) && !status_is_success(300));
    let err = status_error("http://x", 503, "busy");
    assert_eq!(err.message(), "output otlp_http: http://x returned HTTP 503 — busy");
}

#[test]
fn a_client_identity_is_one_text() {
    assert_eq!(combined_pem(b"cert\n", b"key"), b"cert\nkey");
    assert_eq!(combined_pem(b"cert", b"key"), b"cert\nkey");
    assert_eq!(combined_pem(b"", b"key"), b"\nkey");
}

// The output over HTTP.

#[test]
fn http_requires_peer_or_peers_block() {
    let err = http_error(&[]);
    assert!(err.contains("'peer {") && err.contains("'peers {"), "unexpected: {err}");
}

#[test]
fn http_accepts_single_peer_shorthand() {
    let output = http(&[peer_block("http://x:4318/v1/logs")]);
    assert_eq!(output.peers.len(), 1);
    assert_eq!(output.peers[0].endpoint, "http://x:4318/v1/logs");
}

#[test]
fn http_rejects_peers_block_with_no_peer() {
    assert!(http_error(&[peers_block_with(vec![])]).contains("at least one peer"));
}

#[test]
fn one_destination_only() {
    let mut props = one_peer_props("http://a:4318");
    props.push(peer_block("http://b:4318"));
    let expected =
        "output 'o': 'peer' and 'peers' are mutually exclusive (exclusive group 'destination')";
    assert_eq!(http_error(&props), expected);
    assert_eq!(grpc_error(&props), expected);
}

#[test]
fn peer_requires_endpoint() {
    assert!(http_error(&[peers_block_with(vec![block("peer", vec![])])]).contains("endpoint"));
}

#[test]
fn http_defaults_protocol_to_http_protobuf() {
    let output = http(&one_peer_props("http://x"));
    assert!(matches!(output.protocol, HttpProtocol::Protobuf));
    assert_eq!(output.protocol.content_type(), "application/x-protobuf");
    assert_eq!(HttpProtocol::Json.content_type(), "application/json");
}

#[test]
fn rejects_unknown_protocol_value() {
    let mut props = one_peer_props("http://x");
    props.push(prop_str("protocol", "carrier_pigeon"));
    assert!(http_error(&props).contains("unknown"));
}

#[test]
fn http_batch_level_default_is_none() {
    let output = http(&one_peer_props("http://x"));
    assert!(matches!(output.batch.level, BatchLevel::Unmerged));
    assert_eq!(output.batch.timeout, 5_000 * MILLI);
}

#[test]
fn http_batch_size_defaults_to_one() {
    assert_eq!(http(&one_peer_props("http://x")).batch.size, 1);
}

#[test]
fn http_parses_multi_peer_block() {
    let output = http(&[peers_block_with(vec![
        peer_block("http://a"),
        peer_block("http://b"),
        peer_block("http://c"),
    ])]);
    assert_eq!(output.peers.len(), 3);
    assert_eq!(output.peers[0].endpoint, "http://a");
    assert_eq!(output.peers[2].endpoint, "http://c");
}

#[test]
fn rejects_tls_with_cert_but_no_key() {
    let props = tls_peer("https://x", vec![prop_str("cert", "/c.pem")]);
    assert!(http_error(&props).contains("cert and key"));
}

#[test]
fn http_retry_block_overrides_defaults() {
    let mut props = one_peer_props("http://x");
    props.push(block(
        "retry",
        vec![
            prop_int("max_attempts", 2),
            prop_str("initial_wait", "100ms"),
            prop_str("max_wait", "500ms"),
        ],
    ));
    let output = http(&props);
    assert_eq!(output.retry.max_attempts, 2);
    assert_eq!(output.retry.initial_wait, 100 * MILLI);
}

#[test]
fn http_rejects_tls_block_on_plaintext_endpoint() {
    let props = tls_peer(
        "http://collector.example.com:4318/v1/logs",
        vec![prop_str("ca", "/etc/ca.pem")],
    );
    let msg = http_error(&props);
    assert!(msg.contains("plaintext") && msg.contains("https://"), "unexpected: {msg}");
}

#[test]
fn http_accepts_empty_tls_block_on_https_endpoint() {
    let output = http(&tls_peer("https://collector.example.com:4318/v1/logs", vec![]));
    assert_eq!(output.peers.len(), 1);
    assert_eq!(http(&tls_peer("HTTPS://x", vec![])).peers.len(), 1);
}

#[test]
fn headers_and_verify_are_read() {
    let mut props = one_peer_props("http://x");
    props.push(block("headers", vec![prop_str("Authorization", "t"), prop_ident("X", "y")]));
    props.push(prop_ident("verify", "false"));
    let output = http(&props);
    assert_eq!(output.headers[0], ("Authorization".to_string(), "t".to_string()));
    assert_eq!(output.headers[1], ("X".to_string(), "y".to_string()));
    assert!(!output.verify);
    assert!(http(&one_peer_props("http://x")).verify);
}

fn retry(attempts: u32, initial: u64, max: u64) -> RetryConfig {
    RetryConfig {
        max_attempts: attempts,
        initial_wait: initial * MILLI,
        max_wait: max * MILLI,
        backoff: BackoffStrategy::Exponential,
    }
}

fn failed(at: u64, error: &str) -> ShipEvent {
    ShipEvent::Failed { at, error: error.to_string() }
}

#[test]
fn retries_until_success_single_peer() {
    let mut peers = RotatingPeers::new(1);
    let (mut ship, mut action) = Ship::new(retry(5, 10, 50), &mut peers, 0);
    let mut attempts = 0;
    let mut waits = Vec::new();
    loop {
        action = match action {
            ShipAction::Send { peer } => {
                assert_eq!(peer, 0);
                attempts += 1;
                let event = if attempts <= 2 { failed(0, "503") } else { ShipEvent::Sent };
                ship.step(event, &mut peers)
            }
            ShipAction::Wait { nanos } => {
                waits.push(nanos);
                ship.step(ShipEvent::WaitElapsed { now: 0 }, &mut peers)
            }
            ShipAction::Done => break,
            ShipAction::GiveUp { error } => panic!("{error}"),
        };
    }
    assert_eq!(attempts, 3);
    assert_eq!(waits, vec![10 * MILLI, 20 * MILLI]);
    assert_eq!(peers.cooldown_until(0), None);
}

#[test]
fn rotates_to_healthy_peer_when_first_fails() {
    let mut peers = RotatingPeers::new(2);
    let (mut ship, first) = Ship::new(retry(3, 10, 20), &mut peers, 0);
    assert!(matches!(first, ShipAction::Send { peer: 0 }));
    assert!(matches!(ship.step(failed(0, "500"), &mut peers), ShipAction::Wait { .. }));
    let next = ship.step(ShipEvent::WaitElapsed { now: 10 * MILLI }, &mut peers);
    assert!(matches!(next, ShipAction::Send { peer: 1 }));
    assert!(matches!(ship.step(ShipEvent::Sent, &mut peers), ShipAction::Done));
}

#[test]
fn gives_up_after_max_attempts_all_peers_fail() {
    let mut peers = RotatingPeers::new(1);
    let (mut ship, _) = Ship::new(retry(3, 10, 20), &mut peers, 0);
    for _ in 0..2 {
        assert!(matches!(ship.step(failed(0, "HTTP 503"), &mut peers), ShipAction::Wait { .. }));
        ship.step(ShipEvent::WaitElapsed { now: 0 }, &mut peers);
    }
    let end = ship.step(failed(0, "HTTP 503"), &mut peers);
    let ShipAction::GiveUp { error } = end else { panic!("still trying") };
    assert!(error.contains("503"), "unexpected error after retry exhaustion: {error}");
}

#[test]
fn flush_failure_restores_batch_to_buffer() {
    let mut metrics = OutputMetrics::new();
    let mut buffer = BatchBuffer::new(2);
    assert!(!buffer.push(singleton_bytes(1)));
    assert_eq!(buffer.len(), 1);
    assert!(buffer.push(singleton_bytes(2)));
    let drained = buffer.drain();
    assert_eq!(buffer.len(), 0);
    settle_flush(&mut buffer, drained, FlushResult::Failed, &mut metrics);
    assert_eq!(buffer.len(), 2);
    assert_eq!(metrics.events_failed, 0);
    assert_eq!(buffer.drain()[0], singleton_bytes(1));
}

#[test]
fn http_shutdown_flushes_pending_batch_buffer() {
    let mut metrics = OutputMetrics::new();
    let mut buffer = BatchBuffer::new(100);
    buffer.push(singleton_bytes(1));
    buffer.push(singleton_bytes(2));
    let drained = buffer.drain();
    let req = decode_drained_to_request(&drained, BatchLevel::Unmerged).unwrap();
    let count: usize = req
        .resource_logs
        .iter()
        .flat_map(|rl| rl.scope_logs.iter())
        .map(|sl| sl.log_records.len())
        .sum();
    assert_eq!(count, 2);
    let sent = FlushResult::Sent(SendOutcome { rejected: 0 });
    settle_flush(&mut buffer, drained, sent, &mut metrics);
    assert!(matches!(shutdown_step(&mut buffer, true, true), ShutdownStep::Done));
    assert_eq!(buffer.len(), 0);
    assert_eq!(metrics.events_written, 2);
}

fn two_buffered() -> BatchBuffer {
    let mut buffer = BatchBuffer::new(100);
    buffer.push(vec![1]);
    buffer.push(vec![2]);
    buffer
}

#[test]
fn http_shutdown_failure_with_error_log_persists_buffer() {
    let mut buffer = two_buffered();
    let step = shutdown_step(&mut buffer, false, true);
    let ShutdownStep::WriteToErrorLog(lost) = step else { panic!("lost") };
    assert_eq!(lost, vec![vec![1], vec![2]]);
    assert_eq!(buffer.len(), 0);
}

#[test]
fn shutdown_failure_without_error_log_matches_077() {
    let mut buffer = two_buffered();
    assert!(matches!(shutdown_step(&mut buffer, false, false), ShutdownStep::Fail));
    assert_eq!(buffer.len(), 2);
}

// The output over gRPC.

#[test]
fn grpc_requires_peer_or_peers_block() {
    let err = grpc_error(&[]);
    assert!(err.contains("'peer {") && err.contains("'peers {"), "unexpected: {err}");
}

#[test]
fn grpc_accepts_single_peer_shorthand() {
    let output = grpc(&[peer_block("http://x:4317")]);
    assert_eq!(output.peers.len(), 1);
    assert_eq!(output.peers[0].endpoint, "http://x:4317");
}

#[test]
fn grpc_rejects_peers_block_with_no_peer() {
    assert!(grpc_error(&[peers_block_with(vec![])]).contains("at least one peer"));
}

#[test]
fn accepts_plain_http_endpoint() {
    let output = grpc(&one_peer_props("http://localhost:4317"));
    assert_eq!(output.peers.len(), 1);
    assert!(!needs_tls(&output.peers[0]));
}

#[test]
fn grpc_rejects_tls_block_on_plaintext_endpoint() {
    let props =
        tls_peer("http://collector.example.com:4317", vec![prop_str("ca", "/etc/ca.pem")]);
    let msg = grpc_error(&props);
    assert!(msg.contains("plaintext") && msg.contains("https://"), "unexpected: {msg}");
}

#[test]
fn grpc_accepts_empty_tls_block_on_https_endpoint() {
    let output = grpc(&tls_peer("https://collector.example.com:4317", vec![]));
    assert_eq!(output.peers.len(), 1);
}

#[test]
fn accepts_https_endpoint_with_native_tls() {
    let output = grpc(&one_peer_props("https://collector.example.com:4317"));
    assert_eq!(output.peers.len(), 1);
    assert!(needs_tls(&output.peers[0]));
}

#[test]
fn grpc_parses_multi_peer_block() {
    let output =
        grpc(&[peers_block_with(vec![peer_block("http://a:4317"), peer_block("http://b:4317")])]);
    assert_eq!(output.peers.len(), 2);
    assert_eq!(output.peers[0].endpoint, "http://a:4317");
}

#[test]
fn rejects_tls_with_key_but_no_cert() {
    let props = tls_peer("https://x:4317", vec![prop_str("key", "/k.pem")]);
    assert!(grpc_error(&props).contains("cert and key"));
}

#[test]
fn grpc_batch_level_default_is_none() {
    assert!(matches!(grpc(&one_peer_props("http://x")).batch.level, BatchLevel::Unmerged));
}

#[test]
fn grpc_batch_size_defaults_to_one() {
    assert_eq!(grpc(&one_peer_props("http://x")).batch.size, 1);
}

#[test]
fn grpc_retry_block_overrides_defaults() {
    let mut props = one_peer_props("http://x");
    props.push(block(
        "retry",
        vec![prop_int("max_attempts", 2), prop_str("initial_wait", "100ms")],
    ));
    assert_eq!(grpc(&props).retry.max_attempts, 2);
}

#[test]
fn a_text_that_is_no_uri_is_no_grpc_endpoint() {
    let err = grpc_error(&one_peer_props("http://a b"));
    assert_eq!(err, "output 'o': invalid gRPC endpoint 'http://a b'");
    // Over HTTP the client judges it.
    assert_eq!(http(&one_peer_props("http://a b")).peers.len(), 1);
    let peer = parse_settings(OtlpKind::Grpc, "o", &[prop_str("endpoint", "x")]).unwrap();
    assert!(judge(OtlpKind::Grpc, "o", peer, false).is_err());
    let peer = parse_settings(OtlpKind::Http, "o", &[prop_str("endpoint", "x")]).unwrap();
    assert!(judge(OtlpKind::Http, "o", peer, false).is_ok());
}

#[test]
fn metadata_keys_are_lower_case() {
    assert_eq!(metadata_key("Authorization"), "authorization");
    assert_eq!(metadata_key("X-É"), "x-É");
}

#[test]
fn a_failed_send_cools_its_peer_down() {
    let mut rotation = RotatingPeers::new(2);
    settle_send(&mut rotation, 0, Some(7));
    assert_eq!(rotation.cooldown_until(0), Some(5_000_000_007));
    settle_send(&mut rotation, 0, None);
    assert_eq!(rotation.cooldown_until(0), None);
}

// The output with one collector.

#[test]
fn requires_endpoint() {
    assert!(otlp(&[]).err().unwrap().contains("endpoint"));
}

#[test]
fn accepts_grpc_protocol() {
    let props = [prop_str("endpoint", "http://localhost:4317"), prop_str("protocol", "grpc")];
    let output = otlp(&props).unwrap();
    assert!(matches!(output.settings.protocol, Protocol::Grpc));
    assert_eq!(output.settings.protocol.content_type(), None);
    assert!(!single::needs_tls(&output.settings));
}

#[test]
fn grpc_with_https_uses_tls_channel() {
    let props = [
        prop_str("endpoint", "https://collector.example.com:4317"),
        prop_str("protocol", "grpc"),
    ];
    let output = otlp(&props).unwrap();
    assert!(single::needs_tls(&output.settings));
}

#[test]
fn grpc_rejects_verify_false() {
    let props = [
        prop_str("endpoint", "https://x:4317"),
        prop_str("protocol", "grpc"),
        prop_ident("verify", "false"),
    ];
    let err = otlp(&props).err().unwrap();
    assert!(err.contains("verify false"), "unexpected error: {err}");
}

#[test]
fn rejects_unknown_protocol() {
    let props = [prop_str("endpoint", "http://x"), prop_str("protocol", "carrier_pigeon")];
    assert!(otlp(&props).err().unwrap().contains("unknown"));
}

#[test]
fn rejects_unsupported_batch_level() {
    let props = [prop_str("endpoint", "http://x"), prop_str("batch_level", "scope")];
    assert!(otlp(&props).err().unwrap().contains("not implemented"));
}

#[test]
fn otlp_defaults_protocol_to_http_protobuf() {
    let output = otlp(&[prop_str("endpoint", "http://x")]).unwrap();
    assert!(matches!(output.settings.protocol, Protocol::HttpProtobuf));
}

#[test]
fn otlp_batch_size_defaults_to_one() {
    assert_eq!(otlp(&[prop_str("endpoint", "http://x")]).unwrap().settings.batch_size, 1);
}

#[test]
fn batch_size_explicit() {
    let props = [prop_str("endpoint", "http://x"), prop_int("batch_size", 64)];
    assert_eq!(otlp(&props).unwrap().settings.batch_size, 64);
    let bad = [prop_str("endpoint", "http://x"), prop_int("batch_size", 0)];
    assert!(otlp(&bad).is_err());
}

#[test]
fn what_came_of_the_client_is_told() {
    let base = |protocol: &str| {
        vec![
            prop_str("endpoint", "https://x:1"),
            prop_str("protocol", protocol),
            block("tls", vec![prop_str("ca", "/ca.pem")]),
        ]
    };
    let error = |protocol: &str, setup: ClientSetup| {
        OtlpOutput::from_properties("o", &base(protocol), setup)
            .err()
            .unwrap()
            .message()
            .to_string()
    };
    assert_eq!(
        error("grpc", ClientSetup::UnreadableCa),
        "output 'o': cannot read CA cert /ca.pem"
    );
    assert_eq!(
        error("http_json", ClientSetup::InvalidCa),
        "output 'o': invalid CA cert PEM at /ca.pem"
    );
    assert_eq!(
        error("http_json", ClientSetup::NotBuilt),
        "output 'o': failed to build HTTP client"
    );
    assert_eq!(
        error("grpc", ClientSetup::InvalidCa),
        "output 'o': failed to configure gRPC TLS"
    );
}

#[test]
fn one_collector_batches_are_counted_whole() {
    let props = [prop_str("endpoint", "http://x"), prop_int("batch_size", 2)];
    let mut output = otlp(&props).unwrap();
    assert!(output.begin_flush().is_none());
    assert_eq!(output.write(vec![1], false), AfterWrite::StartTimer);
    assert_eq!(output.write(vec![2], true), AfterWrite::Flush);
    assert_eq!(output.begin_flush().unwrap(), vec![vec![1], vec![2]]);
    output.finish_flush(2, false);
    assert_eq!(output.metrics.events_failed, 2);
    assert_eq!(output.buffer.len(), 0);
    assert_eq!(output.write(vec![3], true), AfterWrite::Wait);
    output.finish_flush(1, true);
    assert_eq!(output.metrics.events_written, 1);
}

#[test]
fn long_responses_are_cut() {
    let err = single::status_error("http://x", 500, &"é".repeat(501));
    let expected = format!("output otlp: http://x returned HTTP 500 — {}", "é".repeat(500));
    assert_eq!(err.message(), expected);
    assert!(single::status_error("e", 400, "short").message().ends_with("short"));
}
