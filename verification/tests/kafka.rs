use limpid_output::kafka::{
    parse_sasl_block, parse_tls_block, password_file, pre_check_plain_requires_tls,
    require_tls_for_plain, security_protocol, KafkaOutput, SaslConfig,
};
use limpid_output::props::{Expr, Property};
use limpid_output::retry::{BackoffStrategy, RetryConfig};
use limpid_output::tls::ClientTlsConfig;

const DEFAULTS: RetryConfig = RetryConfig {
    max_attempts: 3,
    initial_wait: 1_000_000_000,
    max_wait: 30_000_000_000,
    backoff: BackoffStrategy::Exponential,
};

fn block(key: &str, properties: Vec<Property>) -> Property {
    Property::Block { key: key.to_string(), properties }
}

fn str_prop(key: &str, val: &str) -> Property {
    Property::KeyValue { key: key.to_string(), value: Expr::StringLit(val.to_string()) }
}

fn ident_prop(key: &str, val: &str) -> Property {
    Property::KeyValue { key: key.to_string(), value: Expr::Ident(vec![val.to_string()]) }
}

fn sasl_block(mechanism: &str, username: &str, file: &str) -> Property {
    block(
        "sasl",
        vec![
            ident_prop("mechanism", mechanism),
            str_prop("username", username),
            str_prop("password_file", file),
        ],
    )
}

fn sasl_of(mechanism: &str, contents: Option<&str>) -> Result<SaslConfig, String> {
    let props = [sasl_block(mechanism, "limpid", "/run/kafka.pw")];
    match parse_sasl_block("k", &props, contents) {
        Ok(sasl) => Ok(sasl.unwrap()),
        Err(e) => Err(e.message().to_string()),
    }
}

fn base() -> Vec<Property> {
    vec![str_prop("brokers", "localhost:9092"), str_prop("topic", "t")]
}

#[test]
fn from_properties_rejects_arbitrary_key_field_with_migration_hint() {
    let mut props = base();
    props.push(ident_prop("key", "user_id"));
    let err = KafkaOutput::from_properties("k", &props, DEFAULTS, None)
        .err()
        .expect("constructor must reject pipeline-mutable key field");
    let msg = err.message();
    assert!(msg.contains("`source`"), "msg: {}", msg);
    assert!(msg.contains("separate kafka outputs from the pipeline body"), "msg: {}", msg);
}

#[test]
fn security_protocol_matrix() {
    assert_eq!(security_protocol(false, false), None);
    assert_eq!(security_protocol(true, false), Some("ssl"));
    assert_eq!(security_protocol(false, true), Some("sasl_plaintext"));
    assert_eq!(security_protocol(true, true), Some("sasl_ssl"));
}

#[test]
fn parse_tls_absent_returns_none() {
    let result = parse_tls_block("k", &[]).unwrap();
    assert!(result.is_none());
}

#[test]
fn parse_tls_ca_only() {
    let props = vec![block("tls", vec![str_prop("ca", "/etc/ca.pem")])];
    let tls = parse_tls_block("k", &props).unwrap().unwrap();
    assert_eq!(tls.ca_path.as_deref(), Some("/etc/ca.pem"));
    assert!(tls.cert_path.is_none() && tls.key_path.is_none());
}

#[test]
fn parse_tls_mtls_full() {
    let props = vec![block(
        "tls",
        vec![str_prop("ca", "/ca.pem"), str_prop("cert", "/c.pem"), str_prop("key", "/k.pem")],
    )];
    let tls = parse_tls_block("k", &props).unwrap().unwrap();
    assert_eq!(tls.ca_path.as_deref(), Some("/ca.pem"));
    assert_eq!(tls.cert_path.as_deref(), Some("/c.pem"));
    assert_eq!(tls.key_path.as_deref(), Some("/k.pem"));
}

#[test]
fn parse_tls_cert_without_key_rejected() {
    let props = vec![block("tls", vec![str_prop("cert", "/c.pem")])];
    let err = parse_tls_block("k", &props).err().unwrap();
    assert!(err.message().contains("cert and key"), "{}", err.message());
}

#[test]
fn parse_tls_key_without_cert_rejected() {
    let props = vec![block("tls", vec![str_prop("key", "/k.pem")])];
    let err = parse_tls_block("k", &props).err().unwrap();
    assert!(err.message().contains("cert and key"), "{}", err.message());
}

#[test]
fn parse_sasl_absent_returns_none() {
    assert!(parse_sasl_block("k", &[], None).unwrap().is_none());
}

#[test]
fn parse_sasl_plain_reads_password_file() {
    let sasl = sasl_of("plain", Some("hunter2\n")).unwrap();
    assert_eq!(sasl.mechanism, "PLAIN");
    assert_eq!(sasl.username, "limpid");
    assert_eq!(sasl.password, "hunter2");
}

#[test]
fn parse_sasl_scram_uppercases_mechanism() {
    let sasl = sasl_of("scram_sha_512", Some("secret")).unwrap();
    assert_eq!(sasl.mechanism, "SCRAM-SHA-512");
    assert_eq!(sasl_of("scram_sha_256", Some("secret")).unwrap().mechanism, "SCRAM-SHA-256");
}

#[test]
fn parse_sasl_missing_password_file_errors() {
    let err = sasl_of("plain", None).err().unwrap();
    assert!(err.contains("password_file"), "{}", err);
}

#[test]
fn parse_sasl_empty_password_file_rejected() {
    let err = sasl_of("plain", Some("\n")).err().unwrap();
    assert!(err.contains("empty"), "{}", err);
}

#[test]
fn parse_sasl_plain_strips_crlf_password_file() {
    assert_eq!(sasl_of("plain", Some("hunter2\r\n")).unwrap().password, "hunter2");
}

#[test]
fn parse_sasl_plain_strips_bare_cr_password_file() {
    assert_eq!(sasl_of("plain", Some("hunter2\r")).unwrap().password, "hunter2");
}

#[test]
fn one_line_ending_only_is_taken_off() {
    assert_eq!(sasl_of("plain", Some("a\n\n")).unwrap().password, "a\n");
    assert_eq!(sasl_of("plain", Some(" a ")).unwrap().password, " a ");
    assert!(sasl_of("plain", Some(" \u{3000}\t")).is_err());
}

#[test]
fn unknown_mechanisms_are_refused() {
    let err = sasl_of("gssapi", Some("p")).err().unwrap();
    assert!(err.contains("unsupported sasl mechanism 'gssapi'"), "{}", err);
}

fn sasl(mechanism: &str) -> SaslConfig {
    SaslConfig {
        mechanism: mechanism.to_string(),
        username: "u".to_string(),
        password: "p".to_string(),
    }
}

fn empty_tls() -> ClientTlsConfig {
    ClientTlsConfig { ca_path: None, cert_path: None, key_path: None }
}

#[test]
fn require_tls_for_plain_rejects_plain_without_tls() {
    let s = sasl("PLAIN");
    let err = require_tls_for_plain("k", Some(&s), None).err().unwrap();
    assert!(err.message().contains("tls"), "{}", err.message());
    assert!(err.message().contains("plain"), "{}", err.message());
}

#[test]
fn require_tls_for_plain_accepts_plain_with_tls() {
    let s = sasl("PLAIN");
    let t = empty_tls();
    require_tls_for_plain("k", Some(&s), Some(&t)).unwrap();
}

#[test]
fn require_tls_for_plain_accepts_scram_without_tls() {
    let s = sasl("SCRAM-SHA-512");
    require_tls_for_plain("k", Some(&s), None).unwrap();
}

#[test]
fn require_tls_for_plain_accepts_no_sasl() {
    require_tls_for_plain("k", None, None).unwrap();
}

#[test]
fn pre_check_plain_requires_tls_fires_before_password_file_read() {
    let props = vec![sasl_block("plain", "u", "/nonexistent/does/not/exist.txt")];
    let err = pre_check_plain_requires_tls("k", &props, None).err().unwrap();
    let msg = err.message();
    assert!(msg.contains("plain") && msg.contains("tls"), "{msg}");
    assert!(!msg.contains("password_file"), "must not leak file-path: {msg}");
}

#[test]
fn pre_check_plain_passes_when_tls_block_present() {
    let props = vec![sasl_block("plain", "u", "/nonexistent/does/not/exist.txt")];
    let tls = empty_tls();
    pre_check_plain_requires_tls("k", &props, Some(&tls)).unwrap();
}

#[test]
fn pre_check_plain_passes_for_scram_without_tls() {
    let props = vec![sasl_block("scram_sha_512", "u", "/nonexistent/does/not/exist.txt")];
    pre_check_plain_requires_tls("k", &props, None).unwrap();
}

#[test]
fn the_password_file_is_named_only_when_it_is_to_be_read() {
    assert_eq!(password_file("k", &base(), DEFAULTS).unwrap(), None);
    let mut plain = base();
    plain.push(sasl_block("plain", "u", "/pw"));
    assert!(password_file("k", &plain, DEFAULTS).is_err());
    let mut scram = base();
    scram.push(sasl_block("scram_sha_256", "u", "/pw"));
    assert_eq!(password_file("k", &scram, DEFAULTS).unwrap().as_deref(), Some("/pw"));
}

#[test]
fn the_client_is_configured_from_the_settings() {
    let mut props = base();
    props.push(block("tls", vec![str_prop("ca", "/ca.pem")]));
    props.push(sasl_block("plain", "u", "/pw"));
    props.push(ident_prop("compression", "zstd"));
    props.push(ident_prop("key", "source"));
    let out = KafkaOutput::from_properties("k", &props, DEFAULTS, Some("p\n")).unwrap();
    let client: Vec<(&str, &str)> =
        out.client.iter().map(|(k, v)| (k.as_str(), v.as_str())).collect();
    assert_eq!(
        client,
        vec![
            ("bootstrap.servers", "localhost:9092"),
            ("compression.type", "zstd"),
            ("acks", "all"),
            ("message.timeout.ms", "30000"),
            ("security.protocol", "sasl_ssl"),
            ("ssl.ca.location", "/ca.pem"),
            ("sasl.mechanism", "PLAIN"),
            ("sasl.username", "u"),
            ("sasl.password", "p"),
        ]
    );
    assert_eq!(out.resolve_key("10.0.0.1").as_deref(), Some("10.0.0.1"));
    assert_eq!(out.queue_timeout, 5_000_000_000);
}

#[test]
fn bad_settings_are_refused_one_by_one() {
    let cases: Vec<(Property, &str)> = vec![
        (ident_prop("compression", "brotli"), "invalid compression 'brotli'"),
        (ident_prop("acks", "2"), "invalid acks '2'"),
        (str_prop("queue_timeout", "soon"), "invalid duration 'soon'"),
    ];
    for (extra, expected) in cases {
        let mut props = base();
        props.push(extra);
        let err = KafkaOutput::from_properties("k", &props, DEFAULTS, None).err().unwrap();
        assert!(err.message().contains(expected), "{}", err.message());
    }
    let no_topic = [str_prop("brokers", "b")];
    let err = KafkaOutput::from_properties("k", &no_topic, DEFAULTS, None).err().unwrap();
    assert_eq!(err.message(), "output 'k': kafka requires 'topic'");
    let err = KafkaOutput::from_properties("k", &[], DEFAULTS, None).err().unwrap();
    assert_eq!(err.message(), "output 'k': kafka requires 'brokers'");
}
