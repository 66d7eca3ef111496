use limpid_output::props::{Expr, Property};
use limpid_output::syslog_tls::SyslogTlsOutput;

type Output = SyslogTlsOutput<()>;

const CERT: &str = "/etc/limpid/cert.pem";
const KEY: &str = "/etc/limpid/key.pem";

fn kv(key: &str, value: Expr) -> Property {
    Property::KeyValue { key: key.to_string(), value }
}

fn text(s: &str) -> Expr {
    Expr::StringLit(s.to_string())
}

fn ident(s: &str) -> Expr {
    Expr::Ident(vec![s.to_string()])
}

fn block(key: &str, properties: Vec<Property>) -> Property {
    Property::Block { key: key.to_string(), properties }
}

fn peer(host: &str, port: i64, tls: Option<Property>) -> Property {
    let mut props = vec![kv("host", text(host)), kv("port", Expr::IntLit(port))];
    if let Some(tls) = tls {
        props.push(tls);
    }
    block("peer", props)
}

fn tls_block(props: Vec<Property>) -> Property {
    block("tls", props)
}

fn ca_block(path: &str) -> Property {
    tls_block(vec![kv("ca", text(path))])
}

fn mtls_block(cert: &str, key: &str, ca: &str) -> Property {
    tls_block(vec![kv("ca", text(ca)), kv("cert", text(cert)), kv("key", text(key))])
}

fn build(props: Vec<Property>) -> Output {
    Output::from_properties("relay", &props).expect("should build")
}

fn build_error(props: Vec<Property>) -> String {
    Output::from_properties("relay", &props).err().expect("should fail").message().to_string()
}

#[test]
fn build_accepts_single_peer_no_tls() {
    let output = build(vec![peer("example.com", 6514, None)]);
    assert_eq!(output.peers.len(), 1);
    assert_eq!(output.peers.peers()[0].address(), "example.com:6514");
    let connector = output.connector_config(0);
    assert!(connector.ca_path.is_none() && connector.cert_path.is_none());
}

#[test]
fn syslog_tls_build_accepts_single_peer_inline_tls_ca_only() {
    let output = build(vec![peer("example.com", 6514, Some(ca_block(CERT)))]);
    assert_eq!(
        output.peers.peers()[0].tls.as_ref().unwrap().ca_path,
        Some(CERT.to_string())
    );
}

#[test]
fn syslog_tls_build_accepts_single_peer_inline_tls_mtls() {
    let output = build(vec![peer("example.com", 6514, Some(mtls_block(CERT, KEY, CERT)))]);
    let tls = output.peers.peers()[0].tls.as_ref().unwrap();
    assert_eq!(tls.cert_path.as_deref(), Some(CERT));
    assert_eq!(tls.key_path.as_deref(), Some(KEY));
}

#[test]
fn syslog_tls_build_accepts_peer_referencing_named_profile() {
    let output = build(vec![
        block("tls", vec![block("my_p", vec![kv("ca", text(CERT))])]),
        peer("example.com", 6514, Some(kv("tls", ident("my_p")))),
    ]);
    assert_eq!(output.peers.peers()[0].tls.as_ref().unwrap().ca_path.as_deref(), Some(CERT));
}

#[test]
fn syslog_tls_build_rejects_peer_referencing_undefined_profile() {
    let msg = build_error(vec![peer("example.com", 6514, Some(kv("tls", ident("missing"))))]);
    assert!(msg.contains("unknown tls profile"), "{}", msg);
}

#[test]
fn syslog_tls_build_rejects_cert_without_key() {
    let msg = build_error(vec![peer(
        "example.com",
        6514,
        Some(tls_block(vec![kv("cert", text("x.crt"))])),
    )]);
    assert!(msg.contains("cert and key"), "{}", msg);
}

#[test]
fn syslog_tls_build_rejects_key_without_cert() {
    let msg = build_error(vec![peer(
        "example.com",
        6514,
        Some(tls_block(vec![kv("key", text("x.key"))])),
    )]);
    assert!(msg.contains("cert and key"), "{}", msg);
}

#[test]
fn build_accepts_multiple_peers_mixed_tls_forms() {
    let output = build(vec![
        block("tls", vec![block("named", vec![kv("ca", text(CERT))])]),
        block(
            "peers",
            vec![
                peer("a.example.com", 6514, Some(kv("tls", ident("named")))),
                peer("b.example.com", 6514, Some(ca_block(CERT))),
                peer("c.example.com", 6514, None),
            ],
        ),
    ]);
    assert_eq!(output.peers.len(), 3);
    assert!(output.peers.peers()[0].tls.is_some());
    assert!(output.peers.peers()[1].tls.is_some());
    assert!(output.peers.peers()[2].tls.is_none());
}

#[test]
fn syslog_tls_build_rejects_missing_destination() {
    let msg = build_error(vec![]);
    assert!(msg.contains("either 'peer' or 'peers' is required"), "{}", msg);
}

#[test]
fn syslog_tls_build_rejects_peer_and_peers_together() {
    let msg = build_error(vec![
        peer("a.example.com", 6514, None),
        block("peers", vec![peer("b.example.com", 6514, None)]),
    ]);
    assert!(msg.contains("exclusive group"), "{}", msg);
    assert!(msg.contains("peer") && msg.contains("peers"), "{}", msg);
}

#[test]
fn syslog_tls_defaults_to_the_tls_port() {
    let output = build(vec![block("peer", vec![kv("host", text("h"))])]);
    assert_eq!(output.peers.peers()[0].address(), "h:6514");
}
