use limpid_output::props::{Expr, Property};
use limpid_output::syslog_peers::SyslogFraming;
use limpid_output::syslog_tcp::{parse_tls_profiles, SyslogTcpOutput};

type Output = SyslogTcpOutput<()>;

const CERT: &str = "/etc/limpid/cert.pem";
const KEY: &str = "/etc/limpid/key.pem";

fn kv(key: &str, value: Expr) -> Property {
    Property::KeyValue { key: key.to_string(), value }
}

fn text(s: &str) -> Expr {
    Expr::StringLit(s.to_string())
}

fn ident(s: &str) -> Expr {
    Expr::Ident(vec![s.to_string()])
}

fn block(key: &str, properties: Vec<Property>) -> Property {
    Property::Block { key: key.to_string(), properties }
}

fn peer_plain(host: &str, port: i64) -> Property {
    block("peer", vec![kv("host", text(host)), kv("port", Expr::IntLit(port))])
}

fn peer_with_tls(host: &str, port: i64, tls: Property) -> Property {
    block("peer", vec![kv("host", text(host)), kv("port", Expr::IntLit(port)), tls])
}

fn peer_with_tls_default_port(host: &str, tls: Option<Property>) -> Property {
    let mut props = vec![kv("host", text(host))];
    if let Some(tls) = tls {
        props.push(tls);
    }
    block("peer", props)
}

fn tls_block(props: Vec<Property>) -> Property {
    block("tls", props)
}

fn ca_block(path: &str) -> Property {
    tls_block(vec![kv("ca", text(path))])
}

fn mtls_block(cert: &str, key: &str, ca: &str) -> Property {
    tls_block(vec![kv("ca", text(ca)), kv("cert", text(cert)), kv("key", text(key))])
}

fn build(props: Vec<Property>) -> Output {
    Output::from_properties("relay", &props).expect("should build")
}

fn build_error(props: Vec<Property>) -> String {
    Output::from_properties("relay", &props).err().expect("should fail").message().to_string()
}

#[test]
fn syslog_tcp_build_accepts_single_peer() {
    let tcp = build(vec![peer_plain("127.0.0.1", 514)]);
    assert_eq!(tcp.peers.len(), 1);
    assert_eq!(tcp.peers.peers()[0].address(), "127.0.0.1:514");
    assert_eq!(tcp.framing, SyslogFraming::OctetCounting);
    assert!(tcp.peers.peers()[0].tls.is_none());
}

#[test]
fn build_accepts_peer_with_default_port_plain() {
    let tcp = build(vec![block("peer", vec![kv("host", text("127.0.0.1"))])]);
    assert_eq!(tcp.peers.peers()[0].address(), "127.0.0.1:514");
}

#[test]
fn syslog_tcp_build_accepts_multiple_peers() {
    let tcp = build(vec![block("peers", vec![peer_plain("a", 514), peer_plain("b", 1514)])]);
    assert_eq!(tcp.peers.len(), 2);
    assert_eq!(tcp.peers.peers()[0].address(), "a:514");
    assert_eq!(tcp.peers.peers()[1].address(), "b:1514");
}

#[test]
fn syslog_tcp_build_accepts_correct_framing_enum_value() {
    let tcp = build(vec![peer_plain("h", 1), kv("framing", ident("non_transparent"))]);
    assert_eq!(tcp.framing, SyslogFraming::NonTransparent);
}

#[test]
fn syslog_tcp_build_rejects_typoed_framing_with_did_you_mean() {
    let msg = build_error(vec![peer_plain("h", 1), kv("framing", ident("non_trasnaprent"))]);
    assert!(msg.contains("framing"), "{}", msg);
    assert!(msg.contains("non_transparent"), "did-you-mean missing: {}", msg);
}

#[test]
fn syslog_tcp_build_rejects_missing_destination() {
    let msg = build_error(vec![]);
    assert!(msg.contains("either 'peer' or 'peers' is required"), "{}", msg);
}

#[test]
fn syslog_tcp_build_rejects_empty_peers_block() {
    let msg = build_error(vec![block("peers", vec![])]);
    assert!(msg.contains("peers block must contain at least one peer"), "{}", msg);
}

#[test]
fn syslog_tcp_build_rejects_peer_missing_host() {
    let msg = build_error(vec![block("peer", vec![kv("port", Expr::IntLit(514))])]);
    assert!(msg.contains("host"), "{}", msg);
}

#[test]
fn syslog_tcp_build_rejects_peer_and_peers_together() {
    let msg =
        build_error(vec![peer_plain("a", 514), block("peers", vec![peer_plain("b", 514)])]);
    assert!(msg.contains("exclusive group"), "{}", msg);
    assert!(msg.contains("peer") && msg.contains("peers"), "{}", msg);
}

#[test]
fn syslog_tcp_from_properties_directly_still_works_for_existing_call_sites() {
    let tcp = build(vec![peer_plain("h", 1)]);
    assert_eq!(tcp.peers.peers()[0].address(), "h:1");
}

#[test]
fn syslog_tcp_build_accepts_single_peer_inline_tls_ca_only() {
    let output = build(vec![peer_with_tls("example.com", 6514, ca_block(CERT))]);
    let peer0 = &output.peers.peers()[0];
    assert_eq!(peer0.tls.as_ref().unwrap().ca_path, Some(CERT.to_string()));
}

#[test]
fn syslog_tcp_build_accepts_single_peer_inline_tls_mtls() {
    let output = build(vec![peer_with_tls("example.com", 6514, mtls_block(CERT, KEY, CERT))]);
    let tls = output.peers.peers()[0].tls.as_ref().unwrap();
    assert_eq!(tls.cert_path.as_deref(), Some(CERT));
    assert_eq!(tls.key_path.as_deref(), Some(KEY));
}

#[test]
fn syslog_tcp_build_accepts_peer_referencing_named_profile() {
    let output = build(vec![
        block("tls", vec![block("my_p", vec![kv("ca", text(CERT))])]),
        peer_with_tls("example.com", 6514, kv("tls", ident("my_p"))),
    ]);
    assert_eq!(output.peers.peers()[0].tls.as_ref().unwrap().ca_path.as_deref(), Some(CERT));
}

#[test]
fn syslog_tcp_build_rejects_peer_referencing_undefined_profile() {
    let msg = build_error(vec![peer_with_tls("example.com", 6514, kv("tls", ident("missing")))]);
    assert!(msg.contains("unknown tls profile"), "{}", msg);
}

#[test]
fn syslog_tcp_build_rejects_cert_without_key() {
    let msg = build_error(vec![peer_with_tls(
        "example.com",
        6514,
        tls_block(vec![kv("cert", text("x.crt"))]),
    )]);
    assert!(msg.contains("cert and key"), "{}", msg);
}

#[test]
fn syslog_tcp_build_rejects_key_without_cert() {
    let msg = build_error(vec![peer_with_tls(
        "example.com",
        6514,
        tls_block(vec![kv("key", text("x.key"))]),
    )]);
    assert!(msg.contains("cert and key"), "{}", msg);
}

#[test]
fn build_accepts_mixed_plain_and_tls_peers() {
    let output = build(vec![
        block("tls", vec![block("named", vec![kv("ca", text(CERT))])]),
        block(
            "peers",
            vec![
                peer_with_tls("a.example.com", 6514, kv("tls", ident("named"))),
                peer_with_tls("b.example.com", 6514, ca_block(CERT)),
                peer_plain("c.example.com", 514),
            ],
        ),
    ]);
    assert_eq!(output.peers.len(), 3);
    assert!(output.peers.peers()[0].tls.is_some());
    assert!(output.peers.peers()[1].tls.is_some());
    assert!(output.peers.peers()[2].tls.is_none());
}

#[test]
fn default_port_is_per_peer_based_on_tls_presence() {
    let output = build(vec![block(
        "peers",
        vec![
            peer_with_tls_default_port("tls.example.com", Some(ca_block(CERT))),
            peer_with_tls_default_port("plain.example.com", None),
        ],
    )]);
    assert_eq!(output.peers.peers()[0].address(), "tls.example.com:6514");
    assert_eq!(output.peers.peers()[1].address(), "plain.example.com:514");
}

#[test]
fn the_last_profile_of_a_name_counts() {
    let profiles = parse_tls_profiles(
        "relay",
        &[block(
            "tls",
            vec![
                block("p", vec![kv("ca", text("old"))]),
                block("p", vec![kv("ca", text("new"))]),
            ],
        )],
    )
    .unwrap();
    assert_eq!(profiles.lookup("p").unwrap().ca_path.as_deref(), Some("new"));
    assert!(profiles.lookup("q").is_none());
}

#[test]
fn ports_outside_their_range_are_refused() {
    for port in [-1, 65_536] {
        let r = Output::from_properties("relay", &[peer_plain("h", port)]);
        assert!(r.is_err(), "{port}");
    }
    assert_eq!(build(vec![peer_plain("h", 65_535)]).peers.peers()[0].port, 65_535);
}
