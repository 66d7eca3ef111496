use limpid_output::props::{
    get_ident, get_int, get_positive_int, get_string, get_string_map, get_word, parse_duration,
    Expr, Property,
};
use limpid_output::retry::{BackoffStrategy, RetryConfig};
use limpid_output::tls::{parse_tls_block, ClientTlsConfig, TlsProfiles};

const DEFAULTS: RetryConfig = RetryConfig {
    max_attempts: 3,
    initial_wait: 1_000_000_000,
    max_wait: 30_000_000_000,
    backoff: BackoffStrategy::Exponential,
};

fn kv(key: &str, value: Expr) -> Property {
    Property::KeyValue { key: key.to_string(), value }
}

fn text(s: &str) -> Expr {
    Expr::StringLit(s.to_string())
}

fn ident(parts: &[&str]) -> Expr {
    Expr::Ident(parts.iter().map(|p| p.to_string()).collect())
}

fn retry_block(properties: Vec<Property>) -> [Property; 1] {
    [Property::Block { key: "retry".to_string(), properties }]
}

#[test]
fn values_are_read_by_their_kind() {
    let props = [
        kv("s", text("a")),
        kv("i", Expr::IntLit(-7)),
        kv("w", ident(&["x", "y"])),
        kv("s", text("later")),
    ];
    assert_eq!(get_string(&props, "s").as_deref(), Some("a"));
    assert_eq!(get_string(&props, "i"), None);
    assert_eq!(get_int(&props, "i"), Some(-7));
    assert_eq!(get_ident(&props, "w").as_deref(), Some("x.y"));
    assert_eq!(get_word(&props, "s").as_deref(), Some("a"));
    assert_eq!(get_word(&props, "w").as_deref(), Some("x.y"));
    assert_eq!(get_word(&props, "none"), None);
    assert!(get_positive_int(&props, "i").is_err());
    assert_eq!(get_positive_int(&props, "none").unwrap(), None);
}

#[test]
fn maps_hold_strings_and_words() {
    let props = [Property::Block {
        key: "headers".to_string(),
        properties: vec![
            kv("a", text("1")),
            kv("b", Expr::IntLit(2)),
            kv("c", ident(&["d", "e"])),
        ],
    }];
    let got = get_string_map(&props, "headers");
    assert_eq!(
        got,
        vec![("a".to_string(), "1".to_string()), ("c".to_string(), "d.e".to_string())]
    );
    assert!(get_string_map(&props, "none").is_empty());
}

#[test]
fn durations_have_a_number_and_a_unit() {
    assert_eq!(parse_duration("250ms").unwrap(), 250_000_000);
    assert_eq!(parse_duration("30s").unwrap(), 30_000_000_000);
    assert_eq!(parse_duration("5m").unwrap(), 300_000_000_000);
    assert_eq!(parse_duration("1h").unwrap(), 3_600_000_000_000);
    for bad in ["", "s", "5", "5 s", "-1s", "1d", "99999999999999999999s", "18446744073s5"] {
        let err = parse_duration(bad).err().unwrap();
        assert_eq!(err.message(), format!("invalid duration '{bad}'"));
    }
}

#[test]
fn the_retry_block_is_read_over_the_defaults() {
    let read = |props: Vec<Property>| {
        RetryConfig::from_output_properties(&retry_block(props), DEFAULTS)
    };
    assert_eq!(RetryConfig::from_output_properties(&[], DEFAULTS).unwrap(), DEFAULTS);
    let c = read(vec![kv("backoff", ident(&["fixed"])), kv("max_wait", text("2s"))]).unwrap();
    assert_eq!(c.backoff, BackoffStrategy::Fixed);
    assert_eq!(c.max_wait, 2_000_000_000);
    assert_eq!(c.max_attempts, 3);
    assert!(read(vec![kv("max_attempts", Expr::IntLit(0))]).is_err());
    assert!(read(vec![kv("max_attempts", Expr::IntLit(i64::MAX))]).is_err());
    assert!(read(vec![kv("initial_wait", text("x"))]).is_err());
    assert!(read(vec![kv("backoff", ident(&["random"]))]).is_err());
}

#[test]
fn a_client_certificate_comes_with_its_key() {
    let both = [kv("cert", text("c")), kv("key", text("k"))];
    let tls = parse_tls_block(&both, "l").unwrap();
    assert_eq!(tls.cert_path.as_deref(), Some("c"));
    assert_eq!(tls.duplicate().key_path.as_deref(), Some("k"));
    let err = parse_tls_block(&[kv("cert", text("c"))], "l").err().unwrap();
    assert_eq!(err.message(), "l: cert and key must be set together");
    assert!(ClientTlsConfig::empty().validate("l").is_ok());
}

#[test]
fn profiles_are_found_by_name() {
    let mut profiles = TlsProfiles::new();
    profiles.insert("a".to_string(), ClientTlsConfig::empty());
    profiles.insert(
        "a".to_string(),
        ClientTlsConfig { ca_path: Some("x".to_string()), cert_path: None, key_path: None },
    );
    assert_eq!(profiles.lookup("a").unwrap().ca_path.as_deref(), Some("x"));
    assert!(profiles.lookup("b").is_none());
}
