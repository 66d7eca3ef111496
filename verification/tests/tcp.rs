use limpid_output::props::{Expr, Property};
use limpid_output::tcp::{TcpOutput, TcpOutputFraming};
use limpid_output::udp::{UdpOutput, UdpWrite, UdpWriteAction, UdpWriteEvent};

fn kv(key: &str, value: Expr) -> Property {
    Property::KeyValue { key: key.to_string(), value }
}

fn text(s: &str) -> Expr {
    Expr::StringLit(s.to_string())
}

fn ident(s: &str) -> Expr {
    Expr::Ident(vec![s.to_string()])
}

#[test]
fn build_accepts_minimal_valid_config() {
    let tcp = TcpOutput::from_properties("relay", &[kv("address", text("127.0.0.1:514"))])
        .expect("should build");
    assert_eq!(tcp.address, "127.0.0.1:514");
    assert_eq!(tcp.framing, TcpOutputFraming::OctetCounting);
}

#[test]
fn tcp_build_accepts_correct_framing_enum_value() {
    let props = [kv("address", text("h:1")), kv("framing", ident("non_transparent"))];
    let tcp = TcpOutput::from_properties("relay", &props).expect("should build");
    assert_eq!(tcp.framing, TcpOutputFraming::NonTransparent);
    assert_eq!(tcp.frame(b"m"), b"m\n");
}

#[test]
fn tcp_build_rejects_typoed_framing_with_did_you_mean() {
    let props = [kv("address", text("h:1")), kv("framing", ident("non_trasnaprent"))];
    let err = TcpOutput::from_properties("relay", &props).err().expect("should fail");
    let msg = err.message();
    assert!(msg.contains("framing"), "{}", msg);
    assert!(msg.contains("non_transparent"), "did-you-mean missing: {}", msg);
}

#[test]
fn tcp_from_properties_directly_still_works_for_existing_call_sites() {
    let tcp = TcpOutput::from_properties("relay", &[kv("address", text("h:1"))])
        .expect("should build");
    assert_eq!(tcp.address, "h:1");
    assert_eq!(tcp.frame(b"hello"), b"5 hello");
}

#[test]
fn an_address_is_made_of_host_and_port() {
    let both = [kv("host", text("h")), kv("port", Expr::IntLit(1514))];
    assert_eq!(TcpOutput::from_properties("relay", &both).unwrap().address, "h:1514");
    let host = [kv("host", text("h"))];
    assert_eq!(TcpOutput::from_properties("relay", &host).unwrap().address, "h:514");
    assert!(TcpOutput::from_properties("relay", &[]).is_err());
}

#[test]
fn build_accepts_address() {
    let u = UdpOutput::from_properties("u", &[kv("address", text("h:1"))]).expect("ok");
    assert_eq!(u.address, "h:1");
}

#[test]
fn build_rejects_missing_address() {
    let err = UdpOutput::from_properties("u", &[]).err().expect("missing address");
    assert!(err.message().contains("address"));
}

fn udp_output(address: &str) -> UdpOutput {
    let value = Expr::StringLit(address.to_string());
    UdpOutput::from_properties("u", &[Property::KeyValue { key: "address".to_string(), value }])
        .unwrap()
}

#[test]
fn the_socket_is_made_once_and_outlives_a_failed_send() {
    let mut output = udp_output("h:1");
    let (mut write, action) = UdpWrite::new(false);
    assert!(matches!(action, UdpWriteAction::Bind));
    assert!(matches!(write.step(UdpWriteEvent::Bound, &mut output), UdpWriteAction::Connect));
    assert!(matches!(write.step(UdpWriteEvent::Connected, &mut output), UdpWriteAction::Send));
    assert!(matches!(write.step(UdpWriteEvent::Sent, &mut output), UdpWriteAction::Done));
    assert!(write.connected);
    assert_eq!(output.metrics.events_written, 1);

    let (mut write, action) = UdpWrite::new(true);
    assert!(matches!(action, UdpWriteAction::Send));
    let action = write.step(UdpWriteEvent::SendFailed, &mut output);
    assert!(matches!(action, UdpWriteAction::Fail { error } if error == "udp output: send to h:1"));
    assert!(write.connected);
    assert_eq!(output.metrics.events_written, 1);
}

#[test]
fn a_udp_socket_that_cannot_be_made_is_not_kept() {
    let mut output = udp_output("h:1");
    let (mut write, _) = UdpWrite::new(false);
    let action = write.step(UdpWriteEvent::BindFailed, &mut output);
    let text = "udp output: failed to bind ephemeral socket";
    assert!(matches!(action, UdpWriteAction::Fail { error } if error == text));
    let (mut write, _) = UdpWrite::new(false);
    write.step(UdpWriteEvent::Bound, &mut output);
    let action = write.step(UdpWriteEvent::ConnectFailed, &mut output);
    let text = "udp output: failed to connect to h:1";
    assert!(matches!(action, UdpWriteAction::Fail { error } if error == text));
    assert!(!write.connected);
}
