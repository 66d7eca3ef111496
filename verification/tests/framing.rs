use limpid_output::frame_with_newline;
use limpid_output::framing::frame_counted;
use limpid_output::syslog_peers::{write_framed, SyslogFraming};

#[test]
fn frames_empty_payload_as_bare_newline() {
    assert_eq!(frame_with_newline(b""), b"\n");
}

#[test]
fn frames_ascii_payload_with_trailing_newline() {
    assert_eq!(frame_with_newline(b"hello"), b"hello\n");
}

#[test]
fn frames_non_utf8_payload_verbatim() {
    let raw: &[u8] = &[0xff, 0xfe, 0x80, 0x00, 0x0a];
    let framed = frame_with_newline(raw);
    assert_eq!(&framed[..raw.len()], raw);
    assert_eq!(framed.last().copied(), Some(b'\n'));
}

#[test]
fn framed_len_is_payload_plus_one() {
    for n in [0usize, 1, 4096, 65_536] {
        let payload = vec![b'x'; n];
        let framed = frame_with_newline(&payload);
        assert_eq!(framed.len(), n + 1);
        assert_eq!(framed.last().copied(), Some(b'\n'));
    }
}

#[test]
fn counted_frames_state_the_length() {
    assert_eq!(frame_counted(b""), b"0 ");
    assert_eq!(frame_counted(b"hello"), b"5 hello");
    assert_eq!(frame_counted(&[b'x'; 12])[..3], *b"12 ");
    assert_eq!(write_framed(SyslogFraming::OctetCounting, b"<1>m"), b"4 <1>m");
    assert_eq!(write_framed(SyslogFraming::NonTransparent, b"<1>m"), b"<1>m\n");
}

/// A stream of frames can be cut into the messages again in one way only.
#[test]
fn frames_in_a_row_read_one_way() {
    let mut stream = frame_counted(b"1 2");
    stream.extend(frame_counted(b"x"));
    assert_eq!(stream, b"3 1 21 x");
    let mut lines = frame_with_newline(b"a");
    lines.extend(frame_with_newline(b"b"));
    assert_eq!(lines, b"a\nb\n");
}
