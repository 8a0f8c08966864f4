use conduit_proxy::protocol::{
    awaits_more, classify, detect, has_method, inspect, starts_with, HeadParse, Protocol,
    H2_PREFACE, PEEK_LIMIT,
};
use indexmap::IndexSet;

fn no_ports() -> IndexSet<u16> {
    IndexSet::new()
}

#[test]
fn preface_is_twenty_four_bytes_of_text() {
    assert_eq!(&H2_PREFACE[..], &b"PRI * HTTP/2.0\r\n\r\nSM\r\n\r\n"[..]);
    assert_eq!(H2_PREFACE.len(), PEEK_LIMIT);
}

#[test]
fn detects_http2_preface() {
    let bytes = b"PRI * HTTP/2.0\r\n\r\nSM\r\n\r\n";
    assert_eq!(detect(4140, &no_ports(), bytes, false), Protocol::Http2);
}

#[test]
fn detects_http1_request() {
    let bytes = b"GET /ping HTTP/1.1\r\nHost: app\r\n\r\n";
    assert_eq!(detect(4143, &no_ports(), bytes, false), Protocol::Http1);
}

#[test]
fn unknown_method_is_opaque() {
    let bytes = b"BREW /pot HTTP/1.1\r\nHost: app\r\n\r\n";
    assert_eq!(detect(4143, &no_ports(), bytes, false), Protocol::Opaque);
}

#[test]
fn bad_version_is_opaque() {
    let bytes = b"GET / HTTQ/1.1\r\nHost: app\r\n\r\n";
    assert_eq!(detect(4143, &no_ports(), bytes, false), Protocol::Opaque);
}

#[test]
fn binary_bytes_are_opaque() {
    let bytes = [0x16u8, 0x03, 0x01, 0x02, 0x00, 0x01, 0x00, 0x01, 0xfc, 0x03, 0x03, 0x00,
        0x00, 0x00, 0x00, 0x00, 0x00, 0x00, 0x00, 0x00, 0x00, 0x00, 0x00, 0x00];
    assert_eq!(detect(443, &no_ports(), &bytes, false), Protocol::Opaque);
}

#[test]
fn exempt_port_is_never_inspected() {
    let mut ports = IndexSet::new();
    ports.insert(9000u16);
    let bytes = b"GET / HTTP/1.1\r\nHost: app\r\n\r\n";
    assert_eq!(detect(9000, &ports, bytes, false), Protocol::Opaque);
    assert_eq!(detect(9001, &ports, bytes, false), Protocol::Http1);
}

#[test]
fn short_read_at_timeout_is_opaque() {
    let bytes = b"GET / HTTP/1.1\r\n\r\n";
    assert!(bytes.len() < PEEK_LIMIT);
    assert_eq!(detect(80, &no_ports(), bytes, true), Protocol::Opaque);
    assert_eq!(detect(80, &no_ports(), bytes, false), Protocol::Http1);
}

#[test]
fn only_the_first_bytes_count() {
    let mut bytes = b"PRI * HTTP/2.0\r\n\r\nSM\r\n\r\n".to_vec();
    bytes.extend_from_slice(&[0, 0, 0, 4, 0, 0, 0, 0, 0]);
    assert_eq!(detect(80, &no_ports(), &bytes, false), Protocol::Http2);
    assert_eq!(detect(80, &no_ports(), &bytes, true), Protocol::Http2);
}

#[test]
fn classify_goes_by_the_parse_it_is_given() {
    let head = b"GET / HTTP/1.1\r\nHost: ap";
    assert_eq!(classify(head, HeadParse::TooManyHeaders), Protocol::Http1);
    assert_eq!(classify(head, HeadParse::Partial), Protocol::Http1);
    assert_eq!(classify(head, HeadParse::Complete(24)), Protocol::Http1);
    assert_eq!(classify(head, HeadParse::Token), Protocol::Opaque);
    assert_eq!(classify(head, HeadParse::Version), Protocol::Opaque);
    assert_eq!(classify(head, HeadParse::NewLine), Protocol::Opaque);
    assert_eq!(classify(head, HeadParse::HeaderName), Protocol::Opaque);
    assert_eq!(classify(head, HeadParse::HeaderValue), Protocol::Opaque);
    assert_eq!(classify(head, HeadParse::Status), Protocol::Opaque);
    assert_eq!(classify(&H2_PREFACE, HeadParse::Version), Protocol::Http2);
}

#[test]
fn every_known_method_is_found() {
    for m in ["GET ", "HEAD ", "POST ", "PUT ", "DELETE ", "CONNECT ", "OPTIONS ", "TRACE ", "PATCH "] {
        let line = format!("{}/ HTTP/1.1\r\n", m);
        assert!(has_method(line.as_bytes()), "{}", m);
    }
    assert!(!has_method(b"GET"));
    assert!(!has_method(b"get / HTTP/1.1"));
    assert!(!has_method(b"GETS / HTTP/1.1"));
    assert!(!has_method(b""));
}

#[test]
fn starts_with_compares_bytes() {
    assert!(starts_with(b"abcdef", b"abc"));
    assert!(starts_with(b"abc", b""));
    assert!(!starts_with(b"ab", b"abc"));
    assert!(!starts_with(b"abd", b"abc"));
}

#[test]
fn waits_only_while_short_open_and_in_time() {
    assert!(awaits_more(0, false, false));
    assert!(awaits_more(23, false, false));
    assert!(!awaits_more(24, false, false));
    assert!(!awaits_more(3, true, false));
    assert!(!awaits_more(3, false, true));
}

#[test]
fn inspect_reads_what_detect_reads() {
    assert_eq!(inspect(b"POST /a HTTP/1.1\r\nHost: x\r\n\r\n", false), Protocol::Http1);
    assert_eq!(inspect(b"PRI * HTTP/2.0\r\n\r\nSM\r\n\r\n", false), Protocol::Http2);
    assert_eq!(inspect(b"\x00\x01\x02", false), Protocol::Opaque);
    assert_eq!(inspect(b"", false), Protocol::Opaque);
}

#[test]
fn a_request_line_cut_short_still_counts() {
    let bytes = b"DELETE /a/very/long/path/that/goes/on HTTP/1.1\r\n\r\n";
    assert_eq!(inspect(bytes, false), Protocol::Http1);
    assert_eq!(inspect(&bytes[..24], false), Protocol::Http1);
}
