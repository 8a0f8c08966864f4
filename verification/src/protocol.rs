//! Protocol detection: deciding from the first bytes of a connection whether
//! it speaks HTTP/1, HTTP/2 with prior knowledge, or something to be tunnelled
//! as opaque bytes.

use crate::ports::{listed_ports, lists_port};
use indexmap::IndexSet;
use std::collections::hash_map::RandomState;
use vstd::prelude::*;

verus! {

/// What a connection was found to speak.
#[derive(Clone, Copy, Debug, PartialEq, Eq, Structural)]
pub enum Protocol {
    Http1,
    Http2,
    Opaque,
}

/// How a request parser judged the bytes it was shown.
#[derive(Clone, Copy, Debug, PartialEq, Eq, Structural)]
pub enum HeadParse {
    /// A whole request head, ending at the given offset.
    Complete(usize),
    /// No invalid byte so far, but the head is not finished.
    Partial,
    /// An invalid byte in a header name.
    HeaderName,
    /// An invalid byte in a header value.
    HeaderValue,
    /// An invalid byte where a line should end.
    NewLine,
    /// An invalid byte in a response status.
    Status,
    /// An invalid byte in the method or the request target.
    Token,
    /// The request line was read and header lines follow it.
    TooManyHeaders,
    /// An invalid byte in the HTTP version.
    Version,
}

/// The number of bytes that detection looks at.
pub const PEEK_LIMIT: usize = 24;

/// The HTTP/2 connection preface.
pub const H2_PREFACE: [u8; 24] = [
    0x50, 0x52, 0x49, 0x20, 0x2a, 0x20, 0x48, 0x54, 0x54, 0x50, 0x2f, 0x32,
    0x2e, 0x30, 0x0d, 0x0a, 0x0d, 0x0a, 0x53, 0x4d, 0x0d, 0x0a, 0x0d, 0x0a,
];

/// What `httparse` makes of `bytes` when asked to parse them as a request
/// head with no room for headers.
pub uninterp spec fn request_head_parse(bytes: Seq<u8>) -> HeadParse;

/// `httparse::Request::parse` on a request with an empty header array: the
/// outcome, variant for variant.
#[verifier::external_body]
pub(crate) fn parse_request_head(bytes: &[u8]) -> (outcome: HeadParse)
    ensures
        outcome == request_head_parse(bytes@),
{
    let mut headers: [httparse::Header<'_>; 0] = [];
    match httparse::Request::new(&mut headers).parse(bytes) {
        Ok(httparse::Status::Complete(end)) => HeadParse::Complete(end),
        Ok(httparse::Status::Partial) => HeadParse::Partial,
        Err(httparse::Error::HeaderName) => HeadParse::HeaderName,
        Err(httparse::Error::HeaderValue) => HeadParse::HeaderValue,
        Err(httparse::Error::NewLine) => HeadParse::NewLine,
        Err(httparse::Error::Status) => HeadParse::Status,
        Err(httparse::Error::Token) => HeadParse::Token,
        Err(httparse::Error::TooManyHeaders) => HeadParse::TooManyHeaders,
        Err(httparse::Error::Version) => HeadParse::Version,
    }
}

/// The bytes that detection looks at: the first `PEEK_LIMIT` of what arrived.
pub open spec fn peeked(bytes: Seq<u8>) -> Seq<u8> {
    if bytes.len() <= PEEK_LIMIT {
        bytes
    } else {
        bytes.subrange(0, PEEK_LIMIT as int)
    }
}

/// `GET` and a space.
pub const GET: [u8; 4] = [0x47, 0x45, 0x54, 0x20];

/// `HEAD` and a space.
pub const HEAD: [u8; 5] = [0x48, 0x45, 0x41, 0x44, 0x20];

/// `POST` and a space.
pub const POST: [u8; 5] = [0x50, 0x4f, 0x53, 0x54, 0x20];

/// `PUT` and a space.
pub const PUT: [u8; 4] = [0x50, 0x55, 0x54, 0x20];

/// `DELETE` and a space.
pub const DELETE: [u8; 7] = [0x44, 0x45, 0x4c, 0x45, 0x54, 0x45, 0x20];

/// `CONNECT` and a space.
pub const CONNECT: [u8; 8] = [0x43, 0x4f, 0x4e, 0x4e, 0x45, 0x43, 0x54, 0x20];

/// `OPTIONS` and a space.
pub const OPTIONS: [u8; 8] = [0x4f, 0x50, 0x54, 0x49, 0x4f, 0x4e, 0x53, 0x20];

/// `TRACE` and a space.
pub const TRACE: [u8; 6] = [0x54, 0x52, 0x41, 0x43, 0x45, 0x20];

/// `PATCH` and a space.
pub const PATCH: [u8; 6] = [0x50, 0x41, 0x54, 0x43, 0x48, 0x20];

/// The request methods that detection knows, each followed by a space.
pub open spec fn method_prefixes() -> Seq<Seq<u8>> {
    seq![GET@, HEAD@, POST@, PUT@, DELETE@, CONNECT@, OPTIONS@, TRACE@, PATCH@]
}

/// Whether `head` begins with a known method and a space.
pub open spec fn starts_with_method(head: Seq<u8>) -> bool {
    exists|i: int|
        0 <= i < method_prefixes().len() && (#[trigger] method_prefixes()[i]).is_prefix_of(head)
}

/// Whether the parser got through the request line without objection.
pub open spec fn request_line_accepted(parse: HeadParse) -> bool {
    parse is Complete || parse is Partial || parse is TooManyHeaders
}

/// The protocol of a connection whose first bytes are `head`, `parse` being
/// the parser's judgement of those bytes.
pub open spec fn spec_classify(head: Seq<u8>, parse: HeadParse) -> Protocol {
    if head == H2_PREFACE@ {
        Protocol::Http2
    } else if starts_with_method(head) && request_line_accepted(parse) {
        Protocol::Http1
    } else {
        Protocol::Opaque
    }
}

/// The protocol that the bytes of a connection show. A connection that
/// stayed short of `PEEK_LIMIT` bytes until the detection timeout ran out is
/// opaque.
pub open spec fn spec_inspect(bytes: Seq<u8>, timed_out: bool, parse: HeadParse) -> Protocol {
    if timed_out && bytes.len() < PEEK_LIMIT {
        Protocol::Opaque
    } else {
        spec_classify(peeked(bytes), parse)
    }
}

/// The protocol of a connection to `port` on which `bytes` arrived. Ports in
/// `exempt` are never inspected.
pub open spec fn spec_detect(
    exempt: Set<u16>,
    port: u16,
    bytes: Seq<u8>,
    timed_out: bool,
    parse: HeadParse,
) -> Protocol {
    if exempt.contains(port) {
        Protocol::Opaque
    } else {
        spec_inspect(bytes, timed_out, parse)
    }
}

/// Whether `data` begins with `pattern`.
pub fn starts_with(data: &[u8], pattern: &[u8]) -> (found: bool)
    ensures
        found == pattern@.is_prefix_of(data@),
{
    if pattern.len() > data.len() {
        return false;
    }
    let mut i: usize = 0;
    while i < pattern.len()
        invariant
            i <= pattern.len() <= data.len(),
            forall|k: int| 0 <= k < i ==> data@[k] == pattern@[k],
        decreases pattern.len() - i,
    {
        if data[i] != pattern[i] {
            assert(data@.subrange(0, pattern@.len() as int)[i as int] != pattern@[i as int]);
            return false;
        }
        i += 1;
    }
    assert(data@.subrange(0, pattern@.len() as int) =~= pattern@);
    true
}

/// Whether `head` begins with a known request method and a space.
pub fn has_method(head: &[u8]) -> (found: bool)
    ensures
        found == starts_with_method(head@),
{
    let found = starts_with(head, GET.as_slice()) || starts_with(head, HEAD.as_slice())
        || starts_with(head, POST.as_slice()) || starts_with(head, PUT.as_slice())
        || starts_with(head, DELETE.as_slice()) || starts_with(head, CONNECT.as_slice())
        || starts_with(head, OPTIONS.as_slice()) || starts_with(head, TRACE.as_slice())
        || starts_with(head, PATCH.as_slice());
    proof {
        let all = method_prefixes();
        assert(all.len() == 9);
        assert(all[0] == GET@ && all[1] == HEAD@ && all[2] == POST@ && all[3] == PUT@);
        assert(all[4] == DELETE@ && all[5] == CONNECT@ && all[6] == OPTIONS@);
        assert(all[7] == TRACE@ && all[8] == PATCH@);
    }
    found
}

/// Classifies the first bytes of a connection, given the parser's judgement
/// of them: the HTTP/2 preface exactly, else a known method whose request line
/// the parser accepted, else opaque.
pub fn classify(head: &[u8], parse: HeadParse) -> (protocol: Protocol)
    ensures
        protocol == spec_classify(head@, parse),
{
    if head.len() == PEEK_LIMIT && starts_with(head, H2_PREFACE.as_slice()) {
        assert(head@ =~= H2_PREFACE@);
        return Protocol::Http2;
    }
    let accepted = match parse {
        HeadParse::Complete(_) => true,
        HeadParse::Partial => true,
        HeadParse::TooManyHeaders => true,
        _ => false,
    };
    if accepted && has_method(head) {
        Protocol::Http1
    } else {
        Protocol::Opaque
    }
}

/// Detects the protocol of a connection from the bytes that have arrived on
/// it. `timed_out` says that the detection timeout ran out before
/// `PEEK_LIMIT` bytes were there.
pub fn inspect(bytes: &[u8], timed_out: bool) -> (protocol: Protocol)
    ensures
        protocol == spec_inspect(bytes@, timed_out, request_head_parse(peeked(bytes@))),
{
    if timed_out && bytes.len() < PEEK_LIMIT {
        return Protocol::Opaque;
    }
    let head = if bytes.len() <= PEEK_LIMIT {
        bytes
    } else {
        vstd::slice::slice_subrange(bytes, 0, PEEK_LIMIT)
    };
    let parse = parse_request_head(head);
    classify(head, parse)
}

/// Detects the protocol of a connection to `port`: opaque where the port is
/// in `exempt`, else what `inspect` finds in its bytes.
pub fn detect(
    port: u16,
    exempt: &IndexSet<u16, RandomState>,
    bytes: &[u8],
    timed_out: bool,
) -> (protocol: Protocol)
    ensures
        protocol == spec_detect(
            listed_ports(*exempt),
            port,
            bytes@,
            timed_out,
            request_head_parse(peeked(bytes@)),
        ),
{
    if lists_port(exempt, port) {
        return Protocol::Opaque;
    }
    inspect(bytes, timed_out)
}

/// Whether detection should go on waiting for bytes: it has fewer than
/// `PEEK_LIMIT`, the peer has not closed, and the timeout has not run out.
pub fn awaits_more(received: usize, closed: bool, timed_out: bool) -> (wait: bool)
    ensures
        wait == (received < PEEK_LIMIT && !closed && !timed_out),
{
    received < PEEK_LIMIT && !closed && !timed_out
}

} // verus!
