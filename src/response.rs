//! Responses and their wire form.
use vstd::prelude::*;
use vstd::utf8::encode_utf8;
use crate::text::{decimal, push_decimal};

verus! {

/// The statuses this server answers with.
#[derive(Clone, Copy, Debug, PartialEq, Eq, Structural)]
pub enum Status {
    Success,
    Created,
    BadRequest,
    NotFound,
    MethodNotAllowed,
    InternalServerError,
}

#[derive(Clone, Copy, Debug, PartialEq, Eq, Structural)]
pub enum ContentType {
    TextPlain,
    OctetStream,
}

#[derive(Clone, Copy, Debug, PartialEq, Eq, Structural)]
pub enum Header {
    ContentType(ContentType),
    ContentLength(usize),
}

/// A response: status, headers in the order they are written, and body.
pub struct Response {
    pub status: Status,
    pub headers: Vec<Header>,
    pub body: Vec<u8>,
}

pub struct ResponseView {
    pub status: Status,
    pub headers: Seq<Header>,
    pub body: Seq<u8>,
}

impl View for Response {
    type V = ResponseView;

    open spec fn view(&self) -> ResponseView {
        ResponseView { status: self.status, headers: self.headers@, body: self.body@ }
    }
}

/// A response with no headers and no body.
pub open spec fn bare(status: Status) -> ResponseView {
    ResponseView { status, headers: Seq::empty(), body: Seq::empty() }
}

/// A response carrying `body`, typed as `t`, with its byte length announced.
pub open spec fn with_body(status: Status, t: ContentType, body: Seq<u8>) -> ResponseView {
    ResponseView {
        status,
        headers: seq![Header::ContentType(t), Header::ContentLength(body.len() as usize)],
        body,
    }
}

/// A non-empty body is announced by a `Content-Length` header of its byte length.
pub open spec fn well_formed(r: ResponseView) -> bool {
    r.body.len() > 0 ==> exists|i: int|
        0 <= i < r.headers.len() && #[trigger] r.headers[i] == Header::ContentLength(r.body.len() as usize)
}

pub open spec fn status_text(s: Status) -> Seq<u8> {
    match s {
        Status::Success => encode_utf8("200 OK"@),
        Status::Created => encode_utf8("201 Created"@),
        Status::BadRequest => encode_utf8("400 Bad Request"@),
        Status::NotFound => encode_utf8("404 Not Found"@),
        Status::MethodNotAllowed => encode_utf8("405 Method Not Allowed"@),
        Status::InternalServerError => encode_utf8("500 Internal Server Error"@),
    }
}

pub open spec fn type_text(t: ContentType) -> Seq<u8> {
    match t {
        ContentType::TextPlain => encode_utf8("text/plain"@),
        ContentType::OctetStream => encode_utf8("application/octet-stream"@),
    }
}

pub open spec fn header_text(h: Header) -> Seq<u8> {
    match h {
        Header::ContentType(t) => encode_utf8("Content-Type: "@) + type_text(t),
        Header::ContentLength(n) => encode_utf8("Content-Length: "@) + decimal(n as nat),
    }
}

pub open spec fn crlf() -> Seq<u8> {
    seq![13u8, 10u8]
}

/// Each header followed by CRLF.
pub open spec fn headers_text(hs: Seq<Header>) -> Seq<u8>
    decreases hs.len(),
{
    if hs.len() == 0 {
        Seq::empty()
    } else {
        headers_text(hs.drop_last()) + header_text(hs.last()) + crlf()
    }
}

/// `HTTP/1.1 <status>` CRLF, the header lines, an empty line, then the raw body.
pub open spec fn wire(r: ResponseView) -> Seq<u8> {
    encode_utf8("HTTP/1.1 "@) + status_text(r.status) + crlf() + headers_text(r.headers) + crlf() + r.body
}

impl Response {
    pub fn bare(status: Status) -> (r: Response)
        ensures
            r@ == bare(status),
    {
        let r = Response { status, headers: Vec::new(), body: Vec::new() };
        assert(r@.headers =~= Seq::<Header>::empty());
        r
    }

    pub fn with_body(status: Status, t: ContentType, body: Vec<u8>) -> (r: Response)
        ensures
            r@ == with_body(status, t, body@),
    {
        let n = body.len();
        let r = Response { status, headers: vec![Header::ContentType(t), Header::ContentLength(n)], body };
        r
    }
}

fn append(out: &mut Vec<u8>, b: &[u8])
    ensures
        final(out)@ == old(out)@ + b@,
{
    let mut i: usize = 0;
    while i < b.len()
        invariant
            i <= b@.len(),
            out@ == old(out)@ + b@.subrange(0, i as int),
        decreases b@.len() - i,
    {
        out.push(b[i]);
        i = i + 1;
        assert(out@ =~= old(out)@ + b@.subrange(0, i as int));
    }
    assert(b@.subrange(0, i as int) =~= b@);
}

fn status_bytes(s: Status) -> (r: &'static str)
    ensures
        encode_utf8(r@) == status_text(s),
{
    match s {
        Status::Success => "200 OK",
        Status::Created => "201 Created",
        Status::BadRequest => "400 Bad Request",
        Status::NotFound => "404 Not Found",
        Status::MethodNotAllowed => "405 Method Not Allowed",
        Status::InternalServerError => "500 Internal Server Error",
    }
}

fn type_bytes(t: ContentType) -> (r: &'static str)
    ensures
        encode_utf8(r@) == type_text(t),
{
    match t {
        ContentType::TextPlain => "text/plain",
        ContentType::OctetStream => "application/octet-stream",
    }
}

fn push_header(out: &mut Vec<u8>, h: Header)
    ensures
        final(out)@ == old(out)@ + header_text(h),
{
    match h {
        Header::ContentType(t) => {
            append(out, "Content-Type: ".as_bytes());
            append(out, type_bytes(t).as_bytes());
        },
        Header::ContentLength(n) => {
            append(out, "Content-Length: ".as_bytes());
            push_decimal(out, n);
        },
    }
    assert(final(out)@ =~= old(out)@ + header_text(h));
}

/// The bytes that go on the wire for `r`.
pub fn serialize(r: &Response) -> (out: Vec<u8>)
    ensures
        out@ == wire(r@),
{
    let mut out: Vec<u8> = Vec::new();
    append(&mut out, "HTTP/1.1 ".as_bytes());
    append(&mut out, status_bytes(r.status).as_bytes());
    out.push(13u8);
    out.push(10u8);
    let ghost start = out@;
    let mut i: usize = 0;
    while i < r.headers.len()
        invariant
            i <= r.headers@.len(),
            out@ == start + headers_text(r.headers@.subrange(0, i as int)),
        decreases r.headers@.len() - i,
    {
        push_header(&mut out, r.headers[i]);
        out.push(13u8);
        out.push(10u8);
        assert(r.headers@.subrange(0, i + 1).drop_last() =~= r.headers@.subrange(0, i as int));
        assert(r.headers@.subrange(0, i + 1).last() == r.headers@[i as int]);
        i = i + 1;
        assert(out@ =~= start + headers_text(r.headers@.subrange(0, i as int)));
    }
    assert(r.headers@.subrange(0, i as int) =~= r.headers@);
    out.push(13u8);
    out.push(10u8);
    append(&mut out, r.body.as_slice());
    assert(out@ =~= wire(r@));
    out
}

} // verus!
