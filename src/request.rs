//! Reading one HTTP request out of the bytes a connection delivered.
//!
//! Lines end at LF, with an optional CR before it. The first line is the
//! start line; header lines follow up to the first empty line (or the end of
//! the bytes), and a body of exactly `Content-Length` bytes comes after them.
use vstd::prelude::*;
use vstd::utf8::{encode_utf8, valid_utf8};
use crate::text::{eq_ignore_case, equal_ignore_case, is_ws, is_ws_byte, parse_decimal, parse_usize};

verus! {

pub const LF: u8 = 10;
pub const CR: u8 = 13;
pub const COLON: u8 = 58;
pub const SPACE: u8 = 32;

/// A parsed HTTP request: method, path, headers in arrival order, and body.
pub struct Request {
    pub method: String,
    pub path: String,
    pub headers: Vec<(String, String)>,
    pub body: Vec<u8>,
}

/// A request as bytes: each text field is given by its UTF-8 encoding.
pub struct RequestView {
    pub method: Seq<u8>,
    pub path: Seq<u8>,
    pub headers: Seq<(Seq<u8>, Seq<u8>)>,
    pub body: Seq<u8>,
}

/// Why no request could be read.
#[derive(Clone, Copy, Debug, PartialEq, Eq)]
pub enum ParseError {
    /// The start line does not hold a method and a path.
    MalformedStartLine,
    /// The bytes end before the body that `Content-Length` announced.
    TruncatedBody,
}

pub open spec fn text_bytes(s: String) -> Seq<u8> {
    encode_utf8(s@)
}

pub open spec fn headers_view(hs: Seq<(String, String)>) -> Seq<(Seq<u8>, Seq<u8>)> {
    hs.map_values(|h: (String, String)| (text_bytes(h.0), text_bytes(h.1)))
}

impl View for Request {
    type V = RequestView;

    open spec fn view(&self) -> RequestView {
        RequestView {
            method: text_bytes(self.method),
            path: text_bytes(self.path),
            headers: headers_view(self.headers@),
            body: self.body@,
        }
    }
}

impl Request {
    pub fn new(method: String, path: String, headers: Vec<(String, String)>, body: Vec<u8>) -> (r: Request)
        ensures
            r.method == method,
            r.path == path,
            r.headers == headers,
            r.body == body,
    {
        Request { method, path, headers, body }
    }
}

/// The index of the first `b` in `s` at or after `i`, or `s.len()` if there is none.
pub open spec fn find_from(s: Seq<u8>, i: int, b: u8) -> int
    decreases s.len() - i,
{
    if i < 0 || i >= s.len() {
        s.len() as int
    } else if s[i] == b {
        i
    } else {
        find_from(s, i + 1, b)
    }
}

pub proof fn lemma_find_from_bounds(s: Seq<u8>, i: int, b: u8)
    requires
        0 <= i <= s.len(),
    ensures
        i <= find_from(s, i, b) <= s.len(),
        find_from(s, i, b) < s.len() ==> s[find_from(s, i, b)] == b,
    decreases s.len() - i,
{
    if i < s.len() && s[i] != b {
        lemma_find_from_bounds(s, i + 1, b);
    }
}

/// A line without the CR that may end it.
pub open spec fn strip_cr(l: Seq<u8>) -> Seq<u8> {
    if l.len() > 0 && l.last() == CR { l.drop_last() } else { l }
}

/// The line that starts at `i`, without its terminator.
pub open spec fn line_at(s: Seq<u8>, i: int) -> Seq<u8> {
    strip_cr(s.subrange(i, find_from(s, i, LF)))
}

/// Where the line after the one at `i` starts.
pub open spec fn next_line(s: Seq<u8>, i: int) -> int {
    let e = find_from(s, i, LF);
    if e < s.len() { e + 1 } else { s.len() as int }
}

/// A header line split at its first colon; the value loses one leading space.
/// Lines without a colon, or whose parts are not UTF-8 text, give nothing.
pub open spec fn header_of(l: Seq<u8>) -> Option<(Seq<u8>, Seq<u8>)> {
    let c = find_from(l, 0, COLON);
    if c >= l.len() {
        None
    } else {
        let name = l.subrange(0, c);
        let rest = l.subrange(c + 1, l.len() as int);
        let value = if rest.len() > 0 && rest[0] == SPACE { rest.drop_first() } else { rest };
        if valid_utf8(name) && valid_utf8(value) { Some((name, value)) } else { None }
    }
}

/// The headers read from the line at `i` on, up to the first empty line.
pub open spec fn headers_from(s: Seq<u8>, i: int) -> Seq<(Seq<u8>, Seq<u8>)>
    decreases s.len() - i,
    via headers_from_decreases
{
    if i < 0 || i >= s.len() || line_at(s, i).len() == 0 {
        Seq::empty()
    } else {
        match header_of(line_at(s, i)) {
            Some(h) => seq![h] + headers_from(s, next_line(s, i)),
            None => headers_from(s, next_line(s, i)),
        }
    }
}

#[via_fn]
proof fn headers_from_decreases(s: Seq<u8>, i: int) {
    if 0 <= i < s.len() {
        lemma_find_from_bounds(s, i, LF);
    }
}

/// Where the body starts, for a head whose header lines start at `i`:
/// just after the first empty line, or at the end of the bytes.
pub open spec fn head_end(s: Seq<u8>, i: int) -> int
    decreases s.len() - i,
    via head_end_decreases
{
    if i < 0 || i >= s.len() {
        s.len() as int
    } else if line_at(s, i).len() == 0 {
        next_line(s, i)
    } else {
        head_end(s, next_line(s, i))
    }
}

#[via_fn]
proof fn head_end_decreases(s: Seq<u8>, i: int) {
    if 0 <= i < s.len() {
        lemma_find_from_bounds(s, i, LF);
    }
}

pub proof fn lemma_head_end_bounds(s: Seq<u8>, i: int)
    ensures
        0 <= head_end(s, i) <= s.len(),
    decreases s.len() - i,
{
    if 0 <= i < s.len() {
        lemma_find_from_bounds(s, i, LF);
        if line_at(s, i).len() != 0 {
            lemma_head_end_bounds(s, next_line(s, i));
        }
    }
}

/// Whether an empty line, with its terminator, ends the head from `i` on.
pub open spec fn head_closed(s: Seq<u8>, i: int) -> bool
    decreases s.len() - i,
    via head_closed_decreases
{
    if i < 0 || i >= s.len() {
        false
    } else if line_at(s, i).len() == 0 {
        find_from(s, i, LF) < s.len()
    } else {
        head_closed(s, next_line(s, i))
    }
}

#[via_fn]
proof fn head_closed_decreases(s: Seq<u8>, i: int) {
    if 0 <= i < s.len() {
        lemma_find_from_bounds(s, i, LF);
    }
}

/// The index of the first non-whitespace byte of `l` at or after `i`.
pub open spec fn skip_ws(l: Seq<u8>, i: int) -> int
    decreases l.len() - i,
{
    if 0 <= i < l.len() && is_ws(l[i]) { skip_ws(l, i + 1) } else { i }
}

/// The index of the first whitespace byte of `l` at or after `i`.
pub open spec fn skip_word(l: Seq<u8>, i: int) -> int
    decreases l.len() - i,
{
    if 0 <= i < l.len() && !is_ws(l[i]) { skip_word(l, i + 1) } else { i }
}

/// The first two whitespace-separated tokens of a start line.
pub open spec fn start_tokens(l: Seq<u8>) -> Option<(Seq<u8>, Seq<u8>)> {
    let a = skip_ws(l, 0);
    let b = skip_word(l, a);
    let c = skip_ws(l, b);
    let d = skip_word(l, c);
    if a < l.len() && c < l.len() { Some((l.subrange(a, b), l.subrange(c, d))) } else { None }
}

/// The value of the first header, from index `i` on, whose name is `name` up to case.
pub open spec fn lookup_from(hs: Seq<(Seq<u8>, Seq<u8>)>, name: Seq<u8>, i: int) -> Option<Seq<u8>>
    decreases hs.len() - i,
{
    if i < 0 || i >= hs.len() {
        None
    } else if eq_ignore_case(hs[i].0, name) {
        Some(hs[i].1)
    } else {
        lookup_from(hs, name, i + 1)
    }
}

/// The value of the first header whose name is `name` up to ASCII case.
pub open spec fn lookup(hs: Seq<(Seq<u8>, Seq<u8>)>, name: Seq<u8>) -> Option<Seq<u8>> {
    lookup_from(hs, name, 0)
}

pub open spec fn content_length_name() -> Seq<u8> {
    seq![67u8, 111, 110, 116, 101, 110, 116, 45, 76, 101, 110, 103, 116, 104]
}

/// The body length the headers announce: the first `Content-Length` value
/// if it reads as a number, and 0 otherwise.
pub open spec fn content_length(hs: Seq<(Seq<u8>, Seq<u8>)>) -> nat {
    match lookup(hs, content_length_name()) {
        Some(v) => match parse_usize(v) {
            Some(n) => n as nat,
            None => 0,
        },
        None => 0,
    }
}

/// The request that the bytes `s` hold, or why they hold none.
pub open spec fn parse_spec(s: Seq<u8>) -> Result<RequestView, ParseError> {
    match start_tokens(line_at(s, 0)) {
        None => Err(ParseError::MalformedStartLine),
        Some((m, p)) => if !valid_utf8(m) || !valid_utf8(p) {
            Err(ParseError::MalformedStartLine)
        } else {
            let h = next_line(s, 0);
            let hs = headers_from(s, h);
            let e = head_end(s, h);
            let n = content_length(hs);
            if e + n > s.len() {
                Err(ParseError::TruncatedBody)
            } else {
                Ok(RequestView { method: m, path: p, headers: hs, body: s.subrange(e, e + n) })
            }
        },
    }
}

/// Whether a connection that has delivered `s` so far must be read further:
/// the head is not closed by an empty line yet, or the body is short.
pub open spec fn incomplete(s: Seq<u8>) -> bool {
    let h = next_line(s, 0);
    !head_closed(s, h) || head_end(s, h) + content_length(headers_from(s, h)) > s.len()
}


/// Relies on `String::from_utf8`: it succeeds exactly on valid UTF-8, and the
/// text it returns encodes back to the same bytes.
#[verifier::external_body]
fn text_from_bytes(b: Vec<u8>) -> (r: Option<String>)
    ensures
        r is Some <==> valid_utf8(b@),
        r matches Some(t) ==> encode_utf8(t@) == b@,
{
    String::from_utf8(b).ok()
}

fn text_of(s: &[u8], a: usize, b: usize) -> (r: Option<String>)
    requires
        a <= b <= s@.len(),
    ensures
        r is Some <==> valid_utf8(s@.subrange(a as int, b as int)),
        r matches Some(t) ==> text_bytes(t) == s@.subrange(a as int, b as int),
{
    text_from_bytes(vstd::slice::slice_to_vec(vstd::slice::slice_subrange(s, a, b)))
}

fn find_byte(s: &[u8], i: usize, b: u8) -> (r: usize)
    requires
        i <= s@.len(),
    ensures
        r == find_from(s@, i as int, b),
        i <= r <= s@.len(),
{
    let mut j: usize = i;
    while j < s.len() && s[j] != b
        invariant
            i <= j <= s@.len(),
            find_from(s@, j as int, b) == find_from(s@, i as int, b),
        decreases s@.len() - j,
    {
        j = j + 1;
    }
    j
}

/// The end of the line at `i` (before its CR and LF) and the start of the next.
fn line_bounds(s: &[u8], i: usize) -> (r: (usize, usize))
    requires
        i <= s@.len(),
    ensures
        i <= r.0 <= s@.len(),
        s@.subrange(i as int, r.0 as int) == line_at(s@, i as int),
        r.1 == next_line(s@, i as int),
        i < s@.len() ==> i < r.1 <= s@.len(),
{
    let e = find_byte(s, i, LF);
    let end = if e > i && s[e - 1] == CR { e - 1 } else { e };
    assert(s@.subrange(i as int, end as int) =~= line_at(s@, i as int));
    let next = if e < s.len() { e + 1 } else { s.len() };
    (end, next)
}

fn skip_ws_from(l: &[u8], i: usize) -> (r: usize)
    requires
        i <= l@.len(),
    ensures
        r == skip_ws(l@, i as int),
        i <= r <= l@.len(),
{
    let mut j: usize = i;
    while j < l.len() && is_ws_byte(l[j])
        invariant
            i <= j <= l@.len(),
            skip_ws(l@, j as int) == skip_ws(l@, i as int),
        decreases l@.len() - j,
    {
        j = j + 1;
    }
    j
}

fn skip_word_from(l: &[u8], i: usize) -> (r: usize)
    requires
        i <= l@.len(),
    ensures
        r == skip_word(l@, i as int),
        i <= r <= l@.len(),
{
    let mut j: usize = i;
    while j < l.len() && !is_ws_byte(l[j])
        invariant
            i <= j <= l@.len(),
            skip_word(l@, j as int) == skip_word(l@, i as int),
        decreases l@.len() - j,
    {
        j = j + 1;
    }
    j
}

/// Splits one non-empty header line into a name and a value.
fn parse_header_line(l: &[u8]) -> (r: Option<(String, String)>)
    ensures
        r is Some <==> header_of(l@) is Some,
        r matches Some(h) ==> header_of(l@) == Some((text_bytes(h.0), text_bytes(h.1))),
{
    let c = find_byte(l, 0, COLON);
    if c >= l.len() {
        return None;
    }
    let v = if c + 1 < l.len() && l[c + 1] == SPACE { c + 2 } else { c + 1 };
    proof {
        let rest = l@.subrange(c + 1, l@.len() as int);
        let value = if rest.len() > 0 && rest[0] == SPACE { rest.drop_first() } else { rest };
        assert(value =~= l@.subrange(v as int, l@.len() as int));
    }
    match text_of(l, 0, c) {
        None => None,
        Some(name) => match text_of(l, v, l.len()) {
            None => None,
            Some(value) => Some((name, value)),
        },
    }
}

/// Reads the header lines from `h` on.
/// Returns the headers, where the body starts, and whether an empty line closed the head.
fn read_headers(s: &[u8], h: usize) -> (r: (Vec<(String, String)>, usize, bool))
    requires
        h <= s@.len(),
    ensures
        headers_view(r.0@) == headers_from(s@, h as int),
        r.1 == head_end(s@, h as int),
        r.1 <= s@.len(),
        r.2 == head_closed(s@, h as int),
{
    let mut headers: Vec<(String, String)> = Vec::new();
    let mut i: usize = h;
    let mut closed = false;
    loop
        invariant_except_break
            i <= s@.len(),
            headers_view(headers@) + headers_from(s@, i as int) == headers_from(s@, h as int),
            head_end(s@, i as int) == head_end(s@, h as int),
            head_closed(s@, i as int) == head_closed(s@, h as int),
            !closed,
        ensures
            headers_view(headers@) == headers_from(s@, h as int),
            i == head_end(s@, h as int),
            i <= s@.len(),
            closed == head_closed(s@, h as int),
        decreases s@.len() - i,
    {
        if i >= s.len() {
            assert(headers_view(headers@) + headers_from(s@, i as int) =~= headers_view(headers@));
            break;
        }
        let (end, next) = line_bounds(s, i);
        if end == i {
            assert(headers_view(headers@) + headers_from(s@, i as int) =~= headers_view(headers@));
            closed = find_byte(s, i, LF) < s.len();
            i = next;
            break;
        }
        let ghost before = headers_view(headers@);
        match parse_header_line(vstd::slice::slice_subrange(s, i, end)) {
            Some(hd) => {
                headers.push(hd);
                assert(headers_view(headers@) =~= before + seq![(text_bytes(hd.0), text_bytes(hd.1))]);
                assert(before + headers_from(s@, i as int)
                    =~= headers_view(headers@) + headers_from(s@, next as int));
            },
            None => {
                assert(headers_view(headers@) =~= before);
            },
        }
        i = next;
    }
    (headers, i, closed)
}

/// Finds the first header whose name equals `name` up to ASCII case.
pub fn find_header(headers: &Vec<(String, String)>, name: &[u8]) -> (r: Option<usize>)
    ensures
        match r {
            Some(k) => k < headers@.len()
                && lookup(headers_view(headers@), name@) == Some(text_bytes(headers@[k as int].1)),
            None => lookup(headers_view(headers@), name@) is None,
        },
{
    let ghost hs = headers_view(headers@);
    let mut k: usize = 0;
    while k < headers.len()
        invariant
            k <= headers@.len(),
            hs == headers_view(headers@),
            lookup_from(hs, name@, k as int) == lookup(hs, name@),
        decreases headers@.len() - k,
    {
        let n = headers[k].0.as_str().as_bytes();
        if equal_ignore_case(n, name) {
            return Some(k);
        }
        k = k + 1;
    }
    None
}

fn content_length_bytes() -> (r: Vec<u8>)
    ensures
        r@ == content_length_name(),
{
    vec![67u8, 111, 110, 116, 101, 110, 116, 45, 76, 101, 110, 103, 116, 104]
}

/// The body length that the headers announce.
pub fn announced_length(headers: &Vec<(String, String)>) -> (r: usize)
    ensures
        r as nat == content_length(headers_view(headers@)),
{
    let name = content_length_bytes();
    match find_header(headers, name.as_slice()) {
        None => 0,
        Some(k) => match parse_decimal(headers[k].1.as_str().as_bytes()) {
            Some(n) => n,
            None => 0,
        },
    }
}

/// Reads one request from the bytes a connection delivered.
///
/// The start line gives the method and the path (its first two tokens), the
/// header lines give the headers, and `Content-Length` says how many bytes
/// after the head are the body; bytes beyond that are left alone.
pub fn parse_request(buf: &[u8]) -> (r: Result<Request, ParseError>)
    ensures
        match r {
            Ok(req) => parse_spec(buf@) == Ok::<RequestView, ParseError>(req@),
            Err(e) => parse_spec(buf@) == Err::<RequestView, ParseError>(e),
        },
{
    let (end, h) = line_bounds(buf, 0);
    let line = vstd::slice::slice_subrange(buf, 0, end);
    let a = skip_ws_from(line, 0);
    let b = skip_word_from(line, a);
    let c = skip_ws_from(line, b);
    let d = skip_word_from(line, c);
    if a >= line.len() || c >= line.len() {
        return Err(ParseError::MalformedStartLine);
    }
    let method = match text_of(line, a, b) {
        Some(t) => t,
        None => return Err(ParseError::MalformedStartLine),
    };
    let path = match text_of(line, c, d) {
        Some(t) => t,
        None => return Err(ParseError::MalformedStartLine),
    };
    let (headers, e, _closed) = read_headers(buf, h);
    let n = announced_length(&headers);
    if n > buf.len() - e {
        return Err(ParseError::TruncatedBody);
    }
    let body = vstd::slice::slice_to_vec(vstd::slice::slice_subrange(buf, e, e + n));
    let req = Request::new(method, path, headers, body);
    assert(req@ == RequestView {
        method: line@.subrange(a as int, b as int),
        path: line@.subrange(c as int, d as int),
        headers: headers_from(buf@, h as int),
        body: buf@.subrange(e as int, e + n),
    });
    Ok(req)
}

/// Whether a connection that has delivered `buf` so far must be read further
/// before [`parse_request`] can be given the bytes.
pub fn is_incomplete(buf: &[u8]) -> (r: bool)
    ensures
        r == incomplete(buf@),
{
    let (_end, h) = line_bounds(buf, 0);
    let (headers, e, closed) = read_headers(buf, h);
    let n = announced_length(&headers);
    !closed || n > buf.len() - e
}

} // verus!
