//! Routing a request and answering it.
//!
//! Every route but the file route answers at once. The file route names a
//! file to read or to write under the serving root; the caller does that and
//! hands the outcome to [`read_response`] or [`write_response`].
use vstd::prelude::*;
use crate::text::{has_prefix, starts_with, bytes_equal};
use crate::request::{Request, RequestView, find_header, headers_view, lookup, text_bytes};
use crate::response::{bare, with_body, ContentType, Response, ResponseView, Status};

verus! {

/// The bytes of `/`.
pub open spec fn root_path() -> Seq<u8> {
    seq![47u8]
}

/// The bytes of `/echo`.
pub open spec fn echo_path() -> Seq<u8> {
    seq![47u8, 101u8, 99u8, 104u8, 111u8]
}

/// The bytes of `/echo/`.
pub open spec fn echo_dir() -> Seq<u8> {
    echo_path().push(47u8)
}

/// The bytes of `/user-agent`.
pub open spec fn user_agent_path() -> Seq<u8> {
    seq![47u8, 117u8, 115u8, 101u8, 114u8, 45u8, 97u8, 103u8, 101u8, 110u8, 116u8]
}

/// The bytes of `/files`.
pub open spec fn files_path() -> Seq<u8> {
    seq![47u8, 102u8, 105u8, 108u8, 101u8, 115u8]
}

/// The bytes of `/files/`.
pub open spec fn files_dir() -> Seq<u8> {
    files_path().push(47u8)
}

/// The bytes of `User-Agent`.
pub open spec fn user_agent_name() -> Seq<u8> {
    seq![85u8, 115u8, 101u8, 114u8, 45u8, 65u8, 103u8, 101u8, 110u8, 116u8]
}

/// The bytes of `GET`.
pub open spec fn get_method() -> Seq<u8> {
    seq![71u8, 69u8, 84u8]
}

/// The bytes of `POST`.
pub open spec fn post_method() -> Seq<u8> {
    seq![80u8, 79u8, 83u8, 84u8]
}

/// The handler a request goes to.
#[derive(Clone, Copy, Debug, PartialEq, Eq, Structural)]
pub enum Route {
    Root,
    Echo,
    UserAgent,
    Files,
    NotFound,
}

/// First match, in order: `/` exactly, then the prefixes `/echo`,
/// `/user-agent` and, when a serving root is configured, `/files`.
pub open spec fn route_of(path: Seq<u8>, serving: bool) -> Route {
    if path == root_path() {
        Route::Root
    } else if has_prefix(path, echo_path()) {
        Route::Echo
    } else if has_prefix(path, user_agent_path()) {
        Route::UserAgent
    } else if serving && has_prefix(path, files_path()) {
        Route::Files
    } else {
        Route::NotFound
    }
}

/// What the echo handler sends back: the path after `/echo/`, nothing for
/// `/echo` itself, and the whole path for any other path under `/echo`.
pub open spec fn echo_text(path: Seq<u8>) -> Seq<u8> {
    if has_prefix(path, echo_dir()) {
        path.subrange(echo_dir().len() as int, path.len() as int)
    } else if path == echo_path() {
        Seq::empty()
    } else {
        path
    }
}

pub open spec fn echo_spec(path: Seq<u8>) -> ResponseView {
    with_body(Status::Success, ContentType::TextPlain, echo_text(path))
}

/// The first `User-Agent` header reflected back, or 400 when there is none.
pub open spec fn user_agent_spec(hs: Seq<(Seq<u8>, Seq<u8>)>) -> ResponseView {
    match lookup(hs, user_agent_name()) {
        Some(v) => with_body(Status::Success, ContentType::TextPlain, v),
        None => bare(Status::BadRequest),
    }
}

/// What a request asks of the server.
pub enum Action {
    /// Send this response.
    Respond(Response),
    /// Read the named file under the serving root and answer with [`read_response`].
    ReadFile(Vec<u8>),
    /// Write the bytes to the named file under the serving root, creating or
    /// truncating it, and answer with [`write_response`].
    WriteFile(Vec<u8>, Vec<u8>),
}

pub enum ActionView {
    Respond(ResponseView),
    ReadFile(Seq<u8>),
    WriteFile(Seq<u8>, Seq<u8>),
}

impl View for Action {
    type V = ActionView;

    open spec fn view(&self) -> ActionView {
        match self {
            Action::Respond(r) => ActionView::Respond(r@),
            Action::ReadFile(n) => ActionView::ReadFile(n@),
            Action::WriteFile(n, b) => ActionView::WriteFile(n@, b@),
        }
    }
}

/// The file name of a `/files/<name>` path.
pub open spec fn file_name(path: Seq<u8>) -> Seq<u8> {
    path.subrange(files_dir().len() as int, path.len() as int)
}

/// GET reads the file, POST writes the body to it, other methods get 405.
/// A path without a file name gets 404.
pub open spec fn files_spec(req: RequestView) -> ActionView {
    if req.method != get_method() && req.method != post_method() {
        ActionView::Respond(bare(Status::MethodNotAllowed))
    } else if !has_prefix(req.path, files_dir()) {
        ActionView::Respond(bare(Status::NotFound))
    } else if req.method == get_method() {
        ActionView::ReadFile(file_name(req.path))
    } else {
        ActionView::WriteFile(file_name(req.path), req.body)
    }
}

/// What the server does with `req`; `serving` says whether a serving root is configured.
pub open spec fn plan(req: RequestView, serving: bool) -> ActionView {
    match route_of(req.path, serving) {
        Route::Root => ActionView::Respond(bare(Status::Success)),
        Route::Echo => ActionView::Respond(echo_spec(req.path)),
        Route::UserAgent => ActionView::Respond(user_agent_spec(req.headers)),
        Route::Files => files_spec(req),
        Route::NotFound => ActionView::Respond(bare(Status::NotFound)),
    }
}

/// The answer to a file read: its bytes, or 404 when there was no regular file.
pub open spec fn read_spec(contents: Option<Seq<u8>>) -> ResponseView {
    match contents {
        Some(c) => with_body(Status::Success, ContentType::OctetStream, c),
        None => bare(Status::NotFound),
    }
}

/// The answer to a file write: 201, or 500 when the write failed.
pub open spec fn write_spec(written: bool) -> ResponseView {
    if written {
        ResponseView {
            status: Status::Created,
            headers: seq![crate::response::Header::ContentType(ContentType::TextPlain)],
            body: Seq::empty(),
        }
    } else {
        bare(Status::InternalServerError)
    }
}

fn bytes_root() -> (r: Vec<u8>)
    ensures r@ == root_path(),
{
    vec![47u8]
}

fn bytes_echo() -> (r: Vec<u8>)
    ensures r@ == echo_path(),
{
    vec![47u8, 101u8, 99u8, 104u8, 111u8]
}

fn bytes_echo_dir() -> (r: Vec<u8>)
    ensures r@ == echo_dir(),
{
    let r = vec![47u8, 101u8, 99u8, 104u8, 111u8, 47u8];
    assert(r@ =~= echo_dir());
    r
}

fn bytes_user_agent_path() -> (r: Vec<u8>)
    ensures r@ == user_agent_path(),
{
    vec![47u8, 117u8, 115u8, 101u8, 114u8, 45u8, 97u8, 103u8, 101u8, 110u8, 116u8]
}

fn bytes_files() -> (r: Vec<u8>)
    ensures r@ == files_path(),
{
    vec![47u8, 102u8, 105u8, 108u8, 101u8, 115u8]
}

fn bytes_files_dir() -> (r: Vec<u8>)
    ensures r@ == files_dir(),
{
    let r = vec![47u8, 102u8, 105u8, 108u8, 101u8, 115u8, 47u8];
    assert(r@ =~= files_dir());
    r
}

fn bytes_user_agent_name() -> (r: Vec<u8>)
    ensures r@ == user_agent_name(),
{
    vec![85u8, 115u8, 101u8, 114u8, 45u8, 65u8, 103u8, 101u8, 110u8, 116u8]
}

fn bytes_get() -> (r: Vec<u8>)
    ensures r@ == get_method(),
{
    vec![71u8, 69u8, 84u8]
}

fn bytes_post() -> (r: Vec<u8>)
    ensures r@ == post_method(),
{
    vec![80u8, 79u8, 83u8, 84u8]
}

/// Picks the handler for `path`.
pub fn route(path: &String, serving: bool) -> (r: Route)
    ensures
        r == route_of(text_bytes(*path), serving),
{
    let p = path.as_str().as_bytes();
    if bytes_equal(p, bytes_root().as_slice()) {
        Route::Root
    } else if starts_with(p, bytes_echo().as_slice()) {
        Route::Echo
    } else if starts_with(p, bytes_user_agent_path().as_slice()) {
        Route::UserAgent
    } else if serving && starts_with(p, bytes_files().as_slice()) {
        Route::Files
    } else {
        Route::NotFound
    }
}

/// The echo handler: answers with the part of the path after `/echo/`.
pub fn echo(path: &String) -> (r: Response)
    ensures
        r@ == echo_spec(text_bytes(*path)),
{
    let p = path.as_str().as_bytes();
    let body = if starts_with(p, bytes_echo_dir().as_slice()) {
        vstd::slice::slice_to_vec(vstd::slice::slice_subrange(p, 6, p.len()))
    } else if bytes_equal(p, bytes_echo().as_slice()) {
        Vec::new()
    } else {
        vstd::slice::slice_to_vec(p)
    };
    proof {
        if !has_prefix(p@, echo_dir()) && p@ == echo_path() {
            assert(body@ =~= Seq::<u8>::empty());
        }
    }
    Response::with_body(Status::Success, ContentType::TextPlain, body)
}

/// The user-agent handler: answers with the first `User-Agent` header's value.
pub fn user_agent(headers: &Vec<(String, String)>) -> (r: Response)
    ensures
        r@ == user_agent_spec(headers_view(headers@)),
{
    match find_header(headers, bytes_user_agent_name().as_slice()) {
        Some(k) => {
            let v = vstd::slice::slice_to_vec(headers[k].1.as_str().as_bytes());
            Response::with_body(Status::Success, ContentType::TextPlain, v)
        },
        None => Response::bare(Status::BadRequest),
    }
}

/// The file handler, for a request routed to `/files`.
pub fn files(req: &Request) -> (r: Action)
    ensures
        r@ == files_spec(req@),
{
    let m = req.method.as_str().as_bytes();
    let p = req.path.as_str().as_bytes();
    let is_get = bytes_equal(m, bytes_get().as_slice());
    let is_post = bytes_equal(m, bytes_post().as_slice());
    if !is_get && !is_post {
        return Action::Respond(Response::bare(Status::MethodNotAllowed));
    }
    if !starts_with(p, bytes_files_dir().as_slice()) {
        return Action::Respond(Response::bare(Status::NotFound));
    }
    let name = vstd::slice::slice_to_vec(vstd::slice::slice_subrange(p, 7, p.len()));
    if is_get {
        Action::ReadFile(name)
    } else {
        Action::WriteFile(name, vstd::slice::slice_to_vec(req.body.as_slice()))
    }
}

/// Routes `req` and answers it; `serving` says whether a serving root is configured.
pub fn handle(req: &Request, serving: bool) -> (r: Action)
    ensures
        r@ == plan(req@, serving),
{
    match route(&req.path, serving) {
        Route::Root => Action::Respond(Response::bare(Status::Success)),
        Route::Echo => Action::Respond(echo(&req.path)),
        Route::UserAgent => Action::Respond(user_agent(&req.headers)),
        Route::Files => files(req),
        Route::NotFound => Action::Respond(Response::bare(Status::NotFound)),
    }
}

/// The answer to a file read: `Some` with the file's bytes, or `None` when
/// the name is not a regular file under the serving root.
pub fn read_response(contents: Option<Vec<u8>>) -> (r: Response)
    ensures
        r@ == read_spec(match contents { Some(c) => Some(c@), None => None }),
{
    match contents {
        Some(c) => Response::with_body(Status::Success, ContentType::OctetStream, c),
        None => Response::bare(Status::NotFound),
    }
}

/// The answer to a file write: whether the bytes were written.
pub fn write_response(written: bool) -> (r: Response)
    ensures
        r@ == write_spec(written),
{
    if written {
        let r = Response {
            status: Status::Created,
            headers: vec![crate::response::Header::ContentType(ContentType::TextPlain)],
            body: Vec::new(),
        };
        assert(r@.body =~= Seq::<u8>::empty());
        assert(r@.headers =~= seq![crate::response::Header::ContentType(ContentType::TextPlain)]);
        r
    } else {
        Response::bare(Status::InternalServerError)
    }
}

} // verus!
