//! Properties of the server that relate routing, handling and file outcomes.
use vstd::prelude::*;
use crate::text::has_prefix;
use crate::request::{content_length, parse_spec, RequestView};
use crate::response::{bare, well_formed, with_body, ContentType, Header, Status};
use crate::handlers::{
    echo_dir, echo_path, file_name, files_dir, files_path, get_method, plan, post_method,
    read_spec, root_path, route_of, write_spec, ActionView, Route,
};

verus! {

proof fn lemma_prefix_of_longer(s: Seq<u8>, p: Seq<u8>, k: int)
    requires
        has_prefix(s, p),
        0 <= k <= p.len(),
    ensures
        has_prefix(s, p.subrange(0, k)),
{
    assert(s.subrange(0, k) =~= p.subrange(0, k));
}

/// A path under `/echo/` is echoed: 200, the rest of the path as the body,
/// and a `Content-Length` of that rest's byte length, whatever the method.
pub proof fn echo_returns_suffix(req: RequestView, serving: bool)
    requires
        has_prefix(req.path, echo_dir()),
        req.path.len() <= usize::MAX,
    ensures
        ({
            let rest = req.path.subrange(6, req.path.len() as int);
            &&& plan(req, serving) == ActionView::Respond(with_body(Status::Success, ContentType::TextPlain, rest))
            &&& with_body(Status::Success, ContentType::TextPlain, rest).headers[1]
                == Header::ContentLength((req.path.len() - 6) as usize)
        }),
{
    assert(echo_dir().subrange(0, 5) =~= echo_path());
    lemma_prefix_of_longer(req.path, echo_dir(), 5);
    assert(req.path != root_path()) by {
        assert(req.path.len() >= 6);
    }
}

/// `/echo` alone is echoed as an empty body with a `Content-Length` of 0.
pub proof fn echo_alone_is_empty(req: RequestView, serving: bool)
    requires
        req.path == echo_path(),
    ensures
        plan(req, serving) == ActionView::Respond(with_body(Status::Success, ContentType::TextPlain, Seq::empty())),
        with_body(Status::Success, ContentType::TextPlain, Seq::<u8>::empty()).headers[1] == Header::ContentLength(0),
{
    assert(req.path.subrange(0, 5) =~= echo_path());
    assert(!has_prefix(req.path, echo_dir()));
}

proof fn lemma_files_route(path: Seq<u8>, serving: bool)
    requires
        has_prefix(path, files_path()),
    ensures
        route_of(path, serving) == (if serving { Route::Files } else { Route::NotFound }),
{
    assert(path.len() >= 6);
    assert(path[1] == 102u8) by {
        assert(path.subrange(0, 6)[1] == files_path()[1]);
    }
    if has_prefix(path, crate::handlers::echo_path()) {
        assert(path.subrange(0, 5)[1] == echo_path()[1]);
    }
    if has_prefix(path, crate::handlers::user_agent_path()) {
        assert(path.subrange(0, 11)[1] == crate::handlers::user_agent_path()[1]);
    }
}

/// Without a serving root, every path under `/files` gets 404, whatever the method.
pub proof fn files_need_a_root(req: RequestView)
    requires
        has_prefix(req.path, files_path()),
    ensures
        plan(req, false) == ActionView::Respond(bare(Status::NotFound)),
{
    lemma_files_route(req.path, false);
}

/// `/` gets 200 with no headers and no body, whatever the method.
pub proof fn root_is_alive(req: RequestView, serving: bool)
    requires
        req.path == root_path(),
    ensures
        plan(req, serving) == ActionView::Respond(bare(Status::Success)),
{
}

/// A POST of a body to `/files/<name>` writes exactly that body to `<name>`,
/// a GET of the same path reads `<name>`, and reading the written bytes
/// back answers 200 with exactly those bytes.
pub proof fn post_then_get_round_trip(post: RequestView, get: RequestView)
    requires
        post.method == post_method(),
        get.method == get_method(),
        post.path == get.path,
        has_prefix(post.path, files_dir()),
    ensures
        plan(post, true) == ActionView::WriteFile(file_name(post.path), post.body),
        plan(get, true) == ActionView::ReadFile(file_name(post.path)),
        read_spec(Some(post.body)).status == Status::Success,
        read_spec(Some(post.body)).body == post.body,
{
    assert(files_dir().subrange(0, 6) =~= files_path());
    lemma_prefix_of_longer(post.path, files_dir(), 6);
    lemma_files_route(post.path, true);
    assert(get_method() != post_method());
}

/// Two POSTs to distinct paths under `/files/` write to distinct names, each
/// its own body.
pub proof fn distinct_posts_stay_apart(a: RequestView, b: RequestView)
    requires
        a.method == post_method(),
        b.method == post_method(),
        has_prefix(a.path, files_dir()),
        has_prefix(b.path, files_dir()),
        a.path != b.path,
    ensures
        plan(a, true) == ActionView::WriteFile(file_name(a.path), a.body),
        plan(b, true) == ActionView::WriteFile(file_name(b.path), b.body),
        file_name(a.path) != file_name(b.path),
{
    assert(files_dir().subrange(0, 6) =~= files_path());
    lemma_prefix_of_longer(a.path, files_dir(), 6);
    lemma_prefix_of_longer(b.path, files_dir(), 6);
    lemma_files_route(a.path, true);
    lemma_files_route(b.path, true);
    assert(get_method() != post_method());
    if file_name(a.path) == file_name(b.path) {
        assert(a.path =~= files_dir() + file_name(a.path));
        assert(b.path =~= files_dir() + file_name(b.path));
    }
}

proof fn lemma_with_body_well_formed(status: Status, t: ContentType, body: Seq<u8>)
    requires
        body.len() <= usize::MAX,
    ensures
        well_formed(with_body(status, t, body)),
{
    let r = with_body(status, t, body);
    assert(r.headers[1] == Header::ContentLength(r.body.len() as usize));
}

/// Every response the server sends announces a non-empty body's byte length.
pub proof fn responses_are_well_formed(req: RequestView, serving: bool, contents: Option<Seq<u8>>, written: bool)
    requires
        req.path.len() <= usize::MAX,
        forall|i: int| 0 <= i < req.headers.len() ==> (#[trigger] req.headers[i]).1.len() <= usize::MAX,
        contents matches Some(c) ==> c.len() <= usize::MAX,
    ensures
        plan(req, serving) matches ActionView::Respond(r) ==> well_formed(r),
        well_formed(read_spec(contents)),
        well_formed(write_spec(written)),
{
    lemma_with_body_well_formed(Status::Success, ContentType::TextPlain, crate::handlers::echo_text(req.path));
    let v = crate::request::lookup(req.headers, crate::handlers::user_agent_name());
    if v is Some {
        lemma_lookup_in(req.headers, crate::handlers::user_agent_name(), 0);
        lemma_with_body_well_formed(Status::Success, ContentType::TextPlain, v->0);
    }
    if let Some(c) = contents {
        lemma_with_body_well_formed(Status::Success, ContentType::OctetStream, c);
    }
}

proof fn lemma_lookup_in(hs: Seq<(Seq<u8>, Seq<u8>)>, name: Seq<u8>, i: int)
    requires
        0 <= i,
        crate::request::lookup_from(hs, name, i) is Some,
    ensures
        exists|k: int| 0 <= k < hs.len() && crate::request::lookup_from(hs, name, i) == Some(#[trigger] hs[k].1),
    decreases hs.len() - i,
{
    if i < hs.len() && !crate::text::eq_ignore_case(hs[i].0, name) {
        lemma_lookup_in(hs, name, i + 1);
    } else {
        assert(crate::request::lookup_from(hs, name, i) == Some(hs[i].1));
    }
}

/// A parsed request's body has exactly the length its headers announce.
pub proof fn body_has_announced_length(s: Seq<u8>)
    ensures
        parse_spec(s) matches Ok(r) ==> r.body.len() == content_length(r.headers),
{
    crate::request::lemma_head_end_bounds(s, crate::request::next_line(s, 0));
}

} // verus!
