use http_server::handlers::{
    echo, handle, read_response, route, user_agent, write_response, Action, Route,
};
use http_server::request::{announced_length, find_header, is_incomplete, parse_request, ParseError};
use http_server::response::{serialize, ContentType, Header, Response, Status};
use http_server::text::{parse_decimal, push_decimal};
use http_server::Request;

fn req(method: &str, path: &str, headers: &[(&str, &str)], body: &[u8]) -> Request {
    Request::new(
        method.to_string(),
        path.to_string(),
        headers.iter().map(|(k, v)| (k.to_string(), v.to_string())).collect(),
        body.to_vec(),
    )
}

fn respond(a: Action) -> Response {
    match a {
        Action::Respond(r) => r,
        _ => panic!("expected a response"),
    }
}

#[test]
fn parses_start_line_headers_and_body() {
    let buf = b"POST /files/a.txt HTTP/1.1\r\nHost: localhost:4221\r\nContent-Length: 5\r\n\r\nhelloEXTRA";
    let r = parse_request(buf).unwrap();
    assert_eq!(r.method, "POST");
    assert_eq!(r.path, "/files/a.txt");
    assert_eq!(
        r.headers,
        vec![
            ("Host".to_string(), "localhost:4221".to_string()),
            ("Content-Length".to_string(), "5".to_string())
        ]
    );
    assert_eq!(r.body, b"hello".to_vec());
}

#[test]
fn bare_lf_lines_and_extra_tokens_are_tolerated() {
    let buf = b"GET   /echo/x   HTTP/1.1 junk\nUser-Agent: a\n\n";
    let r = parse_request(buf).unwrap();
    assert_eq!(r.method, "GET");
    assert_eq!(r.path, "/echo/x");
    assert_eq!(r.headers, vec![("User-Agent".to_string(), "a".to_string())]);
    assert!(r.body.is_empty());
}

#[test]
fn header_without_colon_is_skipped_and_colons_in_values_kept() {
    let buf = b"GET / HTTP/1.1\r\nbogus line\r\nX-Time: 12:30:45\r\nX-Bare:value\r\n\r\n";
    let r = parse_request(buf).unwrap();
    assert_eq!(
        r.headers,
        vec![
            ("X-Time".to_string(), "12:30:45".to_string()),
            ("X-Bare".to_string(), "value".to_string())
        ]
    );
}

#[test]
fn one_leading_space_is_stripped_from_values() {
    let r = parse_request(b"GET / HTTP/1.1\r\nA:  two\r\n\r\n").unwrap();
    assert_eq!(r.headers, vec![("A".to_string(), " two".to_string())]);
}

#[test]
fn malformed_start_line() {
    assert_eq!(parse_request(b"GET\r\n\r\n").err(), Some(ParseError::MalformedStartLine));
    assert_eq!(parse_request(b"").err(), Some(ParseError::MalformedStartLine));
    assert_eq!(parse_request(b"   \r\nHost: x\r\n\r\n").err(), Some(ParseError::MalformedStartLine));
}

#[test]
fn start_line_that_is_not_utf8_is_malformed() {
    assert_eq!(parse_request(b"GET /\xff\xfe HTTP/1.1\r\n\r\n").err(), Some(ParseError::MalformedStartLine));
}

#[test]
fn truncated_body() {
    let buf = b"POST /files/a HTTP/1.1\r\nContent-Length: 10\r\n\r\nshort";
    assert_eq!(parse_request(buf).err(), Some(ParseError::TruncatedBody));
}

#[test]
fn content_length_is_found_case_insensitively() {
    let r = parse_request(b"POST /x HTTP/1.1\r\ncontent-LENGTH: 3\r\n\r\nabcdef").unwrap();
    assert_eq!(r.body, b"abc".to_vec());
}

#[test]
fn bad_or_missing_content_length_means_no_body() {
    let r = parse_request(b"POST /x HTTP/1.1\r\nContent-Length: abc\r\n\r\nabcdef").unwrap();
    assert!(r.body.is_empty());
    let r = parse_request(b"POST /x HTTP/1.1\r\nContent-Length: -4\r\n\r\nabcdef").unwrap();
    assert!(r.body.is_empty());
    let r = parse_request(b"POST /x HTTP/1.1\r\n\r\nabcdef").unwrap();
    assert!(r.body.is_empty());
}

#[test]
fn first_content_length_wins() {
    let r = parse_request(b"POST /x HTTP/1.1\r\nContent-Length: 2\r\nContent-Length: 4\r\n\r\nabcdef").unwrap();
    assert_eq!(r.body, b"ab".to_vec());
}

#[test]
fn completeness_of_a_buffer() {
    assert!(is_incomplete(b""));
    assert!(is_incomplete(b"GET / HTTP/1.1\r\nHost: x\r\n"));
    assert!(!is_incomplete(b"GET / HTTP/1.1\r\nHost: x\r\n\r\n"));
    assert!(is_incomplete(b"POST /f HTTP/1.1\r\nContent-Length: 4\r\n\r\nab"));
    assert!(!is_incomplete(b"POST /f HTTP/1.1\r\nContent-Length: 4\r\n\r\nabcd"));
}

#[test]
fn header_lookup_and_announced_length() {
    let hs = vec![
        ("user-agent".to_string(), "one".to_string()),
        ("User-Agent".to_string(), "two".to_string()),
        ("Content-Length".to_string(), "+12".to_string()),
    ];
    assert_eq!(find_header(&hs, b"USER-AGENT"), Some(0));
    assert_eq!(find_header(&hs, b"Host"), None);
    assert_eq!(announced_length(&hs), 12);
}

#[test]
fn decimal_numbers() {
    assert_eq!(parse_decimal(b"0"), Some(0));
    assert_eq!(parse_decimal(b"4221"), Some(4221));
    assert_eq!(parse_decimal(b"+7"), Some(7));
    assert_eq!(parse_decimal(b""), None);
    assert_eq!(parse_decimal(b"+"), None);
    assert_eq!(parse_decimal(b"1 2"), None);
    assert_eq!(parse_decimal(b"18446744073709551615"), Some(usize::MAX));
    assert_eq!(parse_decimal(b"18446744073709551616"), None);
    let mut out = b"n=".to_vec();
    push_decimal(&mut out, 1050);
    assert_eq!(out, b"n=1050".to_vec());
    let mut out = Vec::new();
    push_decimal(&mut out, 0);
    assert_eq!(out, b"0".to_vec());
}

#[test]
fn routing_order() {
    assert_eq!(route(&"/".to_string(), false), Route::Root);
    assert_eq!(route(&"/echo/abc".to_string(), false), Route::Echo);
    assert_eq!(route(&"/echo".to_string(), true), Route::Echo);
    assert_eq!(route(&"/user-agent".to_string(), false), Route::UserAgent);
    assert_eq!(route(&"/files/a".to_string(), true), Route::Files);
    assert_eq!(route(&"/files/a".to_string(), false), Route::NotFound);
    assert_eq!(route(&"/nope".to_string(), true), Route::NotFound);
    assert_eq!(route(&"".to_string(), true), Route::NotFound);
}

#[test]
fn echo_ascii_suffix() {
    let r = respond(handle(&req("GET", "/echo/abc", &[], b""), false));
    assert_eq!(r.status, Status::Success);
    assert_eq!(r.headers, vec![Header::ContentType(ContentType::TextPlain), Header::ContentLength(3)]);
    assert_eq!(r.body, b"abc".to_vec());
}

#[test]
fn echo_counts_bytes_not_characters() {
    let r = respond(handle(&req("POST", "/echo/héllo✓", &[], b""), true));
    assert_eq!(r.status, Status::Success);
    assert_eq!(r.headers[1], Header::ContentLength("héllo✓".len()));
    assert_eq!(r.headers[1], Header::ContentLength(9));
    assert_eq!(r.body, "héllo✓".as_bytes().to_vec());
}

#[test]
fn echo_alone_has_empty_body() {
    let r = echo(&"/echo".to_string());
    assert_eq!(r.status, Status::Success);
    assert_eq!(r.headers[1], Header::ContentLength(0));
    assert!(r.body.is_empty());
}

#[test]
fn echo_under_another_name_returns_whole_path() {
    let r = echo(&"/echoes".to_string());
    assert_eq!(r.body, b"/echoes".to_vec());
}

#[test]
fn user_agent_is_reflected() {
    let r = respond(handle(&req("GET", "/user-agent", &[("User-Agent", "foo/1.0")], b""), false));
    assert_eq!(r.status, Status::Success);
    assert_eq!(r.headers, vec![Header::ContentType(ContentType::TextPlain), Header::ContentLength(7)]);
    assert_eq!(r.body, b"foo/1.0".to_vec());
}

#[test]
fn user_agent_first_match_any_case() {
    let r = user_agent(&vec![
        ("Host".to_string(), "x".to_string()),
        ("user-agent".to_string(), "first".to_string()),
        ("User-Agent".to_string(), "second".to_string()),
    ]);
    assert_eq!(r.body, b"first".to_vec());
}

#[test]
fn missing_user_agent_is_bad_request() {
    let r = respond(handle(&req("GET", "/user-agent", &[], b""), false));
    assert_eq!(r.status, Status::BadRequest);
    assert!(r.headers.is_empty());
    assert!(r.body.is_empty());
}

#[test]
fn post_then_get_round_trip() {
    let body = b"\x00binary\xffdata".to_vec();
    let (name, written) = match handle(&req("POST", "/files/test.txt", &[("Content-Length", "13")], &body), true) {
        Action::WriteFile(n, b) => (n, b),
        _ => panic!("expected a write"),
    };
    assert_eq!(name, b"test.txt".to_vec());
    assert_eq!(written, body);
    let created = write_response(true);
    assert_eq!(created.status, Status::Created);
    assert_eq!(created.headers, vec![Header::ContentType(ContentType::TextPlain)]);
    assert!(created.body.is_empty());
    match handle(&req("GET", "/files/test.txt", &[], b""), true) {
        Action::ReadFile(n) => assert_eq!(n, b"test.txt".to_vec()),
        _ => panic!("expected a read"),
    }
    let r = read_response(Some(written));
    assert_eq!(r.status, Status::Success);
    assert_eq!(
        r.headers,
        vec![Header::ContentType(ContentType::OctetStream), Header::ContentLength(body.len())]
    );
    assert_eq!(r.body, body);
}

#[test]
fn missing_file_is_not_found() {
    match handle(&req("GET", "/files/missing.txt", &[], b""), true) {
        Action::ReadFile(n) => assert_eq!(n, b"missing.txt".to_vec()),
        _ => panic!("expected a read"),
    }
    let r = read_response(None);
    assert_eq!(r.status, Status::NotFound);
    assert!(r.headers.is_empty());
    assert!(r.body.is_empty());
}

#[test]
fn files_without_root_are_not_found() {
    for m in ["GET", "POST", "PUT", "DELETE"] {
        let r = respond(handle(&req(m, "/files/a.txt", &[], b"x"), false));
        assert_eq!(r.status, Status::NotFound);
        assert!(r.body.is_empty());
    }
}

#[test]
fn other_method_on_files_is_not_allowed() {
    let r = respond(handle(&req("DELETE", "/files/a.txt", &[], b""), true));
    assert_eq!(r.status, Status::MethodNotAllowed);
    assert!(r.headers.is_empty());
    assert!(r.body.is_empty());
}

#[test]
fn files_without_a_name_are_not_found() {
    let r = respond(handle(&req("GET", "/files", &[], b""), true));
    assert_eq!(r.status, Status::NotFound);
}

#[test]
fn failed_write_is_server_error() {
    let r = write_response(false);
    assert_eq!(r.status, Status::InternalServerError);
    assert!(r.body.is_empty());
}

#[test]
fn unknown_path_and_root() {
    let r = respond(handle(&req("GET", "/nope", &[], b""), true));
    assert_eq!(r.status, Status::NotFound);
    assert!(r.body.is_empty());
    for m in ["GET", "POST", "HEAD"] {
        let r = respond(handle(&req(m, "/", &[], b""), true));
        assert_eq!(r.status, Status::Success);
        assert!(r.headers.is_empty());
        assert!(r.body.is_empty());
    }
}

#[test]
fn distinct_posts_write_distinct_files() {
    let a = handle(&req("POST", "/files/one.txt", &[], b"first"), true);
    let b = handle(&req("POST", "/files/two.txt", &[], b"second"), true);
    match (a, b) {
        (Action::WriteFile(na, ba), Action::WriteFile(nb, bb)) => {
            assert_eq!(na, b"one.txt".to_vec());
            assert_eq!(ba, b"first".to_vec());
            assert_eq!(nb, b"two.txt".to_vec());
            assert_eq!(bb, b"second".to_vec());
        }
        _ => panic!("expected two writes"),
    }
}

#[test]
fn wire_form_with_headers() {
    let r = echo(&"/echo/abc".to_string());
    assert_eq!(
        serialize(&r),
        b"HTTP/1.1 200 OK\r\nContent-Type: text/plain\r\nContent-Length: 3\r\n\r\nabc".to_vec()
    );
}

#[test]
fn wire_form_without_headers() {
    assert_eq!(serialize(&Response::bare(Status::NotFound)), b"HTTP/1.1 404 Not Found\r\n\r\n".to_vec());
    assert_eq!(
        serialize(&Response::bare(Status::MethodNotAllowed)),
        b"HTTP/1.1 405 Method Not Allowed\r\n\r\n".to_vec()
    );
    assert_eq!(
        serialize(&write_response(true)),
        b"HTTP/1.1 201 Created\r\nContent-Type: text/plain\r\n\r\n".to_vec()
    );
    assert_eq!(
        serialize(&write_response(false)),
        b"HTTP/1.1 500 Internal Server Error\r\n\r\n".to_vec()
    );
    assert_eq!(
        serialize(&Response::bare(Status::BadRequest)),
        b"HTTP/1.1 400 Bad Request\r\n\r\n".to_vec()
    );
}

#[test]
fn wire_form_keeps_binary_body() {
    let r = read_response(Some(vec![0u8, 255, 13, 10]));
    assert_eq!(
        serialize(&r),
        b"HTTP/1.1 200 OK\r\nContent-Type: application/octet-stream\r\nContent-Length: 4\r\n\r\n\x00\xff\r\n".to_vec()
    );
}

#[test]
fn parse_then_handle_then_write() {
    let buf = b"GET /user-agent HTTP/1.1\r\nHost: localhost:4221\r\nUser-Agent: foo/1.0\r\n\r\n";
    let r = respond(handle(&parse_request(buf).unwrap(), false));
    assert_eq!(
        serialize(&r),
        b"HTTP/1.1 200 OK\r\nContent-Type: text/plain\r\nContent-Length: 7\r\n\r\nfoo/1.0".to_vec()
    );
}
