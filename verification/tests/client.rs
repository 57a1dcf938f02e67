use kode_bridge::client::{prepare_request, HttpResponse, RequestBuilder, Response, Version};
use kode_bridge::client_reader::{ClientResponseReader, ClientStep};
use kode_bridge::errors::ErrorKind;
use kode_bridge::headers::Headers;
use kode_bridge::http_types::{Method, StatusCode};
use kode_bridge::wire::ReadAction;

#[test]
fn request_builder_writes_default_headers() {
    let bytes = RequestBuilder::new(Method::get(), "/version".to_string()).build();
    assert_eq!(
        bytes,
        b"GET /version HTTP/1.1\r\nhost: localhost\r\nuser-agent: kode-bridge/0.1\r\n\r\n".to_vec()
    );
}

#[test]
fn request_builder_json_body() {
    let bytes = RequestBuilder::new(Method::post(), "/auth".to_string())
        .json_bytes(b"{\"user\":\"alice\"}".to_vec())
        .build();
    assert_eq!(
        bytes,
        b"POST /auth HTTP/1.1\r\nhost: localhost\r\nuser-agent: kode-bridge/0.1\r\ncontent-type: application/json\r\ncontent-length: 16\r\n\r\n{\"user\":\"alice\"}".to_vec()
    );
}

#[test]
fn prepare_request_rejects_invalid_methods() {
    let e = prepare_request("BAD METHOD", "/", None).unwrap_err();
    assert_eq!(e.kind, ErrorKind::InvalidRequest);
    assert_eq!(e.message, "Invalid method: invalid HTTP method");
    let e = prepare_request("", "/", None).unwrap_err();
    assert_eq!(e.kind, ErrorKind::InvalidRequest);
    let ok = prepare_request("PATCH", "/p", Some(b"1".to_vec())).unwrap();
    assert_eq!(
        ok,
        b"PATCH /p HTTP/1.1\r\nhost: localhost\r\nuser-agent: kode-bridge/0.1\r\ncontent-type: application/json\r\ncontent-length: 1\r\n\r\n1".to_vec()
    );
}

fn headers(pairs: &[(&str, &str)]) -> Headers {
    let mut h = Headers::new();
    for (k, v) in pairs {
        h.insert(k, v);
    }
    h
}

#[test]
fn response_accessors() {
    let r = Response::new(
        StatusCode::from_u16(201).unwrap(),
        Version::Http11,
        headers(&[("content-length", "4"), ("content-type", "application/json")]),
        b"null".to_vec(),
    );
    assert_eq!(r.status_code(), 201);
    assert_eq!(r.status().as_u16(), 201);
    assert_eq!(r.version(), Version::Http11);
    assert!(r.is_success());
    assert!(!r.is_client_error());
    assert!(!r.is_server_error());
    assert!(!r.is_redirection());
    assert_eq!(r.content_length(), Some(4));
    assert_eq!(r.content_type(), Some("application/json".to_string()));
    assert_eq!(r.body(), b"null");
    assert_eq!(r.text().unwrap(), "null");
    assert_eq!(r.headers().len(), 2);
}

#[test]
fn response_content_length_must_parse() {
    let r = Response::new(StatusCode::ok(), Version::Http11, headers(&[("content-length", "x1")]), vec![]);
    assert_eq!(r.content_length(), None);
    let r = Response::new(StatusCode::ok(), Version::Http11, headers(&[]), vec![]);
    assert_eq!(r.content_length(), None);
    assert_eq!(r.content_type(), None);
}

#[test]
fn response_text_rejects_invalid_utf8() {
    let r = Response::new(StatusCode::ok(), Version::Http11, Headers::new(), vec![0xc3]);
    assert_eq!(r.text().unwrap_err().kind, ErrorKind::Utf8);
}

#[test]
fn non_visible_header_values_show_as_empty() {
    let r = Response::new(
        StatusCode::from_u16(302).unwrap(),
        Version::Http11,
        headers(&[("location", "/x"), ("x-name", "café")]),
        vec![],
    );
    assert!(r.is_redirection());
    assert_eq!(
        r.header_pairs(),
        vec![("location".to_string(), "/x".to_string()), ("x-name".to_string(), String::new())]
    );
}

#[test]
fn http_response_wrapper() {
    let inner = Response::new(
        StatusCode::from_u16(404).unwrap(),
        Version::Http11,
        headers(&[("content-length", "9")]),
        b"not found".to_vec(),
    );
    let w = HttpResponse::new(inner);
    assert_eq!(w.status(), 404);
    assert!(w.is_client_error());
    assert!(!w.is_success());
    assert!(!w.is_server_error());
    assert_eq!(w.content_length(), 9);
    assert_eq!(w.body().unwrap(), "not found");
    assert_eq!(w.header_pairs().len(), 1);
    assert_eq!(w.into_inner().status_code(), 404);
    let empty = HttpResponse::new(Response::new(StatusCode::ok(), Version::Http11, Headers::new(), vec![]));
    assert_eq!(empty.content_length(), 0);
}

fn read_head(r: &mut ClientResponseReader, lines: &[&str]) {
    for l in lines {
        assert_eq!(r.next_action(), ReadAction::ReadLine);
        r.on_line(l).expect("line accepted");
    }
}

#[test]
fn client_reader_fixed_body() {
    let mut r = ClientResponseReader::new();
    read_head(&mut r, &["HTTP/1.1 200 OK\r\n", "Content-Length: 5\r\n", "X-Mode: Fast\r\n", "\r\n"]);
    assert_eq!(r.next_action(), ReadAction::ReadExact(5));
    r.on_bytes(b"hello").unwrap();
    assert_eq!(r.next_action(), ReadAction::Finish);
    let resp = r.finish().unwrap();
    assert_eq!(resp.status_code(), 200);
    assert_eq!(resp.body(), b"hello");
    assert_eq!(
        resp.header_pairs(),
        vec![
            ("content-length".to_string(), "5".to_string()),
            ("x-mode".to_string(), "Fast".to_string())
        ]
    );
}

#[test]
fn client_reader_zero_length_body_is_done() {
    let mut r = ClientResponseReader::new();
    read_head(&mut r, &["HTTP/1.1 204 No Content\r\n", "Content-Length: 0\r\n", "\r\n"]);
    assert_eq!(r.next_action(), ReadAction::Finish);
    assert_eq!(r.finish().unwrap().body(), b"");
}

#[test]
fn client_reader_chunked_body() {
    let mut r = ClientResponseReader::new();
    read_head(&mut r, &["HTTP/1.1 200 OK\r\n", "Transfer-Encoding: CHUNKED\r\n", "\r\n"]);
    r.on_line("  \r\n").unwrap();
    r.on_line("a\r\n").unwrap();
    assert_eq!(r.next_action(), ReadAction::ReadExact(10));
    r.on_bytes(b"0123456789").unwrap();
    assert_eq!(r.next_action(), ReadAction::ReadExact(2));
    r.on_bytes(b"\r\n").unwrap();
    r.on_line("0\r\n").unwrap();
    r.on_line("\r\n").unwrap();
    assert_eq!(r.next_action(), ReadAction::Finish);
    assert_eq!(r.finish().unwrap().body(), b"0123456789");
}

#[test]
fn client_reader_invalid_chunk_size_is_a_protocol_error() {
    let mut r = ClientResponseReader::new();
    read_head(&mut r, &["HTTP/1.1 200 OK\r\n", "transfer-encoding: chunked\r\n", "\r\n"]);
    let e = r.on_line("xyz\r\n").unwrap_err();
    assert_eq!(e.kind, ErrorKind::Protocol);
    assert_eq!(e.message, "Invalid chunk size");
}

#[test]
fn client_reader_end_of_stream_in_head_is_a_protocol_error() {
    let mut r = ClientResponseReader::new();
    r.on_line("HTTP/1.1 200 OK\r\n").unwrap();
    let e = r.on_line("").unwrap_err();
    assert_eq!(e.kind, ErrorKind::Protocol);
    assert_eq!(e.message, "Unexpected end of stream");
}

#[test]
fn client_reader_limits_the_head() {
    let mut r = ClientResponseReader::new();
    r.on_line("HTTP/1.1 200 OK\r\n").unwrap();
    let big = format!("X-Big: {}\r\n", "a".repeat(16384));
    let e = r.on_line(&big).unwrap_err();
    assert_eq!(e.kind, ErrorKind::Protocol);
    assert_eq!(e.message, "HTTP headers too large");
}

#[test]
fn client_reader_rejects_invalid_headers_at_the_end_of_the_head() {
    let mut r = ClientResponseReader::new();
    r.on_line("HTTP/1.1 200 OK\r\n").unwrap();
    r.on_line("Bad Name: x\r\n").unwrap();
    r.on_line("Other: y\r\n").unwrap();
    assert_eq!(r.on_line("\r\n").unwrap_err().kind, ErrorKind::Http);
}

#[test]
fn client_reader_rejects_out_of_range_status() {
    let mut r = ClientResponseReader::new();
    read_head(&mut r, &["HTTP/1.1 abc\r\n", "Content-Length: 0\r\n", "\r\n"]);
    assert_eq!(r.finish().unwrap_err().kind, ErrorKind::Http);
}

#[test]
fn client_reader_unframed_body_stops_after_quiet_reads() {
    let mut r = ClientResponseReader::new();
    read_head(&mut r, &["HTTP/1.1 200 OK\r\n", "\r\n"]);
    assert_eq!(r.next_action(), ReadAction::ReadAvailable);
    assert_eq!(r.read_wait_ms(), 100);
    r.on_bytes(b"ab").unwrap();
    r.on_quiet();
    assert_eq!(r.read_wait_ms(), 150);
    r.on_quiet();
    assert_eq!(r.read_wait_ms(), 200);
    r.on_bytes(b"c").unwrap();
    assert_eq!(r.read_wait_ms(), 100);
    r.on_quiet();
    r.on_quiet();
    assert_eq!(r.next_action(), ReadAction::ReadAvailable);
    r.on_quiet();
    assert_eq!(r.next_action(), ReadAction::Finish);
    assert_eq!(r.finish().unwrap().body(), b"abc");
}

#[test]
fn client_reader_unframed_body_ends_with_the_stream() {
    let mut r = ClientResponseReader::new();
    read_head(&mut r, &["HTTP/1.1 500 Internal Server Error\r\n", "\r\n"]);
    r.on_bytes(b"oops").unwrap();
    r.on_end();
    let resp = r.finish().unwrap();
    assert!(resp.is_server_error());
    assert_eq!(resp.text().unwrap(), "oops");
}

#[test]
fn client_reader_limits_unframed_bodies() {
    let mut r = ClientResponseReader::new();
    read_head(&mut r, &["HTTP/1.1 200 OK\r\n", "\r\n"]);
    let chunk = vec![0u8; 4096];
    for _ in 0..(67108864 / 4096) {
        r.on_bytes(&chunk).unwrap();
    }
    assert_eq!(r.on_bytes(b"x").unwrap_err().kind, ErrorKind::Protocol);
}

#[test]
fn client_steps_are_comparable() {
    assert_ne!(ClientStep::Done, ClientStep::BodyAvailable);
}
