use kode_bridge::errors::ErrorKind;
use kode_bridge::wire::{build_ipc_request, parse_header_line, parse_status_code, ReadAction, ResponseReader};

fn chars(s: &str) -> Vec<char> {
    s.chars().collect()
}

#[test]
fn ipc_requests_are_framed_exactly() {
    assert_eq!(
        build_ipc_request("GET", "/version", None, false),
        b"GET /version HTTP/1.1\r\nHost: localhost\r\nConnection: close\r\n\r\n".to_vec()
    );
    assert_eq!(
        build_ipc_request("POST", "/x", Some(b"[]"), true),
        b"POST /x HTTP/1.1\r\nHost: localhost\r\nConnection: keep-alive\r\nContent-Type: application/json\r\nContent-Length: 2\r\n\r\n[]".to_vec()
    );
    assert_eq!(
        build_ipc_request("PUT", "/y", Some(b""), false),
        b"PUT /y HTTP/1.1\r\nHost: localhost\r\nConnection: close\r\nContent-Type: application/json\r\nContent-Length: 0\r\n\r\n".to_vec()
    );
}

#[test]
fn status_codes_are_read_from_the_second_token() {
    assert_eq!(parse_status_code(&chars("HTTP/1.1 200 OK\r\n")), 200);
    assert_eq!(parse_status_code(&chars("HTTP/1.1   404   Not Found")), 404);
    assert_eq!(parse_status_code(&chars("HTTP/1.1 +201 Created")), 201);
    assert_eq!(parse_status_code(&chars("HTTP/1.1 abc")), 0);
    assert_eq!(parse_status_code(&chars("HTTP/1.1")), 0);
    assert_eq!(parse_status_code(&chars("HTTP/1.1 70000")), 0);
    assert_eq!(parse_status_code(&chars("")), 0);
}

#[test]
fn header_lines_split_at_the_first_colon() {
    assert_eq!(
        parse_header_line(&chars("Content-Type:  text/plain \r\n")),
        Some((chars("Content-Type"), chars("text/plain")))
    );
    assert_eq!(parse_header_line(&chars("X-Time: 12:30")), Some((chars("X-Time"), chars("12:30"))));
    assert_eq!(parse_header_line(&chars("no colon here")), None);
}

fn feed_lines(r: &mut ResponseReader, lines: &[&str]) {
    for l in lines {
        assert!(matches!(r.next_action(), ReadAction::ReadLine | ReadAction::ReadLineIgnoringErrors));
        r.on_line(l);
    }
}

#[test]
fn content_length_body() {
    let mut r = ResponseReader::new();
    feed_lines(&mut r, &["HTTP/1.1 200 OK\r\n", "Content-Length: 5\r\n", "X-A: b\r\n", "\r\n"]);
    assert_eq!(r.next_action(), ReadAction::ReadExact(5));
    r.on_bytes(b"hello");
    assert_eq!(r.next_action(), ReadAction::Finish);
    let p = r.finish().expect("utf8");
    assert_eq!(p.status, 200);
    assert_eq!(p.body, "hello");
    assert_eq!(p.headers.len(), 2);
    let (k, v) = p.headers.entry(0);
    assert_eq!((k.as_str(), v.as_str()), ("Content-Length", "5"));
    let (k, v) = p.headers.entry(1);
    assert_eq!((k.as_str(), v.as_str()), ("X-A", "b"));
}

#[test]
fn chunked_body() {
    let mut r = ResponseReader::new();
    feed_lines(&mut r, &["HTTP/1.1 200 OK\r\n", "Transfer-Encoding: Chunked\r\n", "\r\n"]);
    assert_eq!(r.next_action(), ReadAction::ReadLine);
    r.on_line("5\r\n");
    assert_eq!(r.next_action(), ReadAction::ReadExact(5));
    r.on_bytes(b"hello");
    assert_eq!(r.next_action(), ReadAction::ReadExact(2));
    r.on_bytes(b"\r\n");
    r.on_line("\r\n"); // blank lines between chunks are skipped
    assert_eq!(r.next_action(), ReadAction::ReadLine);
    r.on_line("6\r\n");
    r.on_bytes(b" world");
    r.on_bytes(b"\r\n");
    r.on_line("0\r\n");
    assert_eq!(r.next_action(), ReadAction::ReadLineIgnoringErrors);
    r.on_line("\r\n");
    assert_eq!(r.next_action(), ReadAction::Finish);
    let p = r.finish().unwrap();
    assert_eq!(p.body, "hello world");
}

#[test]
fn chunk_sizes_that_do_not_parse_end_the_body() {
    let mut r = ResponseReader::new();
    feed_lines(&mut r, &["HTTP/1.1 200 OK\r\n", "transfer-encoding: chunked\r\n", "\r\n"]);
    r.on_line("zz\r\n");
    assert_eq!(r.next_action(), ReadAction::ReadLineIgnoringErrors);
}

#[test]
fn end_of_stream_in_chunked_body_finishes() {
    let mut r = ResponseReader::new();
    feed_lines(&mut r, &["HTTP/1.1 200 OK\r\n", "transfer-encoding: chunked\r\n", "\r\n"]);
    r.on_line("");
    assert_eq!(r.next_action(), ReadAction::Finish);
}

#[test]
fn unframed_body_runs_to_the_end() {
    let mut r = ResponseReader::new();
    feed_lines(&mut r, &["HTTP/1.1 204 No Content\r\n", "\r\n"]);
    assert_eq!(r.next_action(), ReadAction::ReadToEnd);
    r.on_bytes(b"rest");
    let p = r.finish().unwrap();
    assert_eq!(p.status, 204);
    assert_eq!(p.body, "rest");
}

#[test]
fn end_of_stream_ends_the_header_block() {
    let mut r = ResponseReader::new();
    feed_lines(&mut r, &["HTTP/1.1 200 OK\r\n", "A: b\r\n", ""]);
    assert_eq!(r.next_action(), ReadAction::ReadToEnd);
}

#[test]
fn head_only_reader_stops_after_the_headers() {
    let mut r = ResponseReader::new_head_only();
    feed_lines(&mut r, &["HTTP/1.1 200 OK\r\n", "Content-Length: 5\r\n", "\r\n"]);
    assert_eq!(r.next_action(), ReadAction::Finish);
    let p = r.finish().unwrap();
    assert_eq!(p.status, 200);
    assert_eq!(p.body, "");
}

#[test]
fn repeated_header_names_keep_the_last_value() {
    let mut r = ResponseReader::new();
    feed_lines(&mut r, &["HTTP/1.1 200 OK\r\n", "A: 1\r\n", "B: 2\r\n", "A: 3\r\n", "Content-Length: 0\r\n", "\r\n"]);
    r.on_bytes(b"");
    let p = r.finish().unwrap();
    assert_eq!(p.headers.len(), 3);
    let (k, v) = p.headers.entry(0);
    assert_eq!((k.as_str(), v.as_str()), ("A", "3"));
}

#[test]
fn invalid_utf8_body_is_an_error() {
    let mut r = ResponseReader::new();
    feed_lines(&mut r, &["HTTP/1.1 200 OK\r\n", "Content-Length: 2\r\n", "\r\n"]);
    r.on_bytes(&[0xff, 0xfe]);
    let e = r.finish().err().expect("error");
    assert_eq!(e.kind, ErrorKind::Utf8);
}
