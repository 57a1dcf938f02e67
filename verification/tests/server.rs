use kode_bridge::errors::{ErrorKind, KodeBridgeError};
use kode_bridge::http_types::{Method, StatusCode};
use kode_bridge::request::{
    extract_content_length, find_header_end, is_request_complete, parse_request, ClientInfo,
};
use kode_bridge::response::{HttpResponse, ResponseBuilder};
use kode_bridge::server::{
    bad_request_response, may_serve_another, on_read, response_for_outcome, ConnectionStep,
    HandlerOutcome, ReadOutcome, ServeEvent, ServerConfig, ServerStats,
};
use std::time::Instant;

fn info() -> ClientInfo {
    ClientInfo { connection_id: 7, connected_at: Instant::now() }
}

#[test]
fn requests_parse_into_contexts() {
    let data = b"POST /items/3?a=1&b=x%20y HTTP/1.1\r\nHost: localhost\r\nX-Trace: abc\r\nBad Header: no\r\n\r\n{\"k\":1}";
    let ctx = parse_request(data, &info(), 1024, 1024).expect("parses");
    assert!(ctx.method.same_as(&Method::post()));
    assert_eq!(ctx.uri, "/items/3?a=1&b=x%20y");
    assert_eq!(ctx.path, "/items/3");
    assert_eq!(ctx.query.as_deref(), Some("a=1&b=x%20y"));
    assert_eq!(ctx.headers.len(), 2);
    assert_eq!(ctx.headers.get("host"), Some("localhost".to_string()));
    assert_eq!(ctx.headers.get("x-trace"), Some("abc".to_string()));
    assert_eq!(ctx.body, b"{\"k\":1}".to_vec());
    assert_eq!(ctx.client_info.connection_id, 7);
    assert_eq!(ctx.text().unwrap(), "{\"k\":1}");
    assert_eq!(
        ctx.query_params(),
        vec![("a".to_string(), "1".to_string()), ("b".to_string(), "x y".to_string())]
    );
    assert!(ctx.path_params().is_empty());
}

#[test]
fn request_errors_are_validation_errors() {
    let cases: [&[u8]; 6] = [
        b"GET / HTTP/1.1\r\nHost: a\r\n",                 // no header end
        b"\r\n\r\n",                                       // no request line
        b"GET\r\n\r\n",                                    // no URI
        b"G(T / HTTP/1.1\r\n\r\n",                         // invalid method
        b"GET http://[::1 HTTP/1.1\r\n\r\n",               // invalid URI
        b"   \r\n\r\n",                                    // blank request line
    ];
    for data in cases {
        let e = parse_request(data, &info(), 1024, 1024).err().expect("rejected");
        assert_eq!(e.kind, ErrorKind::Validation);
    }
    // Size limits.
    let data = b"GET / HTTP/1.1\r\n\r\n";
    assert!(parse_request(data, &info(), data.len() - 1, 1024).is_err());
    assert!(parse_request(data, &info(), data.len(), 1024).is_ok());
    assert!(parse_request(data, &info(), 1024, 13).is_err());
    assert!(parse_request(data, &info(), 1024, 14).is_ok());
}

#[test]
fn header_end_and_content_length() {
    assert_eq!(find_header_end(b"GET / HTTP/1.1\r\n\r\nbody"), Some(14));
    assert_eq!(find_header_end(b"GET / HTTP/1.1\r\n"), None);
    assert_eq!(extract_content_length("GET / HTTP/1.1\r\nContent-Length: 12"), Some(12));
    assert_eq!(extract_content_length("content-length:  7 "), Some(7));
    assert_eq!(extract_content_length("CONTENT-LENGTH: 7"), None);
    assert_eq!(extract_content_length("Content-Length: x\r\ncontent-length: 3"), Some(3));
}

#[test]
fn requests_are_complete_once_the_body_arrived() {
    assert!(!is_request_complete(b"POST / HTTP/1.1\r\nContent-Length: 4\r\n"));
    assert!(!is_request_complete(b"POST / HTTP/1.1\r\nContent-Length: 4\r\n\r\nab"));
    assert!(is_request_complete(b"POST / HTTP/1.1\r\nContent-Length: 4\r\n\r\nabcd"));
    assert!(is_request_complete(b"GET / HTTP/1.1\r\n\r\n"));
}

#[test]
fn response_builder_and_wire_form() {
    let r = ResponseBuilder::new()
        .status(StatusCode::not_found())
        .header("X-Reason", "missing")
        .header("bad name", "ignored")
        .body(b"nope".to_vec())
        .build();
    assert_eq!(r.status.as_u16(), 404);
    assert_eq!(r.headers.len(), 1);
    assert_eq!(
        r.to_wire(),
        b"HTTP/1.1 404 Not Found\r\nx-reason: missing\r\nContent-Length: 4\r\n\r\nnope".to_vec()
    );
}

#[test]
fn explicit_content_length_is_not_repeated() {
    let r = HttpResponse::builder().header("Content-Length", "2").body(b"ok".to_vec()).build();
    assert_eq!(r.to_wire(), b"HTTP/1.1 200 OK\r\ncontent-length: 2\r\n\r\nok".to_vec());
}

#[test]
fn common_responses() {
    let r = HttpResponse::text("hi".to_string());
    assert_eq!(r.status.as_u16(), 200);
    assert_eq!(r.headers.get("content-type"), Some("text/plain; charset=utf-8".to_string()));
    assert_eq!(r.body, b"hi".to_vec());
    let r = HttpResponse::json_bytes(b"{}".to_vec());
    assert_eq!(r.headers.get("content-type"), Some("application/json".to_string()));
    assert_eq!(HttpResponse::ok().body, Vec::<u8>::new());
    let r = HttpResponse::not_found();
    assert_eq!((r.status.as_u16(), r.body.clone()), (404, b"Not Found".to_vec()));
    let r = HttpResponse::internal_error();
    assert_eq!((r.status.as_u16(), r.body.clone()), (500, b"Internal Server Error".to_vec()));
    let r = HttpResponse::error(StatusCode::from_u16(418).unwrap(), "teapot");
    assert_eq!(r.to_wire(), b"HTTP/1.1 418 I'm a teapot\r\ncontent-type: text/plain; charset=utf-8\r\nContent-Length: 6\r\n\r\nteapot".to_vec());
    let r = HttpResponse::error(StatusCode::from_u16(599).unwrap(), "x");
    assert!(r.to_wire().starts_with(b"HTTP/1.1 599 Unknown\r\n"));
}

#[test]
fn handler_outcomes_become_responses() {
    let r = response_for_outcome(HandlerOutcome::Response(HttpResponse::text("fine".to_string())));
    assert_eq!(r.body, b"fine".to_vec());
    let r = response_for_outcome(HandlerOutcome::Failed);
    assert_eq!(r.status.as_u16(), 500);
    let r = response_for_outcome(HandlerOutcome::TimedOut);
    assert_eq!((r.status.as_u16(), r.body.clone()), (408, b"Handler timeout".to_vec()));
    let r = bad_request_response();
    assert_eq!((r.status.as_u16(), r.body.clone()), (400, b"Bad Request".to_vec()));
}

#[test]
fn connection_decisions_after_a_read() {
    let config = ServerConfig::default_config();
    match on_read(ReadOutcome::Request(b"GET /ready HTTP/1.1\r\n\r\n".to_vec()), &info(), &config) {
        ConnectionStep::Dispatch(ctx) => assert_eq!(ctx.path, "/ready"),
        _ => panic!("expected dispatch"),
    }
    match on_read(ReadOutcome::Request(b"garbage".to_vec()), &info(), &config) {
        ConnectionStep::Reject(resp) => assert_eq!(resp.status.as_u16(), 400),
        _ => panic!("expected reject"),
    }
    assert!(matches!(on_read(ReadOutcome::Closed, &info(), &config), ConnectionStep::Stop(Ok(()))));
    let failed = KodeBridgeError::new(ErrorKind::Io, "broken pipe");
    match on_read(ReadOutcome::Failed(failed), &info(), &config) {
        ConnectionStep::Stop(Err(e)) => assert_eq!((e.kind, e.message.as_str()), (ErrorKind::Io, "broken pipe")),
        _ => panic!("expected stop"),
    }
    match on_read(ReadOutcome::TimedOut, &info(), &config) {
        ConnectionStep::Stop(Err(e)) => assert_eq!(e.kind, ErrorKind::Timeout),
        _ => panic!("expected stop"),
    }
}

#[test]
fn server_config_defaults() {
    let c = ServerConfig::default_config();
    assert_eq!(c.max_connections, 200);
    assert_eq!(c.read_timeout.as_secs(), 15);
    assert_eq!(c.write_timeout.as_secs(), 10);
    assert_eq!(c.max_request_size, 10 * 1024 * 1024);
    assert_eq!(c.max_header_size, 16 * 1024);
    assert!(c.enable_logging);
    assert_eq!(c.max_requests_per_connection, 64);
    assert_eq!(c.shutdown_timeout.as_secs(), 3);
    assert!(may_serve_another(63, &c));
    assert!(!may_serve_another(64, &c));
}

#[test]
fn stats_count_connections_and_requests() {
    let mut s = ServerStats::new();
    assert_eq!(s.connection_accepted(), 1);
    assert_eq!(s.connection_accepted(), 2);
    s.connection_finished();
    s.request_received();
    s.response_sent();
    s.error_recorded();
    assert_eq!(s.total_connections, 2);
    assert_eq!(s.active_connections, 1);
    assert_eq!((s.total_requests, s.total_responses, s.total_errors), (1, 1, 1));
    s.connection_finished();
    s.connection_finished();
    assert_eq!(s.active_connections, 0);
}

#[test]
fn invalid_utf8_in_the_head_is_replaced() {
    let data = b"GET / HTTP/1.1\r\nX-A: \xff\r\n\r\n";
    let ctx = parse_request(data, &info(), 1024, 1024).unwrap();
    assert_eq!(ctx.headers.get("x-a"), Some("\u{FFFD}".to_string()));
}

#[test]
fn invalid_header_values_are_ignored_by_the_builder() {
    let r = ResponseBuilder::new().header("x-a", "a\u{1}b").header("x-b", "ok").build();
    assert_eq!(r.headers.len(), 1);
    assert_eq!(r.headers.get("x-b"), Some("ok".to_string()));
    assert_eq!(r.headers.get("x-a"), None);
}

#[test]
fn body_text_must_be_utf8() {
    let data = b"POST / HTTP/1.1\r\n\r\n\xff";
    let ctx = parse_request(data, &info(), 1024, 1024).unwrap();
    assert_eq!(ctx.text().unwrap_err().kind, ErrorKind::Validation);
}

#[test]
fn query_pieces_that_do_not_decode_are_skipped() {
    let data = b"GET /q?a=%zz&b&c=1=2&=v HTTP/1.1\r\n\r\n";
    let ctx = parse_request(data, &info(), 1024, 1024).unwrap();
    assert_eq!(
        ctx.query_params(),
        vec![
            ("b".to_string(), String::new()),
            ("c".to_string(), "1".to_string()),
            (String::new(), "v".to_string()),
        ]
    );
    let data = b"GET /q HTTP/1.1\r\n\r\n";
    assert!(parse_request(data, &info(), 1024, 1024).unwrap().query_params().is_empty());
}

#[test]
fn a_later_query_key_replaces_an_earlier_one() {
    let data = b"GET /q?x=1&y=2&x=3 HTTP/1.1\r\n\r\n";
    let ctx = parse_request(data, &info(), 1024, 1024).unwrap();
    assert_eq!(
        ctx.query_params(),
        vec![("x".to_string(), "3".to_string()), ("y".to_string(), "2".to_string())]
    );
}

#[test]
fn oversized_requests_are_validation_errors() {
    let e = parse_request(b"GET / HTTP/1.1\r\n\r\n", &info(), 10, 1024).unwrap_err();
    assert_eq!(e.kind, ErrorKind::Validation);
    assert_eq!(e.message, "Request too large");
    let e = parse_request(b"GET\r\n\r\n", &info(), 1024, 1024).unwrap_err();
    assert_eq!(e.message, "Invalid HTTP request: no URI");
}

#[test]
fn unrouted_requests_get_not_found() {
    let r = response_for_outcome(HandlerOutcome::NoRoute);
    assert_eq!(r.status.as_u16(), 404);
    assert_eq!(r.body, b"Not Found".to_vec());
}

#[test]
fn admission_stops_at_the_connection_limit() {
    let mut s = ServerStats::new();
    assert_eq!(s.try_admit(2), Some(1));
    assert_eq!(s.try_admit(2), Some(2));
    assert_eq!(s.try_admit(2), None);
    assert_eq!((s.total_connections, s.active_connections), (2, 2));
    s.connection_finished();
    assert_eq!(s.try_admit(2), Some(3));
    assert_eq!(s.active_connections, 2);
}

#[test]
fn request_events_move_their_counters() {
    let mut s = ServerStats::new();
    assert!(s.record(ServeEvent::Rejected));
    assert_eq!((s.total_requests, s.total_responses, s.total_errors), (0, 0, 1));
    assert!(s.record(ServeEvent::Parsed));
    assert!(s.record(ServeEvent::Written));
    assert_eq!((s.total_requests, s.total_responses, s.total_errors), (1, 1, 1));
    assert!(s.record(ServeEvent::Parsed));
    assert!(!s.record(ServeEvent::WriteFailed));
    assert_eq!((s.total_requests, s.total_responses, s.total_errors), (2, 1, 2));
}

#[test]
fn rejected_methods_and_targets_carry_the_parser_text() {
    let e = parse_request(b"G(T / HTTP/1.1\r\n\r\n", &info(), 1024, 1024).unwrap_err();
    assert_eq!(e.message, "Invalid HTTP method: invalid HTTP method");
    let e = parse_request(b"GET /a\x7fb HTTP/1.1\r\n\r\n", &info(), 1024, 1024).unwrap_err();
    assert!(e.message.starts_with("Invalid URI: "), "{}", e.message);
    assert!(e.message.len() > "Invalid URI: ".len());
}

#[test]
fn non_utf8_bodies_report_where_the_bytes_go_wrong() {
    let ctx = parse_request(b"POST / HTTP/1.1\r\n\r\nab\xff", &info(), 1024, 1024).unwrap();
    let e = ctx.text().unwrap_err();
    assert_eq!(e.kind, ErrorKind::Validation);
    assert_eq!(e.message, "Invalid UTF-8 in request body: invalid utf-8 sequence of 1 bytes from index 2");
}
