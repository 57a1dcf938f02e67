use kode_bridge::client::RequestBuilder;
use kode_bridge::client_reader::ClientResponseReader;
use kode_bridge::http_types::{Method, StatusCode};
use kode_bridge::request::{parse_request, ClientInfo};
use kode_bridge::response::HttpResponse;
use kode_bridge::wire::ReadAction;
use std::time::Instant;

/// Splits bytes the way a line reader does: after each `\n`.
fn split_lines(bytes: &[u8]) -> Vec<String> {
    let mut out = Vec::new();
    let mut cur = Vec::new();
    for &b in bytes {
        cur.push(b);
        if b == b'\n' {
            out.push(String::from_utf8(std::mem::take(&mut cur)).unwrap());
        }
    }
    out
}

fn read_back(wire: &[u8]) -> kode_bridge::client::Response {
    let head_end = wire.windows(4).position(|w| w == b"\r\n\r\n").unwrap() + 4;
    let mut reader = ClientResponseReader::new();
    for line in split_lines(&wire[..head_end]) {
        assert_eq!(reader.next_action(), ReadAction::ReadLine);
        reader.on_line(&line).unwrap();
    }
    let body = &wire[head_end..];
    match reader.next_action() {
        ReadAction::ReadExact(n) => {
            assert_eq!(n, body.len());
            reader.on_bytes(body).unwrap();
        }
        ReadAction::Finish => assert!(body.is_empty()),
        other => panic!("unexpected {other:?}"),
    }
    reader.finish().unwrap()
}

#[test]
fn what_the_server_writes_the_client_reads_back() {
    let resp = HttpResponse::builder()
        .status(StatusCode::from_u16(201).unwrap())
        .header("X-Request-Id", "abc-123")
        .header("Content-Type", "application/json")
        .body(b"{\"ok\":true}".to_vec())
        .build();
    let back = read_back(&resp.to_wire());
    assert_eq!(back.status_code(), 201);
    assert_eq!(back.body(), b"{\"ok\":true}");
    assert_eq!(
        back.header_pairs(),
        vec![
            ("x-request-id".to_string(), "abc-123".to_string()),
            ("content-type".to_string(), "application/json".to_string()),
            ("content-length".to_string(), "11".to_string()),
        ]
    );
}

#[test]
fn an_empty_body_reads_back_empty() {
    let back = read_back(&HttpResponse::ok().to_wire());
    assert_eq!(back.status_code(), 200);
    assert_eq!(back.body(), b"");
    assert_eq!(back.header_pairs(), vec![("content-length".to_string(), "0".to_string())]);
}

#[test]
fn what_the_client_sends_the_server_parses_back() {
    let body = b"{\"user\":\"alice\",\"action\":\"login\"}".to_vec();
    let wire = RequestBuilder::new(Method::post(), "/api/auth?x=1".to_string())
        .json_bytes(body.clone())
        .build();
    let info = ClientInfo { connection_id: 1, connected_at: Instant::now() };
    let ctx = parse_request(&wire, &info, 1 << 20, 1 << 14).unwrap();
    assert!(ctx.method.same_as(&Method::post()));
    assert_eq!(ctx.uri, "/api/auth?x=1");
    assert_eq!(ctx.path, "/api/auth");
    assert_eq!(ctx.query.as_deref(), Some("x=1"));
    assert_eq!(ctx.body, body);
    let mut names = Vec::new();
    for i in 0..ctx.headers.len() {
        names.push(ctx.headers.entry(i));
    }
    assert_eq!(
        names,
        vec![
            ("host".to_string(), "localhost".to_string()),
            ("user-agent".to_string(), "kode-bridge/0.1".to_string()),
            ("content-type".to_string(), "application/json".to_string()),
            ("content-length".to_string(), body.len().to_string()),
        ]
    );
}
