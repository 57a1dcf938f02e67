use kode_bridge::client::{HttpResponse, Response, Version};
use kode_bridge::errors::ErrorKind;
use kode_bridge::headers::Headers;
use kode_bridge::http_types::StatusCode;
use kode_bridge::response::LegacyResponse;
use kode_bridge::types::Response as SimpleResponse;

fn response(body: &[u8]) -> Response {
    Response::new(StatusCode::ok(), Version::Http11, Headers::new(), body.to_vec())
}

#[test]
fn response_bodies_parse_as_json_values() {
    let v = response(br#"{"a":[1,2],"b":"x"}"#).json_value().unwrap();
    assert_eq!(v["a"][1], 2);
    assert_eq!(v["b"], "x");
    let wrapped = HttpResponse::new(response(b"[true]"));
    assert_eq!(wrapped.json_value().unwrap()[0], true);
}

#[test]
fn invalid_json_bodies_are_json_errors_with_the_parser_message() {
    let e = response(b"{\"a\":").json_value().unwrap_err();
    assert_eq!(e.kind, ErrorKind::Json);
    assert!(e.message.contains("line 1"), "{}", e.message);
    let e = HttpResponse::new(response(b"")).json_value().unwrap_err();
    assert_eq!(e.kind, ErrorKind::Json);
}

#[test]
fn simple_and_legacy_responses_parse_their_text_bodies() {
    let r = SimpleResponse { status: 200, headers: serde_json::Value::Null, body: "{\"n\":5}".to_string() };
    assert_eq!(r.json().unwrap()["n"], 5);
    let l = LegacyResponse { status: 200, headers: serde_json::Value::Null, body: "not json".to_string() };
    let e = l.json().unwrap_err();
    assert_eq!(e.kind, ErrorKind::Json);
    assert!(!e.message.is_empty());
}
