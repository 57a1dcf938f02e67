use kode_bridge::errors::{ErrorKind, ErrorString, KodeBridgeError};
use kode_bridge::stream::{is_blank_line, join_lines};

#[test]
fn collected_lines_are_joined_with_newlines() {
    assert_eq!(join_lines(&[]), "");
    assert_eq!(join_lines(&["one".to_string()]), "one");
    assert_eq!(
        join_lines(&["a".to_string(), String::new(), "c".to_string()]),
        "a\n\nc"
    );
}

#[test]
fn blank_lines_are_skipped_by_json_streams() {
    assert!(is_blank_line(""));
    assert!(is_blank_line(" \t\r"));
    assert!(!is_blank_line(" {\"up\":1} "));
}

#[test]
fn error_string_keeps_its_text() {
    let e = ErrorString::from_text("boom");
    assert_eq!(e.as_str(), "boom");
    let e: ErrorString = String::from("bang").into();
    assert_eq!(e.as_str(), "bang");
    assert_eq!(ErrorString::from_string("x".to_string()).as_str(), "x");
}

#[test]
fn errors_carry_kind_and_message() {
    let e = KodeBridgeError::new(ErrorKind::Protocol, "bad framing");
    assert_eq!(e.kind, ErrorKind::Protocol);
    assert_eq!(e.message, "bad framing");
}
