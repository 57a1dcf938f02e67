use kode_bridge::numbers::{char_digit, decimal_bytes, decimal_string, parse_unsigned_chars};
use kode_bridge::text::{
    eq_ignore_ascii_case_chars, first_token_chars, lines_chars, second_token_chars, split_once_chars,
    strip_prefix_chars, trim_chars,
};
use kode_bridge::url::{decode, decode_bytes, percent_decode, DecodeError};

fn chars(s: &str) -> Vec<char> {
    s.chars().collect()
}

#[test]
fn url_decoding() {
    assert_eq!(decode("plain").unwrap(), "plain");
    assert_eq!(decode("a%20b").unwrap(), "a b");
    assert_eq!(decode("a+b").unwrap(), "a b");
    assert_eq!(decode("%E4%BD%A0").unwrap(), "你");
    assert_eq!(decode("%41%42").unwrap(), "AB");
    assert_eq!(decode("%+9x").unwrap(), "\u{9}x");
    assert_eq!(decode("100%"), Err(DecodeError));
    assert_eq!(decode("%4"), Err(DecodeError));
    assert_eq!(decode("%zz"), Err(DecodeError));
    assert_eq!(decode("%-1"), Err(DecodeError));
    assert_eq!(decode("%ff"), Err(DecodeError));
    assert_eq!(decode_bytes(b"x%2Fy").unwrap(), "x/y");
    assert_eq!(percent_decode(b"%ff"), Some(vec![0xff]));
    assert_eq!(percent_decode(b"%f"), None);
}

#[test]
fn unsigned_parsing_follows_from_str_radix() {
    assert_eq!(parse_unsigned_chars(&chars("123"), 10, u64::MAX), Some(123));
    assert_eq!(parse_unsigned_chars(&chars("+7"), 10, u64::MAX), Some(7));
    assert_eq!(parse_unsigned_chars(&chars("+"), 10, u64::MAX), None);
    assert_eq!(parse_unsigned_chars(&chars(""), 10, u64::MAX), None);
    assert_eq!(parse_unsigned_chars(&chars("-1"), 10, u64::MAX), None);
    assert_eq!(parse_unsigned_chars(&chars("1a"), 10, u64::MAX), None);
    assert_eq!(parse_unsigned_chars(&chars("1aF"), 16, u64::MAX), Some(0x1af));
    assert_eq!(parse_unsigned_chars(&chars("256"), 10, 255), None);
    assert_eq!(parse_unsigned_chars(&chars("255"), 10, 255), Some(255));
    assert_eq!(
        parse_unsigned_chars(&chars("18446744073709551616"), 10, u64::MAX),
        None
    );
    assert_eq!(char_digit('f', 16), Some(15));
    assert_eq!(char_digit('g', 16), None);
}

#[test]
fn decimal_formatting() {
    assert_eq!(decimal_bytes(0), b"0".to_vec());
    assert_eq!(decimal_bytes(1234567890), b"1234567890".to_vec());
    assert_eq!(decimal_string(u64::MAX), u64::MAX.to_string());
}

#[test]
fn string_helpers_follow_std() {
    assert_eq!(trim_chars(&chars("\u{3000} a b \r\n")), chars("a b"));
    assert_eq!(split_once_chars(&chars("k:v:w"), ':'), Some((chars("k"), chars("v:w"))));
    assert_eq!(split_once_chars(&chars("kv"), ':'), None);
    assert_eq!(first_token_chars(&chars("  GET  /x  ")), Some(chars("GET")));
    assert_eq!(second_token_chars(&chars("  GET  /x  ")), Some(chars("/x")));
    assert_eq!(second_token_chars(&chars("GET")), None);
    assert!(eq_ignore_ascii_case_chars(&chars("Chunked"), &chars("chUNKED")));
    assert!(!eq_ignore_ascii_case_chars(&chars("chunk"), &chars("chunked")));
    assert_eq!(strip_prefix_chars(&chars("abc"), &chars("ab")), Some(chars("c")));
    assert_eq!(strip_prefix_chars(&chars("abc"), &chars("b")), None);
    let expected: Vec<Vec<char>> = "a\r\nb\n\nc\r".lines().map(chars).collect();
    assert_eq!(lines_chars(&chars("a\r\nb\n\nc\r")), expected);
    let expected: Vec<Vec<char>> = "x\n".lines().map(chars).collect();
    assert_eq!(lines_chars(&chars("x\n")), expected);
}
