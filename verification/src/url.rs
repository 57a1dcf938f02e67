//! Percent-decoding of URL components and query-string splitting.

use vstd::prelude::*;
use vstd::utf8::*;
use vstd::string::StringSliceAdditionalSpecFns;
use crate::numbers::{digit_value, char_digit};
use crate::utf8::string_from_utf8;

verus! {

/// The input is not a valid percent-encoded UTF-8 string.
#[derive(Debug, Clone, Copy, PartialEq, Eq, Structural)]
pub struct DecodeError;

/// Hex digit value of an ASCII byte, as `char::to_digit(16)` gives it.
pub open spec fn hex_digit(b: u8) -> Option<nat> {
    digit_value(b as char, 16)
}

/// Value of the two bytes after a `%`, read as `u8::from_str_radix(.., 16)`
/// reads them: two hex digits, or `+` and one hex digit.
pub open spec fn escape_value(b1: u8, b2: u8) -> Option<u8> {
    if b1 == 0x2b {
        match hex_digit(b2) {
            Some(d) => Some(d as u8),
            None => None,
        }
    } else {
        match (hex_digit(b1), hex_digit(b2)) {
            (Some(h), Some(l)) => Some((h * 16 + l) as u8),
            _ => None,
        }
    }
}

/// Percent-decoding of `b[i..]`: `%XY` becomes the byte `0xXY`, `+` becomes a
/// space, other bytes are kept; `None` when a `%` is not followed by a valid
/// two-byte escape.
pub open spec fn percent_decode_from(b: Seq<u8>, i: int) -> Option<Seq<u8>>
    decreases b.len() - i,
{
    if i < 0 || i >= b.len() {
        Some(Seq::<u8>::empty())
    } else if b[i] == 0x25 {
        if i + 2 < b.len() {
            match escape_value(b[i + 1], b[i + 2]) {
                Some(x) => match percent_decode_from(b, i + 3) {
                    Some(rest) => Some(seq![x] + rest),
                    None => None,
                },
                None => None,
            }
        } else {
            None
        }
    } else {
        let x: u8 = if b[i] == 0x2b {
            0x20
        } else {
            b[i]
        };
        match percent_decode_from(b, i + 1) {
            Some(rest) => Some(seq![x] + rest),
            None => None,
        }
    }
}

/// Full URL decoding of the bytes `b`: percent-decoding whose result must be
/// valid UTF-8; the value is the decoded text.
pub open spec fn url_decode(b: Seq<u8>) -> Option<Seq<char>> {
    match percent_decode_from(b, 0) {
        Some(d) => if valid_utf8(d) {
            Some(decode_utf8(d))
        } else {
            None
        },
        None => None,
    }
}

fn hex_byte(b: u8) -> (r: Option<u8>)
    ensures
        match (r, hex_digit(b)) {
            (Some(a), Some(x)) => a as nat == x,
            (None, None) => true,
            _ => false,
        },
{
    match char_digit(b as char, 16) {
        Some(d) => Some(d as u8),
        None => None,
    }
}

fn escape_byte(b1: u8, b2: u8) -> (r: Option<u8>)
    ensures
        r == escape_value(b1, b2),
{
    if b1 == 0x2b {
        match hex_byte(b2) {
            Some(d) => Some(d),
            None => None,
        }
    } else {
        match (hex_byte(b1), hex_byte(b2)) {
            (Some(h), Some(l)) => Some(h * 16 + l),
            _ => None,
        }
    }
}

/// Percent-decodes `b` into raw bytes.
pub fn percent_decode(b: &[u8]) -> (r: Option<Vec<u8>>)
    ensures
        match (r, percent_decode_from(b@, 0)) {
            (Some(v), Some(d)) => v@ == d,
            (None, None) => true,
            _ => false,
        },
{
    let mut out: Vec<u8> = Vec::new();
    let mut i: usize = 0;
    while i < b.len()
        invariant
            i <= b@.len(),
            match percent_decode_from(b@, i as int) {
                Some(rest) => percent_decode_from(b@, 0) == Some(out@ + rest),
                None => percent_decode_from(b@, 0) is None,
            },
        decreases b@.len() - i,
    {
        let ghost out0 = out@;
        if b[i] == 0x25 {
            if b.len() >= 2 && i < b.len() - 2 {
                match escape_byte(b[i + 1], b[i + 2]) {
                    Some(x) => {
                        out.push(x);
                        proof {
                            match percent_decode_from(b@, i + 3) {
                                Some(rest) => {
                                    assert(out0 + (seq![x] + rest) =~= out@ + rest);
                                },
                                None => {},
                            }
                        }
                        i = i + 3;
                    },
                    None => {
                        return None;
                    },
                }
            } else {
                return None;
            }
        } else {
            let x: u8 = if b[i] == 0x2b {
                0x20
            } else {
                b[i]
            };
            out.push(x);
            proof {
                match percent_decode_from(b@, i + 1) {
                    Some(rest) => {
                        assert(out0 + (seq![x] + rest) =~= out@ + rest);
                    },
                    None => {},
                }
            }
            i = i + 1;
        }
    }
    assert(out@ + Seq::<u8>::empty() =~= out@);
    Some(out)
}

/// Decodes the URL-encoded bytes `b` into text.
pub fn decode_bytes(b: &[u8]) -> (r: Result<String, DecodeError>)
    ensures
        match (r, url_decode(b@)) {
            (Ok(s), Some(t)) => s@ == t,
            (Err(_), None) => true,
            _ => false,
        },
{
    match percent_decode(b) {
        Some(v) => match string_from_utf8(v) {
            Ok(s) => Ok(s),
            Err(_) => Err(DecodeError),
        },
        None => Err(DecodeError),
    }
}

/// Decodes a URL-encoded component (`%XY` escapes and `+` for space); the
/// result must be valid UTF-8.
pub fn decode(input: &str) -> (r: Result<String, DecodeError>)
    ensures
        match (r, url_decode(input.spec_bytes())) {
            (Ok(s), Some(t)) => s@ == t,
            (Err(_), None) => true,
            _ => false,
        },
{
    decode_bytes(input.as_bytes())
}

/// Decoding a byte string with no `%` and no `+` gives the same bytes back.
pub proof fn lemma_percent_decode_plain(b: Seq<u8>, i: int)
    requires
        0 <= i <= b.len(),
        forall|k: int| 0 <= k < b.len() ==> #[trigger] b[k] != 0x25 && b[k] != 0x2b,
    ensures
        percent_decode_from(b, i) == Some(b.subrange(i, b.len() as int)),
    decreases b.len() - i,
{
    if i < b.len() {
        lemma_percent_decode_plain(b, i + 1);
        assert(seq![b[i]] + b.subrange(i + 1, b.len() as int) =~= b.subrange(i, b.len() as int));
    } else {
        assert(b.subrange(i, b.len() as int) =~= Seq::<u8>::empty());
    }
}

proof fn lemma_encode_scalar_avoids(c: char)
    requires
        c != '%',
        c != '+',
    ensures
        forall|k: int|
            0 <= k < encode_scalar(c as u32).len() ==> #[trigger] encode_scalar(c as u32)[k] != 0x25
                && encode_scalar(c as u32)[k] != 0x2b,
{
    let v = c as u32;
    assert(v != 0x25 && v != 0x2b);
    if has_width_1_encoding(v) {
        assert((v & 0x7f) == v) by (bit_vector)
            requires
                v <= 0x7f,
        ;
    } else {
        assert forall|y: u8| (0xC0u8 | y) >= 0x80u8 && (0xE0u8 | y) >= 0x80u8 && (0xF0u8 | y)
            >= 0x80u8 && (0x80u8 | y) >= 0x80u8 by {
            assert((0xC0u8 | y) >= 0x80u8 && (0xE0u8 | y) >= 0x80u8 && (0xF0u8 | y) >= 0x80u8 && (
            0x80u8 | y) >= 0x80u8) by (bit_vector);
        }
    }
}

proof fn lemma_encode_utf8_avoids(s: Seq<char>)
    requires
        forall|k: int| 0 <= k < s.len() ==> #[trigger] s[k] != '%' && s[k] != '+',
    ensures
        forall|k: int|
            0 <= k < encode_utf8(s).len() ==> #[trigger] encode_utf8(s)[k] != 0x25
                && encode_utf8(s)[k] != 0x2b,
    decreases s.len(),
{
    if s.len() > 0 {
        let rest = s.drop_first();
        assert forall|k: int| 0 <= k < rest.len() implies #[trigger] rest[k] != '%' && rest[k]
            != '+' by {
            assert(rest[k] == s[k + 1]);
        }
        lemma_encode_utf8_avoids(rest);
        lemma_encode_scalar_avoids(s[0]);
        let a = encode_scalar(s[0] as u32);
        let b = encode_utf8(rest);
        assert(encode_utf8(s) == a + b);
        assert forall|k: int| 0 <= k < (a + b).len() implies #[trigger] (a + b)[k] != 0x25 && (a
            + b)[k] != 0x2b by {
            if k < a.len() {
                assert((a + b)[k] == a[k]);
            } else {
                assert((a + b)[k] == b[k - a.len()]);
            }
        }
    }
}

/// Text without `%` and `+` decodes to itself.
pub proof fn law_decode_plain_text_is_identity(s: Seq<char>)
    requires
        forall|k: int| 0 <= k < s.len() ==> #[trigger] s[k] != '%' && s[k] != '+',
    ensures
        url_decode(encode_utf8(s)) == Some(s),
{
    let b = encode_utf8(s);
    lemma_encode_utf8_avoids(s);
    lemma_percent_decode_plain(b, 0);
    assert(b.subrange(0, b.len() as int) =~= b);
    encode_utf8_valid_utf8(s);
    encode_utf8_decode_utf8(s);
}

} // verus!
