//! What one side writes, the other reads back.
//!
//! A response serialized by [`crate::response::HttpResponse::to_wire`] and
//! read line by line and then byte by byte by
//! [`crate::client_reader::ClientResponseReader`] yields the same status, the
//! same headers (plus the `content-length` that the server adds) and the same
//! body. A request framed by [`crate::client::RequestBuilder::build`] and
//! parsed by [`crate::request::parse_request`] yields the same method,
//! target, headers and body. A response read by the simple clients'
//! [`crate::wire::ResponseReader`] yields the same status, headers and body
//! as well, and a chunked body reads back as its chunks joined.

use vstd::prelude::*;
use vstd::utf8::*;
use crate::text::{
    lines, lines_from, line_text, first_token, ascii_lower,
    is_white_space, trim, find_char, split_once, second_token,
    lemma_skip_ws_stop, lemma_skip_non_ws_stop, lemma_trim_end_stop, lemma_find_char_stop,
    eq_ignore_ascii_case,
};
use crate::numbers::{decimal, decimal_text, lemma_decimal_text_value, hex_text, lemma_hex_text_value, parse_unsigned, lemma_decimal_digits, lemma_parse_decimal_text};
use crate::headers::{has_key, unique_keys, insert_pair, insert_capped, HEADER_CAPACITY};
use crate::http_types::{is_tchar, is_tchar_char, is_token_text, is_header_name, lower_chars, header_text_ok, is_header_value_char};
use crate::wire::{status_of_line, header_fields, ReaderState, ReadStep, after_line, after_bytes, initial_state};
use crate::response::{header_lines, shown_value, reason_phrase, response_wire, visible_bytes};
use crate::client::{visible_text, shown_text, header_text};
use crate::client_reader::{
    ClientReadState, ClientStep, client_after_line, client_after_bytes, client_body_step, client_initial,
    MAX_HEAD_BYTES,
};
use crate::utf8::{lemma_encode_concat, lemma_encode_ascii};
use crate::errors::ErrorKind;
use crate::client::request_wire;
use crate::request::{parse_request_spec, request_headers, find_blank_line, head_text};
use crate::http_types::{is_token, uri_parts};

verus! {

/// Text without white space at either end.
pub open spec fn trimmed(v: Seq<char>) -> bool {
    v.len() == 0 || (!is_white_space(v[0]) && !is_white_space(v.last()))
}

/// A token character is neither white space nor a colon.
proof fn lemma_tchar_plain(c: char)
    requires
        is_tchar_char(c),
    ensures
        !is_white_space(c),
        c != ':',
        c != '\n',
{
}

proof fn lemma_tchar_ascii(c: char)
    requires
        is_tchar_char(c),
    ensures
        '\0' <= c <= '\u{7f}',
{
}

/// A `name: value` header line splits back into its name and value.
pub proof fn lemma_header_fields(name: Seq<char>, value: Seq<char>)
    requires
        is_token_text(name),
        trimmed(value),
    ensures
        header_fields(name + ": "@ + value + "\r\n"@) == Some((name, value)),
{
    reveal_strlit(": ");
    reveal_strlit("\r\n");
    let line = name + ": "@ + value + "\r\n"@;
    let n = name.len() as int;
    assert forall|j: int| 0 <= j < n implies #[trigger] line[j] != ':' by {
        assert(line[j] == name[j]);
        lemma_tchar_plain(name[j]);
    }
    assert(line[n] == ':');
    lemma_find_char_stop(line, ':', 0, n);
    let (k, v) = split_once(line, ':')->0;
    assert(k =~= name);
    let rest = line.subrange(n + 1, line.len() as int);
    assert(v =~= rest);
    assert(rest =~= " "@ + value + "\r\n"@) by {
        reveal_strlit(" ");
    }
    // The name has no white space.
    assert forall|j: int| 0 <= j < n implies !is_white_space(#[trigger] name[j]) by {
        lemma_tchar_plain(name[j]);
    }
    lemma_skip_ws_stop(name, 0, 0);
    lemma_trim_end_stop(name, 0, n, n);
    assert(trim(name) =~= name);
    // The value is what remains once the space and line end are trimmed.
    let m = value.len() as int;
    assert(rest.len() == m + 3);
    assert(rest[0] == ' ');
    assert(rest[m + 1] == '\r');
    assert(rest[m + 2] == '\n');
    if m == 0 {
        assert forall|j: int| 0 <= j < 3 implies is_white_space(#[trigger] rest[j]) by {}
        lemma_skip_ws_stop(rest, 0, 3);
        lemma_trim_end_stop(rest, 3, 3, 3);
        assert(trim(rest) =~= value);
    } else {
        assert(rest[1] == value[0]);
        assert(rest[m] == value[m - 1]);
        lemma_skip_ws_stop(rest, 0, 1);
        assert forall|j: int| m + 1 <= j < m + 3 implies is_white_space(#[trigger] rest[j]) by {}
        lemma_trim_end_stop(rest, 1, m + 3, m + 1);
        assert(trim(rest) =~= value);
    }
}

/// The status line that a response starts with.
pub open spec fn status_line_text(code: u16) -> Seq<char> {
    "HTTP/1.1 "@ + decimal_text(code as nat) + " "@ + reason_phrase(code) + "\r\n"@
}

/// The status code read from a status line is the code written.
pub proof fn lemma_status_line(code: u16)
    ensures
        status_of_line(status_line_text(code)) == code,
{
    reveal_strlit("HTTP/1.1 ");
    reveal_strlit(" ");
    let d = decimal_text(code as nat);
    lemma_decimal_text_value(code as nat);
    lemma_decimal_digits(code as nat);
    let s = status_line_text(code);
    let dl = d.len() as int;
    assert(s[0] == 'H');
    assert forall|j: int| 0 <= j < 8 implies !is_white_space(#[trigger] s[j]) by {
        assert(s[j] == "HTTP/1.1 "@[j]);
    }
    assert(s[8] == ' ');
    assert forall|j: int| 9 <= j < 9 + dl implies !is_white_space(#[trigger] s[j]) by {
        assert(s[j] == d[j - 9]);
        assert(0x30 <= decimal(code as nat)[j - 9] <= 0x39);
    }
    assert(s[9 + dl] == ' ');
    lemma_skip_ws_stop(s, 0, 0);
    lemma_skip_non_ws_stop(s, 0, 8);
    assert forall|j: int| 8 <= j < 9 implies is_white_space(#[trigger] s[j]) by {}
    lemma_skip_ws_stop(s, 8, 9);
    lemma_skip_non_ws_stop(s, 9, 9 + dl);
    assert(s.subrange(9, 9 + dl) =~= d);
    assert(second_token(s) == Some(d));
    lemma_parse_decimal_text(code as nat, 65535);
}

/// The text of a header line as the server writes it.
pub open spec fn header_line_text(h: (Seq<char>, Seq<char>)) -> Seq<char> {
    h.0 + ": "@ + shown_text(h.1) + "\r\n"@
}

/// The `Content-Length` line that the server adds.
pub open spec fn length_line_text(n: nat) -> Seq<char> {
    "Content-Length: "@ + decimal_text(n) + "\r\n"@
}

/// Lines one after another.
pub open spec fn concat_lines(ls: Seq<Seq<char>>) -> Seq<char>
    decreases ls.len(),
{
    if ls.len() == 0 {
        Seq::empty()
    } else {
        concat_lines(ls.drop_last()) + ls.last()
    }
}

/// The lines of a response head: the status line, a line per header, the
/// `Content-Length` line unless a `content-length` header is present, and the
/// blank line.
pub open spec fn response_head_lines(code: u16, hs: Seq<(Seq<char>, Seq<char>)>, body_len: nat) -> Seq<Seq<char>> {
    seq![status_line_text(code)] + hs.map_values(|h: (Seq<char>, Seq<char>)| header_line_text(h)) + (if has_key(
        hs,
        "content-length"@,
    ) {
        Seq::empty()
    } else {
        seq![length_line_text(body_len)]
    }) + seq!["\r\n"@]
}

proof fn lemma_concat_lines_append(a: Seq<Seq<char>>, b: Seq<Seq<char>>)
    ensures
        concat_lines(a + b) == concat_lines(a) + concat_lines(b),
    decreases b.len(),
{
    if b.len() == 0 {
        assert(a + b =~= a);
        assert(concat_lines(a) + concat_lines(b) =~= concat_lines(a));
    } else {
        lemma_concat_lines_append(a, b.drop_last());
        assert((a + b).drop_last() =~= a + b.drop_last());
        assert((a + b).last() == b.last());
        assert(concat_lines(a + b) =~= concat_lines(a) + concat_lines(b));
    }
}

proof fn lemma_concat_one(l: Seq<char>)
    ensures
        concat_lines(seq![l]) == l,
{
    assert(seq![l].drop_last() =~= Seq::<Seq<char>>::empty());
    assert(concat_lines(Seq::<Seq<char>>::empty()) == Seq::<char>::empty());
    assert(concat_lines(seq![l]) == concat_lines(seq![l].drop_last()) + l);
    assert(concat_lines(seq![l]) =~= l);
}

/// The encoding of shown text is the shown encoding.
proof fn lemma_encode_shown(v: Seq<char>)
    ensures
        encode_utf8(shown_text(v)) == shown_value(encode_utf8(v)),
{
    if !visible_text(v) {
        assert(encode_utf8(Seq::<char>::empty()) =~= Seq::<u8>::empty());
    }
}

/// The bytes of one header line.
proof fn lemma_encode_header_line(h: (Seq<char>, Seq<char>))
    ensures
        encode_utf8(header_line_text(h)) == encode_utf8(h.0) + encode_utf8(": "@) + shown_value(
            encode_utf8(h.1),
        ) + encode_utf8("\r\n"@),
{
    lemma_encode_concat(h.0 + ": "@ + shown_text(h.1), "\r\n"@);
    lemma_encode_concat(h.0 + ": "@, shown_text(h.1));
    lemma_encode_concat(h.0, ": "@);
    lemma_encode_shown(h.1);
}

/// The header lines the server writes are the encoding of the header line
/// texts.
proof fn lemma_header_lines_text(hs: Seq<(Seq<char>, Seq<char>)>)
    ensures
        header_lines(hs) == encode_utf8(
            concat_lines(hs.map_values(|h: (Seq<char>, Seq<char>)| header_line_text(h))),
        ),
    decreases hs.len(),
{
    let m = hs.map_values(|h: (Seq<char>, Seq<char>)| header_line_text(h));
    if hs.len() == 0 {
        assert(m =~= Seq::<Seq<char>>::empty());
        assert(encode_utf8(Seq::<char>::empty()) =~= Seq::<u8>::empty());
    } else {
        lemma_header_lines_text(hs.drop_last());
        assert(m.drop_last() =~= hs.drop_last().map_values(
            |h: (Seq<char>, Seq<char>)| header_line_text(h),
        ));
        assert(m.last() == header_line_text(hs.last()));
        lemma_encode_concat(concat_lines(m.drop_last()), m.last());
        lemma_encode_header_line(hs.last());
        assert(header_lines(hs) =~= encode_utf8(concat_lines(m)));
    }
}

/// The decimal text encodes to the decimal digits.
proof fn lemma_encode_decimal(n: nat)
    ensures
        encode_utf8(decimal_text(n)) == decimal(n),
{
    lemma_decimal_digits(n);
    let t = decimal_text(n);
    assert(is_ascii_chars(t)) by {
        assert forall|i: int| 0 <= i < t.len() implies '\0' <= #[trigger] t[i] <= '\u{7f}' by {
            assert(0x30 <= decimal(n)[i] <= 0x39);
        }
    }
    lemma_encode_ascii(t);
    let m = t.map_values(|c: char| c as u8);
    assert forall|i: int| 0 <= i < t.len() implies #[trigger] m[i] == decimal(n)[i] by {
        assert(0x30 <= decimal(n)[i] <= 0x39);
    }
    assert(m =~= decimal(n));
}

/// The head lines followed by the body are exactly the bytes the server
/// writes.
pub proof fn lemma_response_lines_wire(code: u16, hs: Seq<(Seq<char>, Seq<char>)>, body: Seq<u8>)
    ensures
        encode_utf8(concat_lines(response_head_lines(code, hs, body.len()))) + body == response_wire(
            code,
            hs,
            body,
        ),
{
    reveal_strlit(" ");
    let sl = status_line_text(code);
    let hm = hs.map_values(|h: (Seq<char>, Seq<char>)| header_line_text(h));
    let cl: Seq<Seq<char>> = if has_key(hs, "content-length"@) {
        Seq::empty()
    } else {
        seq![length_line_text(body.len())]
    };
    let ls = response_head_lines(code, hs, body.len());
    assert(ls =~= seq![sl] + hm + cl + seq!["\r\n"@]);
    lemma_concat_lines_append(seq![sl] + hm + cl, seq!["\r\n"@]);
    lemma_concat_lines_append(seq![sl] + hm, cl);
    lemma_concat_lines_append(seq![sl], hm);
    lemma_concat_one(sl);
    lemma_concat_one("\r\n"@);
    let head = sl + concat_lines(hm) + concat_lines(cl) + "\r\n"@;
    assert(concat_lines(ls) == head);
    lemma_encode_concat(sl + concat_lines(hm) + concat_lines(cl), "\r\n"@);
    lemma_encode_concat(sl + concat_lines(hm), concat_lines(cl));
    lemma_encode_concat(sl, concat_lines(hm));
    lemma_header_lines_text(hs);
    // The status line.
    lemma_encode_concat("HTTP/1.1 "@ + decimal_text(code as nat) + " "@ + reason_phrase(code), "\r\n"@);
    lemma_encode_concat("HTTP/1.1 "@ + decimal_text(code as nat) + " "@, reason_phrase(code));
    lemma_encode_concat("HTTP/1.1 "@ + decimal_text(code as nat), " "@);
    lemma_encode_concat("HTTP/1.1 "@, decimal_text(code as nat));
    lemma_encode_decimal(code as nat);
    assert(encode_utf8(" "@) =~= seq![0x20u8]) by {
        lemma_encode_ascii(" "@);
    }
    // The length line.
    if !has_key(hs, "content-length"@) {
        lemma_concat_one(length_line_text(body.len()));
        lemma_encode_concat("Content-Length: "@ + decimal_text(body.len()), "\r\n"@);
        lemma_encode_concat("Content-Length: "@, decimal_text(body.len()));
        lemma_encode_decimal(body.len());
    } else {
        assert(concat_lines(cl) =~= Seq::<char>::empty());
        assert(encode_utf8(Seq::<char>::empty()) =~= Seq::<u8>::empty());
    }
    assert(encode_utf8(concat_lines(ls)) + body =~= response_wire(code, hs, body));
}

/// The reader's state after the lines `ls`, one after another, or the error
/// that stopped it.
pub open spec fn run_client_lines(st: ClientReadState, ls: Seq<Seq<char>>) -> Result<ClientReadState, ErrorKind>
    decreases ls.len(),
{
    if ls.len() == 0 {
        Ok(st)
    } else {
        match run_client_lines(st, ls.drop_last()) {
            Ok(s) => client_after_line(s, ls.last()),
            Err(k) => Err(k),
        }
    }
}

proof fn lemma_run_append(st: ClientReadState, a: Seq<Seq<char>>, b: Seq<Seq<char>>)
    ensures
        run_client_lines(st, a + b) == match run_client_lines(st, a) {
            Ok(s) => run_client_lines(s, b),
            Err(k) => Err(k),
        },
    decreases b.len(),
{
    if b.len() == 0 {
        assert(a + b =~= a);
    } else {
        lemma_run_append(st, a, b.drop_last());
        assert((a + b).drop_last() =~= a + b.drop_last());
        assert((a + b).last() == b.last());
    }
}

proof fn lemma_run_one(st: ClientReadState, l: Seq<char>)
    ensures
        run_client_lines(st, seq![l]) == client_after_line(st, l),
{
    assert(seq![l].drop_last() =~= Seq::<Seq<char>>::empty());
    assert(run_client_lines(st, Seq::<Seq<char>>::empty()) == Ok::<ClientReadState, ErrorKind>(st));
    assert(seq![l].last() == l);
}

/// The length in bytes of the encoding of lines one after another.
proof fn lemma_encoded_prefix(ls: Seq<Seq<char>>, k: int)
    requires
        0 <= k <= ls.len(),
    ensures
        encode_utf8(concat_lines(ls)).len() == encode_utf8(concat_lines(ls.subrange(0, k))).len()
            + encode_utf8(concat_lines(ls.subrange(k, ls.len() as int))).len(),
{
    assert(ls =~= ls.subrange(0, k) + ls.subrange(k, ls.len() as int));
    lemma_concat_lines_append(ls.subrange(0, k), ls.subrange(k, ls.len() as int));
    lemma_encode_concat(concat_lines(ls.subrange(0, k)), concat_lines(ls.subrange(k, ls.len() as int)));
}

/// A header pair that the client reader accepts and stores unchanged but for
/// the lowercased name.
pub open spec fn readable_pair(p: (Seq<char>, Seq<char>)) -> bool {
    &&& is_token_text(p.0)
    &&& p.0.len() <= 65535
    &&& visible_text(p.1)
    &&& header_text_ok(p.1)
    &&& trimmed(p.1)
}

/// The pair as the reader stores it.
pub open spec fn stored_pair(p: (Seq<char>, Seq<char>)) -> (Seq<char>, Seq<char>) {
    (lower_chars(p.0), p.1)
}

/// Reading the header lines of readable pairs with distinct stored names
/// stores them in order.
proof fn lemma_read_headers(st0: ClientReadState, lp: Seq<(Seq<char>, Seq<char>)>, k: int)
    requires
        st0.step == ClientStep::HeaderLine,
        !st0.bad_header,
        st0.headers == Seq::<(Seq<char>, Seq<char>)>::empty(),
        forall|i: int| 0 <= i < lp.len() ==> readable_pair(#[trigger] lp[i]),
        unique_keys(lp.map_values(|p: (Seq<char>, Seq<char>)| stored_pair(p))),
        lp.len() <= HEADER_CAPACITY,
        st0.head_len + encode_utf8(
            concat_lines(lp.map_values(|p: (Seq<char>, Seq<char>)| header_line_text(p))),
        ).len() <= MAX_HEAD_BYTES,
        0 <= k <= lp.len(),
    ensures
        run_client_lines(st0, lp.map_values(|p: (Seq<char>, Seq<char>)| header_line_text(p)).subrange(0, k))
            == Ok::<ClientReadState, ErrorKind>(
            ClientReadState {
                head_len: st0.head_len + encode_utf8(
                    concat_lines(
                        lp.map_values(|p: (Seq<char>, Seq<char>)| header_line_text(p)).subrange(0, k),
                    ),
                ).len(),
                headers: lp.map_values(|p: (Seq<char>, Seq<char>)| stored_pair(p)).subrange(0, k),
                ..st0
            },
        ),
    decreases k,
{
    let lines = lp.map_values(|p: (Seq<char>, Seq<char>)| header_line_text(p));
    let stored = lp.map_values(|p: (Seq<char>, Seq<char>)| stored_pair(p));
    if k == 0 {
        assert(lines.subrange(0, 0) =~= Seq::<Seq<char>>::empty());
        assert(stored.subrange(0, 0) =~= Seq::<(Seq<char>, Seq<char>)>::empty());
        assert(concat_lines(Seq::<Seq<char>>::empty()) == Seq::<char>::empty());
        assert(encode_utf8(Seq::<char>::empty()) =~= Seq::<u8>::empty());
    } else {
        lemma_read_headers(st0, lp, k - 1);
        let pre = lines.subrange(0, k - 1);
        assert(lines.subrange(0, k).drop_last() =~= pre);
        let p = lp[k - 1];
        assert(readable_pair(p));
        let l = lines[k - 1];
        assert(l == header_line_text(p));
        assert(lines.subrange(0, k).last() == l);
        let s = ClientReadState {
            head_len: st0.head_len + encode_utf8(concat_lines(pre)).len(),
            headers: stored.subrange(0, k - 1),
            ..st0
        };
        // The line's length fits.
        lemma_encoded_prefix(lines, k);
        lemma_encoded_prefix(lines.subrange(0, k), k - 1);
        assert(lines.subrange(0, k).subrange(0, k - 1) =~= pre);
        assert(lines.subrange(0, k).subrange(k - 1, k) =~= seq![l]);
        lemma_concat_one(l);
        // The line is a header line.
        reveal_strlit(": ");
        reveal_strlit("\r\n");
        assert(shown_text(p.1) == p.1);
        assert(l =~= p.0 + ": "@ + p.1 + "\r\n"@);
        assert(l[0] == p.0[0]);
        assert(is_tchar_char(p.0[0]));
        assert(l.len() > 0);
        assert(l != "\r\n"@);
        lemma_header_fields(p.0, p.1);
        // The name is new and there is room.
        let sub = stored.subrange(0, k - 1);
        assert(!has_key(sub, lower_chars(p.0))) by {
            if has_key(sub, lower_chars(p.0)) {
                let j = choose|j: int| 0 <= j < sub.len() && (#[trigger] sub[j]).0 == lower_chars(p.0);
                assert(stored[j].0 == stored[k - 1].0);
            }
        }
        assert(insert_capped(sub, lower_chars(p.0), p.1) =~= stored.subrange(0, k));
    }
}

/// The headers a client reads back from a response with headers `hs` and a
/// body of `n` bytes: the server's headers, then the `content-length` that
/// the server adds.
pub open spec fn read_back_headers(hs: Seq<(Seq<char>, Seq<char>)>, n: nat) -> Seq<(Seq<char>, Seq<char>)> {
    hs.push(("content-length"@, decimal_text(n)))
}

/// Decimal text is readable header text.
proof fn lemma_decimal_readable(n: nat)
    ensures
        visible_text(decimal_text(n)),
        header_text_ok(decimal_text(n)),
        trimmed(decimal_text(n)),
        shown_text(decimal_text(n)) == decimal_text(n),
{
    lemma_decimal_digits(n);
    lemma_encode_decimal(n);
    let t = decimal_text(n);
    assert forall|i: int| 0 <= i < t.len() implies is_header_value_char(#[trigger] t[i]) by {
        assert(0x30 <= decimal(n)[i] <= 0x39);
    }
    assert(visible_bytes(decimal(n))) by {
        assert forall|i: int| 0 <= i < decimal(n).len() implies crate::http_types::is_visible_ascii(
            #[trigger] decimal(n)[i],
        ) by {
            assert(0x30 <= decimal(n)[i] <= 0x39);
        }
    }
    assert(0x30 <= decimal(n)[0] <= 0x39);
    assert(0x30 <= decimal(n)[t.len() - 1] <= 0x39);
}

/// The body framing a client derives from the read-back headers.
proof fn lemma_read_back_body_step(hs: Seq<(Seq<char>, Seq<char>)>, n: nat)
    requires
        unique_keys(read_back_headers(hs, n)),
        !has_key(hs, "transfer-encoding"@),
        n <= usize::MAX,
    ensures
        client_body_step(read_back_headers(hs, n)) == if n == 0 {
            ClientStep::Done
        } else {
            ClientStep::FixedBody(n as usize)
        },
{
    let st = read_back_headers(hs, n);
    let last = hs.len() as int;
    reveal_strlit("content-length");
    reveal_strlit("transfer-encoding");
    assert("content-length"@.len() != "transfer-encoding"@.len());
    assert(!has_key(st, "transfer-encoding"@)) by {
        if has_key(st, "transfer-encoding"@) {
            let j = choose|j: int| 0 <= j < st.len() && (#[trigger] st[j]).0 == "transfer-encoding"@;
            if j < last {
                assert(hs[j] == st[j]);
            }
        }
    }
    assert(st[last].0 == "content-length"@);
    assert(has_key(st, "content-length"@));
    let c = choose|j: int| 0 <= j < st.len() && (#[trigger] st[j]).0 == "content-length"@;
    assert(c == last);
    lemma_decimal_readable(n);
    assert(header_text(st, "content-length"@) == Some(decimal_text(n)));
    lemma_parse_decimal_text(n, usize::MAX as nat);
}

/// The status line starts with `H`, and no line of a response head but the
/// last holds a line break anywhere but at its end.
proof fn lemma_head_line_breaks(code: u16, hs: Seq<(Seq<char>, Seq<char>)>, n: nat)
    requires
        forall|i: int| 0 <= i < hs.len() ==> is_header_name(#[trigger] hs[i].0) && header_text_ok(
            hs[i].1,
        ),
        forall|i: int| 0 <= i < reason_phrase(code).len() ==> #[trigger] reason_phrase(code)[i] != '\n',
    ensures
        forall|i: int|
            0 <= i < response_head_lines(code, hs, n).len() ==> {
                let l = #[trigger] response_head_lines(code, hs, n)[i];
                &&& l.len() > 0
                &&& l.last() == '\n'
                &&& forall|j: int| 0 <= j < l.len() - 1 ==> l[j] != '\n'
            },
{
    reveal_strlit("HTTP/1.1 ");
    reveal_strlit(" ");
    reveal_strlit(": ");
    reveal_strlit("\r\n");
    reveal_strlit("Content-Length: ");
    let ls = response_head_lines(code, hs, n);
    lemma_decimal_digits(n);
    lemma_decimal_digits(code as nat);
    assert forall|i: int| 0 <= i < ls.len() implies {
        let l = #[trigger] ls[i];
        &&& l.len() > 0
        &&& l.last() == '\n'
        &&& forall|j: int| 0 <= j < l.len() - 1 ==> l[j] != '\n'
    } by {
        let l = ls[i];
        if i == 0 {
            let d = decimal_text(code as nat);
            assert forall|j: int| 0 <= j < l.len() - 1 implies l[j] != '\n' by {
                if 9 <= j < 9 + d.len() {
                    assert(l[j] == d[j - 9]);
                    assert(0x30 <= decimal(code as nat)[j - 9] <= 0x39);
                } else if 10 + d.len() <= j < 10 + d.len() + reason_phrase(code).len() {
                    assert(l[j] == reason_phrase(code)[j - 10 - d.len()]);
                }
            }
        } else if i <= hs.len() {
            let h = hs[i - 1];
            assert(l == header_line_text(h));
            assert forall|j: int| 0 <= j < l.len() - 1 implies l[j] != '\n' by {
                if j < h.0.len() {
                    assert(l[j] == h.0[j]);
                    assert(is_tchar_char(h.0[j]));
                } else if h.0.len() + 2 <= j < h.0.len() + 2 + shown_text(h.1).len() {
                    assert(l[j] == h.1[j - h.0.len() - 2]);
                    assert(is_header_value_char(h.1[j - h.0.len() - 2]));
                }
            }
        } else if i == ls.len() - 1 {
            assert(l == "\r\n"@);
        } else {
            assert(l == length_line_text(n));
            assert forall|j: int| 0 <= j < l.len() - 1 implies l[j] != '\n' by {
                if 16 <= j < 16 + decimal_text(n).len() {
                    assert(l[j] == decimal_text(n)[j - 16]);
                    assert(0x30 <= decimal(n)[j - 16] <= 0x39);
                }
            }
        }
    }
}

/// What the server writes, the client reads back. The head lines of a
/// response that the server serializes, followed by its body, are exactly
/// the bytes it writes, and each is one line as a line reader splits them.
/// A client reader fed those lines reads the status code, the headers (with
/// the `content-length` the server adds) and then a body of that length;
/// fed the body, it holds exactly the body. This holds for headers with
/// lowercase names and visible-text values without surrounding white space,
/// none of them `content-length` or `transfer-encoding`, and a head within
/// the reader's limit.
pub proof fn law_response_round_trip(code: u16, hs: Seq<(Seq<char>, Seq<char>)>, body: Seq<u8>)
    requires
        100 <= code <= 999,
        forall|i: int|
            0 <= i < hs.len() ==> is_header_name(#[trigger] hs[i].0) && visible_text(hs[i].1)
                && header_text_ok(hs[i].1) && trimmed(hs[i].1),
        unique_keys(hs),
        hs.len() < HEADER_CAPACITY,
        !has_key(hs, "content-length"@),
        !has_key(hs, "transfer-encoding"@),
        forall|i: int| 0 <= i < reason_phrase(code).len() ==> #[trigger] reason_phrase(code)[i] != '\n',
        encode_utf8(concat_lines(response_head_lines(code, hs, body.len()).drop_last())).len()
            <= MAX_HEAD_BYTES,
        body.len() <= usize::MAX,
    ensures
        encode_utf8(concat_lines(response_head_lines(code, hs, body.len()))) + body == response_wire(
            code,
            hs,
            body,
        ),
        forall|i: int|
            0 <= i < response_head_lines(code, hs, body.len()).len() ==> {
                let l = #[trigger] response_head_lines(code, hs, body.len())[i];
                &&& l.len() > 0
                &&& l.last() == '\n'
                &&& forall|j: int| 0 <= j < l.len() - 1 ==> l[j] != '\n'
            },
        run_client_lines(client_initial(), response_head_lines(code, hs, body.len())) matches Ok(st) && {
            &&& st.status == code
            &&& st.headers == read_back_headers(hs, body.len())
            &&& !st.bad_header
            &&& st.body == Seq::<u8>::empty()
            &&& st.step == if body.len() == 0 {
                ClientStep::Done
            } else {
                ClientStep::FixedBody(body.len() as usize)
            }
            &&& body.len() > 0 ==> client_after_bytes(st, body) == Ok::<ClientReadState, ErrorKind>(
                ClientReadState { step: ClientStep::Done, body: body, ..st },
            )
        },
{
    let n = body.len();
    lemma_response_lines_wire(code, hs, body);
    lemma_head_line_breaks(code, hs, n);
    reveal_strlit("Content-Length: ");
    reveal_strlit("Content-Length");
    reveal_strlit("content-length");
    reveal_strlit(": ");
    let d = decimal_text(n);
    lemma_decimal_readable(n);
    let sl = status_line_text(code);
    let hm = hs.map_values(|h: (Seq<char>, Seq<char>)| header_line_text(h));
    let cll = length_line_text(n);
    let ls = response_head_lines(code, hs, n);
    assert(ls =~= seq![sl] + hm + seq![cll] + seq!["\r\n"@]);
    // The header lines, the added length line included.
    let lp = hs.push(("Content-Length"@, d));
    let lines = lp.map_values(|p: (Seq<char>, Seq<char>)| header_line_text(p));
    assert("Content-Length: "@ =~= "Content-Length"@ + ": "@);
    assert(header_line_text(("Content-Length"@, d)) =~= cll);
    assert(lines =~= hm + seq![cll]);
    let stored = lp.map_values(|p: (Seq<char>, Seq<char>)| stored_pair(p));
    assert(lower_chars("Content-Length"@) =~= "content-length"@);
    assert(stored =~= read_back_headers(hs, n)) by {
        assert forall|i: int| 0 <= i < hs.len() implies #[trigger] stored[i] == hs[i] by {
            assert(is_header_name(hs[i].0));
        }
    }
    assert(is_token_text("Content-Length"@));
    assert forall|i: int| 0 <= i < lp.len() implies readable_pair(#[trigger] lp[i]) by {
        if i < hs.len() {
            assert(lp[i] == hs[i]);
            assert(is_header_name(hs[i].0));
        }
    }
    assert(unique_keys(stored)) by {
        let rb = read_back_headers(hs, n);
        assert forall|a: int, b: int| 0 <= a < rb.len() && 0 <= b < rb.len() && a != b implies
            (#[trigger] rb[a]).0 != (#[trigger] rb[b]).0 by {
            if a == hs.len() {
                assert(rb[b] == hs[b]);
            } else if b == hs.len() {
                assert(rb[a] == hs[a]);
            } else {
                assert(rb[a] == hs[a]);
                assert(rb[b] == hs[b]);
            }
        }
    }
    // The status line.
    let init = client_initial();
    lemma_status_line(code);
    lemma_run_one(init, sl);
    let s1 = ClientReadState {
        step: ClientStep::HeaderLine,
        status: code,
        head_len: encode_utf8(sl).len(),
        ..init
    };
    assert(run_client_lines(init, seq![sl]) == Ok::<ClientReadState, ErrorKind>(s1));
    // The header block fits.
    assert(ls.drop_last() =~= seq![sl] + lines);
    lemma_concat_lines_append(seq![sl], lines);
    lemma_concat_one(sl);
    lemma_encode_concat(sl, concat_lines(lines));
    lemma_read_headers(s1, lp, lp.len() as int);
    assert(lines.subrange(0, lp.len() as int) =~= lines);
    assert(stored.subrange(0, lp.len() as int) =~= stored);
    let s2 = ClientReadState {
        head_len: s1.head_len + encode_utf8(concat_lines(lines)).len(),
        headers: stored,
        ..s1
    };
    lemma_run_append(init, seq![sl], lines);
    assert(run_client_lines(init, seq![sl] + lines) == Ok::<ClientReadState, ErrorKind>(s2));
    // The blank line.
    lemma_run_one(s2, "\r\n"@);
    reveal_strlit("\r\n");
    lemma_read_back_body_step(hs, n);
    lemma_run_append(init, seq![sl] + lines, seq!["\r\n"@]);
    assert(seq![sl] + lines + seq!["\r\n"@] =~= ls);
}

/// Lines joined with `\r\n` between them.
pub open spec fn crlf_join(ls: Seq<Seq<char>>) -> Seq<char>
    decreases ls.len(),
{
    if ls.len() == 0 {
        Seq::empty()
    } else if ls.len() == 1 {
        ls[0]
    } else {
        ls[0] + "\r\n"@ + crlf_join(ls.drop_first())
    }
}

/// A non-empty line without line-break characters.
pub open spec fn plain_line(l: Seq<char>) -> bool {
    l.len() > 0 && forall|i: int| 0 <= i < l.len() ==> #[trigger] l[i] != '\r' && l[i] != '\n'
}

proof fn lemma_find_char_shift(x: Seq<char>, y: Seq<char>, c: char, j: int)
    requires
        0 <= j <= y.len(),
    ensures
        find_char(x + y, c, x.len() + j) == x.len() + find_char(y, c, j),
    decreases y.len() - j,
{
    if j < y.len() {
        assert((x + y)[x.len() + j] == y[j]);
        if y[j] != c {
            lemma_find_char_shift(x, y, c, j + 1);
        }
    }
}

proof fn lemma_lines_shift(x: Seq<char>, y: Seq<char>, j: int)
    requires
        0 <= j <= y.len(),
    ensures
        lines_from(x + y, x.len() + j) == lines_from(y, j),
    decreases y.len() - j,
{
    let s = x + y;
    let i = x.len() + j;
    if j < y.len() {
        lemma_find_char_shift(x, y, '\n', j);
        crate::text::lemma_find_char_bounds(y, '\n', j);
        let e = find_char(y, '\n', j);
        if e < y.len() {
            lemma_lines_shift(x, y, e + 1);
            assert(line_text(s, i, x.len() + e) =~= line_text(y, j, e)) by {
                if e > j {
                    assert(s[x.len() + e - 1] == y[e - 1]);
                }
            }
        } else {
            assert(s.subrange(i, s.len() as int) =~= y.subrange(j, y.len() as int));
        }
    }
}

/// The lines of text joined with `\r\n` are the lines themselves.
proof fn lemma_lines_join(ls: Seq<Seq<char>>)
    requires
        ls.len() >= 1,
        forall|i: int| 0 <= i < ls.len() ==> plain_line(#[trigger] ls[i]),
    ensures
        lines(crlf_join(ls)) == ls,
    decreases ls.len(),
{
    let l0 = ls[0];
    assert(plain_line(l0));
    if ls.len() == 1 {
        let j = crlf_join(ls);
        assert(j == l0);
        assert forall|k: int| 0 <= k < j.len() implies #[trigger] j[k] != '\n' by {}
        crate::text::lemma_find_char_bounds(j, '\n', 0);
        assert(find_char(j, '\n', 0) == j.len()) by {
            if find_char(j, '\n', 0) < j.len() {
                assert(j[find_char(j, '\n', 0)] == '\n');
            }
        }
        assert(j.subrange(0, j.len() as int) =~= l0);
        assert(lines(j) =~= seq![l0]);
        assert(ls =~= seq![l0]);
    } else {
        let rest = ls.drop_first();
        assert forall|i: int| 0 <= i < rest.len() implies plain_line(#[trigger] rest[i]) by {
            assert(rest[i] == ls[i + 1]);
        }
        lemma_lines_join(rest);
        reveal_strlit("\r\n");
        let j = crlf_join(ls);
        let n = l0.len() as int;
        let x = l0 + "\r\n"@;
        assert(j =~= x + crlf_join(rest));
        assert forall|k: int| 0 <= k < n implies #[trigger] j[k] != '\n' by {
            assert(j[k] == l0[k]);
        }
        assert(j[n + 1] == '\n');
        lemma_find_char_stop(j, '\n', 0, n + 1);
        assert(j[n] == '\r');
        assert(line_text(j, 0, n + 1) =~= l0);
        lemma_lines_shift(x, crlf_join(rest), 0);
        assert(x.len() == n + 2);
        assert(lines(j) =~= seq![l0] + rest);
        assert(seq![l0] + rest =~= ls);
    }
}

/// In lines joined with `\r\n`, every `\r` is followed, two places on, by a
/// character other than `\r`.
proof fn lemma_join_returns(ls: Seq<Seq<char>>)
    requires
        ls.len() >= 1,
        forall|i: int| 0 <= i < ls.len() ==> plain_line(#[trigger] ls[i]),
    ensures
        forall|i: int|
            0 <= i < crlf_join(ls).len() && #[trigger] crlf_join(ls)[i] == '\r' ==> i + 2 < crlf_join(
                ls,
            ).len() && crlf_join(ls)[i + 2] != '\r',
    decreases ls.len(),
{
    let l0 = ls[0];
    assert(plain_line(l0));
    let j = crlf_join(ls);
    if ls.len() == 1 {
        assert(j == l0);
    } else {
        let rest = ls.drop_first();
        assert forall|i: int| 0 <= i < rest.len() implies plain_line(#[trigger] rest[i]) by {
            assert(rest[i] == ls[i + 1]);
        }
        lemma_join_returns(rest);
        reveal_strlit("\r\n");
        let n = l0.len() as int;
        let jr = crlf_join(rest);
        assert(j =~= l0 + "\r\n"@ + jr);
        assert(plain_line(rest[0]));
        assert(jr.len() >= 1 && jr[0] == rest[0][0]) by {
            if rest.len() > 1 {
                assert(jr == rest[0] + "\r\n"@ + crlf_join(rest.drop_first()));
            }
        }
        assert forall|i: int| 0 <= i < j.len() && #[trigger] j[i] == '\r' implies i + 2 < j.len() && j[i
            + 2] != '\r' by {
            if i < n {
                assert(j[i] == l0[i]);
            } else if i == n {
                assert(j[n + 2] == jr[0]);
            } else if i == n + 1 {
            } else {
                assert(j[i] == jr[i - n - 2]);
                assert(j[i + 2] == jr[i - n]);
            }
        }
    }
}

/// `find_blank_line` finds the first blank line.
proof fn lemma_find_blank_stop(data: Seq<u8>, i: int, k: int)
    requires
        0 <= i <= k,
        k + 4 <= data.len(),
        data[k] == 13 && data[k + 1] == 10 && data[k + 2] == 13 && data[k + 3] == 10,
        forall|m: int|
            i <= m < k ==> !(#[trigger] data[m] == 13 && data[m + 1] == 10 && data[m + 2] == 13 && data[m
                + 3] == 10),
    ensures
        crate::request::find_blank_line(data, i) == Some(k),
    decreases k - i,
{
    if i < k {
        lemma_find_blank_stop(data, i + 1, k);
    }
}

proof fn lemma_join_push(xs: Seq<Seq<char>>, b: Seq<char>)
    requires
        xs.len() >= 1,
    ensures
        crlf_join(xs.push(b)) == crlf_join(xs) + "\r\n"@ + b,
    decreases xs.len(),
{
    if xs.len() == 1 {
        assert(xs.push(b).drop_first() =~= seq![b]);
        assert(crlf_join(seq![b]) == b);
    } else {
        lemma_join_push(xs.drop_first(), b);
        assert(xs.push(b).drop_first() =~= xs.drop_first().push(b));
    }
}

proof fn lemma_join_ascii(ls: Seq<Seq<char>>)
    requires
        forall|i: int| 0 <= i < ls.len() ==> is_ascii_chars(#[trigger] ls[i]),
    ensures
        is_ascii_chars(crlf_join(ls)),
    decreases ls.len(),
{
    reveal_strlit("\r\n");
    if ls.len() > 1 {
        let rest = ls.drop_first();
        assert forall|i: int| 0 <= i < rest.len() implies is_ascii_chars(#[trigger] rest[i]) by {
            assert(rest[i] == ls[i + 1]);
        }
        lemma_join_ascii(rest);
        assert(is_ascii_chars(ls[0]));
        let j = crlf_join(ls);
        let n = ls[0].len() as int;
        assert forall|k: int| 0 <= k < j.len() implies '\0' <= #[trigger] j[k] <= '\u{7f}' by {
            if k < n {
                assert(j[k] == ls[0][k]);
            } else if k >= n + 2 {
                assert(j[k] == crlf_join(rest)[k - n - 2]);
            }
        }
    } else if ls.len() == 1 {
        assert(is_ascii_chars(ls[0]));
    }
}

/// A header line without its line end.
pub open spec fn bare_header_line(h: (Seq<char>, Seq<char>)) -> Seq<char> {
    h.0 + ": "@ + h.1
}

/// A `name: value` line splits back into its name and value.
proof fn lemma_bare_header_fields(name: Seq<char>, value: Seq<char>)
    requires
        is_token_text(name),
        trimmed(value),
    ensures
        header_fields(bare_header_line((name, value))) == Some((name, value)),
{
    reveal_strlit(": ");
    let line = bare_header_line((name, value));
    let n = name.len() as int;
    assert forall|j: int| 0 <= j < n implies #[trigger] line[j] != ':' by {
        assert(line[j] == name[j]);
        lemma_tchar_plain(name[j]);
    }
    assert(line[n] == ':');
    lemma_find_char_stop(line, ':', 0, n);
    let rest = line.subrange(n + 1, line.len() as int);
    assert(rest =~= " "@ + value) by {
        reveal_strlit(" ");
    }
    assert forall|j: int| 0 <= j < n implies !is_white_space(#[trigger] name[j]) by {
        lemma_tchar_plain(name[j]);
    }
    lemma_skip_ws_stop(name, 0, 0);
    lemma_trim_end_stop(name, 0, n, n);
    assert(trim(name) =~= name);
    let m = value.len() as int;
    assert(rest.len() == m + 1);
    assert(rest[0] == ' ');
    if m == 0 {
        assert forall|j: int| 0 <= j < 1 implies is_white_space(#[trigger] rest[j]) by {}
        lemma_skip_ws_stop(rest, 0, 1);
        lemma_trim_end_stop(rest, 1, 1, 1);
        assert(trim(rest) =~= value);
    } else {
        assert(rest[1] == value[0]);
        assert(rest[m] == value[m - 1]);
        lemma_skip_ws_stop(rest, 0, 1);
        lemma_trim_end_stop(rest, 1, m + 1, m + 1);
        assert(trim(rest) =~= value);
    }
}

/// A header pair that survives a request round trip.
pub open spec fn sendable_pair(h: (Seq<char>, Seq<char>)) -> bool {
    &&& is_header_name(h.0)
    &&& visible_text(h.1)
    &&& header_text_ok(h.1)
    &&& trimmed(h.1)
    &&& is_ascii_chars(h.1)
}

/// The server folds the header lines of sendable pairs with distinct names
/// back into those pairs.
proof fn lemma_request_headers_back(ls: Seq<Seq<char>>, hs: Seq<(Seq<char>, Seq<char>)>, i: int)
    requires
        ls.len() == hs.len() + 1,
        forall|k: int| 0 <= k < hs.len() ==> sendable_pair(#[trigger] hs[k]),
        forall|k: int| 0 <= k < hs.len() ==> #[trigger] ls[k + 1] == bare_header_line(hs[k]),
        unique_keys(hs),
        hs.len() <= HEADER_CAPACITY,
        1 <= i <= ls.len(),
    ensures
        request_headers(ls, i, hs.subrange(0, i - 1)) == hs,
    decreases ls.len() - i,
{
    if i == ls.len() {
        assert(hs.subrange(0, i - 1) =~= hs);
    } else {
        let h = hs[i - 1];
        assert(sendable_pair(h));
        let k = i - 1;
        assert(ls[k + 1] == bare_header_line(hs[k]));
        assert(ls[i] == bare_header_line(h));
        lemma_bare_header_fields(h.0, h.1);
        assert(lower_chars(h.0) == h.0);
        let sub = hs.subrange(0, i - 1);
        assert(!has_key(sub, h.0)) by {
            if has_key(sub, h.0) {
                let j = choose|j: int| 0 <= j < sub.len() && (#[trigger] sub[j]).0 == h.0;
                assert(hs[j].0 == hs[i - 1].0);
            }
        }
        assert(insert_capped(sub, h.0, h.1) =~= hs.subrange(0, i));
        lemma_request_headers_back(ls, hs, i + 1);
    }
}

/// The request text: request line, header lines and the blank line.
pub open spec fn request_text(method: Seq<char>, uri: Seq<char>, hs: Seq<(Seq<char>, Seq<char>)>) -> Seq<char> {
    method + " "@ + uri + " HTTP/1.1\r\n"@ + concat_lines(
        hs.map_values(|h: (Seq<char>, Seq<char>)| header_line_text(h)),
    ) + "\r\n"@
}

/// The lines of a request head.
pub open spec fn request_head_lines(method: Seq<char>, uri: Seq<char>, hs: Seq<(Seq<char>, Seq<char>)>) -> Seq<Seq<char>> {
    seq![method + " "@ + uri + " HTTP/1.1"@] + hs.map_values(|h: (Seq<char>, Seq<char>)| bare_header_line(h))
}

proof fn lemma_request_text_join(method: Seq<char>, uri: Seq<char>, hs: Seq<(Seq<char>, Seq<char>)>)
    requires
        forall|k: int| 0 <= k < hs.len() ==> visible_text(#[trigger] hs[k].1),
    ensures
        method + " "@ + uri + " HTTP/1.1\r\n"@ + concat_lines(
            hs.map_values(|h: (Seq<char>, Seq<char>)| header_line_text(h)),
        ) == crlf_join(request_head_lines(method, uri, hs)) + "\r\n"@,
    decreases hs.len(),
{
    reveal_strlit(" HTTP/1.1\r\n");
    reveal_strlit(" HTTP/1.1");
    reveal_strlit("\r\n");
    let rl = method + " "@ + uri + " HTTP/1.1"@;
    assert(" HTTP/1.1\r\n"@ =~= " HTTP/1.1"@ + "\r\n"@);
    let hm = hs.map_values(|h: (Seq<char>, Seq<char>)| header_line_text(h));
    if hs.len() == 0 {
        assert(hm =~= Seq::<Seq<char>>::empty());
        assert(request_head_lines(method, uri, hs) =~= seq![rl]);
        assert(concat_lines(hm) == Seq::<char>::empty());
    } else {
        let init = hs.drop_last();
        assert forall|k: int| 0 <= k < init.len() implies visible_text(#[trigger] init[k].1) by {
            assert(init[k] == hs[k]);
        }
        lemma_request_text_join(method, uri, init);
        let h = hs.last();
        assert(visible_text(hs[hs.len() - 1].1));
        assert(hm.drop_last() =~= init.map_values(|h: (Seq<char>, Seq<char>)| header_line_text(h)));
        assert(hm.last() == header_line_text(h));
        assert(header_line_text(h) =~= bare_header_line(h) + "\r\n"@);
        let xs = request_head_lines(method, uri, init);
        assert(request_head_lines(method, uri, hs) =~= xs.push(bare_header_line(h)));
        lemma_join_push(xs, bare_header_line(h));
    }
}

/// The bytes of a request are its text, encoded, then its body.
proof fn lemma_request_wire_text(method: Seq<char>, uri: Seq<char>, hs: Seq<(Seq<char>, Seq<char>)>, body: Seq<u8>)
    ensures
        encode_utf8(request_text(method, uri, hs)) + body == request_wire(method, uri, hs, Some(body)),
{
    reveal_strlit(" ");
    let hm = hs.map_values(|h: (Seq<char>, Seq<char>)| header_line_text(h));
    lemma_encode_concat(method + " "@ + uri + " HTTP/1.1\r\n"@ + concat_lines(hm), "\r\n"@);
    lemma_encode_concat(method + " "@ + uri + " HTTP/1.1\r\n"@, concat_lines(hm));
    lemma_encode_concat(method + " "@ + uri, " HTTP/1.1\r\n"@);
    lemma_encode_concat(method + " "@, uri);
    lemma_encode_concat(method, " "@);
    lemma_header_lines_text(hs);
    assert(encode_utf8(" "@) =~= seq![0x20u8]) by {
        lemma_encode_ascii(" "@);
    }
    assert(encode_utf8(request_text(method, uri, hs)) + body =~= request_wire(method, uri, hs, Some(body)));
}

/// The method and target are the first two tokens of the request line.
proof fn lemma_request_line_tokens(method: Seq<char>, uri: Seq<char>)
    requires
        is_token_text(method),
        uri.len() > 0,
        forall|i: int| 0 <= i < uri.len() ==> !is_white_space(#[trigger] uri[i]),
    ensures
        first_token(method + " "@ + uri + " HTTP/1.1"@) == Some(method),
        second_token(method + " "@ + uri + " HTTP/1.1"@) == Some(uri),
{
    reveal_strlit(" ");
    reveal_strlit(" HTTP/1.1");
    let rl = method + " "@ + uri + " HTTP/1.1"@;
    let m = method.len() as int;
    let u = uri.len() as int;
    assert forall|j: int| 0 <= j < m implies !is_white_space(#[trigger] rl[j]) by {
        assert(rl[j] == method[j]);
        lemma_tchar_plain(method[j]);
    }
    assert(rl[m] == ' ');
    assert forall|j: int| m + 1 <= j < m + 1 + u implies !is_white_space(#[trigger] rl[j]) by {
        assert(rl[j] == uri[j - m - 1]);
    }
    assert(rl[m + 1 + u] == ' ');
    lemma_skip_ws_stop(rl, 0, 0);
    lemma_skip_non_ws_stop(rl, 0, m);
    assert forall|j: int| m <= j < m + 1 implies is_white_space(#[trigger] rl[j]) by {}
    lemma_skip_ws_stop(rl, m, m + 1);
    lemma_skip_non_ws_stop(rl, m + 1, m + 1 + u);
    assert(rl.subrange(0, m) =~= method);
    assert(rl.subrange(m + 1, m + 1 + u) =~= uri);
}

/// What the client sends, the server parses back. A request framed by the
/// client's request builder, for a method token, an ASCII target without
/// white space that the URI parser accepts, headers with lowercase names and
/// visible ASCII values without surrounding white space, and a body, parses
/// on the server (when within its size limits) into the same method, the
/// same target with its path and query as the URI parser splits it, the same
/// headers in the same order, and the same body.
pub proof fn law_request_round_trip(
    method: Seq<char>,
    uri: Seq<char>,
    hs: Seq<(Seq<char>, Seq<char>)>,
    body: Seq<u8>,
    max_size: nat,
    max_header_size: nat,
)
    requires
        is_token_text(method),
        uri.len() > 0,
        is_ascii_chars(uri),
        forall|i: int| 0 <= i < uri.len() ==> !is_white_space(#[trigger] uri[i]),
        uri_parts(uri) is Ok,
        forall|k: int| 0 <= k < hs.len() ==> sendable_pair(#[trigger] hs[k]),
        unique_keys(hs),
        hs.len() <= HEADER_CAPACITY,
        request_wire(method, uri, hs, Some(body)).len() <= max_size,
        request_wire(method, uri, hs, Some(body)).len() <= max_header_size + 4 + body.len(),
    ensures
        parse_request_spec(request_wire(method, uri, hs, Some(body)), max_size, max_header_size) matches Some(p)
            && p.method == method && p.target == uri && uri_parts(uri) == Ok::<(Seq<char>, Option<Seq<char>>), Seq<char>>((p.path, p.query))
            && p.headers == hs && p.body == body,
{
    reveal_strlit(" ");
    reveal_strlit(" HTTP/1.1");
    reveal_strlit(": ");
    reveal_strlit("\r\n");
    let rl = method + " "@ + uri + " HTTP/1.1"@;
    let ls = request_head_lines(method, uri, hs);
    let j = crlf_join(ls);
    let t = request_text(method, uri, hs);
    let data = request_wire(method, uri, hs, Some(body));
    // The text and its bytes.
    assert forall|k: int| 0 <= k < hs.len() implies visible_text(#[trigger] hs[k].1) by {
        assert(sendable_pair(hs[k]));
    }
    lemma_request_text_join(method, uri, hs);
    assert(t =~= j + "\r\n\r\n"@) by {
        reveal_strlit("\r\n\r\n");
    }
    lemma_request_wire_text(method, uri, hs, body);
    assert(data == encode_utf8(t) + body);
    // Each line is plain ASCII.
    assert forall|i: int| 0 <= i < ls.len() implies plain_line(#[trigger] ls[i]) && is_ascii_chars(ls[i]) by {
        if i == 0 {
            assert(ls[0] == rl);
            let tail = " HTTP/1.1"@;
            assert(forall|k: int| 0 <= k < tail.len() ==> #[trigger] tail[k] != '\r' && tail[k] != '\n'
                && '\0' <= tail[k] <= '\u{7f}');
            assert forall|c: int| 0 <= c < rl.len() implies #[trigger] rl[c] != '\r' && rl[c] != '\n'
                && '\0' <= rl[c] <= '\u{7f}' by {
                if c < method.len() {
                    assert(rl[c] == method[c]);
                    assert(is_tchar_char(method[c]));
                    lemma_tchar_ascii(method[c]);
                } else if c == method.len() {
                    assert(rl[c] == ' ');
                } else if method.len() + 1 <= c < method.len() + 1 + uri.len() {
                    assert(rl[c] == uri[c - method.len() - 1]);
                    assert(!is_white_space(uri[c - method.len() - 1]));
                    assert('\0' <= uri[c - method.len() - 1] <= '\u{7f}');
                } else if c >= method.len() + 1 + uri.len() {
                    assert(rl[c] == tail[c - method.len() - 1 - uri.len()]);
                }
            }
        } else {
            let h = hs[i - 1];
            assert(sendable_pair(h));
            assert(ls[i] == bare_header_line(h));
            let l = ls[i];
            assert forall|c: int| 0 <= c < l.len() implies #[trigger] l[c] != '\r' && l[c] != '\n' && '\0'
                <= l[c] <= '\u{7f}' by {
                if c < h.0.len() {
                    assert(l[c] == h.0[c]);
                    assert(is_tchar_char(h.0[c]));
                } else if c >= h.0.len() + 2 {
                    assert(l[c] == h.1[c - h.0.len() - 2]);
                    assert(is_header_value_char(h.1[c - h.0.len() - 2]));
                }
            }
        }
    }
    lemma_join_ascii(ls);
    lemma_join_returns(ls);
    lemma_lines_join(ls);
    let jl = j.len() as int;
    assert(is_ascii_chars(t)) by {
        assert forall|k: int| 0 <= k < t.len() implies '\0' <= #[trigger] t[k] <= '\u{7f}' by {
            if k < jl {
                assert(t[k] == j[k]);
            }
        }
    }
    lemma_encode_ascii(t);
    lemma_encode_ascii(j);
    let bt = encode_utf8(t);
    assert(bt.len() == t.len());
    assert forall|k: int| 0 <= k < t.len() implies #[trigger] data[k] == t[k] as u8 by {
        assert(data[k] == bt[k]);
    }
    // The blank line is where the text ends.
    assert(data[jl] == 13 && data[jl + 1] == 10 && data[jl + 2] == 13 && data[jl + 3] == 10) by {
        assert(t[jl] == '\r');
        assert(t[jl + 1] == '\n');
        assert(t[jl + 2] == '\r');
        assert(t[jl + 3] == '\n');
    }
    assert forall|m: int| 0 <= m < jl implies !(#[trigger] data[m] == 13 && data[m + 1] == 10 && data[m
        + 2] == 13 && data[m + 3] == 10) by {
        assert(t[m] == j[m]);
        assert(data[m] == t[m] as u8);
        if data[m] == 13 {
            assert(j[m] == '\r');
            assert(m + 2 < jl && j[m + 2] != '\r');
            assert(t[m + 2] == j[m + 2]);
            assert(data[m + 2] == t[m + 2] as u8);
        }
    }
    lemma_find_blank_stop(data, 0, jl);
    // The header block decodes to the joined lines.
    assert(data.subrange(0, jl) =~= encode_utf8(j)) by {
        assert forall|k: int| 0 <= k < jl implies #[trigger] data.subrange(0, jl)[k] == encode_utf8(j)[k] by {
            assert(t[k] == j[k]);
        }
    }
    vstd::utf8::encode_utf8_valid_utf8(j);
    vstd::utf8::encode_utf8_decode_utf8(j);
    assert(head_text(data.subrange(0, jl)) == j);
    // The request line, the headers and the body.
    lemma_request_line_tokens(method, uri);
    assert(is_token(encode_utf8(method))) by {
        assert(is_ascii_chars(method)) by {
            assert forall|k: int| 0 <= k < method.len() implies '\0' <= #[trigger] method[k] <= '\u{7f}' by {
                assert(is_tchar_char(method[k]));
            }
        }
        lemma_encode_ascii(method);
        assert forall|k: int| 0 <= k < encode_utf8(method).len() implies is_tchar(
            #[trigger] encode_utf8(method)[k],
        ) by {
            assert(is_tchar_char(method[k]));
        }
    }
    assert forall|k: int| 0 <= k < hs.len() implies #[trigger] ls[k + 1] == bare_header_line(hs[k]) by {}
    lemma_request_headers_back(ls, hs, 1);
    assert(hs.subrange(0, 0) =~= Seq::<(Seq<char>, Seq<char>)>::empty());
    assert(data.subrange(jl + 4, data.len() as int) =~= body);
}

/// The simple reader's state after the lines `ls`, one after another.
pub open spec fn run_reader_lines(st: ReaderState, ls: Seq<Seq<char>>) -> ReaderState
    decreases ls.len(),
{
    if ls.len() == 0 {
        st
    } else {
        after_line(run_reader_lines(st, ls.drop_last()), ls.last())
    }
}

proof fn lemma_reader_append(st: ReaderState, a: Seq<Seq<char>>, b: Seq<Seq<char>>)
    ensures
        run_reader_lines(st, a + b) == run_reader_lines(run_reader_lines(st, a), b),
    decreases b.len(),
{
    if b.len() == 0 {
        assert(a + b =~= a);
    } else {
        lemma_reader_append(st, a, b.drop_last());
        assert((a + b).drop_last() =~= a + b.drop_last());
        assert((a + b).last() == b.last());
    }
}

proof fn lemma_reader_one(st: ReaderState, l: Seq<char>)
    ensures
        run_reader_lines(st, seq![l]) == after_line(st, l),
{
    assert(seq![l].drop_last() =~= Seq::<Seq<char>>::empty());
    assert(run_reader_lines(st, Seq::<Seq<char>>::empty()) == st);
    assert(seq![l].last() == l);
}

/// A lowercase name equal, ignoring ASCII case, to a text is that text
/// lowercased.
proof fn lemma_lowercase_eq_ignore_case(k: Seq<char>, t: Seq<char>)
    requires
        lower_chars(k) == k,
        eq_ignore_ascii_case(k, t),
    ensures
        k == lower_chars(t),
{
    assert forall|i: int| 0 <= i < k.len() implies k[i] == lower_chars(t)[i] by {
        assert(lower_chars(k)[i] == ascii_lower(k[i]));
    }
    assert(k =~= lower_chars(t));
}

/// Reading the header lines of a server's headers: each is stored as written,
/// and none of them frames the body.
proof fn lemma_reader_headers(st0: ReaderState, hs: Seq<(Seq<char>, Seq<char>)>, k: int)
    requires
        st0.step == ReadStep::HeaderLine,
        st0.headers == Seq::<(Seq<char>, Seq<char>)>::empty(),
        st0.content_length is None,
        !st0.chunked,
        forall|i: int| 0 <= i < hs.len() ==> is_header_name(#[trigger] hs[i].0) && visible_text(hs[i].1)
            && trimmed(hs[i].1),
        unique_keys(hs),
        !has_key(hs, "content-length"@),
        !has_key(hs, "transfer-encoding"@),
        0 <= k <= hs.len(),
    ensures
        run_reader_lines(st0, hs.map_values(|h: (Seq<char>, Seq<char>)| header_line_text(h)).subrange(0, k))
            == (ReaderState { headers: hs.subrange(0, k), ..st0 }),
    decreases k,
{
    let lines = hs.map_values(|h: (Seq<char>, Seq<char>)| header_line_text(h));
    reveal_strlit("Content-Length");
    reveal_strlit("content-length");
    reveal_strlit("Transfer-Encoding");
    reveal_strlit("transfer-encoding");
    assert(lower_chars("Content-Length"@) =~= "content-length"@);
    assert(lower_chars("Transfer-Encoding"@) =~= "transfer-encoding"@);
    if k == 0 {
        assert(lines.subrange(0, 0) =~= Seq::<Seq<char>>::empty());
        assert(hs.subrange(0, 0) =~= Seq::<(Seq<char>, Seq<char>)>::empty());
    } else {
        lemma_reader_headers(st0, hs, k - 1);
        assert(lines.subrange(0, k).drop_last() =~= lines.subrange(0, k - 1));
        let h = hs[k - 1];
        assert(is_header_name(h.0) && visible_text(h.1) && trimmed(h.1));
        let l = lines[k - 1];
        assert(lines.subrange(0, k).last() == l);
        reveal_strlit(": ");
        reveal_strlit("\r\n");
        assert(shown_text(h.1) == h.1);
        assert(l =~= h.0 + ": "@ + h.1 + "\r\n"@);
        assert(l[0] == h.0[0]);
        assert(is_tchar_char(h.0[0]));
        assert(l.len() > 0);
        assert(l != "\r\n"@);
        lemma_header_fields(h.0, h.1);
        // Neither framing header.
        if eq_ignore_ascii_case(h.0, "Content-Length"@) {
            lemma_lowercase_eq_ignore_case(h.0, "Content-Length"@);
            assert(hs[k - 1].0 == "content-length"@);
        }
        if eq_ignore_ascii_case(h.0, "Transfer-Encoding"@) {
            lemma_lowercase_eq_ignore_case(h.0, "Transfer-Encoding"@);
            assert(hs[k - 1].0 == "transfer-encoding"@);
        }
        let sub = hs.subrange(0, k - 1);
        assert(!has_key(sub, h.0)) by {
            if has_key(sub, h.0) {
                let j = choose|j: int| 0 <= j < sub.len() && (#[trigger] sub[j]).0 == h.0;
                assert(hs[j].0 == hs[k - 1].0);
            }
        }
        assert(insert_pair(sub, h.0, h.1) =~= hs.subrange(0, k));
    }
}

/// What the server writes, the simple clients read back. A
/// [`crate::wire::ResponseReader`] fed the head lines of a response that the
/// server serializes reads its status code, its headers as written (the added
/// `Content-Length` with them) and the body length; fed the body, it holds
/// exactly the body. This holds for headers with lowercase names and
/// visible-text values without surrounding white space, none of them
/// `content-length` or `transfer-encoding`.
pub proof fn law_simple_client_round_trip(code: u16, hs: Seq<(Seq<char>, Seq<char>)>, body: Seq<u8>)
    requires
        100 <= code <= 999,
        forall|i: int|
            0 <= i < hs.len() ==> is_header_name(#[trigger] hs[i].0) && visible_text(hs[i].1)
                && trimmed(hs[i].1),
        unique_keys(hs),
        !has_key(hs, "content-length"@),
        !has_key(hs, "transfer-encoding"@),
        body.len() <= usize::MAX,
    ensures
        ({
            let st = run_reader_lines(initial_state(false), response_head_lines(code, hs, body.len()));
            &&& st.status == code
            &&& st.headers == hs.push(("Content-Length"@, decimal_text(body.len())))
            &&& st.content_length == Some(body.len() as usize)
            &&& !st.chunked
            &&& st.step == ReadStep::FixedBody(body.len() as usize)
            &&& after_bytes(st, body) == (ReaderState { step: ReadStep::Done, body: body, ..st })
        }),
{
    let n = body.len();
    reveal_strlit("Content-Length: ");
    reveal_strlit("Content-Length");
    reveal_strlit("content-length");
    reveal_strlit("Transfer-Encoding");
    reveal_strlit("transfer-encoding");
    reveal_strlit(": ");
    reveal_strlit("\r\n");
    let d = decimal_text(n);
    lemma_decimal_readable(n);
    let sl = status_line_text(code);
    let hm = hs.map_values(|h: (Seq<char>, Seq<char>)| header_line_text(h));
    let cll = length_line_text(n);
    let ls = response_head_lines(code, hs, n);
    assert(ls =~= seq![sl] + hm + seq![cll] + seq!["\r\n"@]);
    // The status line.
    let init = initial_state(false);
    lemma_status_line(code);
    lemma_reader_one(init, sl);
    let s1 = ReaderState { step: ReadStep::HeaderLine, status: code, ..init };
    assert(run_reader_lines(init, seq![sl]) == s1);
    // The server's headers.
    lemma_reader_headers(s1, hs, hs.len() as int);
    assert(hm.subrange(0, hs.len() as int) =~= hm);
    assert(hs.subrange(0, hs.len() as int) =~= hs);
    let s2 = ReaderState { headers: hs, ..s1 };
    lemma_reader_append(init, seq![sl], hm);
    assert(run_reader_lines(init, seq![sl] + hm) == s2);
    // The length line.
    assert(cll =~= "Content-Length"@ + ": "@ + d + "\r\n"@);
    lemma_header_fields("Content-Length"@, d);
    assert(is_token_text("Content-Length"@));
    assert(cll[0] == 'C');
    assert(cll != "\r\n"@);
    assert(eq_ignore_ascii_case("Content-Length"@, "Content-Length"@));
    assert(!eq_ignore_ascii_case("Content-Length"@, "Transfer-Encoding"@));
    lemma_parse_decimal_text(n, usize::MAX as nat);
    assert(!has_key(hs, "Content-Length"@)) by {
        if has_key(hs, "Content-Length"@) {
            let j = choose|j: int| 0 <= j < hs.len() && (#[trigger] hs[j]).0 == "Content-Length"@;
            assert(is_header_name(hs[j].0));
            assert(lower_chars(hs[j].0)[0] == ascii_lower('C'));
        }
    }
    assert(insert_pair(hs, "Content-Length"@, d) =~= hs.push(("Content-Length"@, d)));
    lemma_reader_one(s2, cll);
    let s3 = ReaderState { headers: hs.push(("Content-Length"@, d)), content_length: Some(n as usize), ..s2 };
    assert(run_reader_lines(s2, seq![cll]) == s3);
    lemma_reader_append(init, seq![sl] + hm, seq![cll]);
    // The blank line.
    lemma_reader_one(s3, "\r\n"@);
    lemma_reader_append(init, seq![sl] + hm + seq![cll], seq!["\r\n"@]);
    assert(seq![sl] + hm + seq![cll] + seq!["\r\n"@] =~= ls);
}

/// The size line of a chunk of `n` bytes.
pub open spec fn chunk_size_line(n: nat) -> Seq<char> {
    hex_text(n) + "\r\n"@
}

/// Byte strings one after another.
pub open spec fn concat_bytes(cs: Seq<Seq<u8>>) -> Seq<u8>
    decreases cs.len(),
{
    if cs.len() == 0 {
        Seq::empty()
    } else {
        concat_bytes(cs.drop_last()) + cs.last()
    }
}

/// The strict reader's state after the chunks `cs`, each sent as its size
/// line, its bytes, and the two bytes that end it.
pub open spec fn run_client_chunks(st: ClientReadState, cs: Seq<Seq<u8>>) -> Result<ClientReadState, ErrorKind>
    decreases cs.len(),
{
    if cs.len() == 0 {
        Ok(st)
    } else {
        match run_client_chunks(st, cs.drop_last()) {
            Ok(s) => match client_after_line(s, chunk_size_line(cs.last().len())) {
                Ok(s1) => match client_after_bytes(s1, cs.last()) {
                    Ok(s2) => client_after_bytes(s2, seq![13u8, 10u8]),
                    Err(k) => Err(k),
                },
                Err(k) => Err(k),
            },
            Err(k) => Err(k),
        }
    }
}

/// The size on a chunk-size line reads back.
proof fn lemma_chunk_size_line(n: nat)
    requires
        n <= usize::MAX,
    ensures
        trim(chunk_size_line(n)) == hex_text(n),
        parse_unsigned(trim(chunk_size_line(n)), 16, usize::MAX as nat) == Some(n),
        trim(chunk_size_line(n)).len() > 0,
{
    reveal_strlit("\r\n");
    lemma_hex_text_value(n);
    let h = hex_text(n);
    let l = chunk_size_line(n);
    let m = h.len() as int;
    assert forall|j: int| 0 <= j < m implies !is_white_space(#[trigger] l[j]) by {
        assert(l[j] == h[j]);
        assert(('0' <= h[j] <= '9') || ('a' <= h[j] <= 'f'));
    }
    assert forall|j: int| m <= j < m + 2 implies is_white_space(#[trigger] l[j]) by {}
    lemma_skip_ws_stop(l, 0, 0);
    lemma_trim_end_stop(l, 0, m + 2, m);
    assert(trim(l) =~= h);
}

/// What chunked encoding carries, the strict reader gives back: from a
/// chunk-size step, the non-empty chunks `cs`, each sent as its lowercase
/// hexadecimal size line, its bytes and a line end, append their bytes to the
/// body in order; the last-chunk line `0` then leads to the trailer, and the
/// trailer line ends the body.
pub proof fn law_chunked_body(st: ClientReadState, cs: Seq<Seq<u8>>)
    requires
        st.step == ClientStep::ChunkSize,
        forall|i: int| 0 <= i < cs.len() ==> 0 < (#[trigger] cs[i]).len() <= usize::MAX,
    ensures
        run_client_chunks(st, cs) == Ok::<ClientReadState, ErrorKind>(
            ClientReadState { body: st.body + concat_bytes(cs), ..st },
        ),
        client_after_line(ClientReadState { body: st.body + concat_bytes(cs), ..st }, chunk_size_line(0))
            == Ok::<ClientReadState, ErrorKind>(
            ClientReadState { step: ClientStep::Trailer, body: st.body + concat_bytes(cs), ..st },
        ),
        forall|trailer: Seq<char>|
            client_after_line(
                ClientReadState { step: ClientStep::Trailer, body: st.body + concat_bytes(cs), ..st },
                trailer,
            ) == Ok::<ClientReadState, ErrorKind>(
                ClientReadState { step: ClientStep::Done, body: st.body + concat_bytes(cs), ..st },
            ),
    decreases cs.len(),
{
    lemma_chunk_size_line(0);
    if cs.len() == 0 {
        assert(st.body + concat_bytes(cs) =~= st.body);
    } else {
        let init = cs.drop_last();
        assert forall|i: int| 0 <= i < init.len() implies 0 < (#[trigger] init[i]).len() <= usize::MAX by {
            assert(init[i] == cs[i]);
        }
        law_chunked_body(st, init);
        let c = cs.last();
        assert(0 < cs[cs.len() - 1].len() <= usize::MAX);
        lemma_chunk_size_line(c.len());
        let s = ClientReadState { body: st.body + concat_bytes(init), ..st };
        let s1 = ClientReadState { step: ClientStep::ChunkData(c.len() as usize), ..s };
        assert(client_after_line(s, chunk_size_line(c.len())) == Ok::<ClientReadState, ErrorKind>(s1));
        assert(st.body + concat_bytes(cs) =~= st.body + concat_bytes(init) + c);
    }
}

/// The simple reader's state after the chunks `cs`, each sent as its size
/// line, its bytes, and the two bytes that end it.
pub open spec fn run_wire_chunks(st: ReaderState, cs: Seq<Seq<u8>>) -> ReaderState
    decreases cs.len(),
{
    if cs.len() == 0 {
        st
    } else {
        let s = run_wire_chunks(st, cs.drop_last());
        let s1 = after_line(s, chunk_size_line(cs.last().len()));
        after_bytes(after_bytes(s1, cs.last()), seq![13u8, 10u8])
    }
}

/// The simple reader reads chunked bodies as the chunks they carry: a size
/// line of `n` (lowercase hexadecimal, `n > 0`) makes it read exactly `n`
/// bytes next; so from a chunk-size step the non-empty chunks `cs`, each
/// sent as its size line, its bytes and a line end, append their bytes to
/// the body in order; the last-chunk line `0` then leads to the trailer,
/// and the trailer line ends the body.
pub proof fn law_wire_chunked_body(st: ReaderState, cs: Seq<Seq<u8>>)
    requires
        st.step == ReadStep::ChunkSize,
        forall|i: int| 0 <= i < cs.len() ==> 0 < (#[trigger] cs[i]).len() <= usize::MAX,
    ensures
        forall|n: nat|
            0 < n <= usize::MAX ==> (#[trigger] after_line(st, chunk_size_line(n))).step
                == ReadStep::ChunkData(n as usize),
        run_wire_chunks(st, cs) == (ReaderState { body: st.body + concat_bytes(cs), ..st }),
        after_line(ReaderState { body: st.body + concat_bytes(cs), ..st }, chunk_size_line(0))
            == (ReaderState { step: ReadStep::Trailer, body: st.body + concat_bytes(cs), ..st }),
        forall|trailer: Seq<char>|
            after_line(ReaderState { step: ReadStep::Trailer, body: st.body + concat_bytes(cs), ..st }, trailer)
                == (ReaderState { step: ReadStep::Done, body: st.body + concat_bytes(cs), ..st }),
    decreases cs.len(),
{
    reveal_strlit("\r\n");
    assert forall|n: nat| 0 < n <= usize::MAX implies (#[trigger] after_line(st, chunk_size_line(n))).step
        == ReadStep::ChunkData(n as usize) by {
        lemma_chunk_size_line(n);
        assert(chunk_size_line(n).len() > 0);
    }
    lemma_chunk_size_line(0);
    assert(chunk_size_line(0).len() > 0);
    if cs.len() == 0 {
        assert(st.body + concat_bytes(cs) =~= st.body);
    } else {
        let init = cs.drop_last();
        assert forall|i: int| 0 <= i < init.len() implies 0 < (#[trigger] init[i]).len() <= usize::MAX by {
            assert(init[i] == cs[i]);
        }
        law_wire_chunked_body(st, init);
        let c = cs.last();
        assert(0 < cs[cs.len() - 1].len() <= usize::MAX);
        lemma_chunk_size_line(c.len());
        assert(chunk_size_line(c.len()).len() > 0);
        assert(st.body + concat_bytes(cs) =~= st.body + concat_bytes(init) + c);
    }
}

} // verus!
