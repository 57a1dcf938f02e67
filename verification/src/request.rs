//! The server side of the wire format: telling when a request has fully
//! arrived, and parsing it into a [`RequestContext`].

use vstd::prelude::*;
use vstd::utf8::*;
use crate::text::{
    first_token, first_token_chars, second_token, second_token_chars, lines, lines_chars, trim,
    trim_chars, starts_with, strip_prefix_chars,
};
use crate::numbers::{parse_unsigned, parse_unsigned_chars};
use crate::headers::{Headers, HeaderList, insert_capped, insert_pair, unique_keys};
use crate::http_types::{
    Method, is_token, is_token_text, lower_chars, header_text_ok, lemma_lower_token, uri_parts, http_header_name_from_str,
    http_header_value_valid, http_parse_uri,
};
use crate::wire::header_fields;
use crate::wire::parse_header_line;
use crate::utf8::{chars_of, string_from_chars, string_from_utf8, concat_text, utf8_error_text};
use crate::url::{url_decode, decode_bytes};
use crate::errors::{ErrorKind, KodeBridgeError};

verus! {

/// A point in time (`std::time::Instant`), carried through as an opaque value.
#[verifier::external_type_specification]
#[verifier::external_body]
pub struct ExInstant(std::time::Instant);

/// `std::time::Instant::now`.
#[verifier::external_body]
pub(crate) fn now() -> (r: std::time::Instant) {
    std::time::Instant::now()
}

/// What `String::from_utf8_lossy` makes of a byte string.
pub uninterp spec fn lossy_utf8(b: Seq<u8>) -> Seq<char>;

/// `String::from_utf8_lossy`: invalid sequences become U+FFFD; valid UTF-8 is
/// decoded unchanged.
#[verifier::external_body]
fn utf8_lossy(b: &[u8]) -> (r: String)
    ensures
        r@ == lossy_utf8(b@),
        valid_utf8(b@) ==> r@ == decode_utf8(b@),
{
    String::from_utf8_lossy(b).into_owned()
}

/// The text of a header block: its decoding when it is valid UTF-8, else
/// what `String::from_utf8_lossy` makes of it.
pub open spec fn head_text(b: Seq<u8>) -> Seq<char> {
    if valid_utf8(b) {
        decode_utf8(b)
    } else {
        lossy_utf8(b)
    }
}

/// Position of the first `\r\n\r\n` at or after `i`.
pub open spec fn find_blank_line(data: Seq<u8>, i: int) -> Option<int>
    decreases data.len() - i,
{
    if i < 0 || i + 4 > data.len() {
        None
    } else if data[i] == 13 && data[i + 1] == 10 && data[i + 2] == 13 && data[i + 3] == 10 {
        Some(i)
    } else {
        find_blank_line(data, i + 1)
    }
}

pub proof fn lemma_find_blank_line(data: Seq<u8>, i: int)
    requires
        0 <= i,
    ensures
        find_blank_line(data, i) matches Some(k) ==> i <= k && k + 4 <= data.len() && data[k] == 13
            && data[k + 1] == 10 && data[k + 2] == 13 && data[k + 3] == 10,
    decreases data.len() - i,
{
    if i + 4 <= data.len() && !(data[i] == 13 && data[i + 1] == 10 && data[i + 2] == 13 && data[i
        + 3] == 10) {
        lemma_find_blank_line(data, i + 1);
    }
}

/// Position of the blank line (`\r\n\r\n`) that ends the header block.
pub fn find_header_end(data: &[u8]) -> (r: Option<usize>)
    ensures
        match r {
            Some(a) => find_blank_line(data@, 0) == Some(a as int),
            None => find_blank_line(data@, 0) is None,
        },
{
    if data.len() < 4 {
        return None;
    }
    let mut i: usize = 0;
    while i <= data.len() - 4
        invariant
            data@.len() >= 4,
            i <= data@.len() - 3,
            find_blank_line(data@, i as int) == find_blank_line(data@, 0),
        decreases data@.len() - i,
    {
        if data[i] == 13 && data[i + 1] == 10 && data[i + 2] == 13 && data[i + 3] == 10 {
            return Some(i);
        }
        i = i + 1;
    }
    None
}

/// The first `Content-Length:` (or `content-length:`) line among `ls[i..]`
/// whose trimmed remainder is a valid length.
pub open spec fn content_length_in(ls: Seq<Seq<char>>, i: int) -> Option<usize>
    decreases ls.len() - i,
{
    if i < 0 || i >= ls.len() {
        None
    } else {
        let rest = if starts_with(ls[i], "Content-Length:"@) {
            Some(ls[i].subrange("Content-Length:"@.len() as int, ls[i].len() as int))
        } else if starts_with(ls[i], "content-length:"@) {
            Some(ls[i].subrange("content-length:"@.len() as int, ls[i].len() as int))
        } else {
            None
        };
        match rest {
            Some(v) => match parse_unsigned(trim(v), 10, usize::MAX as nat) {
                Some(n) => Some(n as usize),
                None => content_length_in(ls, i + 1),
            },
            None => content_length_in(ls, i + 1),
        }
    }
}

/// Reads the request body length from a header block: the first line that
/// starts with `Content-Length:` or `content-length:` and carries a valid
/// length.
pub fn extract_content_length(headers: &str) -> (r: Option<usize>)
    ensures
        r == content_length_in(lines(headers@), 0),
{
    let cs = chars_of(headers);
    let ls = lines_chars(cs.as_slice());
    let ghost lv = ls@.map_values(|l: Vec<char>| l@);
    let upper: Vec<char> = chars_of("Content-Length:");
    let lower: Vec<char> = chars_of("content-length:");
    let mut i: usize = 0;
    while i < ls.len()
        invariant
            i <= ls@.len(),
            lv == ls@.map_values(|l: Vec<char>| l@),
            lv == lines(headers@),
            upper@ == "Content-Length:"@,
            lower@ == "content-length:"@,
            content_length_in(lv, i as int) == content_length_in(lv, 0),
        decreases ls@.len() - i,
    {
        let line = &ls[i];
        assert(line@ == lv[i as int]);
        let rest = match strip_prefix_chars(line.as_slice(), upper.as_slice()) {
            Some(r) => Some(r),
            None => strip_prefix_chars(line.as_slice(), lower.as_slice()),
        };
        match rest {
            Some(v) => {
                let t = trim_chars(v.as_slice());
                match parse_unsigned_chars(t.as_slice(), 10, usize::MAX as u64) {
                    Some(n) => {
                        return Some(n as usize);
                    },
                    None => {},
                }
            },
            None => {},
        }
        i = i + 1;
    }
    None
}

/// Whether the bytes read so far hold a complete request: the header block is
/// closed and, when a content length is announced, the body has arrived.
/// Once the peer has closed the connection whatever arrived is taken.
pub open spec fn request_complete(data: Seq<u8>) -> bool {
    match find_blank_line(data, 0) {
        Some(he) => match content_length_in(lines(head_text(data.subrange(0, he))), 0) {
            Some(n) => data.len() >= he + 4 + n,
            None => true,
        },
        None => false,
    }
}

/// The blank line found in a text is found again in any prefix that still
/// holds it.
pub proof fn lemma_find_blank_line_prefix(data: Seq<u8>, i: int, k: int)
    requires
        0 <= i,
        find_blank_line(data, i) is Some,
        find_blank_line(data, i)->0 + 4 <= k <= data.len(),
    ensures
        find_blank_line(data.subrange(0, k), i) == find_blank_line(data, i),
    decreases data.len() - i,
{
    let d = data.subrange(0, k);
    lemma_find_blank_line(data, i);
    if !(data[i] == 13 && data[i + 1] == 10 && data[i + 2] == 13 && data[i + 3] == 10) {
        lemma_find_blank_line_prefix(data, i + 1, k);
    } else {
        assert(d[i] == data[i] && d[i + 1] == data[i + 1] && d[i + 2] == data[i + 2] && d[i + 3] == data[i + 3]);
    }
}

/// A request being read is complete exactly when its head has ended and all
/// the body bytes its `Content-Length` announces have arrived after the
/// blank line: with the head ending at `he` and `n` announced, the request
/// is complete once `he + 4 + n` bytes are in, not one byte earlier, and it
/// stays complete as more bytes arrive. Without an announced length the
/// blank line completes it; without a blank line it is never complete.
pub proof fn law_request_completion(data: Seq<u8>)
    ensures
        find_blank_line(data, 0) is None ==> !request_complete(data),
        match find_blank_line(data, 0) {
            Some(he) => match content_length_in(lines(head_text(data.subrange(0, he))), 0) {
                Some(n) => forall|k: int|
                    he + 4 <= k <= data.len() ==> (request_complete(#[trigger] data.subrange(0, k))
                        <==> k - (he + 4) >= n),
                None => forall|k: int|
                    he + 4 <= k <= data.len() ==> request_complete(#[trigger] data.subrange(0, k)),
            },
            None => true,
        },
{
    lemma_find_blank_line(data, 0);
    if let Some(he) = find_blank_line(data, 0) {
        let cl = content_length_in(lines(head_text(data.subrange(0, he))), 0);
        assert forall|k: int| he + 4 <= k <= data.len() implies (request_complete(
            #[trigger] data.subrange(0, k),
        ) <==> match cl {
            Some(n) => k - (he + 4) >= n,
            None => true,
        }) by {
            let d = data.subrange(0, k);
            lemma_find_blank_line_prefix(data, 0, k);
            assert(d.subrange(0, he) =~= data.subrange(0, he));
            assert(d.len() == k);
        }
    }
}

/// Whether a request read so far is complete (see [`request_complete`]).
pub fn is_request_complete(data: &[u8]) -> (r: bool)
    ensures
        r == request_complete(data@),
{
    match find_header_end(data) {
        Some(he) => {
            proof {
                lemma_find_blank_line(data@, 0);
                assert(find_blank_line(data@, 0) == Some(he as int));
                assert(he + 4 <= data@.len());
            }
            let head = utf8_lossy(slice_prefix(data, he).as_slice());
            match extract_content_length(head.as_str()) {
                Some(n) => {
                    let len = data.len();
                    let body_start = he + 4;
                    len - body_start >= n
                },
                None => true,
            }
        },
        None => false,
    }
}

/// A copy of `data[..n]`.
pub fn slice_prefix(data: &[u8], n: usize) -> (r: Vec<u8>)
    requires
        n <= data@.len(),
    ensures
        r@ == data@.subrange(0, n as int),
{
    slice_range(data, 0, n)
}

/// A copy of `data[lo..hi]`.
pub fn slice_range(data: &[u8], lo: usize, hi: usize) -> (r: Vec<u8>)
    requires
        lo <= hi <= data@.len(),
    ensures
        r@ == data@.subrange(lo as int, hi as int),
{
    let mut out: Vec<u8> = Vec::new();
    let mut k = lo;
    while k < hi
        invariant
            lo <= k <= hi <= data@.len(),
            out@ == data@.subrange(lo as int, k as int),
        decreases hi - k,
    {
        out.push(data[k]);
        k = k + 1;
    }
    out
}

/// The parts of a parsed request.
pub struct RequestParts {
    pub method: Seq<char>,
    pub target: Seq<char>,
    pub path: Seq<char>,
    pub query: Option<Seq<char>>,
    pub headers: Seq<(Seq<char>, Seq<char>)>,
    pub body: Seq<u8>,
}

/// The headers that the lines `ls[i..]` add to `acc`: each `name: value`
/// line with a valid name and value is inserted (name lowercased); other
/// lines are skipped.
pub open spec fn request_headers(
    ls: Seq<Seq<char>>,
    i: int,
    acc: Seq<(Seq<char>, Seq<char>)>,
) -> Seq<(Seq<char>, Seq<char>)>
    decreases ls.len() - i,
{
    if i < 0 || i >= ls.len() {
        acc
    } else {
        let next = match header_fields(ls[i]) {
            Some((k, v)) => if is_token_text(k) && k.len() <= 65535 && header_text_ok(v) {
                insert_capped(acc, lower_chars(k), v)
            } else {
                acc
            },
            None => acc,
        };
        request_headers(ls, i + 1, next)
    }
}

/// How a request is parsed: it must fit `max_size` bytes, have a header block
/// of at most `max_header_size` bytes closed by a blank line, and a request
/// line whose first two tokens are a valid method and URI. The body is what
/// follows the blank line.
pub open spec fn parse_request_spec(data: Seq<u8>, max_size: nat, max_header_size: nat) -> Option<
    RequestParts,
> {
    if data.len() > max_size {
        None
    } else {
        match find_blank_line(data, 0) {
            None => None,
            Some(he) => if he > max_header_size {
                None
            } else {
                let ls = lines(head_text(data.subrange(0, he)));
                if ls.len() == 0 {
                    None
                } else {
                    match (first_token(ls[0]), second_token(ls[0])) {
                        (Some(m), Some(u)) => if !is_token(encode_utf8(m)) {
                            None
                        } else {
                            match uri_parts(u) {
                                Err(_) => None,
                                Ok((p, q)) => Some(
                                    RequestParts {
                                        method: m,
                                        target: u,
                                        path: p,
                                        query: q,
                                        headers: request_headers(ls, 1, Seq::empty()),
                                        body: data.subrange(he + 4, data.len() as int),
                                    },
                                ),
                            }
                        },
                        _ => None,
                    }
                }
            },
        }
    }
}

/// The message of the error [`parse_request`] gives where
/// [`parse_request_spec`] has no result: the first check that fails.
pub open spec fn parse_request_error(data: Seq<u8>, max_size: nat, max_header_size: nat) -> Seq<char> {
    if data.len() > max_size {
        "Request too large"@
    } else {
        match find_blank_line(data, 0) {
            None => "Invalid HTTP request: no header end found"@,
            Some(he) => if he > max_header_size {
                "Request headers too large"@
            } else {
                let ls = lines(head_text(data.subrange(0, he)));
                if ls.len() == 0 {
                    "Invalid HTTP request: no request line"@
                } else if first_token(ls[0]) is None {
                    "Invalid HTTP request: no method"@
                } else if second_token(ls[0]) is None {
                    "Invalid HTTP request: no URI"@
                } else if !is_token(encode_utf8(first_token(ls[0])->0)) {
                    "Invalid HTTP method: "@ + "invalid HTTP method"@
                } else {
                    "Invalid URI: "@ + match uri_parts(second_token(ls[0])->0) {
                        Err(t) => t,
                        Ok(_) => Seq::empty(),
                    }
                }
            },
        }
    }
}

/// Information about the connection a request arrived on.
#[derive(Debug, Clone, Copy)]
pub struct ClientInfo {
    /// Connection ID for tracking.
    pub connection_id: u64,
    /// When the connection was established.
    pub connected_at: std::time::Instant,
}

/// A parsed request, as handlers see it.
#[derive(Debug)]
pub struct RequestContext {
    /// The request method.
    pub method: Method,
    /// The request target as sent.
    pub uri: String,
    /// The path of the request target.
    pub path: String,
    /// The query of the request target, if any.
    pub query: Option<String>,
    /// The request headers (names lowercased).
    pub headers: Headers,
    /// The request body.
    pub body: Vec<u8>,
    /// The connection the request arrived on.
    pub client_info: ClientInfo,
    /// When the request was parsed.
    pub timestamp: std::time::Instant,
    /// Values captured by `:name` segments of the matched route.
    pub path_params: Vec<(String, String)>,
}

/// The lines that follow the request line, folded into headers.
fn collect_request_headers(ls: &Vec<Vec<char>>) -> (r: Headers)
    ensures
        r.wf(),
        r@ == request_headers(ls@.map_values(|l: Vec<char>| l@), 1, Seq::empty()),
{
    let ghost lv = ls@.map_values(|l: Vec<char>| l@);
    let mut headers = Headers::new();
    let mut i: usize = 1;
    if ls.len() == 0 {
        return headers;
    }
    while i < ls.len()
        invariant
            1 <= i <= ls@.len(),
            lv == ls@.map_values(|l: Vec<char>| l@),
            headers.wf(),
            request_headers(lv, i as int, headers@) == request_headers(lv, 1, Seq::empty()),
        decreases ls@.len() - i,
    {
        let line = &ls[i];
        assert(line@ == lv[i as int]);
        match parse_header_line(line.as_slice()) {
            Some((k, v)) => {
                let ks = string_from_chars(k.as_slice());
                let vs = string_from_chars(v.as_slice());
                let name = http_header_name_from_str(ks.as_str());
                let value_ok = http_header_value_valid(vs.as_str());
                match name {
                    Some(n) => {
                        if value_ok {
                            proof {
                                lemma_lower_token(ks@);
                            }
                            headers.insert(n.as_str(), vs.as_str());
                        }
                    },
                    None => {},
                }
            },
            None => {},
        }
        i = i + 1;
    }
    headers
}

/// A request context holds the parsed parts of a request that arrived on the
/// connection `info`, with no path parameters yet.
pub open spec fn context_of(ctx: RequestContext, p: RequestParts, info: ClientInfo) -> bool {
    &&& ctx.method@ == p.method
    &&& ctx.uri@ == p.target
    &&& ctx.path@ == p.path
    &&& match (ctx.query, p.query) {
        (Some(a), Some(b)) => a@ == b,
        (None, None) => true,
        _ => false,
    }
    &&& ctx.headers.wf()
    &&& ctx.headers@ == p.headers
    &&& ctx.body@ == p.body
    &&& ctx.client_info.connection_id == info.connection_id
    &&& ctx.client_info.connected_at == info.connected_at
    &&& ctx.path_params@.len() == 0
}

/// Parses raw request bytes (see [`parse_request_spec`]); every failure is a
/// validation error.
pub fn parse_request(data: &[u8], client_info: &ClientInfo, max_size: usize, max_header_size: usize) -> (r:
    Result<RequestContext, KodeBridgeError>)
    ensures
        match (r, parse_request_spec(data@, max_size as nat, max_header_size as nat)) {
            (Ok(ctx), Some(p)) => context_of(ctx, p, *client_info),
            (Err(e), None) => e.kind == ErrorKind::Validation && e.message@ == parse_request_error(
                data@,
                max_size as nat,
                max_header_size as nat,
            ),
            _ => false,
        },
{
    if data.len() > max_size {
        return Err(KodeBridgeError::new(ErrorKind::Validation, "Request too large"));
    }
    let he = match find_header_end(data) {
        Some(he) => he,
        None => {
            return Err(
                KodeBridgeError::new(
                    ErrorKind::Validation,
                    "Invalid HTTP request: no header end found",
                ),
            );
        },
    };
    proof {
        lemma_find_blank_line(data@, 0);
    }
    if he > max_header_size {
        return Err(KodeBridgeError::new(ErrorKind::Validation, "Request headers too large"));
    }
    let head = utf8_lossy(slice_prefix(data, he).as_slice());
    let head_chars = chars_of(head.as_str());
    let ls = lines_chars(head_chars.as_slice());
    if ls.len() == 0 {
        return Err(
            KodeBridgeError::new(ErrorKind::Validation, "Invalid HTTP request: no request line"),
        );
    }
    let request_line = &ls[0];
    let method_text = match first_token_chars(request_line.as_slice()) {
        Some(m) => m,
        None => {
            return Err(
                KodeBridgeError::new(ErrorKind::Validation, "Invalid HTTP request: no method"),
            );
        },
    };
    let uri_text = match second_token_chars(request_line.as_slice()) {
        Some(u) => u,
        None => {
            return Err(KodeBridgeError::new(ErrorKind::Validation, "Invalid HTTP request: no URI"));
        },
    };
    let method_string = string_from_chars(method_text.as_slice());
    let method = match Method::try_parse(method_string.as_str()) {
        Ok(m) => m,
        Err(t) => {
            return Err(
                KodeBridgeError {
                    kind: ErrorKind::Validation,
                    message: concat_text("Invalid HTTP method: ", t.as_str()),
                },
            );
        },
    };
    let uri = string_from_chars(uri_text.as_slice());
    let (path, query) = match http_parse_uri(uri.as_str()) {
        Ok(pq) => pq,
        Err(t) => {
            return Err(
                KodeBridgeError {
                    kind: ErrorKind::Validation,
                    message: concat_text("Invalid URI: ", t.as_str()),
                },
            );
        },
    };
    let headers = collect_request_headers(&ls);
    let body = slice_range(data, he + 4, data.len());
    Ok(
        RequestContext {
            method,
            uri,
            path,
            query,
            headers,
            body,
            client_info: ClientInfo {
                connection_id: client_info.connection_id,
                connected_at: client_info.connected_at,
            },
            timestamp: now(),
            path_params: Vec::new(),
        },
    )
}

/// The query's `key=value` pairs, each side URL-decoded, as a map: a later
/// pair with the same key replaces the value of the earlier one. Pairs that
/// fail to decode are skipped; a piece without `=` gives an empty value; text
/// after a second `=` is ignored.
pub open spec fn query_pairs(pieces: Seq<Seq<u8>>) -> Seq<(Seq<char>, Seq<char>)>
    decreases pieces.len(),
{
    if pieces.len() == 0 {
        Seq::empty()
    } else {
        let rest = query_pairs(pieces.drop_last());
        let piece = pieces.last();
        let parts = split_bytes(piece, 0x3d);
        let key = url_decode(parts[0]);
        let value = if parts.len() > 1 {
            url_decode(parts[1])
        } else {
            Some(Seq::<char>::empty())
        };
        match (key, value) {
            (Some(k), Some(v)) => insert_pair(rest, k, v),
            _ => rest,
        }
    }
}

/// `split(sep)` on bytes: the pieces between separators (always at least one).
pub open spec fn split_bytes(s: Seq<u8>, sep: u8) -> Seq<Seq<u8>>
    decreases s.len(),
{
    if s.len() == 0 {
        seq![Seq::<u8>::empty()]
    } else {
        let init = split_bytes(s.drop_last(), sep);
        if s.last() == sep {
            init.push(Seq::<u8>::empty())
        } else {
            init.update(init.len() - 1, init.last().push(s.last()))
        }
    }
}

/// Text without the separator is one piece.
pub proof fn lemma_split_bytes_single(x: Seq<u8>, sep: u8)
    requires
        forall|j: int| 0 <= j < x.len() ==> x[j] != sep,
    ensures
        split_bytes(x, sep) == seq![x],
    decreases x.len(),
{
    if x.len() == 0 {
        assert(x =~= Seq::<u8>::empty());
    } else {
        let x0 = x.drop_last();
        assert forall|j: int| 0 <= j < x0.len() implies x0[j] != sep by {
            assert(x0[j] == x[j]);
        }
        lemma_split_bytes_single(x0, sep);
        assert(x[x.len() - 1] != sep);
        assert(x0.push(x.last()) =~= x);
        assert(seq![x0].update(0, x0.push(x.last())) =~= seq![x]);
    }
}

/// A separator followed by text without one adds that text as a last piece.
pub proof fn lemma_split_bytes_append(a: Seq<u8>, b: Seq<u8>, sep: u8)
    requires
        forall|j: int| 0 <= j < b.len() ==> b[j] != sep,
    ensures
        split_bytes(a + seq![sep] + b, sep) == split_bytes(a, sep).push(b),
    decreases b.len(),
{
    lemma_split_bytes_nonempty(a, sep);
    if b.len() == 0 {
        let whole = a + seq![sep] + b;
        assert(whole.drop_last() =~= a);
        assert(whole.len() > 0 && whole.last() == sep);
        assert(b =~= Seq::<u8>::empty());
    } else {
        let b0 = b.drop_last();
        assert forall|j: int| 0 <= j < b0.len() implies b0[j] != sep by {
            assert(b0[j] == b[j]);
        }
        lemma_split_bytes_append(a, b0, sep);
        let whole = a + seq![sep] + b;
        assert(whole.drop_last() =~= a + seq![sep] + b0);
        assert(b[b.len() - 1] != sep);
        assert(whole.last() == b.last());
        assert(b0.push(b.last()) =~= b);
        let init = split_bytes(a, sep).push(b0);
        assert(init.last() == b0);
        assert(init.update(init.len() - 1, init.last().push(whole.last())) =~= split_bytes(a, sep).push(b));
    }
}

/// A query parameter `key=value` is read as the URL decoding of its key
/// mapped to the URL decoding of its value: appended to any query after an
/// `&`, it adds that pair (replacing an earlier value of the same decoded
/// key), and on its own it is the only pair. `key` and `value` hold neither
/// `&` nor `=`, and both decode.
pub proof fn law_query_pair_decoded(q: Seq<u8>, key: Seq<u8>, value: Seq<u8>)
    requires
        forall|j: int| 0 <= j < key.len() ==> key[j] != 0x26 && key[j] != 0x3d,
        forall|j: int| 0 <= j < value.len() ==> value[j] != 0x26 && value[j] != 0x3d,
        url_decode(key) is Some,
        url_decode(value) is Some,
    ensures
        query_pairs(split_bytes(q + seq![0x26u8] + key + seq![0x3du8] + value, 0x26)) == insert_pair(
            query_pairs(split_bytes(q, 0x26)),
            url_decode(key)->0,
            url_decode(value)->0,
        ),
        query_pairs(split_bytes(key + seq![0x3du8] + value, 0x26)) == seq![
            (url_decode(key)->0, url_decode(value)->0),
        ],
{
    let piece = key + seq![0x3du8] + value;
    assert forall|j: int| 0 <= j < piece.len() implies piece[j] != 0x26u8 by {
        if j < key.len() {
            assert(piece[j] == key[j]);
        } else if j > key.len() {
            assert(piece[j] == value[j - key.len() - 1]);
        }
    }
    lemma_split_bytes_single(key, 0x3d);
    lemma_split_bytes_append(key, value, 0x3d);
    assert(split_bytes(piece, 0x3d) =~= seq![key, value]);
    lemma_split_bytes_append(q, piece, 0x26);
    assert(q + seq![0x26u8] + key + seq![0x3du8] + value =~= q + seq![0x26u8] + piece);
    let ps = split_bytes(q, 0x26).push(piece);
    assert(ps.drop_last() =~= split_bytes(q, 0x26));
    lemma_split_bytes_single(piece, 0x26);
    assert(seq![piece].drop_last() =~= Seq::<Seq<u8>>::empty());
    assert(seq![piece].last() == piece);
    let parts = split_bytes(piece, 0x3d);
    assert(parts.len() == 2 && parts[0] == key && parts[1] == value);
    assert(ps.last() == piece);
    assert(query_pairs(Seq::<Seq<u8>>::empty()) == Seq::<(Seq<char>, Seq<char>)>::empty());
    assert(query_pairs(seq![piece]) == insert_pair(
        query_pairs(seq![piece].drop_last()),
        url_decode(key)->0,
        url_decode(value)->0,
    ));
    assert(insert_pair(Seq::<(Seq<char>, Seq<char>)>::empty(), url_decode(key)->0, url_decode(value)->0)
        =~= seq![(url_decode(key)->0, url_decode(value)->0)]);
}

pub proof fn lemma_split_bytes_nonempty(s: Seq<u8>, sep: u8)
    ensures
        split_bytes(s, sep).len() >= 1,
    decreases s.len(),
{
    if s.len() > 0 {
        lemma_split_bytes_nonempty(s.drop_last(), sep);
    }
}

/// Splits `s` at every `sep`.
pub fn split_at_byte(s: &[u8], sep: u8) -> (r: Vec<Vec<u8>>)
    ensures
        r@.map_values(|p: Vec<u8>| p@) == split_bytes(s@, sep),
{
    let mut pieces: Vec<Vec<u8>> = Vec::new();
    let mut cur: Vec<u8> = Vec::new();
    let mut i: usize = 0;
    while i < s.len()
        invariant
            i <= s@.len(),
            pieces@.map_values(|p: Vec<u8>| p@).push(cur@) == split_bytes(s@.subrange(0, i as int), sep),
        decreases s@.len() - i,
    {
        let ghost prefix = s@.subrange(0, i as int);
        let ghost next = s@.subrange(0, i + 1);
        assert(next.drop_last() =~= prefix);
        proof {
            lemma_split_bytes_nonempty(prefix, sep);
        }
        if s[i] == sep {
            let done = cur;
            pieces.push(done);
            cur = Vec::new();
            assert(pieces@.map_values(|p: Vec<u8>| p@).push(cur@) =~= split_bytes(next, sep));
        } else {
            let ghost before = pieces@.map_values(|p: Vec<u8>| p@).push(cur@);
            cur.push(s[i]);
            assert(pieces@.map_values(|p: Vec<u8>| p@).push(cur@) =~= before.update(
                before.len() - 1,
                before.last().push(s@[i as int]),
            ));
        }
        i = i + 1;
    }
    assert(s@.subrange(0, s@.len() as int) =~= s@);
    pieces.push(cur);
    pieces
}

impl RequestContext {
    /// The body as UTF-8 text; a validation error when it is not UTF-8.
    pub fn text(&self) -> (r: Result<String, KodeBridgeError>)
        ensures
            match r {
                Ok(s) => valid_utf8(self.body@) && s@ == decode_utf8(self.body@),
                Err(e) => !valid_utf8(self.body@) && e.kind == ErrorKind::Validation && e.message@
                    == "Invalid UTF-8 in request body: "@ + utf8_error_text(self.body@),
            },
    {
        let mut copy: Vec<u8> = Vec::new();
        crate::wire::append_bytes(&mut copy, self.body.as_slice());
        assert(copy@ =~= self.body@);
        match string_from_utf8(copy) {
            Ok(s) => Ok(s),
            Err(t) => Err(
                KodeBridgeError {
                    kind: ErrorKind::Validation,
                    message: concat_text("Invalid UTF-8 in request body: ", t.as_str()),
                },
            ),
        }
    }

    /// The decoded query parameters (see [`query_pairs`]); empty without a
    /// query. Keys are unique.
    pub fn query_params(&self) -> (r: Vec<(String, String)>)
        ensures
            r@.map_values(|p: (String, String)| (p.0@, p.1@)) == match self.query {
                Some(q) => query_pairs(split_bytes(encode_utf8(q@), 0x26)),
                None => Seq::empty(),
            },
            unique_keys(r@.map_values(|p: (String, String)| (p.0@, p.1@))),
    {
        let mut out = HeaderList::new();
        match &self.query {
            None => {},
            Some(q) => {
                let pieces = split_at_byte(q.as_str().as_bytes(), 0x26);
                let ghost pv = pieces@.map_values(|p: Vec<u8>| p@);
                let mut i: usize = 0;
                while i < pieces.len()
                    invariant
                        i <= pieces@.len(),
                        pv == pieces@.map_values(|p: Vec<u8>| p@),
                        out.wf(),
                        out@ == query_pairs(pv.subrange(0, i as int)),
                    decreases pieces@.len() - i,
                {
                    assert(pv.subrange(0, i + 1).drop_last() =~= pv.subrange(0, i as int));
                    let piece = &pieces[i];
                    assert(piece@ == pv[i as int]);
                    let parts = split_at_byte(piece.as_slice(), 0x3d);
                    proof {
                        lemma_split_bytes_nonempty(piece@, 0x3d);
                    }
                    let key = decode_bytes(parts[0].as_slice());
                    let value = if parts.len() > 1 {
                        decode_bytes(parts[1].as_slice())
                    } else {
                        Ok(String::new())
                    };
                    match (key, value) {
                        (Ok(k), Ok(v)) => {
                            out.insert(k, v);
                        },
                        _ => {},
                    }
                    i = i + 1;
                }
                assert(pv.subrange(0, pv.len() as int) =~= pv);
            },
        }
        out.into_pairs()
    }

    /// The values captured by `:name` route segments.
    pub fn path_params(&self) -> (r: &Vec<(String, String)>)
        ensures
            r == &self.path_params,
    {
        &self.path_params
    }
}

} // verus!
