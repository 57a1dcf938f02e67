//! Client-side HTTP messages: the request builder used by the pooled client,
//! and the response type with its accessors.

use vstd::prelude::*;
use vstd::utf8::*;
use vstd::string::StringSliceAdditionalSpecFns;
use crate::headers::{Headers, insert_capped, lookup};
use crate::http_types::{
    Method, StatusCode, is_token, is_header_name, header_text_ok, lemma_plain_name,
    lemma_printable_text,
};
use crate::numbers::{decimal, decimal_text, decimal_string, lemma_decimal_digits, parse_unsigned, parse_unsigned_chars};
use crate::response::{header_lines, visible_bytes, all_visible_ascii};
use crate::utf8::{chars_of, string_from_utf8, concat_text};
use crate::wire::append_bytes;
use crate::errors::{ErrorKind, KodeBridgeError};
use crate::json::{json_slice_error, parse_json_slice};

verus! {

/// HTTP protocol versions.
#[derive(Debug, Clone, Copy, PartialEq, Eq, Structural)]
pub enum Version {
    Http09,
    Http10,
    Http11,
    Http2,
    Http3,
}

/// A response received by a client.
#[derive(Debug)]
pub struct Response {
    status: StatusCode,
    version: Version,
    headers: Headers,
    body: Vec<u8>,
}

/// Whether text is all visible ASCII (or tab), so that
/// `HeaderValue::to_str` accepts it.
pub open spec fn visible_text(v: Seq<char>) -> bool {
    visible_bytes(encode_utf8(v))
}

/// The value of header `name` as `HeaderValue::to_str` gives it: present and
/// all visible ASCII.
pub open spec fn header_text(hs: Seq<(Seq<char>, Seq<char>)>, name: Seq<char>) -> Option<Seq<char>> {
    match lookup(hs, name) {
        Some(v) => if visible_text(v) {
            Some(v)
        } else {
            None
        },
        None => None,
    }
}

/// A header value as `to_str().unwrap_or("")` shows it.
pub open spec fn shown_text(v: Seq<char>) -> Seq<char> {
    if visible_text(v) {
        v
    } else {
        Seq::empty()
    }
}

fn visible_ascii_text(s: &str) -> (r: bool)
    ensures
        r == visible_text(s@),
{
    all_visible_ascii(s.as_bytes())
}

/// The value of header `name` (a lowercase header name) when present and
/// all visible ASCII.
pub(crate) fn header_text_in(headers: &Headers, name: &str) -> (r: Option<String>)
    requires
        headers.wf(),
        is_header_name(name@),
    ensures
        match (r, header_text(headers@, name@)) {
            (Some(v), Some(t)) => v@ == t,
            (None, None) => true,
            _ => false,
        },
{
    match headers.get(name) {
        Some(v) => {
            if visible_ascii_text(v.as_str()) {
                Some(v)
            } else {
                None
            }
        },
        None => None,
    }
}

impl Response {
    /// The status code.
    pub closed spec fn spec_status(&self) -> StatusCode {
        self.status
    }

    /// The protocol version.
    pub closed spec fn spec_version(&self) -> Version {
        self.version
    }

    /// The headers.
    pub closed spec fn spec_headers(&self) -> Seq<(Seq<char>, Seq<char>)> {
        self.headers@
    }

    /// The body.
    pub closed spec fn spec_body(&self) -> Seq<u8> {
        self.body@
    }

    /// Internal consistency.
    pub closed spec fn wf(&self) -> bool {
        self.headers.wf() && self.status.wf()
    }

    /// A response from its parts.
    pub fn new(status: StatusCode, version: Version, headers: Headers, body: Vec<u8>) -> (r: Response)
        requires
            status.wf(),
            headers.wf(),
        ensures
            r.wf(),
            r.spec_status() == status,
            r.spec_version() == version,
            r.spec_headers() == headers@,
            r.spec_body() == body@,
    {
        Response { status, version, headers, body }
    }

    /// The status code.
    pub fn status(&self) -> (r: StatusCode)
        ensures
            r == self.spec_status(),
    {
        self.status
    }

    /// The status code as a number.
    pub fn status_code(&self) -> (r: u16)
        ensures
            r == self.spec_status()@,
    {
        self.status.as_u16()
    }

    /// The protocol version.
    pub fn version(&self) -> (r: Version)
        ensures
            r == self.spec_version(),
    {
        self.version
    }

    /// The headers.
    pub fn headers(&self) -> (r: &Headers)
        ensures
            r@ == self.spec_headers(),
            self.wf() ==> r.wf(),
    {
        &self.headers
    }

    /// The body bytes.
    pub fn body(&self) -> (r: &[u8])
        ensures
            r@ == self.spec_body(),
    {
        self.body.as_slice()
    }

    /// The body as text; a UTF-8 error when it is not valid UTF-8.
    pub fn text(&self) -> (r: Result<String, KodeBridgeError>)
        ensures
            match r {
                Ok(s) => valid_utf8(self.spec_body()) && s@ == decode_utf8(self.spec_body()),
                Err(e) => !valid_utf8(self.spec_body()) && e.kind == ErrorKind::Utf8 && e.message@
                    == "response body is not valid UTF-8"@,
            },
    {
        let mut copy: Vec<u8> = Vec::new();
        append_bytes(&mut copy, self.body.as_slice());
        assert(copy@ =~= self.body@);
        match string_from_utf8(copy) {
            Ok(s) => Ok(s),
            Err(_) => Err(KodeBridgeError::new(ErrorKind::Utf8, "response body is not valid UTF-8")),
        }
    }

    /// The body parsed as one JSON document (`serde_json::from_slice`); a
    /// JSON error carrying the parser's message when it is not one.
    pub fn json_value(&self) -> (r: Result<serde_json::Value, KodeBridgeError>)
        ensures
            match r {
                Ok(_) => json_slice_error(self.spec_body()) is None,
                Err(e) => e.kind == ErrorKind::Json && json_slice_error(self.spec_body()) == Some(
                    e.message@,
                ),
            },
    {
        match parse_json_slice(self.body.as_slice()) {
            Ok(v) => Ok(v),
            Err(t) => Err(KodeBridgeError { kind: ErrorKind::Json, message: t }),
        }
    }

    /// 2xx
    pub fn is_success(&self) -> (r: bool)
        ensures
            r == (200 <= self.spec_status()@ < 300),
    {
        self.status.is_success()
    }

    /// 4xx
    pub fn is_client_error(&self) -> (r: bool)
        ensures
            r == (400 <= self.spec_status()@ < 500),
    {
        self.status.is_client_error()
    }

    /// 5xx
    pub fn is_server_error(&self) -> (r: bool)
        ensures
            r == (500 <= self.spec_status()@ < 600),
    {
        self.status.is_server_error()
    }

    /// 3xx
    pub fn is_redirection(&self) -> (r: bool)
        ensures
            r == (300 <= self.spec_status()@ < 400),
    {
        self.status.is_redirection()
    }

    fn header_str(&self, name: &str) -> (r: Option<String>)
        requires
            self.wf(),
            is_header_name(name@),
        ensures
            match (r, header_text(self.spec_headers(), name@)) {
                (Some(v), Some(t)) => v@ == t,
                (None, None) => true,
                _ => false,
            },
    {
        header_text_in(&self.headers, name)
    }

    /// The `content-length` header read as a number, if present and valid.
    pub fn content_length(&self) -> (r: Option<u64>)
        requires
            self.wf(),
        ensures
            r == match header_text(self.spec_headers(), "content-length"@) {
                Some(t) => match parse_unsigned(t, 10, u64::MAX as nat) {
                    Some(n) => Some(n as u64),
                    None => None,
                },
                None => None,
            },
    {
        proof {
            name_literals();
        }
        match self.header_str("content-length") {
            Some(v) => {
                let cs = chars_of(v.as_str());
                parse_unsigned_chars(cs.as_slice(), 10, u64::MAX)
            },
            None => None,
        }
    }

    /// The `content-type` header, if present and visible ASCII.
    pub fn content_type(&self) -> (r: Option<String>)
        requires
            self.wf(),
        ensures
            match (r, header_text(self.spec_headers(), "content-type"@)) {
                (Some(v), Some(t)) => v@ == t,
                (None, None) => true,
                _ => false,
            },
    {
        proof {
            name_literals();
        }
        self.header_str("content-type")
    }

    /// The header names and their text values (empty when not visible ASCII),
    /// in order.
    pub fn header_pairs(&self) -> (r: Vec<(String, String)>)
        ensures
            r@.len() == self.spec_headers().len(),
            forall|i: int|
                0 <= i < r@.len() ==> (#[trigger] r@[i]).0@ == self.spec_headers()[i].0
                    && r@[i].1@ == shown_text(self.spec_headers()[i].1),
    {
        let mut out: Vec<(String, String)> = Vec::new();
        let mut i: usize = 0;
        while i < self.headers.len()
            invariant
                i <= self.headers@.len(),
                out@.len() == i,
                forall|k: int|
                    0 <= k < i ==> (#[trigger] out@[k]).0@ == self.headers@[k].0
                        && out@[k].1@ == shown_text(self.headers@[k].1),
            decreases self.headers@.len() - i,
        {
            let (name, value) = self.headers.entry(i);
            let shown = if visible_ascii_text(value.as_str()) {
                value
            } else {
                String::new()
            };
            out.push((name, shown));
            i = i + 1;
        }
        out
    }
}

/// The response handed out by the pooled client's request builder.
#[derive(Debug)]
pub struct HttpResponse {
    inner: Response,
}

impl HttpResponse {
    /// The wrapped response.
    pub closed spec fn spec_inner(&self) -> Response {
        self.inner
    }

    /// Wraps a response.
    pub fn new(response: Response) -> (r: HttpResponse)
        ensures
            r.spec_inner() == response,
    {
        HttpResponse { inner: response }
    }

    /// The status code as a number.
    pub fn status(&self) -> (r: u16)
        ensures
            r == self.spec_inner().spec_status()@,
    {
        self.inner.status_code()
    }

    /// The body as text; a UTF-8 error when it is not valid UTF-8.
    pub fn body(&self) -> (r: Result<String, KodeBridgeError>)
        ensures
            match r {
                Ok(s) => valid_utf8(self.spec_inner().spec_body()) && s@ == decode_utf8(
                    self.spec_inner().spec_body(),
                ),
                Err(e) => !valid_utf8(self.spec_inner().spec_body()) && e.kind == ErrorKind::Utf8
                    && e.message@ == "response body is not valid UTF-8"@,
            },
    {
        self.inner.text()
    }

    /// The body parsed as one JSON document (see [`Response::json_value`]).
    pub fn json_value(&self) -> (r: Result<serde_json::Value, KodeBridgeError>)
        ensures
            match r {
                Ok(_) => json_slice_error(self.spec_inner().spec_body()) is None,
                Err(e) => e.kind == ErrorKind::Json && json_slice_error(self.spec_inner().spec_body())
                    == Some(e.message@),
            },
    {
        self.inner.json_value()
    }

    /// 2xx
    pub fn is_success(&self) -> (r: bool)
        ensures
            r == (200 <= self.spec_inner().spec_status()@ < 300),
    {
        self.inner.is_success()
    }

    /// 4xx
    pub fn is_client_error(&self) -> (r: bool)
        ensures
            r == (400 <= self.spec_inner().spec_status()@ < 500),
    {
        self.inner.is_client_error()
    }

    /// 5xx
    pub fn is_server_error(&self) -> (r: bool)
        ensures
            r == (500 <= self.spec_inner().spec_status()@ < 600),
    {
        self.inner.is_server_error()
    }

    /// The `content-length` header as a number, 0 when absent or invalid.
    pub fn content_length(&self) -> (r: u64)
        requires
            self.spec_inner().wf(),
        ensures
            r == match header_text(self.spec_inner().spec_headers(), "content-length"@) {
                Some(t) => match parse_unsigned(t, 10, u64::MAX as nat) {
                    Some(n) => n as u64,
                    None => 0,
                },
                None => 0,
            },
    {
        match self.inner.content_length() {
            Some(n) => n,
            None => 0,
        }
    }

    /// The header names and their text values, in order.
    pub fn header_pairs(&self) -> (r: Vec<(String, String)>)
        ensures
            r@.len() == self.spec_inner().spec_headers().len(),
            forall|i: int|
                0 <= i < r@.len() ==> (#[trigger] r@[i]).0@ == self.spec_inner().spec_headers()[i].0
                    && r@[i].1@ == shown_text(self.spec_inner().spec_headers()[i].1),
    {
        self.inner.header_pairs()
    }

    /// The wrapped response, borrowed.
    pub fn inner(&self) -> (r: &Response)
        ensures
            *r == self.spec_inner(),
    {
        &self.inner
    }

    /// The wrapped response.
    pub fn into_inner(self) -> (r: Response)
        ensures
            r == self.spec_inner(),
    {
        self.inner
    }
}

/// Builds the request bytes that the pooled client sends.
#[derive(Debug)]
pub struct RequestBuilder {
    method: Method,
    uri: String,
    headers: Headers,
    body: Option<Vec<u8>>,
}

/// The headers every request starts with.
pub open spec fn default_request_headers() -> Seq<(Seq<char>, Seq<char>)> {
    seq![("host"@, "localhost"@), ("user-agent"@, "kode-bridge/0.1"@)]
}

/// The wire form of a built request: request line, headers, blank line, body.
pub open spec fn request_wire(method: Seq<char>, uri: Seq<char>, hs: Seq<(Seq<char>, Seq<char>)>, body: Option<Seq<u8>>) -> Seq<u8> {
    encode_utf8(method) + seq![0x20u8] + encode_utf8(uri) + encode_utf8(" HTTP/1.1\r\n"@)
        + header_lines(hs) + encode_utf8("\r\n"@) + match body {
        Some(b) => b,
        None => Seq::<u8>::empty(),
    }
}

/// The header names and values that the client writes are in valid form.
pub(crate) proof fn name_literals()
    ensures
        is_header_name("host"@),
        is_header_name("user-agent"@),
        is_header_name("content-type"@),
        is_header_name("content-length"@),
        is_header_name("transfer-encoding"@),
        header_text_ok("localhost"@),
        header_text_ok("kode-bridge/0.1"@),
        header_text_ok("application/json"@),
        "host"@ != "user-agent"@,
{
    reveal_strlit("host");
    reveal_strlit("user-agent");
    reveal_strlit("content-type");
    reveal_strlit("content-length");
    reveal_strlit("localhost");
    reveal_strlit("kode-bridge/0.1");
    reveal_strlit("application/json");
    lemma_plain_name("host"@);
    lemma_plain_name("user-agent"@);
    lemma_plain_name("content-type"@);
    lemma_plain_name("content-length"@);
    reveal_strlit("transfer-encoding");
    lemma_plain_name("transfer-encoding"@);
    lemma_printable_text("localhost"@);
    lemma_printable_text("kode-bridge/0.1"@);
    lemma_printable_text("application/json"@);
    assert("host"@.len() != "user-agent"@.len());
}

/// Decimal text is valid header text.
proof fn lemma_decimal_header_text(n: nat)
    ensures
        header_text_ok(decimal_text(n)),
{
    lemma_decimal_digits(n);
    assert forall|i: int| 0 <= i < decimal_text(n).len() implies crate::http_types::is_header_value_char(
        #[trigger] decimal_text(n)[i],
    ) by {
        assert(0x30 <= decimal(n)[i] <= 0x39);
    }
}

/// The headers of a builder after a JSON body of `len` bytes is set.
pub open spec fn json_headers(hs: Seq<(Seq<char>, Seq<char>)>, len: nat) -> Seq<(Seq<char>, Seq<char>)> {
    insert_capped(
        insert_capped(hs, "content-type"@, "application/json"@),
        "content-length"@,
        decimal_text(len),
    )
}

impl RequestBuilder {
    /// The method.
    pub closed spec fn spec_method(&self) -> Seq<char> {
        self.method@
    }

    /// The request target.
    pub closed spec fn spec_uri(&self) -> Seq<char> {
        self.uri@
    }

    /// The headers.
    pub closed spec fn spec_headers(&self) -> Seq<(Seq<char>, Seq<char>)> {
        self.headers@
    }

    /// The body, if any.
    pub closed spec fn spec_body(&self) -> Option<Seq<u8>> {
        match self.body {
            Some(b) => Some(b@),
            None => None,
        }
    }

    /// Internal consistency.
    pub closed spec fn wf(&self) -> bool {
        self.headers.wf()
    }

    /// A request for `method` and `uri` with `host: localhost` and
    /// `user-agent: kode-bridge/0.1`.
    pub fn new(method: Method, uri: String) -> (r: RequestBuilder)
        ensures
            r.wf(),
            r.spec_method() == method@,
            r.spec_uri() == uri@,
            r.spec_headers() == default_request_headers(),
            r.spec_body() is None,
    {
        proof {
            name_literals();
        }
        let mut headers = Headers::new();
        headers.insert("host", "localhost");
        headers.insert("user-agent", "kode-bridge/0.1");
        proof {
            let e = Seq::<(Seq<char>, Seq<char>)>::empty();
            assert(!crate::headers::has_key(e, "host"@));
            let one = seq![("host"@, "localhost"@)];
            assert(insert_capped(e, "host"@, "localhost"@) =~= one);
            assert(one[0].0 != "user-agent"@);
            assert(!crate::headers::has_key(one, "user-agent"@));
            assert(headers@ =~= default_request_headers());
        }
        RequestBuilder { method, uri, headers, body: None }
    }

    /// Sets a serialized JSON body with `content-type: application/json` and
    /// its `content-length`.
    pub fn json_bytes(self, json: Vec<u8>) -> (r: RequestBuilder)
        requires
            self.wf(),
        ensures
            r.wf(),
            r.spec_method() == self.spec_method(),
            r.spec_uri() == self.spec_uri(),
            r.spec_headers() == json_headers(self.spec_headers(), json@.len()),
            r.spec_body() == Some(json@),
    {
        proof {
            name_literals();
            lemma_decimal_header_text(json@.len());
        }
        let RequestBuilder { method, uri, mut headers, body } = self;
        headers.insert("content-type", "application/json");
        let text = decimal_string(json.len() as u64);
        headers.insert("content-length", text.as_str());
        RequestBuilder { method, uri, headers, body: Some(json) }
    }

    /// The request bytes (see [`request_wire`]).
    pub fn build(self) -> (r: Vec<u8>)
        requires
            self.wf(),
        ensures
            r@ == request_wire(self.spec_method(), self.spec_uri(), self.spec_headers(), self.spec_body()),
    {
        let mut out: Vec<u8> = Vec::new();
        append_bytes(&mut out, self.method.as_str().as_bytes());
        out.push(0x20u8);
        append_bytes(&mut out, self.uri.as_str().as_bytes());
        append_bytes(&mut out, " HTTP/1.1\r\n".as_bytes());
        let ghost head = out@;
        let mut i: usize = 0;
        while i < self.headers.len()
            invariant
                i <= self.headers@.len(),
                out@ == head + header_lines(self.headers@.subrange(0, i as int)),
            decreases self.headers@.len() - i,
        {
            let (name, value) = self.headers.entry(i);
            append_bytes(&mut out, name.as_str().as_bytes());
            append_bytes(&mut out, ": ".as_bytes());
            if visible_ascii_text(value.as_str()) {
                append_bytes(&mut out, value.as_str().as_bytes());
            }
            append_bytes(&mut out, "\r\n".as_bytes());
            let ghost sub = self.headers@.subrange(0, i + 1);
            assert(sub.drop_last() =~= self.headers@.subrange(0, i as int));
            assert(sub.last() == self.headers@[i as int]);
            assert(out@ =~= head + header_lines(sub));
            i = i + 1;
        }
        assert(self.headers@.subrange(0, self.headers@.len() as int) =~= self.headers@);
        append_bytes(&mut out, "\r\n".as_bytes());
        match &self.body {
            Some(b) => append_bytes(&mut out, b.as_slice()),
            None => {},
        }
        assert(out@ =~= request_wire(self.spec_method(), self.spec_uri(), self.spec_headers(), self.spec_body()));
        out
    }
}

/// Frames the request for `method` (rejected unless a valid method token),
/// `path`, and an optional serialized JSON body.
pub fn prepare_request(method: &str, path: &str, json: Option<Vec<u8>>) -> (r: Result<Vec<u8>, KodeBridgeError>)
    ensures
        match r {
            Ok(bytes) => is_token(method.spec_bytes()) && bytes@ == request_wire(
                method@,
                path@,
                match json {
                    Some(b) => json_headers(default_request_headers(), b@.len()),
                    None => default_request_headers(),
                },
                match json {
                    Some(b) => Some(b@),
                    None => None,
                },
            ),
            Err(e) => !is_token(method.spec_bytes()) && e.kind == ErrorKind::InvalidRequest && e.message@
                == "Invalid method: "@ + "invalid HTTP method"@,
        },
{
    let m = match Method::try_parse(method) {
        Ok(m) => m,
        Err(t) => {
            return Err(
                KodeBridgeError {
                    kind: ErrorKind::InvalidRequest,
                    message: concat_text("Invalid method: ", t.as_str()),
                },
            );
        },
    };
    let builder = RequestBuilder::new(m, path.to_owned());
    let builder = match json {
        Some(b) => builder.json_bytes(b),
        None => builder,
    };
    Ok(builder.build())
}

} // verus!
