//! Server responses: the builder, common responses, and their wire form.

use vstd::prelude::*;
use vstd::utf8::*;
use crate::headers::{Headers, insert_capped, has_key};
use crate::http_types::{
    StatusCode, is_token_text, lower_chars, header_text_ok, is_visible_ascii, canonical_reason_of,
    http_header_name_from_str, http_header_value_valid, lemma_lower_token, is_header_name,
};
use crate::numbers::{decimal, decimal_bytes};
use crate::wire::append_bytes;
use crate::errors::{ErrorKind, KodeBridgeError};
use crate::json::{json_str_error, parse_json_str};

verus! {

/// An HTTP response as the server sends it.
#[derive(Debug)]
pub struct HttpResponse {
    pub status: StatusCode,
    pub headers: Headers,
    pub body: Vec<u8>,
}

/// Builds an [`HttpResponse`] step by step.
#[derive(Debug)]
pub struct ResponseBuilder {
    status: StatusCode,
    headers: Headers,
    body: Option<Vec<u8>>,
}

/// The headers after `name: value` is offered to a builder: added (name
/// lowercased) when both are valid, else unchanged.
pub open spec fn with_header(
    hs: Seq<(Seq<char>, Seq<char>)>,
    name: Seq<char>,
    value: Seq<char>,
) -> Seq<(Seq<char>, Seq<char>)> {
    if is_token_text(name) && name.len() <= 65535 && header_text_ok(value) {
        insert_capped(hs, lower_chars(name), value)
    } else {
        hs
    }
}

impl ResponseBuilder {
    /// The status code.
    pub closed spec fn spec_status(&self) -> StatusCode {
        self.status
    }

    /// The headers.
    pub closed spec fn spec_headers(&self) -> Seq<(Seq<char>, Seq<char>)> {
        self.headers@
    }

    /// The body, if one was set.
    pub closed spec fn spec_body(&self) -> Option<Seq<u8>> {
        match self.body {
            Some(b) => Some(b@),
            None => None,
        }
    }

    /// Internal consistency.
    pub closed spec fn wf(&self) -> bool {
        self.headers.wf() && self.status.wf()
    }

    /// A builder for `200 OK` with no headers and no body.
    pub fn new() -> (r: ResponseBuilder)
        ensures
            r.wf(),
            r.spec_status()@ == 200,
            r.spec_headers() == Seq::<(Seq<char>, Seq<char>)>::empty(),
            r.spec_body() is None,
    {
        ResponseBuilder { status: StatusCode::ok(), headers: Headers::new(), body: None }
    }

    /// Sets the status code.
    pub fn status(self, status: StatusCode) -> (r: ResponseBuilder)
        requires
            self.wf(),
            status.wf(),
        ensures
            r.wf(),
            r.spec_status() == status,
            r.spec_headers() == self.spec_headers(),
            r.spec_body() == self.spec_body(),
    {
        ResponseBuilder { status, headers: self.headers, body: self.body }
    }

    /// Adds a header; it is ignored unless the name is a valid header name and
    /// the value a valid header value.
    pub fn header(self, key: &str, value: &str) -> (r: ResponseBuilder)
        requires
            self.wf(),
        ensures
            r.wf(),
            r.spec_status() == self.spec_status(),
            r.spec_headers() == with_header(self.spec_headers(), key@, value@),
            r.spec_body() == self.spec_body(),
    {
        let ResponseBuilder { status, mut headers, body } = self;
        let name = http_header_name_from_str(key);
        let value_ok = http_header_value_valid(value);
        match name {
            Some(n) => {
                if value_ok {
                    proof {
                        lemma_lower_token(key@);
                    }
                    headers.insert(n.as_str(), value);
                }
            },
            None => {},
        }
        ResponseBuilder { status, headers, body }
    }

    /// Sets the body.
    pub fn body(self, body: Vec<u8>) -> (r: ResponseBuilder)
        requires
            self.wf(),
        ensures
            r.wf(),
            r.spec_status() == self.spec_status(),
            r.spec_headers() == self.spec_headers(),
            r.spec_body() == Some(body@),
    {
        ResponseBuilder { status: self.status, headers: self.headers, body: Some(body) }
    }

    /// Sets serialized JSON as the body, with `content-type: application/json`.
    pub fn json_bytes(self, json: Vec<u8>) -> (r: ResponseBuilder)
        requires
            self.wf(),
        ensures
            r.wf(),
            r.spec_status() == self.spec_status(),
            r.spec_headers() == with_header(
                self.spec_headers(),
                "content-type"@,
                "application/json"@,
            ),
            r.spec_body() == Some(json@),
    {
        self.header("content-type", "application/json").body(json)
    }

    /// Sets text as the body, with `content-type: text/plain; charset=utf-8`.
    pub fn text(self, text: String) -> (r: ResponseBuilder)
        requires
            self.wf(),
        ensures
            r.wf(),
            r.spec_status() == self.spec_status(),
            r.spec_headers() == with_header(
                self.spec_headers(),
                "content-type"@,
                "text/plain; charset=utf-8"@,
            ),
            r.spec_body() == Some(encode_utf8(text@)),
    {
        let mut bytes: Vec<u8> = Vec::new();
        append_bytes(&mut bytes, text.as_str().as_bytes());
        self.header("content-type", "text/plain; charset=utf-8").body(bytes)
    }

    /// The response; an unset body is empty.
    pub fn build(self) -> (r: HttpResponse)
        requires
            self.wf(),
        ensures
            r.status == self.spec_status(),
            r.status.wf(),
            r.headers@ == self.spec_headers(),
            r.headers.wf(),
            r.body@ == match self.spec_body() {
                Some(b) => b,
                None => Seq::<u8>::empty(),
            },
    {
        HttpResponse {
            status: self.status,
            headers: self.headers,
            body: match self.body {
                Some(b) => b,
                None => Vec::new(),
            },
        }
    }
}

/// Whether all bytes are visible ASCII (or tab): what `HeaderValue::to_str`
/// accepts.
pub open spec fn visible_bytes(v: Seq<u8>) -> bool {
    forall|i: int| 0 <= i < v.len() ==> is_visible_ascii(#[trigger] v[i])
}

/// What `HeaderValue::to_str` shows of a value: the value when it is all
/// visible ASCII, else nothing.
pub open spec fn shown_value(v: Seq<u8>) -> Seq<u8> {
    if visible_bytes(v) {
        v
    } else {
        Seq::empty()
    }
}

/// The header lines for `hs`, in order: `name: value\r\n`.
pub open spec fn header_lines(hs: Seq<(Seq<char>, Seq<char>)>) -> Seq<u8>
    decreases hs.len(),
{
    if hs.len() == 0 {
        Seq::empty()
    } else {
        header_lines(hs.drop_last()) + encode_utf8(hs.last().0) + encode_utf8(": "@) + shown_value(
            encode_utf8(hs.last().1),
        ) + encode_utf8("\r\n"@)
    }
}

/// The reason phrase on the status line: the canonical one, or `Unknown`.
pub open spec fn reason_phrase(code: u16) -> Seq<char> {
    match canonical_reason_of(code) {
        Some(t) => t,
        None => "Unknown"@,
    }
}

/// The wire form of a response: status line, headers, a `Content-Length`
/// line unless a `content-length` header is present, a blank line, the body.
pub open spec fn response_wire(code: u16, hs: Seq<(Seq<char>, Seq<char>)>, body: Seq<u8>) -> Seq<u8> {
    encode_utf8("HTTP/1.1 "@) + decimal(code as nat) + seq![0x20u8] + encode_utf8(reason_phrase(code))
        + encode_utf8("\r\n"@) + header_lines(hs) + (if has_key(hs, "content-length"@) {
        Seq::empty()
    } else {
        encode_utf8("Content-Length: "@) + decimal(body.len()) + encode_utf8("\r\n"@)
    }) + encode_utf8("\r\n"@) + body
}

/// The status line a response is written with names its code and the code's
/// standard reason as the `http` crate gives it (`StatusCode::canonical_reason`),
/// or `Unknown` for a code without one: whatever the headers and the body,
/// the wire form starts with `HTTP/1.1 <code> <reason>\r\n`.
pub proof fn law_status_line_reason(code: u16, hs: Seq<(Seq<char>, Seq<char>)>, body: Seq<u8>)
    ensures
        ({
            let reason = match canonical_reason_of(code) {
                Some(t) => t,
                None => "Unknown"@,
            };
            let line = encode_utf8("HTTP/1.1 "@) + decimal(code as nat) + seq![0x20u8] + encode_utf8(reason)
                + encode_utf8("\r\n"@);
            &&& line.len() <= response_wire(code, hs, body).len()
            &&& response_wire(code, hs, body).subrange(0, line.len() as int) == line
        }),
{
    let reason = match canonical_reason_of(code) {
        Some(t) => t,
        None => "Unknown"@,
    };
    let line = encode_utf8("HTTP/1.1 "@) + decimal(code as nat) + seq![0x20u8] + encode_utf8(reason)
        + encode_utf8("\r\n"@);
    let w = response_wire(code, hs, body);
    let rest = header_lines(hs) + (if has_key(hs, "content-length"@) {
        Seq::empty()
    } else {
        encode_utf8("Content-Length: "@) + decimal(body.len()) + encode_utf8("\r\n"@)
    }) + encode_utf8("\r\n"@) + body;
    assert(w =~= line + rest);
    assert(w.subrange(0, line.len() as int) =~= line);
}

/// `content-length` is a header name in stored form.
pub proof fn content_length_name()
    ensures
        is_header_name("content-length"@),
{
    reveal_strlit("content-length");
    crate::http_types::lemma_plain_name("content-length"@);
}

/// Whether all bytes are visible ASCII.
pub(crate) fn all_visible_ascii(v: &[u8]) -> (r: bool)
    ensures
        r == visible_bytes(v@),
{
    let mut i: usize = 0;
    while i < v.len()
        invariant
            i <= v@.len(),
            forall|k: int| 0 <= k < i ==> is_visible_ascii(#[trigger] v@[k]),
        decreases v@.len() - i,
    {
        if !((v[i] >= 32 && v[i] < 127) || v[i] == 9) {
            return false;
        }
        i = i + 1;
    }
    true
}

impl HttpResponse {
    /// A new response builder.
    pub fn builder() -> (r: ResponseBuilder)
        ensures
            r.wf(),
            r.spec_status()@ == 200,
            r.spec_headers() == Seq::<(Seq<char>, Seq<char>)>::empty(),
            r.spec_body() is None,
    {
        ResponseBuilder::new()
    }

    /// `200 OK` with no headers and an empty body.
    pub fn ok() -> (r: HttpResponse)
        ensures
            r.status@ == 200,
            r.status.wf(),
            r.headers.wf(),
            r.headers@ == Seq::<(Seq<char>, Seq<char>)>::empty(),
            r.body@ == Seq::<u8>::empty(),
    {
        ResponseBuilder::new().status(StatusCode::ok()).build()
    }

    /// `200 OK` with a JSON body.
    pub fn json_bytes(json: Vec<u8>) -> (r: HttpResponse)
        ensures
            r.status@ == 200,
            r.status.wf(),
            r.headers.wf(),
            r.headers@ == with_header(Seq::empty(), "content-type"@, "application/json"@),
            r.body@ == json@,
    {
        ResponseBuilder::new().json_bytes(json).build()
    }

    /// `200 OK` with a text body.
    pub fn text(text: String) -> (r: HttpResponse)
        ensures
            r.status@ == 200,
            r.status.wf(),
            r.headers.wf(),
            r.headers@ == with_header(
                Seq::empty(),
                "content-type"@,
                "text/plain; charset=utf-8"@,
            ),
            r.body@ == encode_utf8(text@),
    {
        ResponseBuilder::new().text(text).build()
    }

    /// A response with the given status and `message` as its text body.
    pub fn error(status: StatusCode, message: &str) -> (r: HttpResponse)
        requires
            status.wf(),
        ensures
            r.status == status,
            r.status.wf(),
            r.headers.wf(),
            r.headers@ == with_header(
                Seq::empty(),
                "content-type"@,
                "text/plain; charset=utf-8"@,
            ),
            r.body@ == encode_utf8(message@),
    {
        ResponseBuilder::new().status(status).text(message.to_owned()).build()
    }

    /// `404 Not Found`.
    pub fn not_found() -> (r: HttpResponse)
        ensures
            r.status@ == 404,
            r.status.wf(),
            r.headers.wf(),
            r.headers@ == with_header(
                Seq::empty(),
                "content-type"@,
                "text/plain; charset=utf-8"@,
            ),
            r.body@ == encode_utf8("Not Found"@),
    {
        HttpResponse::error(StatusCode::not_found(), "Not Found")
    }

    /// `500 Internal Server Error`.
    pub fn internal_error() -> (r: HttpResponse)
        ensures
            r.status@ == 500,
            r.status.wf(),
            r.headers.wf(),
            r.headers@ == with_header(
                Seq::empty(),
                "content-type"@,
                "text/plain; charset=utf-8"@,
            ),
            r.body@ == encode_utf8("Internal Server Error"@),
    {
        HttpResponse::error(StatusCode::internal_server_error(), "Internal Server Error")
    }

    /// The bytes written to the connection for this response (see
    /// [`response_wire`]).
    pub fn to_wire(&self) -> (r: Vec<u8>)
        requires
            self.status.wf(),
            self.headers.wf(),
            self.body@.len() <= u64::MAX,
        ensures
            r@ == response_wire(self.status@, self.headers@, self.body@),
    {
        let code = self.status.as_u16();
        let mut out: Vec<u8> = Vec::new();
        append_bytes(&mut out, "HTTP/1.1 ".as_bytes());
        let digits = decimal_bytes(code as u64);
        append_bytes(&mut out, digits.as_slice());
        out.push(0x20u8);
        match self.status.canonical_reason() {
            Some(reason) => append_bytes(&mut out, reason.as_str().as_bytes()),
            None => append_bytes(&mut out, "Unknown".as_bytes()),
        }
        append_bytes(&mut out, "\r\n".as_bytes());
        let ghost head = out@;
        let mut i: usize = 0;
        while i < self.headers.len()
            invariant
                i <= self.headers@.len(),
                out@ == head + header_lines(self.headers@.subrange(0, i as int)),
            decreases self.headers@.len() - i,
        {
            let (name, value) = self.headers.entry(i);
            let ghost before = out@;
            append_bytes(&mut out, name.as_str().as_bytes());
            append_bytes(&mut out, ": ".as_bytes());
            let vb = value.as_str().as_bytes();
            if all_visible_ascii(vb) {
                append_bytes(&mut out, vb);
            }
            append_bytes(&mut out, "\r\n".as_bytes());
            let ghost sub = self.headers@.subrange(0, i + 1);
            assert(sub.drop_last() =~= self.headers@.subrange(0, i as int));
            assert(out@ =~= head + header_lines(sub));
            i = i + 1;
        }
        assert(self.headers@.subrange(0, self.headers@.len() as int) =~= self.headers@);
        proof {
            content_length_name();
        }
        if !self.headers.contains("content-length") {
            append_bytes(&mut out, "Content-Length: ".as_bytes());
            let len_digits = decimal_bytes(self.body.len() as u64);
            append_bytes(&mut out, len_digits.as_slice());
            append_bytes(&mut out, "\r\n".as_bytes());
        }
        append_bytes(&mut out, "\r\n".as_bytes());
        append_bytes(&mut out, self.body.as_slice());
        assert(out@ =~= response_wire(self.status@, self.headers@, self.body@));
        out
    }
}

/// The response format of earlier releases: status, headers as a JSON
/// value, and the body as text.
#[derive(Debug)]
pub struct LegacyResponse {
    pub status: u16,
    pub headers: serde_json::Value,
    pub body: String,
}

impl LegacyResponse {
    /// The body parsed as one JSON document (`serde_json::from_str`); a JSON
    /// error carrying the parser's message when it is not one.
    pub fn json(&self) -> (r: Result<serde_json::Value, KodeBridgeError>)
        ensures
            match r {
                Ok(_) => json_str_error(self.body@) is None,
                Err(e) => e.kind == ErrorKind::Json && json_str_error(self.body@) == Some(e.message@),
            },
    {
        match parse_json_str(self.body.as_str()) {
            Ok(v) => Ok(v),
            Err(t) => Err(KodeBridgeError { kind: ErrorKind::Json, message: t }),
        }
    }
}

} // verus!
