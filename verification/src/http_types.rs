//! HTTP vocabulary: methods, status codes, header names and values, request
//! targets. Validation of methods, header names and values and URIs is done by
//! the `http` crate.

use vstd::prelude::*;
use vstd::string::StringSliceAdditionalSpecFns;
use crate::text::ascii_lower;

verus! {

/// RFC 9110 `tchar`: the characters of a token (methods, header names).
pub open spec fn is_tchar(b: u8) -> bool {
    ||| (0x30 <= b && b <= 0x39)
    ||| (0x41 <= b && b <= 0x5a)
    ||| (0x61 <= b && b <= 0x7a)
    ||| b == 0x21 || b == 0x23 || b == 0x24 || b == 0x25 || b == 0x26 || b == 0x27
    ||| b == 0x2a || b == 0x2b || b == 0x2d || b == 0x2e
    ||| b == 0x5e || b == 0x5f || b == 0x60 || b == 0x7c || b == 0x7e
}

/// A non-empty token.
pub open spec fn is_token(s: Seq<u8>) -> bool {
    s.len() > 0 && forall|i: int| 0 <= i < s.len() ==> is_tchar(#[trigger] s[i])
}

/// ASCII lowercase of a character sequence.
pub open spec fn lower_chars(s: Seq<char>) -> Seq<char> {
    s.map_values(|c: char| ascii_lower(c))
}

/// A character of a token: an ASCII `tchar`.
pub open spec fn is_tchar_char(c: char) -> bool {
    (c as u32) < 128 && is_tchar(c as u8)
}

/// Text that is a non-empty token (all ASCII, so its UTF-8 bytes are its
/// characters).
pub open spec fn is_token_text(s: Seq<char>) -> bool {
    s.len() > 0 && forall|i: int| 0 <= i < s.len() ==> is_tchar_char(#[trigger] s[i])
}

/// A header name as a header map stores it: a token of at most 65535
/// characters, in ASCII lowercase.
pub open spec fn is_header_name(s: Seq<char>) -> bool {
    is_token_text(s) && s.len() <= 65535 && lower_chars(s) == s
}

/// A character that may stand in a header value: anything but a control
/// character other than tab, and DEL. (Non-ASCII characters encode to bytes
/// from 0x80, which header values accept.)
pub open spec fn is_header_value_char(c: char) -> bool {
    (c >= ' ' && c != '\x7f') || c == '\t'
}

/// Text that may stand in a header value.
pub open spec fn header_text_ok(s: Seq<char>) -> bool {
    forall|i: int| 0 <= i < s.len() ==> is_header_value_char(#[trigger] s[i])
}

/// Lowercasing a token gives a header name in its stored form.
pub proof fn lemma_lower_token(k: Seq<char>)
    requires
        is_token_text(k),
        k.len() <= 65535,
    ensures
        is_header_name(lower_chars(k)),
{
    let l = lower_chars(k);
    assert forall|i: int| 0 <= i < l.len() implies is_tchar_char(#[trigger] l[i]) by {
        assert(is_tchar_char(k[i]));
    }
    assert(lower_chars(l) =~= l);
}

/// Lowercase ASCII letters and `-`, the characters of the usual header names.
pub open spec fn is_plain_name_char(c: char) -> bool {
    ('a' <= c && c <= 'z') || c == '-'
}

/// A non-empty name made of lowercase letters and `-` is a header name in
/// stored form.
pub proof fn lemma_plain_name(s: Seq<char>)
    requires
        0 < s.len() <= 65535,
        forall|i: int| 0 <= i < s.len() ==> is_plain_name_char(#[trigger] s[i]),
    ensures
        is_header_name(s),
{
    assert forall|i: int| 0 <= i < s.len() implies is_tchar_char(#[trigger] s[i]) by {
        assert(is_plain_name_char(s[i]));
    }
    assert(lower_chars(s) =~= s);
}

/// Printable ASCII text is valid header text.
pub proof fn lemma_printable_text(s: Seq<char>)
    requires
        forall|i: int| 0 <= i < s.len() ==> ' ' <= #[trigger] s[i] && s[i] <= '~',
    ensures
        header_text_ok(s),
{
    assert forall|i: int| 0 <= i < s.len() implies is_header_value_char(#[trigger] s[i]) by {
        assert(' ' <= s[i] && s[i] <= '~');
    }
}

/// Visible ASCII, space and tab: what `HeaderValue::to_str` accepts.
pub open spec fn is_visible_ascii(b: u8) -> bool {
    (b >= 32 && b < 127) || b == 9
}

/// `http::Method::from_bytes`: accepts exactly the non-empty tokens, and the
/// method's `as_str` is the input text; the error displays as `invalid HTTP
/// method`.
#[verifier::external_body]
fn http_method_from_bytes(src: &str) -> (r: Result<String, String>)
    ensures
        r is Ok <==> is_token(src.spec_bytes()),
        r matches Ok(s) ==> s@ == src@,
        r matches Err(t) ==> t@ == "invalid HTTP method"@,
{
    match http::Method::from_bytes(src.as_bytes()) {
        Ok(m) => Ok(m.as_str().to_string()),
        Err(e) => Err(e.to_string()),
    }
}

/// `http::HeaderName::from_bytes` on the text's UTF-8 bytes: accepts tokens
/// of at most 65535 bytes (a byte of a non-ASCII character is never a token
/// byte) and normalizes them to ASCII lowercase.
#[verifier::external_body]
pub(crate) fn http_header_name_from_str(src: &str) -> (r: Option<String>)
    ensures
        r is Some <==> (is_token_text(src@) && src@.len() <= 65535),
        r matches Some(s) ==> s@ == lower_chars(src@),
{
    match http::HeaderName::from_bytes(src.as_bytes()) {
        Ok(n) => Some(n.as_str().to_string()),
        Err(_) => None,
    }
}

/// `http::HeaderValue::from_str` succeeds exactly when every byte of the
/// text is a permitted header-value byte (at least 32 and not 127, or tab),
/// that is, when every character is a permitted header-value character.
#[verifier::external_body]
pub(crate) fn http_header_value_valid(src: &str) -> (r: bool)
    ensures
        r == header_text_ok(src@),
{
    http::HeaderValue::from_str(src).is_ok()
}

/// The reason phrase that `http::StatusCode::canonical_reason` gives a code.
pub uninterp spec fn canonical_reason_of(code: u16) -> Option<Seq<char>>;

/// `http::StatusCode::canonical_reason` for a code in 100..=999.
#[verifier::external_body]
fn http_canonical_reason(code: u16) -> (r: Option<String>)
    requires
        100 <= code <= 999,
    ensures
        match (r, canonical_reason_of(code)) {
            (Some(s), Some(t)) => s@ == t,
            (None, None) => true,
            _ => false,
        },
{
    match http::StatusCode::from_u16(code) {
        Ok(s) => s.canonical_reason().map(|t| t.to_string()),
        Err(_) => None,
    }
}

/// What `http::Uri::from_str` makes of a request target: the URI's path and
/// its query (if any), or, when it rejects the target, the text its error
/// displays.
pub uninterp spec fn uri_parts(target: Seq<char>) -> Result<(Seq<char>, Option<Seq<char>>), Seq<char>>;

/// Parses a request target with `http::Uri::from_str` and returns its path
/// and query, or the error's text.
#[verifier::external_body]
pub(crate) fn http_parse_uri(target: &str) -> (r: Result<(String, Option<String>), String>)
    ensures
        match (r, uri_parts(target@)) {
            (Ok((p, q)), Ok((pp, qq))) => p@ == pp && match (q, qq) {
                (Some(a), Some(b)) => a@ == b,
                (None, None) => true,
                _ => false,
            },
            (Err(t), Err(tt)) => t@ == tt,
            _ => false,
        },
{
    match target.parse::<http::Uri>() {
        Ok(u) => Ok((u.path().to_string(), u.query().map(|q| q.to_string()))),
        Err(e) => Err(e.to_string()),
    }
}

/// An HTTP request method: a non-empty token, compared exactly
/// (methods are case-sensitive).
#[derive(Debug)]
pub struct Method {
    name: String,
}

impl Clone for Method {
    /// The same method.
    fn clone(&self) -> (r: Method)
        ensures
            r@ == self@,
    {
        Method { name: self.name.clone() }
    }
}

impl View for Method {
    type V = Seq<char>;

    closed spec fn view(&self) -> Seq<char> {
        self.name@
    }
}

impl Method {
    /// Parses a method; `None` unless its bytes form a token.
    pub fn parse(src: &str) -> (r: Option<Method>)
        ensures
            r is Some <==> is_token(src.spec_bytes()),
            r matches Some(m) ==> m@ == src@,
    {
        match http_method_from_bytes(src) {
            Ok(s) => Some(Method { name: s }),
            Err(_) => None,
        }
    }

    /// Parses a method; the parser's error text unless its bytes form a
    /// token.
    pub fn try_parse(src: &str) -> (r: Result<Method, String>)
        ensures
            r is Ok <==> is_token(src.spec_bytes()),
            r matches Ok(m) ==> m@ == src@,
            r matches Err(t) ==> t@ == "invalid HTTP method"@,
    {
        match http_method_from_bytes(src) {
            Ok(s) => Ok(Method { name: s }),
            Err(t) => Err(t),
        }
    }

    fn standard(name: &str) -> (r: Method)
        ensures
            r@ == name@,
    {
        Method { name: name.to_owned() }
    }

    /// `GET`
    pub fn get() -> (r: Method)
        ensures
            r@ == "GET"@,
    {
        Method::standard("GET")
    }

    /// `POST`
    pub fn post() -> (r: Method)
        ensures
            r@ == "POST"@,
    {
        Method::standard("POST")
    }

    /// `PUT`
    pub fn put() -> (r: Method)
        ensures
            r@ == "PUT"@,
    {
        Method::standard("PUT")
    }

    /// `DELETE`
    pub fn delete() -> (r: Method)
        ensures
            r@ == "DELETE"@,
    {
        Method::standard("DELETE")
    }

    /// `PATCH`
    pub fn patch() -> (r: Method)
        ensures
            r@ == "PATCH"@,
    {
        Method::standard("PATCH")
    }

    /// `HEAD`
    pub fn head() -> (r: Method)
        ensures
            r@ == "HEAD"@,
    {
        Method::standard("HEAD")
    }

    /// `OPTIONS`
    pub fn options() -> (r: Method)
        ensures
            r@ == "OPTIONS"@,
    {
        Method::standard("OPTIONS")
    }

    /// The method's name.
    pub fn as_str(&self) -> (r: &str)
        ensures
            r@ == self@,
    {
        self.name.as_str()
    }

    /// Whether two methods are the same.
    pub fn same_as(&self, other: &Method) -> (r: bool)
        ensures
            r == (self@ == other@),
    {
        self.name == other.name
    }
}

/// An HTTP status code, 100 through 999.
#[derive(Debug, Clone, Copy, PartialEq, Eq, Structural)]
pub struct StatusCode {
    code: u16,
}

impl View for StatusCode {
    type V = u16;

    closed spec fn view(&self) -> u16 {
        self.code
    }
}

impl StatusCode {
    /// The code is in range.
    pub closed spec fn wf(&self) -> bool {
        100 <= self.code <= 999
    }

    /// A status code from its number: `None` outside 100..=999.
    pub fn from_u16(code: u16) -> (r: Option<StatusCode>)
        ensures
            r is Some <==> 100 <= code <= 999,
            r matches Some(s) ==> s@ == code && s.wf(),
    {
        if 100 <= code && code <= 999 {
            Some(StatusCode { code })
        } else {
            None
        }
    }

    fn known(code: u16) -> (r: StatusCode)
        requires
            100 <= code <= 999,
        ensures
            r@ == code,
            r.wf(),
    {
        StatusCode { code }
    }

    /// 200 OK
    pub fn ok() -> (r: StatusCode)
        ensures
            r@ == 200,
            r.wf(),
    {
        StatusCode::known(200)
    }

    /// 400 Bad Request
    pub fn bad_request() -> (r: StatusCode)
        ensures
            r@ == 400,
            r.wf(),
    {
        StatusCode::known(400)
    }

    /// 404 Not Found
    pub fn not_found() -> (r: StatusCode)
        ensures
            r@ == 404,
            r.wf(),
    {
        StatusCode::known(404)
    }

    /// 408 Request Timeout
    pub fn request_timeout() -> (r: StatusCode)
        ensures
            r@ == 408,
            r.wf(),
    {
        StatusCode::known(408)
    }

    /// 500 Internal Server Error
    pub fn internal_server_error() -> (r: StatusCode)
        ensures
            r@ == 500,
            r.wf(),
    {
        StatusCode::known(500)
    }

    /// The numeric code.
    pub fn as_u16(&self) -> (r: u16)
        ensures
            r == self@,
    {
        self.code
    }

    /// The reason phrase for the code, if it has one.
    pub fn canonical_reason(&self) -> (r: Option<String>)
        requires
            self.wf(),
        ensures
            match (r, canonical_reason_of(self@)) {
                (Some(s), Some(t)) => s@ == t,
                (None, None) => true,
                _ => false,
            },
    {
        http_canonical_reason(self.code)
    }

    /// 2xx
    pub fn is_success(&self) -> (r: bool)
        ensures
            r == (200 <= self@ < 300),
    {
        200 <= self.code && self.code < 300
    }

    /// 3xx
    pub fn is_redirection(&self) -> (r: bool)
        ensures
            r == (300 <= self@ < 400),
    {
        300 <= self.code && self.code < 400
    }

    /// 4xx
    pub fn is_client_error(&self) -> (r: bool)
        ensures
            r == (400 <= self@ < 500),
    {
        400 <= self.code && self.code < 500
    }

    /// 5xx
    pub fn is_server_error(&self) -> (r: bool)
        ensures
            r == (500 <= self@ < 600),
    {
        500 <= self.code && self.code < 600
    }
}

} // verus!
