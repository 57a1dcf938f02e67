//! Error types.

use vstd::prelude::*;

verus! {

/// A plain text error.
#[derive(Debug, Clone)]
pub struct ErrorString(String);

impl ErrorString {
    /// The error text.
    pub fn as_str(&self) -> (r: &str)
        ensures
            r@ == self.text(),
    {
        self.0.as_str()
    }

    /// The error text, as a specification value.
    pub closed spec fn text(&self) -> Seq<char> {
        self.0@
    }
}

impl From<String> for ErrorString {
    fn from(s: String) -> (r: ErrorString) {
        ErrorString(s)
    }
}

impl ErrorString {
    /// An error whose text is `s`.
    pub fn from_text(s: &str) -> (r: ErrorString)
        ensures
            r.text() == s@,
    {
        ErrorString(s.to_owned())
    }

    /// An error whose text is `s`.
    pub fn from_string(s: String) -> (r: ErrorString)
        ensures
            r.text() == s@,
    {
        ErrorString(s)
    }
}

impl vstd::std_specs::convert::FromSpecImpl<String> for ErrorString {
    open spec fn obeys_from_spec() -> bool {
        true
    }

    closed spec fn from_spec(s: String) -> ErrorString {
        ErrorString(s)
    }
}

/// Errors raised by the protocol logic.
#[derive(Debug, Clone, Copy, PartialEq, Eq, Structural)]
pub enum ErrorKind {
    /// The peer violated the HTTP framing rules.
    Protocol,
    /// A request failed validation (size, syntax).
    Validation,
    /// A configuration value (such as an endpoint path) is invalid.
    Configuration,
    /// A request could not be built from the given parts.
    InvalidRequest,
    /// A body or text is not valid UTF-8.
    Utf8,
    /// An HTTP value (status code, header) is invalid.
    Http,
    /// An operation did not finish in time.
    Timeout,
    /// A connection could not be made or was lost.
    Connection,
    /// An I/O operation failed.
    Io,
    /// A body is not valid JSON.
    Json,
}

/// An error with its kind and a human-readable message.
#[derive(Debug, Clone)]
pub struct KodeBridgeError {
    pub kind: ErrorKind,
    pub message: String,
}

impl KodeBridgeError {
    /// An error of the given kind with the given message.
    pub fn new(kind: ErrorKind, message: &str) -> (r: KodeBridgeError)
        ensures
            r.kind == kind,
            r.message@ == message@,
    {
        KodeBridgeError { kind, message: message.to_owned() }
    }
}

} // verus!
