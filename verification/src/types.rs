//! The response of the simple clients: status, headers as a JSON object,
//! and the body as text.

use vstd::prelude::*;
use crate::errors::{ErrorKind, KodeBridgeError};
use crate::json::{json_str_error, parse_json_str};

verus! {

/// A response with its headers as a JSON value and its body as text.
#[derive(Debug)]
pub struct Response {
    pub status: u16,
    pub headers: serde_json::Value,
    pub body: String,
}

impl Response {
    /// The body parsed as one JSON document (`serde_json::from_str`); a JSON
    /// error carrying the parser's message when it is not one.
    pub fn json(&self) -> (r: Result<serde_json::Value, KodeBridgeError>)
        ensures
            match r {
                Ok(_) => json_str_error(self.body@) is None,
                Err(e) => e.kind == ErrorKind::Json && json_str_error(self.body@) == Some(e.message@),
            },
    {
        match parse_json_str(self.body.as_str()) {
            Ok(v) => Ok(v),
            Err(t) => Err(KodeBridgeError { kind: ErrorKind::Json, message: t }),
        }
    }
}

} // verus!
