//! JSON bodies parsed into `serde_json::Value`.

use vstd::prelude::*;

verus! {

/// The `serde_json::Value` type: a parsed JSON document, carried through
/// as it is.
#[verifier::external_type_specification]
#[verifier::external_body]
pub struct ExJsonValue(serde_json::Value);

/// What `serde_json::from_slice::<Value>` makes of `body`: `None` when it
/// accepts the bytes as one JSON document, else the text of its error
/// (what the error displays: the reason, with line and column).
pub uninterp spec fn json_slice_error(body: Seq<u8>) -> Option<Seq<char>>;

/// What `serde_json::from_str::<Value>` makes of `text`: `None` when it
/// accepts the text as one JSON document, else the text of its error.
pub uninterp spec fn json_str_error(text: Seq<char>) -> Option<Seq<char>>;

/// `serde_json::from_slice` into a `Value`: the value when the bytes are
/// accepted, else the error's text (`Display`).
#[verifier::external_body]
pub(crate) fn parse_json_slice(body: &[u8]) -> (r: Result<serde_json::Value, String>)
    ensures
        match r {
            Ok(_) => json_slice_error(body@) is None,
            Err(t) => json_slice_error(body@) == Some(t@),
        },
{
    serde_json::from_slice::<serde_json::Value>(body).map_err(|e| e.to_string())
}

/// `serde_json::from_str` into a `Value`: the value when the text is
/// accepted, else the error's text (`Display`).
#[verifier::external_body]
pub(crate) fn parse_json_str(text: &str) -> (r: Result<serde_json::Value, String>)
    ensures
        match r {
            Ok(_) => json_str_error(text@) is None,
            Err(t) => json_str_error(text@) == Some(t@),
        },
{
    serde_json::from_str::<serde_json::Value>(text).map_err(|e| e.to_string())
}

} // verus!
