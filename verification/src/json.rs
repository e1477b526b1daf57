//! The JSON values this crate carries and the one lookup it makes in them,
//! both provided by `serde_json`.

use vstd::prelude::*;

verus! {

/// `serde_json::Value`, carried opaquely (a JSON Schema travels through
/// unchanged).
#[verifier::external_type_specification]
#[verifier::external_body]
pub struct ExJsonValue(serde_json::Value);

/// `serde_json::Value`'s derived `Clone`: a deep copy, equal to the original.
pub assume_specification[ <serde_json::Value as Clone>::clone ](v: &serde_json::Value) -> (r:
    serde_json::Value)
    ensures
        r == *v,
;

/// The string that the JSON pointer `pointer` designates in the JSON document
/// `text`: `None` when `text` is not JSON, when nothing is there, or when what
/// is there is not a string.
pub uninterp spec fn json_string_at(text: Seq<char>, pointer: Seq<char>) -> Option<Seq<char>>;

/// `serde_json::from_str::<serde_json::Value>` followed by `Value::pointer`:
/// parses `text` and reads the string at `pointer`. Claimed: the result is
/// `json_string_at(text, pointer)`, a function of the two texts alone.
#[verifier::external_body]
pub(crate) fn json_lookup_string(text: &str, pointer: &str) -> (r: Option<String>)
    ensures
        match r {
            Some(s) => json_string_at(text@, pointer@) == Some(s@),
            None => json_string_at(text@, pointer@) is None,
        },
{
    match serde_json::from_str::<serde_json::Value>(text) {
        Ok(document) => match document.pointer(pointer) {
            Some(serde_json::Value::String(s)) => Some(s.clone()),
            _ => None,
        },
        Err(_) => None,
    }
}

} // verus!
