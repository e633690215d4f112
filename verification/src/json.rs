//! The crate's view of `serde_json`: the JSON value and error types are
//! carried opaquely, and the few calls the logic makes into the crate
//! stand behind trusted wrappers. Everything that decides on the
//! extracted fields is verified elsewhere.

use vstd::prelude::*;

verus! {

#[verifier::external_type_specification]
#[verifier::external_body]
pub struct ExValue(serde_json::Value);

#[verifier::external_type_specification]
#[verifier::external_body]
pub struct ExJsonError(serde_json::Error);

/// Whether a text parses as JSON. Parsing is a function of the text
/// alone; nothing more is assumed about which texts parse.
pub uninterp spec fn json_parse_ok(s: Seq<char>) -> bool;

/// Relies on `serde_json::from_str::<Value>`: parses a text as a JSON
/// document, deterministically in the text.
#[verifier::external_body]
pub(crate) fn parse_json(text: &str) -> (r: Result<serde_json::Value, serde_json::Error>)
    ensures
        r is Ok <==> json_parse_ok(text@),
{
    serde_json::from_str::<serde_json::Value>(text)
}

/// Relies on `serde_json::Error`'s `Display` impl for the error's text.
/// Nothing is assumed about that text.
#[verifier::external_body]
pub(crate) fn json_error_text(e: &serde_json::Error) -> String {
    format!("{}", e)
}

/// The string field named `key` of the JSON document in a text: present
/// exactly when the text parses to an object carrying that field as a
/// string. A function of the text and key alone; nothing more is assumed
/// about which fields a text carries.
pub uninterp spec fn json_str_field(s: Seq<char>, key: Seq<char>) -> Option<Seq<char>>;

/// The boolean twin of `json_str_field`.
pub uninterp spec fn json_bool_field(s: Seq<char>, key: Seq<char>) -> Option<bool>;

/// Relies on `serde_json::from_str::<Value>`, `Value::get` and
/// `Value::as_str`: reads the string field named `key` out of the JSON
/// document in `text`, deterministically in the text and key.
#[verifier::external_body]
pub(crate) fn text_str_field(text: &str, key: &str) -> (r: Option<String>)
    ensures
        (match r {
            Some(s) => json_str_field(text@, key@) == Some(s@),
            None => json_str_field(text@, key@) is None,
        }),
{
    match serde_json::from_str::<serde_json::Value>(text) {
        Ok(doc) => match doc.get(key) {
            Some(field) => match field.as_str() {
                Some(s) => Some(s.to_string()),
                None => None,
            },
            None => None,
        },
        Err(_) => None,
    }
}

/// Relies on `serde_json::from_str::<Value>`, `Value::get` and
/// `Value::as_bool`, as `text_str_field` relies on `get` and `as_str`.
#[verifier::external_body]
pub(crate) fn text_bool_field(text: &str, key: &str) -> (r: Option<bool>)
    ensures
        r == json_bool_field(text@, key@),
{
    match serde_json::from_str::<serde_json::Value>(text) {
        Ok(doc) => match doc.get(key) {
            Some(field) => field.as_bool(),
            None => None,
        },
        Err(_) => None,
    }
}

} // verus!
