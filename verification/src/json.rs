use vstd::prelude::*;

verus! {

#[verifier::external_type_specification]
#[verifier::external_body]
pub struct ExJsonValue(serde_json::Value);

/// What `serde_json::from_str` makes of `text`: the JSON value, or the parser's message.
pub uninterp spec fn json_document(text: Seq<char>) -> Result<serde_json::Value, Seq<char>>;

/// The parser's message when `text` is not a JSON document, `None` when it is.
pub open spec fn json_syntax_error(text: Seq<char>) -> Option<Seq<char>> {
    match json_document(text) {
        Ok(_) => None,
        Err(e) => Some(e),
    }
}

/// Parses a JSON document with `serde_json::from_str`, the error mapped to the parser's
/// message. The contract names the outcome, which is a function of the text alone.
#[verifier::external_body]
pub(crate) fn parse_json(text: &str) -> (r: Result<serde_json::Value, String>)
    ensures
        json_document(text@) == match r {
            Ok(v) => Ok::<serde_json::Value, Seq<char>>(v),
            Err(e) => Err::<serde_json::Value, Seq<char>>(e@),
        },
{
    serde_json::from_str::<serde_json::Value>(text).map_err(|error| error.to_string())
}

/// The member `key` of a JSON object; `None` when the value is not an object or has no such
/// member (`serde_json::Value::get` with a string key).
pub uninterp spec fn json_field(value: serde_json::Value, key: Seq<char>) -> Option<serde_json::Value>;

/// The elements of a JSON array; `None` when the value is not an array
/// (`serde_json::Value::as_array`).
pub uninterp spec fn json_items(value: serde_json::Value) -> Option<Seq<serde_json::Value>>;

/// The boolean a JSON value holds; `None` when it is not a boolean
/// (`serde_json::Value::as_bool`).
pub uninterp spec fn json_bool(value: serde_json::Value) -> Option<bool>;

/// The text a JSON string holds; `None` when the value is not a string
/// (`serde_json::Value::as_str`).
pub uninterp spec fn json_text(value: serde_json::Value) -> Option<Seq<char>>;

/// Calls `serde_json::Value::get` with a string key; the contract only names the answer.
#[verifier::external_body]
pub(crate) fn json_get<'a>(value: &'a serde_json::Value, key: &str) -> (r: Option<&'a serde_json::Value>)
    ensures
        json_field(*value, key@) == match r {
            Some(v) => Some(*v),
            None => None::<serde_json::Value>,
        },
{
    value.get(key)
}

/// Calls `serde_json::Value::as_array`; the contract only names the answer.
#[verifier::external_body]
pub(crate) fn json_as_array(value: &serde_json::Value) -> (r: Option<&Vec<serde_json::Value>>)
    ensures
        json_items(*value) == match r {
            Some(v) => Some(v@),
            None => None::<Seq<serde_json::Value>>,
        },
{
    value.as_array()
}

/// Calls `serde_json::Value::as_bool`; the contract only names the answer.
#[verifier::external_body]
pub(crate) fn json_as_bool(value: &serde_json::Value) -> (r: Option<bool>)
    ensures
        json_bool(*value) == r,
{
    value.as_bool()
}

/// Calls `serde_json::Value::as_str`; the contract only names the answer.
#[verifier::external_body]
pub(crate) fn json_as_str(value: &serde_json::Value) -> (r: Option<&str>)
    ensures
        json_text(*value) == match r {
            Some(s) => Some(s@),
            None => None::<Seq<char>>,
        },
{
    value.as_str()
}

/// The member `key` of an optional value.
pub open spec fn field_of(value: Option<serde_json::Value>, key: Seq<char>) -> Option<serde_json::Value> {
    match value {
        Some(v) => json_field(v, key),
        None => None,
    }
}

/// The elements of an optional value that is an array.
pub open spec fn items_of(value: Option<serde_json::Value>) -> Option<Seq<serde_json::Value>> {
    match value {
        Some(v) => json_items(v),
        None => None,
    }
}

/// The boolean of an optional value.
pub open spec fn bool_of(value: Option<serde_json::Value>) -> Option<bool> {
    match value {
        Some(v) => json_bool(v),
        None => None,
    }
}

/// The text of an optional value.
pub open spec fn text_of(value: Option<serde_json::Value>) -> Option<Seq<char>> {
    match value {
        Some(v) => json_text(v),
        None => None,
    }
}

/// The boolean member `key` of an object, `None` when it is missing or not a boolean.
pub fn bool_field(value: &serde_json::Value, key: &str) -> (r: Option<bool>)
    ensures
        r == bool_of(json_field(*value, key@)),
{
    match json_get(value, key) {
        Some(v) => json_as_bool(v),
        None => None,
    }
}

/// The string member `key` of an object, `None` when it is missing or not a string.
pub fn text_field(value: &serde_json::Value, key: &str) -> (r: Option<String>)
    ensures
        match text_of(json_field(*value, key@)) {
            Some(t) => r matches Some(s) && s@ == t,
            None => r is None,
        },
{
    match json_get(value, key) {
        Some(v) => match json_as_str(v) {
            Some(s) => Some(String::from_str(s)),
            None => None,
        },
        None => None,
    }
}

} // verus!
