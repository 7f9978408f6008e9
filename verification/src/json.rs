//! Reading text out of JSON values.

use serde_json::Value;
use vstd::prelude::*;
use vstd::string::StringExecFns;

verus! {

#[verifier::external_type_specification]
#[verifier::external_body]
pub struct ExValue(Value);

/// The member that a JSON value has under `key`: that member where the value
/// is an object with such a key, and none otherwise.
pub uninterp spec fn json_member(json: Value, key: Seq<char>) -> Option<Value>;

/// The text of a JSON value: its characters where the value is a string, and
/// none otherwise.
pub uninterp spec fn json_text(json: Value) -> Option<Seq<char>>;

/// `Value::get` with a string key: the member under that key.
#[verifier::external_body]
pub(crate) fn value_get<'a>(json: &'a Value, key: &str) -> (member: Option<&'a Value>)
    ensures
        match member {
            Some(value) => json_member(*json, key@) == Some(*value),
            None => json_member(*json, key@) is None,
        },
{
    json.get(key)
}

/// `Value::as_str`: the text of a string value.
#[verifier::external_body]
pub(crate) fn value_as_str<'a>(json: &'a Value) -> (text: Option<&'a str>)
    ensures
        match text {
            Some(t) => json_text(*json) == Some(t@),
            None => json_text(*json) is None,
        },
{
    json.as_str()
}

/// What a JSON object says under one key, read as text.
#[derive(Debug, PartialEq, Eq)]
pub enum JsonField {
    /// The object has no such key, or the value is no object.
    Absent,
    /// There is a member under the key, and it is not a string.
    NotText,
    /// The member under the key is this string.
    Text(String),
}

/// What a `JsonField` holds, as mathematical values.
pub enum JsonFieldView {
    Absent,
    NotText,
    Text(Seq<char>),
}

impl View for JsonField {
    type V = JsonFieldView;

    open spec fn view(&self) -> JsonFieldView {
        match self {
            JsonField::Absent => JsonFieldView::Absent,
            JsonField::NotText => JsonFieldView::NotText,
            JsonField::Text(text) => JsonFieldView::Text(text@),
        }
    }
}

/// What `json` says under `key`, read as text.
pub open spec fn json_field(json: Value, key: Seq<char>) -> JsonFieldView {
    match json_member(json, key) {
        None => JsonFieldView::Absent,
        Some(member) => match json_text(member) {
            Some(text) => JsonFieldView::Text(text),
            None => JsonFieldView::NotText,
        },
    }
}

/// Reads what `json` says under `key` as text.
pub fn text_field(json: &Value, key: &str) -> (field: JsonField)
    ensures
        field@ == json_field(*json, key@),
{
    match value_get(json, key) {
        None => JsonField::Absent,
        Some(member) => match value_as_str(member) {
            Some(text) => JsonField::Text(String::from_str(text)),
            None => JsonField::NotText,
        },
    }
}

} // verus!
