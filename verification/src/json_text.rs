use vstd::prelude::*;

use crate::json::{json_view, json_wf, Json, JsonV, Member};

verus! {

#[verifier::external_type_specification]
#[verifier::external_body]
pub struct ExValue(serde_json::Value);

/// What `serde_json::from_str::<serde_json::Value>` makes of a line: the
/// document it holds, or `None` when the line is not JSON.
pub uninterp spec fn parsed_line(line: Seq<char>) -> Option<JsonV>;

/// The text that `serde_json::Value`'s `Display` writes for a document.
pub uninterp spec fn json_line(j: JsonV) -> Seq<char>;

/// Moves a `serde_json::Value` into the library's model, variant by variant;
/// a number keeps the text that `serde_json` writes for it.
#[verifier::external_body]
fn value_to_json(value: serde_json::Value) -> Json {
    match value {
        serde_json::Value::Null => Json::Null,
        serde_json::Value::Bool(b) => Json::Bool(b),
        serde_json::Value::Number(n) => Json::Number(n.to_string()),
        serde_json::Value::String(s) => Json::Str(s),
        serde_json::Value::Array(items) => Json::Array(items.into_iter().map(value_to_json).collect()),
        serde_json::Value::Object(map) => Json::Object(
            map.into_iter().map(|(key, value)| Member { key, value: value_to_json(value) }).collect(),
        ),
    }
}

/// Moves the library's model into a `serde_json::Value`, variant by variant.
/// A number's text is read with `serde_json::Number`'s `FromStr`; text that
/// it refuses becomes a string.
#[verifier::external_body]
fn json_to_value(json: &Json) -> serde_json::Value {
    match json {
        Json::Null => serde_json::Value::Null,
        Json::Bool(b) => serde_json::Value::Bool(*b),
        Json::Number(text) => match text.parse::<serde_json::Number>() {
            Ok(n) => serde_json::Value::Number(n),
            Err(_) => serde_json::Value::String(text.clone()),
        },
        Json::Str(s) => serde_json::Value::String(s.clone()),
        Json::Array(items) => serde_json::Value::Array(items.iter().map(json_to_value).collect()),
        Json::Object(members) => serde_json::Value::Object(
            members.iter().map(|m| (m.key.clone(), json_to_value(&m.value))).collect(),
        ),
    }
}

/// `serde_json::from_str::<serde_json::Value>` on one line, moved into the
/// library's model. The result depends on the line alone; which document a
/// line holds is left unsaid, except that a parsed object names each key
/// once (`serde_json::Map` keeps one value per key).
#[verifier::external_body]
pub fn parse_line(line: &str) -> (res: Option<Json>)
    ensures
        match res {
            Some(j) => parsed_line(line@) == Some(json_view(j)) && json_wf(json_view(j)),
            None => parsed_line(line@) is None,
        },
{
    match serde_json::from_str::<serde_json::Value>(line) {
        Ok(value) => Some(value_to_json(value)),
        Err(_) => None,
    }
}

/// One line of JSON for a document, as `serde_json::Value`'s `Display`
/// writes it. The result depends on the document alone; the text itself is
/// left unsaid.
#[verifier::external_body]
pub fn to_line(json: &Json) -> (text: String)
    ensures
        text@ == json_line(json_view(*json)),
{
    json_to_value(json).to_string()
}

} // verus!
