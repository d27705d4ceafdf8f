//! The JSON text of tool-call arguments, through `serde_json`.

use vstd::prelude::*;

use crate::text::{is_blank, trim_seq};

verus! {

/// `serde_json`'s compact re-serialization of the JSON value that `text`
/// parses to; `None` when `text` is not JSON.
pub uninterp spec fn json_compact_of(text: Seq<char>) -> Option<Seq<char>>;

/// Parses `text` with `serde_json::from_str` into a `serde_json::Value` and
/// writes it back with `Value`'s `Display` (compact form). The contract
/// claims only that the outcome is a function of `text`.
#[verifier::external_body]
fn json_compact(text: &str) -> (r: Option<String>)
    ensures
        match r {
            Some(c) => json_compact_of(text@) == Some(c@),
            None => json_compact_of(text@) is None,
        },
{
    serde_json::from_str::<serde_json::Value>(text).ok().map(|v| v.to_string())
}

/// The JSON input of a tool call assembled from streamed argument text:
/// `{}` when nothing but whitespace arrived, `null` when the text is not
/// JSON.
pub open spec fn tool_input_text(args: Seq<char>) -> Seq<char> {
    if trim_seq(args).len() == 0 {
        "{}"@
    } else {
        match json_compact_of(args) {
            Some(c) => c,
            None => "null"@,
        }
    }
}

pub fn tool_input_json(args: &str) -> (r: String)
    ensures
        r@ == tool_input_text(args@),
{
    if is_blank(args) {
        "{}".to_owned()
    } else {
        match json_compact(args) {
            Some(c) => c,
            None => "null".to_owned(),
        }
    }
}

} // verus!

verus! {

/// The kind of a JSON value.
#[derive(Debug, Clone, Copy, PartialEq, Eq, Structural)]
pub enum JsonKind {
    Null,
    Bool,
    Number,
    Str,
    Array,
    Object,
}

/// The kind of the value that the JSON Pointer `pointer` selects in the
/// JSON document `text` (the whole document for the empty pointer); `None`
/// when `text` is not JSON or nothing is there.
pub uninterp spec fn json_kind_at_of(text: Seq<char>, pointer: Seq<char>) -> Option<JsonKind>;

/// The string that `pointer` selects in `text`, when it selects a string.
pub uninterp spec fn json_str_at_of(text: Seq<char>, pointer: Seq<char>) -> Option<Seq<char>>;

/// The unsigned integer that `pointer` selects in `text`, when it selects a
/// number that `serde_json` reads as a `u64`.
pub uninterp spec fn json_u64_at_of(text: Seq<char>, pointer: Seq<char>) -> Option<u64>;

/// The length of the array that `pointer` selects in `text`, when it
/// selects an array.
pub uninterp spec fn json_array_len_at_of(text: Seq<char>, pointer: Seq<char>) -> Option<usize>;

/// `serde_json::from_str::<Value>` then `Value::pointer`, telling the
/// selected value's variant. The contract claims only that the outcome is a
/// function of `text` and `pointer`.
#[verifier::external_body]
pub(crate) fn json_kind_at(text: &str, pointer: &str) -> (r: Option<JsonKind>)
    ensures
        r == json_kind_at_of(text@, pointer@),
{
    let v: serde_json::Value = serde_json::from_str(text).ok()?;
    match v.pointer(pointer)? {
        serde_json::Value::Null => Some(JsonKind::Null),
        serde_json::Value::Bool(_) => Some(JsonKind::Bool),
        serde_json::Value::Number(_) => Some(JsonKind::Number),
        serde_json::Value::String(_) => Some(JsonKind::Str),
        serde_json::Value::Array(_) => Some(JsonKind::Array),
        serde_json::Value::Object(_) => Some(JsonKind::Object),
    }
}

/// `serde_json::from_str::<Value>`, `Value::pointer`, then `Value::as_str`.
/// The contract claims only that the outcome is a function of the
/// arguments.
#[verifier::external_body]
pub(crate) fn json_str_at(text: &str, pointer: &str) -> (r: Option<String>)
    ensures
        match r {
            Some(s) => json_str_at_of(text@, pointer@) == Some(s@),
            None => json_str_at_of(text@, pointer@) is None,
        },
{
    let v: serde_json::Value = serde_json::from_str(text).ok()?;
    v.pointer(pointer)?.as_str().map(str::to_owned)
}

/// `serde_json::from_str::<Value>`, `Value::pointer`, then `Value::as_u64`.
/// The contract claims only that the outcome is a function of the
/// arguments.
#[verifier::external_body]
pub(crate) fn json_u64_at(text: &str, pointer: &str) -> (r: Option<u64>)
    ensures
        r == json_u64_at_of(text@, pointer@),
{
    let v: serde_json::Value = serde_json::from_str(text).ok()?;
    v.pointer(pointer)?.as_u64()
}

/// `serde_json::from_str::<Value>`, `Value::pointer`, then `Value::as_array`
/// and the array's length. The contract claims only that the outcome is a
/// function of the arguments.
#[verifier::external_body]
pub(crate) fn json_array_len_at(text: &str, pointer: &str) -> (r: Option<usize>)
    ensures
        r == json_array_len_at_of(text@, pointer@),
{
    let v: serde_json::Value = serde_json::from_str(text).ok()?;
    v.pointer(pointer)?.as_array().map(Vec::len)
}

} // verus!
