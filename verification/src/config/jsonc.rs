//! Parsing and printing JSON and JSONC documents.
//!
//! The parsing and printing themselves are done by `jsonc_parser` and
//! `serde_json`; the functions here carry their results across as
//! `JsonValue` trees and give them names.
use vstd::prelude::*;

use crate::error::AppError;
use crate::json::{Json, JsonValue};

verus! {

/// The JSON value type of `serde_json`, only carried through here.
#[verifier::external_type_specification]
#[verifier::external_body]
pub struct ExSerdeValue(serde_json::Value);

/// Converts a `serde_json` value into a `JsonValue`, member for member; a
/// number keeps the text `serde_json` prints for it.
#[verifier::external_body]
fn from_serde(v: serde_json::Value) -> JsonValue {
    match v {
        serde_json::Value::Null => JsonValue::Null,
        serde_json::Value::Bool(b) => JsonValue::Bool(b),
        serde_json::Value::Number(n) => JsonValue::Number(n.to_string()),
        serde_json::Value::String(s) => JsonValue::Str(s),
        serde_json::Value::Array(a) => JsonValue::Array(a.into_iter().map(from_serde).collect()),
        serde_json::Value::Object(m) => JsonValue::Object(
            m.into_iter().map(|(k, x)| (k, from_serde(x))).collect(),
        ),
    }
}

/// Converts a `JsonValue` into a `serde_json` value, inserting the members
/// of an object in order (so a later member replaces an earlier one with
/// the same key); a number's text is read back as a `serde_json` number.
#[verifier::external_body]
fn to_serde(v: &JsonValue) -> serde_json::Value {
    match v {
        JsonValue::Null => serde_json::Value::Null,
        JsonValue::Bool(b) => serde_json::Value::Bool(*b),
        JsonValue::Number(t) => match t.parse::<serde_json::Number>() {
            Ok(n) => serde_json::Value::Number(n),
            Err(_) => serde_json::Value::String(t.clone()),
        },
        JsonValue::Str(s) => serde_json::Value::String(s.clone()),
        JsonValue::Array(a) => serde_json::Value::Array(a.iter().map(to_serde).collect()),
        JsonValue::Object(m) => serde_json::Value::Object(
            m.iter().map(|(k, x)| (k.clone(), to_serde(x))).collect(),
        ),
    }
}

/// What `jsonc_parser` makes of a text: the document's value (none for a
/// text without any value), or the parser's error message.
pub uninterp spec fn spec_jsonc_parse(text: Seq<char>) -> Result<Option<Json>, Seq<char>>;

/// What `serde_json::from_str` makes of a text: the value, or the error
/// message.
pub uninterp spec fn spec_json_parse(text: Seq<char>) -> Result<Json, Seq<char>>;

/// The compact text `serde_json::to_string` prints for a value.
pub uninterp spec fn spec_json_compact(v: Json) -> Seq<char>;

/// The indented text `serde_json::to_string_pretty` prints for a value.
pub uninterp spec fn spec_json_pretty(v: Json) -> Seq<char>;

/// Calls `jsonc_parser::parse_to_serde_value` with the default options
/// (comments, loose property names and trailing commas allowed).  The
/// contract names the outcome and says nothing more of it.
#[verifier::external_body]
fn jsonc_parse_text(text: &str) -> (r: Result<Option<JsonValue>, String>)
    ensures
        match r {
            Ok(Some(v)) => spec_jsonc_parse(text@) == Ok::<Option<Json>, Seq<char>>(Some(v@)),
            Ok(None) => spec_jsonc_parse(text@) == Ok::<Option<Json>, Seq<char>>(None),
            Err(e) => spec_jsonc_parse(text@) == Err::<Option<Json>, Seq<char>>(e@),
        },
{
    match jsonc_parser::parse_to_serde_value(text, &Default::default()) {
        Ok(v) => Ok(v.map(from_serde)),
        Err(e) => Err(e.to_string()),
    }
}

/// Calls `serde_json::from_str` for a `serde_json::Value`.  The contract
/// names the outcome and says nothing more of it.
#[verifier::external_body]
fn json_parse_text(text: &str) -> (r: Result<JsonValue, String>)
    ensures
        match r {
            Ok(v) => spec_json_parse(text@) == Ok::<Json, Seq<char>>(v@),
            Err(e) => spec_json_parse(text@) == Err::<Json, Seq<char>>(e@),
        },
{
    match serde_json::from_str::<serde_json::Value>(text) {
        Ok(v) => Ok(from_serde(v)),
        Err(e) => Err(e.to_string()),
    }
}

/// Calls `serde_json::to_string`.  Printing a JSON value cannot fail (all
/// its keys are strings), so the text is returned as is.  The contract names
/// the text; since `serde_json` keeps object members ordered by key, the
/// text depends only on the members, not on their order.
#[verifier::external_body]
pub(crate) fn json_compact_text(v: &JsonValue) -> (r: String)
    ensures
        r@ == spec_json_compact(v@),
{
    serde_json::to_string(&to_serde(v)).unwrap_or_default()
}

/// Calls `serde_json::to_string_pretty`, which cannot fail for a JSON
/// value.  The contract names the text and says nothing more of it.
#[verifier::external_body]
fn json_pretty_text(v: &JsonValue) -> (r: String)
    ensures
        r@ == spec_json_pretty(v@),
{
    serde_json::to_string_pretty(&to_serde(v)).unwrap_or_default()
}

/// The outcome of parsing a JSONC text, as the library reports it.
pub open spec fn spec_parse_jsonc(text: Seq<char>) -> Result<Json, AppErrorView> {
    match spec_jsonc_parse(text) {
        Ok(Some(v)) => Ok(v),
        Ok(None) => Err(AppErrorView::JsoncParse("空文档"@)),
        Err(e) => Err(AppErrorView::JsoncParse(e)),
    }
}

/// The errors the JSON functions report, by kind and text.
pub enum AppErrorView {
    JsoncParse(Seq<char>),
    InvalidJson(Seq<char>),
}

/// Whether an application error is the given JSON error.
pub open spec fn is_error(e: AppError, v: AppErrorView) -> bool {
    match v {
        AppErrorView::JsoncParse(t) => e matches AppError::JsoncParse { path } && path@ == t,
        AppErrorView::InvalidJson(t) => e matches AppError::InvalidJson { path } && path@ == t,
    }
}

/// Parses a JSONC text (JSON with comments and trailing commas) into a
/// value.  A parse failure is reported as `JsoncParse` with the parser's
/// message; a text holding no value at all as `JsoncParse` with "空文档".
pub fn parse_jsonc(s: &str) -> (r: Result<JsonValue, AppError>)
    ensures
        match (r, spec_parse_jsonc(s@)) {
            (Ok(v), Ok(m)) => v@ == m,
            (Err(e), Err(ev)) => is_error(e, ev),
            _ => false,
        },
{
    match jsonc_parse_text(s) {
        Ok(Some(v)) => Ok(v),
        Ok(None) => Err(AppError::JsoncParse { path: String::from_str("空文档") }),
        Err(e) => Err(AppError::from_jsonc_error(&e)),
    }
}

/// Parses a strict JSON text into a value; a failure is reported as
/// `InvalidJson` with the parser's message.
pub fn parse_json(s: &str) -> (r: Result<JsonValue, AppError>)
    ensures
        match (r, spec_json_parse(s@)) {
            (Ok(v), Ok(m)) => v@ == m,
            (Err(e), Err(msg)) => is_error(e, AppErrorView::InvalidJson(msg)),
            _ => false,
        },
{
    match json_parse_text(s) {
        Ok(v) => Ok(v),
        Err(e) => Err(AppError::from_json_error(&e)),
    }
}

/// Removes the comments (and trailing commas) of a JSONC text: the compact
/// JSON text of its value.
pub fn strip_jsonc_comments(s: &str) -> (r: Result<String, AppError>)
    ensures
        match (r, spec_parse_jsonc(s@)) {
            (Ok(t), Ok(m)) => t@ == spec_json_compact(m),
            (Err(e), Err(ev)) => is_error(e, ev),
            _ => false,
        },
{
    let value = parse_jsonc(s)?;
    Ok(json_compact_text(&value))
}

/// The indented JSON text of a value.  Printing a JSON value cannot fail.
pub fn pretty_json(value: &JsonValue) -> (r: Result<String, AppError>)
    ensures
        r matches Ok(t) && t@ == spec_json_pretty(value@),
{
    Ok(json_pretty_text(value))
}

/// The indented JSON text of a value (the text written into files).
pub fn pretty_json_text(value: &JsonValue) -> (r: String)
    ensures
        r@ == spec_json_pretty(value@),
{
    json_pretty_text(value)
}

} // verus!
