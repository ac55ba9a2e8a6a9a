//! Documents as text: JSON and YAML, read and written by `serde_json` and
//! `serde_yaml`.
//!
//! A `serde_json::Value` is opaque here. It is known by [`doc_text`], the
//! compact JSON text it is written as, and everything this module states of
//! the outside crates is stated over that text.

use vstd::prelude::*;
use serde_json::Value as Doc;
use crate::error::ErrorStruct;
use crate::value::Json;
use crate::value::JsonView;
use crate::value::Number;

verus! {

/// `serde_json::Value`, which is carried through without being looked
/// into.
#[verifier::external_type_specification]
#[verifier::external_body]
pub struct ExDocument(serde_json::Value);

/// What an outside document holds: the compact JSON text that `serde_json`
/// writes it as.
pub uninterp spec fn doc_text(doc: serde_json::Value) -> Seq<char>;

/// The compact JSON text of a document of this library.
pub uninterp spec fn json_text(v: JsonView) -> Seq<char>;

/// The document of this library that an outside document with the given
/// text is read as.
pub uninterp spec fn json_read(text: Seq<char>) -> JsonView;

/// The document that `serde_json::from_str` reads from a text, by its
/// compact text; `None` where the text is not JSON.
pub uninterp spec fn json_parsed(text: Seq<char>) -> Option<Seq<char>>;

/// The document that `serde_yaml::from_str` reads from a text, by its
/// compact JSON text; `None` where the text is not YAML for a JSON document.
pub uninterp spec fn yaml_parsed(text: Seq<char>) -> Option<Seq<char>>;

/// Builds the `serde_json::Value` for a document, variant by variant. Of the
/// result it claims only that its text depends on nothing but the content of
/// `v`: members are collected into `serde_json::Map`, in which a later member
/// of the same key replaces the earlier one, and a float is read from its
/// text by `Number::from_str` (`Null` where that fails).
#[verifier::external_body]
pub(crate) fn to_json(v: &Json) -> (doc: serde_json::Value)
    ensures
        doc_text(doc) == json_text(v@),
{
    match v {
        Json::Null => Doc::Null,
        Json::Bool(b) => (*b).into(),
        Json::Number(Number::PosInt(n)) => (*n).into(),
        Json::Number(Number::NegInt(n)) => (*n).into(),
        Json::Number(Number::Float(t)) => t.parse::<serde_json::Number>().map_or(Doc::Null, Into::into),
        Json::String(s) => s.clone().into(),
        Json::Array(a) => a.iter().map(to_json).collect(),
        Json::Object(m) => m.iter().map(|e| (e.0.clone(), to_json(&e.1))).collect(),
    }
}

/// Reads a `serde_json::Value` into a document, variant by variant; a number
/// by `Number::as_u64`, else `as_i64`, else its text. It claims only that the
/// result's content depends on nothing but the text of `doc`.
#[verifier::external_body]
pub(crate) fn from_json(doc: &serde_json::Value) -> (v: Json)
    ensures
        v@ == json_read(doc_text(*doc)),
{
    match doc {
        Doc::Null => Json::Null,
        Doc::Bool(b) => Json::Bool(*b),
        Doc::Number(n) => Json::Number(match (n.as_u64(), n.as_i64()) {
            (Some(u), _) => Number::PosInt(u),
            (_, Some(i)) => Number::NegInt(i),
            _ => Number::Float(n.to_string()),
        }),
        Doc::String(s) => Json::String(s.clone()),
        Doc::Array(a) => Json::Array(a.iter().map(from_json).collect()),
        Doc::Object(m) => Json::Object(m.iter().map(|e| (e.0.clone(), from_json(e.1))).collect()),
    }
}

/// `serde_json::Value`'s `Display`: the compact JSON text, which is what
/// [`doc_text`] names.
#[verifier::external_body]
pub(crate) fn doc_to_string(doc: &serde_json::Value) -> (text: String)
    ensures
        text@ == doc_text(*doc),
{
    doc.to_string()
}

/// `serde_json::from_str`: the document that a JSON text holds, or the
/// parser's message.
#[verifier::external_body]
pub(crate) fn doc_from_str(text: &str) -> (r: Result<serde_json::Value, String>)
    ensures
        match r {
            Ok(doc) => json_parsed(text@) == Some(doc_text(doc)),
            Err(_) => json_parsed(text@) is None,
        },
{
    match serde_json::from_str::<serde_json::Value>(text) {
        Ok(doc) => Ok(doc),
        Err(e) => Err(e.to_string()),
    }
}

/// `serde_yaml::from_str`, asked for a `serde_json::Value`: the document that
/// a YAML text holds, or the parser's message.
#[verifier::external_body]
pub(crate) fn doc_from_yaml(text: &str) -> (r: Result<serde_json::Value, String>)
    ensures
        match r {
            Ok(doc) => yaml_parsed(text@) == Some(doc_text(doc)),
            Err(_) => yaml_parsed(text@) is None,
        },
{
    match serde_yaml::from_str::<serde_json::Value>(text) {
        Ok(doc) => Ok(doc),
        Err(e) => Err(e.to_string()),
    }
}

/// What [`from_str`] returns for a text: the document read, if the text is
/// JSON.
pub open spec fn json_from_text(text: Seq<char>) -> Option<JsonView> {
    match json_parsed(text) {
        Some(t) => Some(json_read(t)),
        None => None,
    }
}

/// What [`from_yaml`] returns for a text: the document read, if the text is
/// YAML for a JSON document.
pub open spec fn json_from_yaml(text: Seq<char>) -> Option<JsonView> {
    match yaml_parsed(text) {
        Some(t) => Some(json_read(t)),
        None => None,
    }
}

/// The compact JSON text of a document.
pub fn to_string(v: &Json) -> (text: String)
    ensures
        text@ == json_text(v@),
{
    let doc = to_json(v);
    doc_to_string(&doc)
}

/// Reads a document from JSON text. Text that is not JSON is refused with
/// the code `json`.
pub fn from_str(text: &str) -> (r: Result<Json, ErrorStruct>)
    ensures
        match r {
            Ok(v) => json_from_text(text@) == Some(v@),
            Err(e) => json_from_text(text@) is None && e@.code == "json"@ && e@.cause is None,
        },
{
    match doc_from_str(text) {
        Ok(doc) => Ok(from_json(&doc)),
        Err(message) => Err(ErrorStruct::new("json", message.as_str())),
    }
}

/// Reads a document from YAML text. Text that is not YAML for a JSON
/// document is refused with the code `yaml`.
pub fn from_yaml(text: &str) -> (r: Result<Json, ErrorStruct>)
    ensures
        match r {
            Ok(v) => json_from_yaml(text@) == Some(v@),
            Err(e) => json_from_yaml(text@) is None && e@.code == "yaml"@ && e@.cause is None,
        },
{
    match doc_from_yaml(text) {
        Ok(doc) => Ok(from_json(&doc)),
        Err(message) => Err(ErrorStruct::new("yaml", message.as_str())),
    }
}

} // verus!
