//! JSON files.

use crate::error::ErrorKind;
use crate::extract::Extract;
use crate::extract::ExtractionError;
use crate::segmentation::section_texts;
use crate::text::same_text;
use vstd::prelude::*;

verus! {

/// The rule for JSON: every string value is a section of text, keys are not.
pub struct Json;

/// A JSON value. A number is kept without its value.
#[derive(Debug)]
pub enum JsonValue {
    Null,
    Bool(bool),
    Number,
    Text(String),
    Array(Vec<JsonValue>),
    /// The members of an object with their keys, in the order in which `serde_json`
    /// walks them.
    Object(Vec<(String, JsonValue)>),
}

/// `serde_json::Error`, taken as it comes: only its text is read.
#[verifier::external_type_specification]
#[verifier::external_body]
pub struct ExJsonError(serde_json::Error);

/// `serde_json::Value`, handed on to be copied.
#[verifier::external_type_specification]
#[verifier::external_body]
pub struct ExJsonValue(serde_json::Value);

/// The value that `serde_json` reads from some bytes; none where it rejects them.
pub uninterp spec fn json_document(buf: Seq<u8>) -> Option<JsonValue>;

/// Tells the variants of `serde_json::Value` apart and moves what they hold.
#[verifier::external_body]
fn json_value(value: serde_json::Value) -> JsonValue {
    match value {
        serde_json::Value::Null => JsonValue::Null,
        serde_json::Value::Bool(b) => JsonValue::Bool(b),
        serde_json::Value::Number(_) => JsonValue::Number,
        serde_json::Value::String(text) => JsonValue::Text(text),
        serde_json::Value::Array(items) => JsonValue::Array(
            items.into_iter().map(json_value).collect(),
        ),
        serde_json::Value::Object(members) => JsonValue::Object(
            members.into_iter().map(|(key, member)| (key, json_value(member))).collect(),
        ),
    }
}

/// Calls `serde_json::from_slice` for a `serde_json::Value`. Trusted: the value
/// depends on the bytes alone.
#[verifier::external_body]
fn parse_json(buf: &[u8]) -> (result: Result<JsonValue, serde_json::Error>)
    ensures
        match result {
            Ok(value) => json_document(buf@) == Some(value),
            Err(_) => json_document(buf@) is None,
        },
{
    serde_json::from_slice::<serde_json::Value>(buf).map(json_value)
}

/// The strings in a JSON value, in the order of the document: a string is itself,
/// an array and an object hold those of their items and members, any other value
/// holds none.
pub open spec fn json_texts(value: JsonValue) -> Seq<Seq<char>>
    decreases value, 0nat,
{
    match value {
        JsonValue::Text(text) => seq![text@],
        JsonValue::Array(items) => texts_of_items(items@, items@.len()),
        JsonValue::Object(members) => texts_of_members(members@, members@.len()),
        _ => Seq::empty(),
    }
}

/// The strings in the first `count` items of an array.
pub open spec fn texts_of_items(items: Seq<JsonValue>, count: nat) -> Seq<Seq<char>>
    decreases items, count,
{
    if count == 0 || count > items.len() {
        Seq::empty()
    } else {
        texts_of_items(items, (count - 1) as nat) + json_texts(items[count - 1])
    }
}

/// The strings in the first `count` members of an object.
pub open spec fn texts_of_members(members: Seq<(String, JsonValue)>, count: nat) -> Seq<
    Seq<char>,
>
    decreases members, count,
{
    if count == 0 || count > members.len() {
        Seq::empty()
    } else {
        texts_of_members(members, (count - 1) as nat) + json_texts(members[count - 1].1)
    }
}

/// The strings in a JSON value, in the order of the document.
pub fn extract_text_from_json_value(value: &JsonValue) -> (texts: Vec<String>)
    ensures
        section_texts(texts@) == json_texts(*value),
    decreases value,
{
    match value {
        JsonValue::Text(text) => {
            let texts = vec![text.clone()];
            assert(section_texts(texts@) =~= seq![text@]);
            texts
        },
        JsonValue::Array(items) => {
            let mut texts: Vec<String> = Vec::new();
            let mut i: usize = 0;
            assert(section_texts(texts@) =~= Seq::<Seq<char>>::empty());
            while i < items.len()
                invariant
                    i <= items.len(),
                    *value == JsonValue::Array(*items),
                    section_texts(texts@) == texts_of_items(items@, i as nat),
                decreases items.len() - i,
            {
                proof {
                    assert(decreases_to!(value => value->Array_0));
                    assert(decreases_to!(value->Array_0 => (value->Array_0)[i as int]));
                }
                let mut part = extract_text_from_json_value(&items[i]);
                let ghost before = texts@;
                let ghost added = part@;
                texts.append(&mut part);
                assert(section_texts(texts@) =~= section_texts(before) + section_texts(added));
                i += 1;
            }
            texts
        },
        JsonValue::Object(members) => {
            let mut texts: Vec<String> = Vec::new();
            let mut i: usize = 0;
            assert(section_texts(texts@) =~= Seq::<Seq<char>>::empty());
            while i < members.len()
                invariant
                    i <= members.len(),
                    *value == JsonValue::Object(*members),
                    section_texts(texts@) == texts_of_members(members@, i as nat),
                decreases members.len() - i,
            {
                proof {
                    assert(decreases_to!(value => value->Object_0));
                    assert(decreases_to!(value->Object_0 => (value->Object_0)[i as int]));
                    assert(decreases_to!((value->Object_0)[i as int] => (value->Object_0)[i as int].1));
                }
                let mut part = extract_text_from_json_value(&members[i].1);
                let ghost before = texts@;
                let ghost added = part@;
                texts.append(&mut part);
                assert(section_texts(texts@) =~= section_texts(before) + section_texts(added));
                i += 1;
            }
            texts
        },
        _ => {
            let texts: Vec<String> = Vec::new();
            assert(section_texts(texts@) =~= Seq::<Seq<char>>::empty());
            texts
        },
    }
}

/// What the rule extracts from the bytes of a JSON file.
pub open spec fn json_extraction(buf: Seq<u8>) -> Result<Seq<Seq<char>>, ErrorKind> {
    match json_document(buf) {
        Some(value) => Ok(json_texts(value)),
        None => Err(ErrorKind::MalformedMarkup),
    }
}

impl Extract for Json {
    open spec fn accepts(&self, buf: Seq<u8>, extension: Option<Seq<char>>) -> bool {
        extension == Some("json"@)
    }

    open spec fn yields(&self, buf: Seq<u8>, outcome: Result<Seq<Seq<char>>, ErrorKind>) -> bool {
        outcome == json_extraction(buf)
    }

    fn can_extract(&self, _buf: &[u8], extension: Option<&str>) -> (accepted: bool) {
        match extension {
            Some(x) => same_text(x, "json"),
            None => false,
        }
    }

    fn extract(&self, buf: &[u8]) -> (result: Result<Vec<String>, ExtractionError>) {
        match parse_json(buf) {
            Ok(value) => Ok(extract_text_from_json_value(&value)),
            Err(error) => Err(
                ExtractionError { kind: ErrorKind::MalformedMarkup, message: error.to_string() },
            ),
        }
    }
}

} // verus!
