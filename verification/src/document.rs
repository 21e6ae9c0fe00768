//! Documents: the schema-less JSON values that folders and papers are kept
//! as. The store reads two string fields of a document and nothing else; the
//! rest passes through it untouched.

use vstd::prelude::*;
use serde_json::Value;
use crate::error::StoreError;
use crate::file::{compress, decoded_text, decompress};

verus! {

/// `serde_json::Value`: a JSON value. The store sees into it only through
/// the functions below.
#[verifier::external_type_specification]
#[verifier::external_body]
pub struct ExValue(serde_json::Value);

/// `serde_json::Error`, the parser's error. Nothing is read out of it.
#[verifier::external_type_specification]
#[verifier::external_body]
pub struct ExJsonError(serde_json::Error);

/// The value that `serde_json::from_str` reads out of `text`, or `None`
/// where it reports an error.
pub uninterp spec fn json_parsed(text: Seq<char>) -> Option<Value>;

/// What `Value::get` finds under a string key: the member of that name if
/// the value is an object that has one.
pub uninterp spec fn json_member(value: Value, key: Seq<char>) -> Option<Value>;

/// What `Value::as_array` gives: the elements, if the value is an array.
pub uninterp spec fn json_elements(value: Value) -> Option<Seq<Value>>;

/// What `Value::as_str` gives: the characters, if the value is a string.
pub uninterp spec fn json_string(value: Value) -> Option<Seq<char>>;

/// The compact JSON text that `Value`'s `Display` prints.
pub uninterp spec fn json_text(value: Value) -> Seq<char>;

/// `serde_json::from_str` at type `Value`. Trusted: the outcome is a
/// function of the text.
#[verifier::external_body]
fn json_from_str(text: &str) -> (r: Result<Value, serde_json::Error>)
    ensures
        match r {
            Ok(value) => json_parsed(text@) == Some(value),
            Err(_) => json_parsed(text@) is None,
        },
{
    serde_json::from_str::<Value>(text)
}

/// `Value::get` with a string key. Trusted: the outcome is a function of
/// the value and the key.
#[verifier::external_body]
fn json_get<'a>(value: &'a Value, key: &str) -> (r: Option<&'a Value>)
    ensures
        match r {
            Some(member) => json_member(*value, key@) == Some(*member),
            None => json_member(*value, key@) is None,
        },
{
    value.get(key)
}

/// `Value::as_array`.
#[verifier::external_body]
fn json_as_array<'a>(value: &'a Value) -> (r: Option<&'a Vec<Value>>)
    ensures
        match r {
            Some(elements) => json_elements(*value) == Some(elements@),
            None => json_elements(*value) is None,
        },
{
    value.as_array()
}

/// `Value::as_str`.
#[verifier::external_body]
fn json_as_str<'a>(value: &'a Value) -> (r: Option<&'a str>)
    ensures
        match r {
            Some(text) => json_string(*value) == Some(text@),
            None => json_string(*value) is None,
        },
{
    value.as_str()
}

/// `Value::to_string`, that is its `Display`. Trusted: the text is a
/// function of the value.
#[verifier::external_body]
fn json_to_string(value: &Value) -> (text: String)
    ensures
        text@ == json_text(*value),
{
    value.to_string()
}

/// The string that `document` holds under `key`: `None` unless the document
/// is an object with such a member and the member is a string.
pub open spec fn string_member(document: Value, key: Seq<char>) -> Option<Seq<char>> {
    match json_member(document, key) {
        Some(member) => json_string(member),
        None => None,
    }
}

/// The elements of the array that `document` holds under `key`.
pub open spec fn array_member(document: Value, key: Seq<char>) -> Option<Seq<Value>> {
    match json_member(document, key) {
        Some(member) => json_elements(member),
        None => None,
    }
}

/// The document that a file's bytes hold.
pub open spec fn stored_document(bytes: Seq<u8>) -> Option<Value> {
    match decoded_text(bytes) {
        Some(text) => json_parsed(text),
        None => None,
    }
}

/// Reads the string field `key` of a document.
pub fn string_field<'a>(document: &'a Value, key: &str) -> (r: Option<&'a str>)
    ensures
        match r {
            Some(text) => string_member(*document, key@) == Some(text@),
            None => string_member(*document, key@) is None,
        },
{
    match json_get(document, key) {
        Some(member) => json_as_str(member),
        None => None,
    }
}

/// Reads the array field `key` of a document.
pub fn array_field<'a>(document: &'a Value, key: &str) -> (r: Option<&'a Vec<Value>>)
    ensures
        match r {
            Some(elements) => array_member(*document, key@) == Some(elements@),
            None => array_member(*document, key@) is None,
        },
{
    match json_get(document, key) {
        Some(member) => json_as_array(member),
        None => None,
    }
}

/// Parses the text of a document.
pub fn parse_document(text: &str) -> (r: Result<Value, StoreError>)
    ensures
        match r {
            Ok(document) => json_parsed(text@) == Some(document),
            Err(e) => e == StoreError::CorruptData && json_parsed(text@) is None,
        },
{
    match json_from_str(text) {
        Ok(document) => Ok(document),
        Err(_) => Err(StoreError::CorruptData),
    }
}

/// Turns the bytes of a `.dat` file into the document they hold.
pub fn decode_document(bytes: &[u8]) -> (r: Result<Value, StoreError>)
    ensures
        match r {
            Ok(document) => stored_document(bytes@) == Some(document),
            Err(e) => e == StoreError::CorruptData && stored_document(bytes@) is None,
        },
{
    match decompress(bytes) {
        Ok(text) => parse_document(text.as_str()),
        Err(e) => Err(e),
    }
}

/// Prints a document as compact JSON text.
pub fn document_text(document: &Value) -> (text: String)
    ensures
        text@ == json_text(*document),
{
    json_to_string(document)
}

/// Turns a document into the bytes of its `.dat` file: its compact JSON
/// text, compressed. Whatever comes out decodes to that text again.
pub fn encode_document(document: &Value) -> (r: Result<Vec<u8>, StoreError>)
    ensures
        match r {
            Ok(bytes) => decoded_text(bytes@) == Some(json_text(*document)),
            Err(e) => e == StoreError::Io,
        },
{
    let text = document_text(document);
    compress(text.as_str())
}

} // verus!
