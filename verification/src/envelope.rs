//! The envelope decoder: from a response body to the payload inside its
//! envelope, and the readers for the fields of a payload.
//!
//! The service wraps every result in an object with one recognised
//! member. It omits fields of the result freely, so every reader here has
//! a default: a missing number is zero, a missing list is empty, a missing
//! optional value is absent. A field that is present with the wrong shape
//! is a decode failure.

use crate::error::DecodeFailure;
use crate::json::JsonValue;
use vstd::prelude::*;

verus! {

/// The payload inside the envelope of a document.
pub open spec fn payload_of(doc: JsonValue, key: Seq<char>) -> Result<JsonValue, DecodeFailure> {
    match doc.member(key) {
        Some(payload) => Ok(payload),
        None => Err(DecodeFailure::MissingEnvelope),
    }
}

/// A number field: zero where the field is missing.
pub open spec fn unsigned_of(field: Option<JsonValue>) -> Result<u64, DecodeFailure> {
    match field {
        None => Ok(0),
        Some(JsonValue::Number(Some(n))) => Ok(n),
        Some(_) => Err(DecodeFailure::UnexpectedShape),
    }
}

/// An optional number field: absent where the field is missing or null.
pub open spec fn optional_unsigned_of(field: Option<JsonValue>) -> Result<
    Option<u64>,
    DecodeFailure,
> {
    match field {
        None => Ok(None),
        Some(JsonValue::Null) => Ok(None),
        Some(JsonValue::Number(Some(n))) => Ok(Some(n)),
        Some(_) => Err(DecodeFailure::UnexpectedShape),
    }
}

/// An optional text field: absent where the field is missing or null.
pub open spec fn optional_text_of(field: Option<JsonValue>) -> Result<
    Option<Seq<char>>,
    DecodeFailure,
> {
    match field {
        None => Ok(None),
        Some(JsonValue::Null) => Ok(None),
        Some(JsonValue::Text(text)) => Ok(Some(text@)),
        Some(_) => Err(DecodeFailure::UnexpectedShape),
    }
}

/// A list field: empty where the field is missing.
pub open spec fn items_of(field: Option<JsonValue>) -> Result<Seq<JsonValue>, DecodeFailure> {
    match field {
        None => Ok(Seq::empty()),
        Some(JsonValue::Array(items)) => Ok(items@),
        Some(_) => Err(DecodeFailure::UnexpectedShape),
    }
}

/// An optional text, as its characters.
pub open spec fn text_view(text: Option<String>) -> Option<Seq<char>> {
    match text {
        Some(s) => Some(s@),
        None => None,
    }
}

/// A document that is no object has no envelope, whatever the key: an
/// array at the top is a decode failure.
pub proof fn lemma_envelope_needs_object(doc: JsonValue, key: Seq<char>)
    requires
        !(doc is Object),
    ensures
        payload_of(doc, key) == Err::<JsonValue, DecodeFailure>(DecodeFailure::MissingEnvelope),
{
}

/// Takes the payload out of the envelope of a document.
pub fn open_envelope<'a>(doc: &'a JsonValue, key: &str) -> (r: Result<
    &'a JsonValue,
    DecodeFailure,
>)
    ensures
        r matches Ok(payload) ==> payload_of(*doc, key@) == Ok::<JsonValue, DecodeFailure>(
            *payload,
        ),
        r matches Err(failure) ==> payload_of(*doc, key@) == Err::<JsonValue, DecodeFailure>(
            failure,
        ),
{
    match doc.get(key) {
        Some(payload) => Ok(payload),
        None => Err(DecodeFailure::MissingEnvelope),
    }
}

/// Reads a number field of `object`.
pub fn unsigned_field(object: &JsonValue, key: &str) -> (r: Result<u64, DecodeFailure>)
    ensures
        r == unsigned_of(object.member(key@)),
{
    match object.get(key) {
        None => Ok(0),
        Some(JsonValue::Number(Some(n))) => Ok(*n),
        Some(_) => Err(DecodeFailure::UnexpectedShape),
    }
}

/// Reads an optional number field of `object`.
pub fn optional_unsigned_field(object: &JsonValue, key: &str) -> (r: Result<
    Option<u64>,
    DecodeFailure,
>)
    ensures
        r == optional_unsigned_of(object.member(key@)),
{
    match object.get(key) {
        None => Ok(None),
        Some(JsonValue::Null) => Ok(None),
        Some(JsonValue::Number(Some(n))) => Ok(Some(*n)),
        Some(_) => Err(DecodeFailure::UnexpectedShape),
    }
}

/// Reads an optional text field of `object`.
pub fn optional_text_field(object: &JsonValue, key: &str) -> (r: Result<
    Option<String>,
    DecodeFailure,
>)
    ensures
        r matches Ok(text) ==> optional_text_of(object.member(key@)) == Ok::<
            Option<Seq<char>>,
            DecodeFailure,
        >(text_view(text)),
        r matches Err(failure) ==> optional_text_of(object.member(key@)) == Err::<
            Option<Seq<char>>,
            DecodeFailure,
        >(failure),
{
    match object.get(key) {
        None => Ok(None),
        Some(JsonValue::Null) => Ok(None),
        Some(JsonValue::Text(text)) => Ok(Some(text.clone())),
        Some(_) => Err(DecodeFailure::UnexpectedShape),
    }
}

/// Reads a list field of `object`; `None` stands for the empty list of a
/// missing field.
pub fn items_field<'a>(object: &'a JsonValue, key: &str) -> (r: Result<
    Option<&'a Vec<JsonValue>>,
    DecodeFailure,
>)
    ensures
        r matches Ok(Some(items)) ==> items_of(object.member(key@)) == Ok::<
            Seq<JsonValue>,
            DecodeFailure,
        >(items@),
        r matches Ok(None) ==> object.member(key@) is None,
        r matches Err(failure) ==> items_of(object.member(key@)) == Err::<
            Seq<JsonValue>,
            DecodeFailure,
        >(failure),
{
    match object.get(key) {
        None => Ok(None),
        Some(JsonValue::Array(items)) => Ok(Some(items)),
        Some(_) => Err(DecodeFailure::UnexpectedShape),
    }
}

} // verus!
