//! JSON as this library sees it, and the calls into `serde_json` that
//! produce and read JSON text.
//!
//! [`JsonValue`] holds a parsed document as plain values. Parsing and
//! serialising are done by `serde_json`; what this module claims of those
//! calls is stated on the functions that make them and is believed, not
//! proved.

use crate::error::DecodeFailure;
use crate::text::{decimal, same_text};
use vstd::prelude::*;

verus! {

/// `serde_json::Error`, carried from a failed call to where it is turned
/// into a failure of this library; nothing is read from it.
#[verifier::external_type_specification]
#[verifier::external_body]
pub struct ExJsonError(serde_json::Error);

/// `serde_json::Value`, carried from the parser to the conversion into a
/// [`JsonValue`]; nothing else reads it.
#[verifier::external_type_specification]
#[verifier::external_body]
pub struct ExJsonValue(serde_json::Value);

/// A JSON value.
#[derive(Debug, PartialEq, Eq)]
pub enum JsonValue {
    Null,
    Bool(bool),
    /// A number; `Some(n)` where it is a non-negative integer that fits
    /// `u64`, `None` for a negative or fractional number.
    Number(Option<u64>),
    Text(String),
    Array(Vec<JsonValue>),
    /// The members of an object, as (name, value) entries.
    Object(Vec<(String, JsonValue)>),
}

/// The value of the last entry named `key`, if there is one.
pub open spec fn lookup(entries: Seq<(String, JsonValue)>, key: Seq<char>) -> Option<JsonValue>
    decreases entries.len(),
{
    if entries.len() == 0 {
        None
    } else if entries.last().0@ == key {
        Some(entries.last().1)
    } else {
        lookup(entries.drop_last(), key)
    }
}

impl JsonValue {
    /// The member named `key` of an object; `None` for a missing member and
    /// for a value that is no object.
    pub open spec fn member(self, key: Seq<char>) -> Option<JsonValue> {
        match self {
            JsonValue::Object(entries) => lookup(entries@, key),
            _ => None,
        }
    }

    /// The member named `key` of an object.
    pub fn get(&self, key: &str) -> (r: Option<&JsonValue>)
        ensures
            r is Some <==> self.member(key@) is Some,
            r matches Some(v) ==> self.member(key@) == Some(*v),
    {
        match self {
            JsonValue::Object(entries) => {
                let mut i: usize = entries.len();
                assert(entries@.take(i as int) =~= entries@);
                while i > 0
                    invariant
                        i <= entries.len(),
                        self.member(key@) == lookup(entries@.take(i as int), key@),
                    decreases i,
                {
                    i -= 1;
                    proof {
                        let upto = entries@.take(i + 1);
                        assert(upto.last() == entries@[i as int]);
                        assert(upto.drop_last() =~= entries@.take(i as int));
                    }
                    if same_text(entries[i].0.as_str(), key) {
                        return Some(&entries[i].1);
                    }
                }
                None
            },
            _ => None,
        }
    }
}

/// The decimal notations of `ids`, separated by commas.
pub open spec fn decimal_list(ids: Seq<u32>) -> Seq<char>
    decreases ids.len(),
{
    if ids.len() == 0 {
        Seq::empty()
    } else if ids.len() == 1 {
        decimal(ids[0] as nat)
    } else {
        decimal_list(ids.drop_last()) + seq![','] + decimal(ids.last() as nat)
    }
}

/// The compact JSON text of an object with the one member `name`, whose
/// value is the array of `ids`: `{"name":[1,2,3]}`, the name written as it
/// stands.
pub open spec fn member_text(name: Seq<char>, ids: Seq<u32>) -> Seq<char> {
    seq!['{', '"'] + name + seq!['"', ':', '['] + decimal_list(ids) + seq![']', '}']
}

/// Whether JSON writes the character inside a string as it stands: it is
/// neither a control character nor `"` nor `\`.
pub open spec fn is_plain_char(c: char) -> bool {
    (c as u32) >= 32 && c != '"' && c != '\\'
}

/// Whether JSON writes the text inside a string as it stands.
pub open spec fn is_plain(name: Seq<char>) -> bool {
    forall|i: int| 0 <= i < name.len() ==> is_plain_char(#[trigger] name[i])
}

/// The text that `serde_json::to_string` gives for an object with the one
/// member `name`, whose value is the array of `ids`.
pub uninterp spec fn json_member_text(name: Seq<char>, ids: Seq<u32>) -> Seq<char>;

/// The value that `serde_json::from_slice` reads from `bytes`, `None`
/// where it reports an error.
pub uninterp spec fn parsed_value(bytes: Seq<u8>) -> Option<serde_json::Value>;

/// The [`JsonValue`] that holds what a `serde_json::Value` holds.
pub uninterp spec fn value_tree(value: serde_json::Value) -> JsonValue;

/// The JSON fragment of a collection argument: the object with the one
/// member `name`. For a name that JSON writes as it stands this is
/// [`member_text`]; for any other name it is what `serde_json` writes.
pub open spec fn fragment_text(name: Seq<char>, ids: Seq<u32>) -> Seq<char> {
    if is_plain(name) {
        member_text(name, ids)
    } else {
        json_member_text(name, ids)
    }
}

/// The document that `bytes` hold, `None` where they are not JSON text.
pub open spec fn document(bytes: Seq<u8>) -> Option<JsonValue> {
    match parsed_value(bytes) {
        Some(value) => Some(value_tree(value)),
        None => None,
    }
}

/// Builds a `serde_json::Map` with the one entry `name`, whose value is
/// `serde_json::to_value` of `ids`, and serialises it with
/// `serde_json::to_string`.
///
/// Believed of the result:
/// * the call succeeds. Converting a list of numbers into a value has no
///   failing path. Serialising reports only what its writer reports, and
///   a key that is no string; the writer is a `Vec<u8>`, which reports
///   nothing, and the key is a `String`;
/// * the text depends on `name` and `ids` alone;
/// * for a name without control characters, `"` and `\`, which the
///   serialiser copies unescaped, the text is the compact
///   `{"name":[id,id,...]}` with the ids in decimal.
#[verifier::external_body]
fn member_to_string(name: &str, ids: &Vec<u32>) -> (r: Result<String, serde_json::Error>)
    ensures
        r is Ok,
        r matches Ok(text) ==> text@ == json_member_text(name@, ids@),
        r matches Ok(text) ==> (is_plain(name@) ==> text@ == member_text(name@, ids@)),
{
    let mut object = serde_json::Map::new();
    object.insert(name.to_owned(), serde_json::to_value(ids)?);
    serde_json::to_string(&object)
}

/// Calls `serde_json::from_slice` to read one JSON value from `bytes`.
///
/// Believed of the result: whether the call succeeds, and the value it
/// gives, depend on `bytes` alone.
#[verifier::external_body]
fn parse_value(bytes: &[u8]) -> (r: Result<serde_json::Value, serde_json::Error>)
    ensures
        r matches Ok(value) ==> parsed_value(bytes@) == Some(value),
        r is Err ==> parsed_value(bytes@) is None,
{
    serde_json::from_slice::<serde_json::Value>(bytes)
}

/// Moves the contents of a `serde_json::Value` into a [`JsonValue`],
/// variant by variant; a number through `serde_json::Number::as_u64`, an
/// object entry by entry in the order in which `serde_json::Map` hands
/// them out.
///
/// Believed of the result: it depends on `value` alone.
#[verifier::external_body]
fn tree_of_value(value: serde_json::Value) -> (r: JsonValue)
    ensures
        r == value_tree(value),
{
    match value {
        serde_json::Value::Null => JsonValue::Null,
        serde_json::Value::Bool(b) => JsonValue::Bool(b),
        serde_json::Value::Number(n) => JsonValue::Number(n.as_u64()),
        serde_json::Value::String(s) => JsonValue::Text(s),
        serde_json::Value::Array(items) => JsonValue::Array(
            items.into_iter().map(tree_of_value).collect(),
        ),
        serde_json::Value::Object(members) => JsonValue::Object(
            members.into_iter().map(|(k, v)| (k, tree_of_value(v))).collect(),
        ),
    }
}

/// The JSON fragment of a collection argument. There is one for every name
/// and every list of ids; the result is an `Option` because the serialiser
/// answers with a `Result`.
pub fn fragment(name: &str, ids: &Vec<u32>) -> (r: Option<String>)
    ensures
        r is Some,
        r matches Some(text) ==> text@ == fragment_text(name@, ids@),
{
    match member_to_string(name, ids) {
        Ok(text) => Some(text),
        Err(_) => None,
    }
}

/// Reads a JSON document from `bytes`.
pub fn parse(bytes: &[u8]) -> (r: Result<JsonValue, DecodeFailure>)
    ensures
        document(bytes@) matches Some(value) ==> r == Ok::<JsonValue, DecodeFailure>(value),
        document(bytes@) is None ==> r == Err::<JsonValue, DecodeFailure>(
            DecodeFailure::MalformedJson,
        ),
{
    match parse_value(bytes) {
        Ok(value) => Ok(tree_of_value(value)),
        Err(_) => Err(DecodeFailure::MalformedJson),
    }
}

} // verus!
