//! JSON documents as carried in message payloads.
//!
//! Payloads are `serde_json::Value` trees. Verified code never looks inside
//! one directly: it reads them through the accessors below, whose contracts
//! are stated over [`JsonModel`], the mathematical shape of a document.

use crate::text::opt_str_view;
use vstd::prelude::*;

verus! {

#[verifier::external_type_specification]
#[verifier::external_body]
pub struct ExJsonValue(serde_json::Value);

/// The mathematical shape of a JSON document.
///
/// Numbers are split in two: integers (everything `serde_json` stores as an
/// unsigned or a negative signed integer) and fractions, of which only their
/// presence is recorded.
pub enum JsonModel {
    Null,
    Bool(bool),
    Integer(int),
    Fraction,
    Text(Seq<char>),
    Array(Seq<JsonModel>),
    Object(Map<Seq<char>, JsonModel>),
}

impl JsonModel {
    /// The member stored under `key`, when this document is an object that has one.
    pub open spec fn member(self, key: Seq<char>) -> Option<JsonModel> {
        match self {
            JsonModel::Object(fields) => if fields.contains_key(key) {
                Some(fields[key])
            } else {
                None
            },
            _ => None,
        }
    }

    /// The characters of this document, when it is a string.
    pub open spec fn as_text(self) -> Option<Seq<char>> {
        match self {
            JsonModel::Text(chars) => Some(chars),
            _ => None,
        }
    }

    /// The truth value of this document, when it is a boolean.
    pub open spec fn as_flag(self) -> Option<bool> {
        match self {
            JsonModel::Bool(flag) => Some(flag),
            _ => None,
        }
    }

    /// The value of this document, when it is an integer that fits in `u64`.
    pub open spec fn as_unsigned(self) -> Option<u64> {
        match self {
            JsonModel::Integer(n) => if 0 <= n <= u64::MAX {
                Some(n as u64)
            } else {
                None
            },
            _ => None,
        }
    }

    /// An object with the single member `key`, a string holding `text`.
    pub open spec fn single_text(key: Seq<char>, text: Seq<char>) -> JsonModel {
        JsonModel::Object(Map::empty().insert(key, JsonModel::Text(text)))
    }
}

/// The shape of the document that a `serde_json::Value` holds.
pub uninterp spec fn json_model(value: serde_json::Value) -> JsonModel;

/// The shape of an optional borrowed document.
pub open spec fn opt_json_model(value: Option<&serde_json::Value>) -> Option<JsonModel> {
    match value {
        Some(v) => Some(json_model(*v)),
        None => None,
    }
}

/// `serde_json::Value::get` with a string index: the member under `key` when
/// `value` is an object holding that key, and `None` in every other case.
#[verifier::external_body]
pub(crate) fn json_member<'a>(value: &'a serde_json::Value, key: &str) -> (found: Option<
    &'a serde_json::Value,
>)
    ensures
        opt_json_model(found) == json_model(*value).member(key@),
{
    value.get(key)
}

/// `serde_json::Value::as_str`: the string's contents when `value` is a
/// string, `None` otherwise.
#[verifier::external_body]
pub(crate) fn json_as_str<'a>(value: &'a serde_json::Value) -> (text: Option<&'a str>)
    ensures
        opt_str_view(text) == json_model(*value).as_text(),
{
    value.as_str()
}

/// `serde_json::Value::as_bool`: the truth value when `value` is a boolean,
/// `None` otherwise.
#[verifier::external_body]
pub(crate) fn json_as_bool(value: &serde_json::Value) -> (flag: Option<bool>)
    ensures
        flag == json_model(*value).as_flag(),
{
    value.as_bool()
}

/// `serde_json::Value::as_u64`: the number when `value` is an integer that
/// `u64` can represent, `None` otherwise.
#[verifier::external_body]
pub(crate) fn json_as_u64(value: &serde_json::Value) -> (number: Option<u64>)
    ensures
        number == json_model(*value).as_unsigned(),
{
    value.as_u64()
}

/// `serde_json::Value::is_null`.
#[verifier::external_body]
pub(crate) fn json_is_null(value: &serde_json::Value) -> (null: bool)
    ensures
        null == (json_model(*value) is Null),
{
    value.is_null()
}

/// `Clone` for `serde_json::Value`: a copy holds the same document.
#[verifier::external_body]
pub(crate) fn json_clone(value: &serde_json::Value) -> (copy: serde_json::Value)
    ensures
        json_model(copy) == json_model(*value),
{
    value.clone()
}

/// `serde_json::Value::Null`, the null document.
#[verifier::external_body]
pub(crate) fn json_null() -> (value: serde_json::Value)
    ensures
        json_model(value) == JsonModel::Null,
{
    serde_json::Value::Null
}

/// `serde_json::Map::new` as a document: the object without members.
#[verifier::external_body]
pub(crate) fn json_object() -> (value: serde_json::Value)
    ensures
        json_model(value) == JsonModel::Object(Map::empty()),
{
    serde_json::Value::Object(serde_json::Map::new())
}

/// `serde_json::Map::insert` on the members of an object: `member` is
/// stored under `key`, in place of what was stored there before, and no
/// other member changes.
#[verifier::external_body]
pub(crate) fn json_insert(doc: &mut serde_json::Value, key: &str, member: serde_json::Value)
    requires
        json_model(*old(doc)) is Object,
    ensures
        json_model(*final(doc)) == JsonModel::Object(
            json_model(*old(doc))->Object_0.insert(key@, json_model(member)),
        ),
{
    if let serde_json::Value::Object(fields) = doc {
        fields.insert(key.to_owned(), member);
    }
}

/// `serde_json::Value::String`: the document that is the string `text`.
#[verifier::external_body]
pub(crate) fn json_text(text: &str) -> (value: serde_json::Value)
    ensures
        json_model(value) == JsonModel::Text(text@),
{
    serde_json::Value::String(text.to_owned())
}

/// `From<u64>` for `serde_json::Value`: the document that is the integer
/// `number`.
#[verifier::external_body]
pub(crate) fn json_unsigned(number: u64) -> (value: serde_json::Value)
    ensures
        json_model(value) == JsonModel::Integer(number as int),
{
    serde_json::Value::from(number)
}

} // verus!
