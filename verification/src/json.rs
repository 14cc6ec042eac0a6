//! JSON documents as the library reads them, and the calls into `serde_json`
//! that decode them.

use vstd::prelude::*;

use crate::text::views;

verus! {

/// A JSON value. Numbers hold what the library reads of them: their value
/// when it is a non-negative integer that fits in a `u64`, nothing otherwise.
/// Object members keep the order in which the decoder hands them out.
pub enum JsonValue {
    Null,
    Bool(bool),
    Number(Option<u64>),
    Str(String),
    Array(Vec<JsonValue>),
    Object(Vec<(String, JsonValue)>),
}

/// The value of the first member of `members` named `key`.
pub open spec fn member(members: Seq<(String, JsonValue)>, key: Seq<char>) -> Option<JsonValue>
    decreases members.len(),
{
    if members.len() == 0 {
        None
    } else if members[0].0@ == key {
        Some(members[0].1)
    } else {
        member(members.drop_first(), key)
    }
}

/// The member `key` of an object; nothing for other values.
pub open spec fn json_get(v: JsonValue, key: Seq<char>) -> Option<JsonValue> {
    match v {
        JsonValue::Object(members) => member(members@, key),
        _ => None,
    }
}

/// The text of a string value.
pub open spec fn json_str(v: Option<JsonValue>) -> Option<Seq<char>> {
    match v {
        Some(JsonValue::Str(s)) => Some(s@),
        _ => None,
    }
}

/// The value of a boolean.
pub open spec fn json_bool(v: Option<JsonValue>) -> Option<bool> {
    match v {
        Some(JsonValue::Bool(b)) => Some(b),
        _ => None,
    }
}

/// The value of a number that is a `u64`.
pub open spec fn json_u64(v: Option<JsonValue>) -> Option<u64> {
    match v {
        Some(JsonValue::Number(n)) => n,
        _ => None,
    }
}

/// The items of an array.
pub open spec fn json_array(v: Option<JsonValue>) -> Option<Seq<JsonValue>> {
    match v {
        Some(JsonValue::Array(items)) => Some(items@),
        _ => None,
    }
}

impl JsonValue {
    /// The member `key` of this value, when it is an object that has one.
    pub fn get(&self, key: &str) -> (r: Option<&JsonValue>)
        ensures
            match r {
                Some(x) => json_get(*self, key@) == Some(*x),
                None => json_get(*self, key@) is None,
            },
    {
        match self {
            JsonValue::Object(members) => {
                let k = String::from_str(key);
                let mut i: usize = 0;
                assert(members@.skip(0) =~= members@);
                while i < members.len()
                    invariant
                        i <= members.len(),
                        k@ == key@,
                        *self == JsonValue::Object(*members),
                        member(members@, key@) == member(members@.skip(i as int), key@),
                    decreases members.len() - i,
                {
                    if members[i].0 == k {
                        assert(members@.skip(i as int)[0] == members@[i as int]);
                        assert(member(members@.skip(i as int), key@) == Some(members@[i as int].1));
                        return Some(&members[i].1);
                    }
                    assert(members@.skip(i as int).drop_first() =~= members@.skip(i + 1));
                    i = i + 1;
                }
                None
            },
            _ => None,
        }
    }

    /// The text of this value, when it is a string.
    pub fn as_str(&self) -> (r: Option<&String>)
        ensures
            match r {
                Some(s) => json_str(Some(*self)) == Some(s@),
                None => json_str(Some(*self)) is None,
            },
    {
        match self {
            JsonValue::Str(s) => Some(s),
            _ => None,
        }
    }

    /// The value of this value, when it is a boolean.
    pub fn as_bool(&self) -> (r: Option<bool>)
        ensures
            r == json_bool(Some(*self)),
    {
        match self {
            JsonValue::Bool(b) => Some(*b),
            _ => None,
        }
    }

    /// The value of this value, when it is a number that is a `u64`.
    pub fn as_u64(&self) -> (r: Option<u64>)
        ensures
            r == json_u64(Some(*self)),
    {
        match self {
            JsonValue::Number(n) => *n,
            _ => None,
        }
    }

    /// The items of this value, when it is an array.
    pub fn as_array(&self) -> (r: Option<&Vec<JsonValue>>)
        ensures
            match r {
                Some(items) => json_array(Some(*self)) == Some(items@),
                None => json_array(Some(*self)) is None,
            },
    {
        match self {
            JsonValue::Array(items) => Some(items),
            _ => None,
        }
    }
}

/// What `serde_json` makes of a text when asked for an array of strings:
/// the strings, or the text of the decoding error.
pub uninterp spec fn json_string_list(bytes: Seq<u8>) -> Result<Seq<Seq<char>>, Seq<char>>;

/// The view of a decoded list of strings.
pub open spec fn string_list_view(r: Result<Vec<String>, String>) -> Result<
    Seq<Seq<char>>,
    Seq<char>,
> {
    match r {
        Ok(v) => Ok(views(v@)),
        Err(e) => Err(e@),
    }
}

/// Decodes a JSON array of strings.
///
/// Trusted: calls `serde_json::from_slice::<Vec<String>>` and renders its
/// error with `Display`. The contract only says that the outcome is a
/// function of the bytes, named `json_string_list`; which texts decode, and
/// the wording of the errors, are left to `serde_json`.
#[verifier::external_body]
pub(crate) fn decode_string_list(bytes: &[u8]) -> (r: Result<Vec<String>, String>)
    ensures
        string_list_view(r) == json_string_list(bytes@),
{
    serde_json::from_slice::<Vec<String>>(bytes).map_err(|error| error.to_string())
}

/// What `serde_json` makes of a text when asked for any JSON value: the
/// value, converted member for member into a [`JsonValue`], or the text of
/// the decoding error.
pub uninterp spec fn json_document(bytes: Seq<u8>) -> Result<JsonValue, Seq<char>>;

/// The view of a decoded document.
pub open spec fn document_view(r: Result<JsonValue, String>) -> Result<JsonValue, Seq<char>> {
    match r {
        Ok(v) => Ok(v),
        Err(e) => Err(e@),
    }
}

/// Decodes a JSON document.
///
/// Trusted: calls `serde_json::from_slice::<serde_json::Value>`, converts the
/// value with [`from_serde`] and renders a decoding error with `Display`. The
/// contract only says that the outcome is a function of the bytes, named
/// `json_document`; which texts decode, and to what, is left to `serde_json`.
#[verifier::external_body]
pub(crate) fn decode_document(bytes: &[u8]) -> (r: Result<JsonValue, String>)
    ensures
        document_view(r) == json_document(bytes@),
{
    match serde_json::from_slice::<serde_json::Value>(bytes) {
        Ok(value) => Ok(from_serde(value)),
        Err(error) => Err(error.to_string()),
    }
}

/// The value type of `serde_json`, declared so that [`from_serde`] can take
/// it; opaque to proofs.
#[verifier::external_type_specification]
#[verifier::external_body]
pub struct ExSerdeValue(serde_json::Value);

/// Converts a `serde_json::Value` into a [`JsonValue`], variant for variant.
///
/// Trusted: tells the variants of `serde_json::Value` apart and moves their
/// contents over, converting nested values the same way and a number with
/// `serde_json::Number::as_u64`. It has no contract: nothing can be said of
/// an opaque `serde_json::Value`; [`decode_document`] names the outcome.
#[verifier::external_body]
fn from_serde(value: serde_json::Value) -> JsonValue {
    match value {
        serde_json::Value::Null => JsonValue::Null,
        serde_json::Value::Bool(b) => JsonValue::Bool(b),
        serde_json::Value::Number(n) => JsonValue::Number(n.as_u64()),
        serde_json::Value::String(s) => JsonValue::Str(s),
        serde_json::Value::Array(items) => JsonValue::Array(items.into_iter().map(from_serde).collect()),
        serde_json::Value::Object(map) => JsonValue::Object(
            map.into_iter().map(|(k, v)| (k, from_serde(v))).collect(),
        ),
    }
}

} // verus!
