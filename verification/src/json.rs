//! JSON documents.
//!
//! Reading and writing JSON text is the work of `serde_json`. This module
//! declares its document type, gives the shape of a document a mathematical
//! model, and states, without proof, what the few `serde_json` functions that
//! the library calls do in terms of that model. Everything that the library
//! then reads out of a document is verified against those statements.
use serde_json::Value;
use vstd::prelude::*;
use vstd::string::*;

verus! {

/// `serde_json::Value`, a parsed JSON document. Opaque to the verifier: what it
/// holds is spoken of through [`json_model`].
#[verifier::external_type_specification]
#[verifier::external_body]
pub struct ExValue(Value);

/// `serde_json::Error`, the reason why a text is not the JSON that was asked for.
#[verifier::external_type_specification]
#[verifier::external_body]
pub struct ExJsonError(serde_json::Error);

/// The shape of a JSON document.
pub ghost enum Json {
    Null,
    Bool(bool),
    /// A number that `serde_json` holds as an integer: any from `i64::MIN` to `u64::MAX`.
    Integer(int),
    /// Any other number, by the bits of the double that holds it.
    Real(u64),
    Text(Seq<char>),
    List(Seq<Json>),
    Object(Map<Seq<char>, Json>),
}

impl Json {
    /// The member `key` of an object; `None` for a missing key and for
    /// anything that is not an object.
    pub open spec fn member(self, key: Seq<char>) -> Option<Json> {
        match self {
            Json::Object(fields) => if fields.contains_key(key) {
                Some(fields[key])
            } else {
                None
            },
            _ => None,
        }
    }

    /// The characters of a string.
    pub open spec fn as_text(self) -> Option<Seq<char>> {
        match self {
            Json::Text(text) => Some(text),
            _ => None,
        }
    }

    /// The elements of an array.
    pub open spec fn as_list(self) -> Option<Seq<Json>> {
        match self {
            Json::List(items) => Some(items),
            _ => None,
        }
    }

    /// A boolean.
    pub open spec fn as_bool(self) -> Option<bool> {
        match self {
            Json::Bool(b) => Some(b),
            _ => None,
        }
    }

    /// An integer that fits `u64`.
    pub open spec fn as_unsigned(self) -> Option<u64> {
        match self {
            Json::Integer(n) => if 0 <= n <= u64::MAX {
                Some(n as u64)
            } else {
                None
            },
            _ => None,
        }
    }

    /// An integer that fits `i64`.
    pub open spec fn as_signed(self) -> Option<i64> {
        match self {
            Json::Integer(n) => if i64::MIN <= n <= i64::MAX {
                Some(n as i64)
            } else {
                None
            },
            _ => None,
        }
    }
}

/// The shape of the document that `value` holds.
pub uninterp spec fn json_model(value: Value) -> Json;

/// The document that `serde_json::from_str` reads from `text`; `None` where it
/// reports an error.
pub uninterp spec fn json_document(text: Seq<char>) -> Option<Json>;

/// The document that `serde_json::from_slice` reads from `bytes`; `None` where
/// it reports an error.
pub uninterp spec fn json_bytes_document(bytes: Seq<u8>) -> Option<Json>;

/// The compact JSON text that `serde_json` writes for a document.
pub uninterp spec fn json_rendering(document: Json) -> Seq<char>;

/// The shapes of the documents `values`.
pub open spec fn json_models(values: Seq<Value>) -> Seq<Json> {
    values.map_values(|value: Value| json_model(value))
}

/// The object with the members `fields`, a later member replacing an earlier
/// one of the same key.
pub open spec fn object_of(fields: Seq<(String, Value)>) -> Map<Seq<char>, Json>
    decreases fields.len(),
{
    if fields.len() == 0 {
        Map::empty()
    } else {
        object_of(fields.drop_last()).insert(fields.last().0@, json_model(fields.last().1))
    }
}

/// No two of `fields` have the same key.
pub open spec fn distinct_keys(fields: Seq<(String, Value)>) -> bool {
    forall|i: int, j: int|
        0 <= i < fields.len() && 0 <= j < fields.len() && i != j ==> (#[trigger] fields[i]).0@ != (
        #[trigger] fields[j]).0@
}

/// `serde_json::from_str::<Value>`: parses `text` as one JSON document. The
/// contract names the outcome [`json_document`]: the same text always gives
/// the same document, or always an error. It adds one fact of the JSON
/// grammar: the bare word `pong` is no document.
#[verifier::external_body]
pub(crate) fn parse_document(text: &str) -> (r: Result<Value, serde_json::Error>)
    ensures
        match r {
            Ok(value) => json_document(text@) == Some(json_model(value)),
            Err(_) => json_document(text@) is None,
        },
        text@ == "pong"@ ==> r is Err,
{
    serde_json::from_str::<Value>(text)
}

/// `serde_json::from_slice::<Value>`: parses `bytes` as one JSON document. The
/// contract names the outcome [`json_bytes_document`].
#[verifier::external_body]
pub(crate) fn parse_document_bytes(bytes: &[u8]) -> (r: Result<Value, serde_json::Error>)
    ensures
        match r {
            Ok(value) => json_bytes_document(bytes@) == Some(json_model(value)),
            Err(_) => json_bytes_document(bytes@) is None,
        },
{
    serde_json::from_slice::<Value>(bytes)
}

/// `Value::get` with a string key: the member of that key where `value` is an
/// object that has it, `None` otherwise.
#[verifier::external_body]
pub(crate) fn member<'a>(value: &'a Value, key: &str) -> (r: Option<&'a Value>)
    ensures
        match r {
            Some(found) => json_model(*value).member(key@) == Some(json_model(*found)),
            None => json_model(*value).member(key@) is None,
        },
{
    value.get(key)
}

/// `Value::as_str`: the characters of a JSON string, `None` for any other value.
pub assume_specification[ Value::as_str ](value: &Value) -> (r: Option<&str>)
    ensures
        match r {
            Some(text) => json_model(*value).as_text() == Some(text@),
            None => json_model(*value).as_text() is None,
        },
;

/// `Value::as_array`: the elements of a JSON array, `None` for any other value.
pub assume_specification[ Value::as_array ](value: &Value) -> (r: Option<&Vec<Value>>)
    ensures
        match r {
            Some(items) => json_model(*value).as_list() == Some(json_models(items@)),
            None => json_model(*value).as_list() is None,
        },
;

/// `Value::as_bool`: a JSON boolean, `None` for any other value.
pub assume_specification[ Value::as_bool ](value: &Value) -> (r: Option<bool>)
    ensures
        r == json_model(*value).as_bool(),
;

/// `Value::as_u64`: a JSON integer from `0` to `u64::MAX`, `None` for any other value.
pub assume_specification[ Value::as_u64 ](value: &Value) -> (r: Option<u64>)
    ensures
        r == json_model(*value).as_unsigned(),
;

/// `Value::as_i64`: a JSON integer from `i64::MIN` to `i64::MAX`, `None` for
/// any other value.
pub assume_specification[ Value::as_i64 ](value: &Value) -> (r: Option<i64>)
    ensures
        r == json_model(*value).as_signed(),
;

/// `Value::from(&str)`: the JSON string with the characters of `text`.
#[verifier::external_body]
pub(crate) fn json_text(text: &str) -> (r: Value)
    ensures
        json_model(r) == Json::Text(text@),
{
    Value::from(text)
}

/// `Value::Array`: the JSON array with the elements `items`, in their order.
#[verifier::external_body]
pub(crate) fn json_list(items: Vec<Value>) -> (r: Value)
    ensures
        json_model(r) == Json::List(json_models(items@)),
{
    Value::Array(items)
}

/// `Value::Object` over `Map::from_iter`: the JSON object with the members
/// `fields`. The keys must differ, since the map keeps one member for each key.
#[verifier::external_body]
pub(crate) fn json_object(fields: Vec<(String, Value)>) -> (r: Value)
    requires
        distinct_keys(fields@),
    ensures
        json_model(r) == Json::Object(object_of(fields@)),
{
    Value::Object(fields.into_iter().collect())
}

/// The JSON object with two members.
pub(crate) fn json_pair(first: &str, first_value: Value, second: &str, second_value: Value) -> (r:
    Value)
    requires
        first@ != second@,
    ensures
        json_model(r) == Json::Object(
            Map::<Seq<char>, Json>::empty().insert(first@, json_model(first_value)).insert(
                second@,
                json_model(second_value),
            ),
        ),
{
    let mut fields: Vec<(String, Value)> = Vec::new();
    fields.push((String::from_str(first), first_value));
    fields.push((String::from_str(second), second_value));
    proof {
        let one = fields@.drop_last();
        assert(one.drop_last() == Seq::<(String, Value)>::empty());
        assert(object_of(one.drop_last()) == Map::<Seq<char>, Json>::empty());
        assert(object_of(one) == Map::<Seq<char>, Json>::empty().insert(
            first@,
            json_model(first_value),
        ));
    }
    json_object(fields)
}

/// `Value::to_string`: the compact JSON text of `value`. The contract names
/// the text [`json_rendering`]: it depends on the document alone.
#[verifier::external_body]
pub(crate) fn json_render(value: &Value) -> (r: String)
    ensures
        r@ == json_rendering(json_model(*value)),
{
    value.to_string()
}

} // verus!
