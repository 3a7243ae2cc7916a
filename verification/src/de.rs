//! Reading the fields of exchange messages out of JSON documents.
//!
//! Exchanges rename fields over time and between message types. A field is
//! therefore looked up under its canonical name first and under its wire
//! alias second; the first of the two that is present is the field.
use crate::decimal::{decimal_of, Decimal};
use crate::error::{Field, SchemaError};
use crate::json::{json_model, json_models, member, Json};
use crate::subscription::book::Level;
use serde_json::Value;
use vstd::prelude::*;

verus! {

/// A message that can be read from a JSON document.
///
/// `received_time` is the local time at which the payload is handled, in
/// milliseconds since the Unix epoch: it stands in for a timestamp that the
/// message may leave out.
pub trait Decode: Sized + View {
    /// The message that `document` holds, or why it holds none.
    spec fn decoded(document: Json, received_time: i64) -> Result<Self::V, SchemaError>;

    /// Reads the message out of `document`.
    fn decode(document: &Value, received_time: i64) -> (r: Result<Self, SchemaError>)
        ensures
            match r {
                Ok(message) => Self::decoded(json_model(*document), received_time) == Ok::<
                    Self::V,
                    SchemaError,
                >(message@),
                Err(error) => Self::decoded(json_model(*document), received_time) == Err::<
                    Self::V,
                    SchemaError,
                >(error),
            },
    ;
}

/// The field `name`, or else `alias`, of the object `document`.
pub open spec fn field_of(document: Json, name: Seq<char>, alias: Seq<char>) -> Option<Json> {
    match document.member(name) {
        Some(found) => Some(found),
        None => document.member(alias),
    }
}

/// The shape of what was found, if anything.
pub open spec fn found_model(found: Option<&Value>) -> Option<Json> {
    match found {
        Some(value) => Some(json_model(*value)),
        None => None,
    }
}

/// What a required field holds: `Missing` where it is absent, `Invalid`
/// where `read` makes nothing of it.
pub open spec fn required<T>(
    found: Option<Json>,
    read: spec_fn(Json) -> Option<T>,
    field: Field,
) -> Result<T, SchemaError> {
    match found {
        None => Err(SchemaError::Missing(field)),
        Some(value) => match read(value) {
            Some(read) => Ok(read),
            None => Err(SchemaError::Invalid(field)),
        },
    }
}

/// A quantity: a JSON string of plain decimal text.
pub open spec fn quantity_of(document: Json) -> Option<Decimal> {
    match document {
        Json::Text(text) => decimal_of(text),
        _ => None,
    }
}

/// An instant in milliseconds since the Unix epoch: a JSON integer, or a JSON
/// string of decimal text that denotes a whole number, from `0` to `i64::MAX`.
pub open spec fn epoch_ms_of(document: Json) -> Option<i64> {
    match document {
        Json::Integer(n) => if 0 <= n <= i64::MAX {
            Some(n as i64)
        } else {
            None
        },
        Json::Text(text) => match decimal_of(text) {
            Some(d) => if d.scale == 0 && d.units <= i64::MAX {
                Some(d.units as i64)
            } else {
                None
            },
            None => None,
        },
        _ => None,
    }
}

/// A level: a JSON array that starts with a price and an amount, both
/// quantities. What follows them is not read.
pub open spec fn level_of(document: Json) -> Option<Level> {
    match document {
        Json::List(items) => if items.len() >= 2 {
            match (quantity_of(items[0]), quantity_of(items[1])) {
                (Some(price), Some(amount)) => Some(Level { price, amount }),
                _ => None,
            }
        } else {
            None
        },
        _ => None,
    }
}

/// One side of a book: a JSON array of levels, kept in the order of the wire.
pub open spec fn levels_of(document: Json) -> Option<Seq<Level>> {
    match document {
        Json::List(items) => if forall|i: int|
            0 <= i < items.len() ==> level_of(#[trigger] items[i]) is Some {
            Some(Seq::new(items.len(), |i: int| level_of(items[i])->Some_0))
        } else {
            None
        },
        _ => None,
    }
}

/// The field `name`, or else `alias`, of the object `document`.
pub fn field<'a>(document: &'a Value, name: &str, alias: &str) -> (r: Option<&'a Value>)
    ensures
        found_model(r) == field_of(json_model(*document), name@, alias@),
{
    match member(document, name) {
        Some(found) => Some(found),
        None => member(document, alias),
    }
}

/// Reads a quantity.
pub fn quantity(document: &Value) -> (r: Option<Decimal>)
    ensures
        r == quantity_of(json_model(*document)),
{
    match document.as_str() {
        Some(text) => Decimal::parse(text),
        None => None,
    }
}

/// Reads an instant.
pub fn epoch_ms(document: &Value) -> (r: Option<i64>)
    ensures
        r == epoch_ms_of(json_model(*document)),
{
    match document.as_u64() {
        Some(n) => if n <= i64::MAX as u64 {
            Some(n as i64)
        } else {
            None
        },
        None => match document.as_str() {
            Some(text) => match Decimal::parse(text) {
                Some(d) => if d.scale == 0 && d.units <= i64::MAX as u64 {
                    Some(d.units as i64)
                } else {
                    None
                },
                None => None,
            },
            None => None,
        },
    }
}

/// Reads a level.
pub fn level(document: &Value) -> (r: Option<Level>)
    ensures
        r == level_of(json_model(*document)),
{
    match document.as_array() {
        Some(items) => {
            if items.len() >= 2 {
                proof {
                    assert(json_models(items@)[0] == json_model(items@[0]));
                    assert(json_models(items@)[1] == json_model(items@[1]));
                }
                match (quantity(&items[0]), quantity(&items[1])) {
                    (Some(price), Some(amount)) => Some(Level { price, amount }),
                    _ => None,
                }
            } else {
                None
            }
        },
        None => None,
    }
}

/// Reads one side of a book.
pub fn levels(document: &Value) -> (r: Option<Vec<Level>>)
    ensures
        match r {
            Some(read) => levels_of(json_model(*document)) == Some(read@),
            None => levels_of(json_model(*document)) is None,
        },
{
    match document.as_array() {
        Some(items) => {
            let ghost models = json_models(items@);
            let mut out: Vec<Level> = Vec::new();
            let mut i: usize = 0;
            while i < items.len()
                invariant
                    0 <= i <= items@.len(),
                    models == json_models(items@),
                    json_model(*document) == Json::List(models),
                    out@.len() == i,
                    forall|k: int| 0 <= k < i ==> level_of(#[trigger] models[k]) == Some(out@[k]),
                decreases items@.len() - i,
            {
                proof {
                    assert(models[i as int] == json_model(items@[i as int]));
                }
                match level(&items[i]) {
                    Some(read) => {
                        out.push(read);
                    },
                    None => {
                        return None;
                    },
                }
                i = i + 1;
            }
            proof {
                assert(out@ =~= Seq::new(models.len(), |k: int| level_of(models[k])->Some_0));
            }
            Some(out)
        },
        None => None,
    }
}

/// Reads a required instant.
pub fn required_epoch_ms(found: Option<&Value>, at: Field) -> (r: Result<i64, SchemaError>)
    ensures
        r == required(
            found_model(found),
            |document: Json| epoch_ms_of(document),
            at,
        ),
{
    match found {
        None => Err(SchemaError::Missing(at)),
        Some(value) => match epoch_ms(value) {
            Some(read) => Ok(read),
            None => Err(SchemaError::Invalid(at)),
        },
    }
}

/// Reads a required side of a book.
pub fn required_levels(found: Option<&Value>, at: Field) -> (r: Result<Vec<Level>, SchemaError>)
    ensures
        match r {
            Ok(read) => required(
                found_model(found),
                |document: Json| levels_of(document),
                at,
            ) == Ok::<Seq<Level>, SchemaError>(read@),
            Err(error) => required(
                found_model(found),
                |document: Json| levels_of(document),
                at,
            ) == Err::<Seq<Level>, SchemaError>(error),
        },
{
    match found {
        None => Err(SchemaError::Missing(at)),
        Some(value) => match levels(value) {
            Some(read) => Ok(read),
            None => Err(SchemaError::Invalid(at)),
        },
    }
}

/// Reads a required integer from `0` to `u64::MAX`.
pub fn required_unsigned(found: Option<&Value>, at: Field) -> (r: Result<u64, SchemaError>)
    ensures
        r == required(
            found_model(found),
            |document: Json| document.as_unsigned(),
            at,
        ),
{
    match found {
        None => Err(SchemaError::Missing(at)),
        Some(value) => match value.as_u64() {
            Some(read) => Ok(read),
            None => Err(SchemaError::Invalid(at)),
        },
    }
}

/// Reads a required integer from `i64::MIN` to `i64::MAX`.
pub fn required_signed(found: Option<&Value>, at: Field) -> (r: Result<i64, SchemaError>)
    ensures
        r == required(
            found_model(found),
            |document: Json| document.as_signed(),
            at,
        ),
{
    match found {
        None => Err(SchemaError::Missing(at)),
        Some(value) => match value.as_i64() {
            Some(read) => Ok(read),
            None => Err(SchemaError::Invalid(at)),
        },
    }
}

/// Reads a required string.
pub fn required_text<'a>(found: Option<&'a Value>, at: Field) -> (r: Result<&'a str, SchemaError>)
    ensures
        match r {
            Ok(read) => required(
                found_model(found),
                |document: Json| document.as_text(),
                at,
            ) == Ok::<Seq<char>, SchemaError>(read@),
            Err(error) => required(
                found_model(found),
                |document: Json| document.as_text(),
                at,
            ) == Err::<Seq<char>, SchemaError>(error),
        },
{
    match found {
        None => Err(SchemaError::Missing(at)),
        Some(value) => match value.as_str() {
            Some(read) => Ok(read),
            None => Err(SchemaError::Invalid(at)),
        },
    }
}

} // verus!
