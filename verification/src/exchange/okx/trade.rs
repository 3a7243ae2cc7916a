//! The envelope of every OKX data message.
use crate::de::{required, required_text, Decode};
use crate::error::{Field, SchemaError};
use crate::json::{json_model, json_models, member, Json};
use crate::subscription::{subscription_id_of, subscription_key, subscription_text};
use barter_integration::model::SubscriptionId;
use serde_json::Value;
use vstd::prelude::*;

verus! {

/// An OKX data message: the stream that it belongs to, and its entries in the
/// order of the wire.
///
/// On the wire the stream is named by `arg`, an object with the members
/// `channel` and `instId`.
#[derive(Debug, PartialEq)]
pub struct OkxMessage<T> {
    pub subscription_id: SubscriptionId,
    pub data: Vec<T>,
}

/// An OKX data message as a value.
pub ghost struct OkxMessageView<V> {
    pub subscription_id: Seq<char>,
    pub data: Seq<V>,
}

impl<T: View> View for OkxMessage<T> {
    type V = OkxMessageView<T::V>;

    open spec fn view(&self) -> OkxMessageView<T::V> {
        OkxMessageView {
            subscription_id: subscription_text(self.subscription_id),
            data: self.data@.map_values(|entry: T| entry@),
        }
    }
}

/// The key of the stream that `arg` names.
pub open spec fn okx_subscription_of(arg: Json) -> Result<Seq<char>, SchemaError> {
    match required(arg.member("channel"@), |d: Json| d.as_text(), Field::Channel) {
        Err(error) => Err(error),
        Ok(channel) => match required(arg.member("instId"@), |d: Json| d.as_text(), Field::Market) {
            Err(error) => Err(error),
            Ok(market) => Ok(subscription_key(channel, market)),
        },
    }
}

/// A message is of the stream that its `arg` names: the stream whose key an
/// [`ExchangeSub`](crate::subscription::ExchangeSub) of the same channel and
/// market has.
pub proof fn lemma_arg_names_channel_and_market(arg: Json, channel: Seq<char>, market: Seq<char>)
    requires
        arg.member("channel"@) == Some(Json::Text(channel)),
        arg.member("instId"@) == Some(Json::Text(market)),
    ensures
        okx_subscription_of(arg) == Ok::<Seq<char>, SchemaError>(
            subscription_key(channel, market),
        ),
{
}

/// The messages that `items` hold, or the reason why the first one that holds
/// none does not.
pub open spec fn decoded_all<T: Decode>(items: Seq<Json>, received_time: i64) -> Result<
    Seq<T::V>,
    SchemaError,
>
    decreases items.len(),
{
    if items.len() == 0 {
        Ok(Seq::empty())
    } else {
        match decoded_all::<T>(items.drop_last(), received_time) {
            Err(error) => Err(error),
            Ok(front) => match T::decoded(items.last(), received_time) {
                Err(error) => Err(error),
                Ok(message) => Ok(front.push(message)),
            },
        }
    }
}

/// An error among the first of `items` is the error of all of them.
proof fn lemma_decoded_all_error<T: Decode>(items: Seq<Json>, received_time: i64, upto: int)
    requires
        0 <= upto <= items.len(),
        decoded_all::<T>(items.take(upto), received_time) is Err,
    ensures
        decoded_all::<T>(items, received_time) == decoded_all::<T>(
            items.take(upto),
            received_time,
        ),
    decreases items.len(),
{
    if upto == items.len() {
        assert(items.take(upto) == items);
    } else {
        assert(items.drop_last().take(upto) == items.take(upto));
        lemma_decoded_all_error::<T>(items.drop_last(), received_time, upto);
    }
}

/// Reads the key of the stream that `arg` names.
pub fn okx_subscription(arg: &Value) -> (r: Result<SubscriptionId, SchemaError>)
    ensures
        match r {
            Ok(id) => okx_subscription_of(json_model(*arg)) == Ok::<Seq<char>, SchemaError>(
                subscription_text(id),
            ),
            Err(error) => okx_subscription_of(json_model(*arg)) == Err::<Seq<char>, SchemaError>(
                error,
            ),
        },
{
    let channel = required_text(member(arg, "channel"), Field::Channel)?;
    let market = required_text(member(arg, "instId"), Field::Market)?;
    Ok(subscription_id_of(channel, market))
}

/// Reads every entry of `items`.
pub fn decode_all<T: Decode>(items: &Vec<Value>, received_time: i64) -> (r: Result<
    Vec<T>,
    SchemaError,
>)
    ensures
        match r {
            Ok(entries) => decoded_all::<T>(json_models(items@), received_time) == Ok::<
                Seq<T::V>,
                SchemaError,
            >(entries@.map_values(|entry: T| entry@)),
            Err(error) => decoded_all::<T>(json_models(items@), received_time) == Err::<
                Seq<T::V>,
                SchemaError,
            >(error),
        },
{
    let ghost models = json_models(items@);
    let mut out: Vec<T> = Vec::new();
    let mut i: usize = 0;
    proof {
        assert(models.take(0) == Seq::<Json>::empty());
        assert(out@.map_values(|entry: T| entry@) == Seq::<T::V>::empty());
    }
    while i < items.len()
        invariant
            0 <= i <= items@.len(),
            models == json_models(items@),
            decoded_all::<T>(models.take(i as int), received_time) == Ok::<Seq<T::V>, SchemaError>(
                out@.map_values(|entry: T| entry@),
            ),
        decreases items@.len() - i,
    {
        proof {
            assert(models[i as int] == json_model(items@[i as int]));
            assert(models.take(i + 1).drop_last() == models.take(i as int));
            assert(models.take(i + 1).last() == models[i as int]);
        }
        match T::decode(&items[i], received_time) {
            Ok(entry) => {
                proof {
                    assert(out@.push(entry).map_values(|entry: T| entry@) == out@.map_values(
                        |entry: T| entry@,
                    ).push(entry@));
                }
                out.push(entry);
            },
            Err(error) => {
                proof {
                    lemma_decoded_all_error::<T>(models, received_time, i + 1);
                }
                return Err(error);
            },
        }
        i = i + 1;
    }
    proof {
        assert(models.take(items@.len() as int) == models);
    }
    Ok(out)
}

impl<T: Decode> Decode for OkxMessage<T> {
    open spec fn decoded(document: Json, received_time: i64) -> Result<
        OkxMessageView<T::V>,
        SchemaError,
    > {
        match document.member("arg"@) {
            None => Err(SchemaError::Missing(Field::Arg)),
            Some(arg) => match okx_subscription_of(arg) {
                Err(error) => Err(error),
                Ok(subscription_id) => match document.member("data"@) {
                    None => Err(SchemaError::Missing(Field::Data)),
                    Some(data) => match data.as_list() {
                        None => Err(SchemaError::Invalid(Field::Data)),
                        Some(items) => match decoded_all::<T>(items, received_time) {
                            Err(error) => Err(error),
                            Ok(data) => Ok(OkxMessageView { subscription_id, data }),
                        },
                    },
                },
            },
        }
    }

    fn decode(document: &Value, received_time: i64) -> (r: Result<Self, SchemaError>) {
        let arg = match member(document, "arg") {
            Some(arg) => arg,
            None => {
                return Err(SchemaError::Missing(Field::Arg));
            },
        };
        let subscription_id = okx_subscription(arg)?;
        let data = match member(document, "data") {
            Some(data) => data,
            None => {
                return Err(SchemaError::Missing(Field::Data));
            },
        };
        let items = match data.as_array() {
            Some(items) => items,
            None => {
                return Err(SchemaError::Invalid(Field::Data));
            },
        };
        let data = decode_all::<T>(items, received_time)?;
        Ok(OkxMessage { subscription_id, data })
    }
}

} // verus!
