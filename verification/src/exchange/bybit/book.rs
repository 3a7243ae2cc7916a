//! The best bid and ask of Bybit, channel `orderbook.1`.
use crate::clock::now_epoch_ms;
use crate::de::{
    epoch_ms, epoch_ms_of, field, field_of, found_model, levels_of, required, required_levels,
    required_unsigned, Decode,
};
use crate::error::{DataError, Field, SchemaError};
use crate::event::{MarketEvent, MarketIter};
use crate::exchange::bybit::message::BybitMessage;
use crate::exchange::bybit::{lemma_topic_names_channel_and_market, topic_parts, BybitChannel};
use crate::exchange::ExchangeId;
use crate::json::{json_model, member, Json};
use crate::subscription::book::{top_of_book, Level, OrderBookL1};
use crate::subscription::{
    subscription_id_from, subscription_id_of, subscription_id_str, subscription_key,
    subscription_text, Identifier,
};
use barter_integration::model::SubscriptionId;
use serde_json::Value;
use vstd::prelude::*;
use vstd::std_specs::convert::FromSpecImpl;
use vstd::string::*;
use vstd::utf8::is_ascii_chars;

verus! {

/// The book of depth one that a Bybit message carries, each side listed best
/// price first.
///
/// On the wire the market is `s`, the sides are `b` and `a`, the update id is
/// `u` and the sequence number is `seq`. Each is also read under its full
/// name: `subscription_id`, `bids`, `asks`, `update_id`, `sequence`.
#[derive(Debug, PartialEq)]
pub struct BybitOrderBookL1Data {
    pub subscription_id: SubscriptionId,
    pub bids: Vec<Level>,
    pub asks: Vec<Level>,
    pub update_id: u64,
    pub sequence: u64,
}

/// The book of depth one of a Bybit message as a value.
pub ghost struct BybitOrderBookL1DataView {
    pub subscription_id: Seq<char>,
    pub bids: Seq<Level>,
    pub asks: Seq<Level>,
    pub update_id: u64,
    pub sequence: u64,
}

impl View for BybitOrderBookL1Data {
    type V = BybitOrderBookL1DataView;

    open spec fn view(&self) -> BybitOrderBookL1DataView {
        BybitOrderBookL1DataView {
            subscription_id: subscription_text(self.subscription_id),
            bids: self.bids@,
            asks: self.asks@,
            update_id: self.update_id,
            sequence: self.sequence,
        }
    }
}

/// A Bybit message of the channel `orderbook.1`.
///
/// On the wire the time of the message is `ts` and the time at which the
/// exchange made the book is `cts`, both in milliseconds since the Unix epoch
/// and also read as `time` and `created_time`. Either may be left out: the
/// time at which the message is handled then stands in for it.
#[derive(Debug, PartialEq)]
pub struct BybitOrderBookL1 {
    pub time: i64,
    pub data: BybitOrderBookL1Data,
    pub created_time: i64,
}

/// A Bybit message of the channel `orderbook.1` as a value.
pub ghost struct BybitOrderBookL1View {
    pub time: i64,
    pub data: BybitOrderBookL1DataView,
    pub created_time: i64,
}

impl View for BybitOrderBookL1 {
    type V = BybitOrderBookL1View;

    open spec fn view(&self) -> BybitOrderBookL1View {
        BybitOrderBookL1View { time: self.time, data: self.data@, created_time: self.created_time }
    }
}

/// The key of the order book of depth one of the market that `market` spells.
pub open spec fn ob_l1_subscription_of(market: Json) -> Option<Seq<char>> {
    match market.as_text() {
        Some(market) => Some(subscription_key("orderbook.1"@, market)),
        None => None,
    }
}

/// The key of the stream of a book: its market, under whichever of the two
/// names of the field the book spells it.
pub open spec fn book_subscription_of(book: Json) -> Result<Seq<char>, SchemaError> {
    required(
        field_of(book, "subscription_id"@, "s"@),
        |d: Json| ob_l1_subscription_of(d),
        Field::Market,
    )
}

/// An instant that may be left out: `received_time` where it is.
pub open spec fn epoch_ms_or(found: Option<Json>, received_time: i64, at: Field) -> Result<
    i64,
    SchemaError,
> {
    match found {
        None => Ok(received_time),
        Some(value) => match epoch_ms_of(value) {
            Some(read) => Ok(read),
            None => Err(SchemaError::Invalid(at)),
        },
    }
}

/// Reads an instant that may be left out.
fn optional_epoch_ms(found: Option<&Value>, received_time: i64, at: Field) -> (r: Result<
    i64,
    SchemaError,
>)
    ensures
        r == epoch_ms_or(found_model(found), received_time, at),
{
    match found {
        None => Ok(received_time),
        Some(value) => match epoch_ms(value) {
            Some(read) => Ok(read),
            None => Err(SchemaError::Invalid(at)),
        },
    }
}

/// Reads the market of an `orderbook.1` message, such as `"BTCUSDT"`, as the
/// key of its stream, `"orderbook.1|BTCUSDT"`.
pub fn de_ob_l1_subscription_id(market: &Value) -> (r: Result<SubscriptionId, SchemaError>)
    ensures
        match r {
            Ok(id) => ob_l1_subscription_of(json_model(*market)) == Some(subscription_text(id)),
            Err(error) => ob_l1_subscription_of(json_model(*market)) is None && error
                == SchemaError::Invalid(Field::Market),
        },
{
    match market.as_str() {
        Some(market) => Ok(subscription_id_of(BybitChannel::order_book_l1().0, market)),
        None => Err(SchemaError::Invalid(Field::Market)),
    }
}

impl Decode for BybitOrderBookL1Data {
    open spec fn decoded(document: Json, received_time: i64) -> Result<
        BybitOrderBookL1DataView,
        SchemaError,
    > {
        match book_subscription_of(document) {
            Err(error) => Err(error),
            Ok(subscription_id) => match required(
                field_of(document, "bids"@, "b"@),
                |d: Json| levels_of(d),
                Field::Bids,
            ) {
                Err(error) => Err(error),
                Ok(bids) => match required(
                    field_of(document, "asks"@, "a"@),
                    |d: Json| levels_of(d),
                    Field::Asks,
                ) {
                    Err(error) => Err(error),
                    Ok(asks) => match required(
                        field_of(document, "update_id"@, "u"@),
                        |d: Json| d.as_unsigned(),
                        Field::UpdateId,
                    ) {
                        Err(error) => Err(error),
                        Ok(update_id) => match required(
                            field_of(document, "sequence"@, "seq"@),
                            |d: Json| d.as_unsigned(),
                            Field::Sequence,
                        ) {
                            Err(error) => Err(error),
                            Ok(sequence) => Ok(
                                BybitOrderBookL1DataView {
                                    subscription_id,
                                    bids,
                                    asks,
                                    update_id,
                                    sequence,
                                },
                            ),
                        },
                    },
                },
            },
        }
    }

    fn decode(document: &Value, received_time: i64) -> (r: Result<Self, SchemaError>) {
        let subscription_id = match field(document, "subscription_id", "s") {
            Some(market) => de_ob_l1_subscription_id(market)?,
            None => {
                return Err(SchemaError::Missing(Field::Market));
            },
        };
        let bids = required_levels(field(document, "bids", "b"), Field::Bids)?;
        let asks = required_levels(field(document, "asks", "a"), Field::Asks)?;
        let update_id = required_unsigned(field(document, "update_id", "u"), Field::UpdateId)?;
        let sequence = required_unsigned(field(document, "sequence", "seq"), Field::Sequence)?;
        Ok(BybitOrderBookL1Data { subscription_id, bids, asks, update_id, sequence })
    }
}

impl Decode for BybitOrderBookL1 {
    open spec fn decoded(document: Json, received_time: i64) -> Result<
        BybitOrderBookL1View,
        SchemaError,
    > {
        match epoch_ms_or(field_of(document, "time"@, "ts"@), received_time, Field::Time) {
            Err(error) => Err(error),
            Ok(time) => match document.member("data"@) {
                None => Err(SchemaError::Missing(Field::Data)),
                Some(data) => match BybitOrderBookL1Data::decoded(data, received_time) {
                    Err(error) => Err(error),
                    Ok(data) => match epoch_ms_or(
                        field_of(document, "created_time"@, "cts"@),
                        received_time,
                        Field::CreatedTime,
                    ) {
                        Err(error) => Err(error),
                        Ok(created_time) => Ok(BybitOrderBookL1View { time, data, created_time }),
                    },
                },
            },
        }
    }

    fn decode(document: &Value, received_time: i64) -> (r: Result<Self, SchemaError>) {
        let time = optional_epoch_ms(field(document, "time", "ts"), received_time, Field::Time)?;
        let data = match member(document, "data") {
            Some(data) => BybitOrderBookL1Data::decode(data, received_time)?,
            None => {
                return Err(SchemaError::Missing(Field::Data));
            },
        };
        let created_time = optional_epoch_ms(
            field(document, "created_time", "cts"),
            received_time,
            Field::CreatedTime,
        )?;
        Ok(BybitOrderBookL1 { time, data, created_time })
    }
}

/// The key of a stream does not depend on the name under which a message
/// spells the market: a book that names it `s` and one that names it
/// `subscription_id` belong to the same stream, `orderbook.1|{market}`.
pub proof fn lemma_alias_same_subscription(short: Json, full: Json, market: Seq<char>)
    requires
        short.member("subscription_id"@) is None,
        short.member("s"@) == Some(Json::Text(market)),
        full.member("subscription_id"@) == Some(Json::Text(market)),
    ensures
        book_subscription_of(short) == book_subscription_of(full),
        book_subscription_of(short) == Ok::<Seq<char>, SchemaError>(
            subscription_key("orderbook.1"@, market),
        ),
        forall|received_time: i64|
            (#[trigger] BybitOrderBookL1Data::decoded(short, received_time)) matches Ok(book)
                ==> book.subscription_id == subscription_key("orderbook.1"@, market),
        forall|received_time: i64|
            (#[trigger] BybitOrderBookL1Data::decoded(full, received_time)) matches Ok(book)
                ==> book.subscription_id == subscription_key("orderbook.1"@, market),
{
}

/// The topic of a message and the market of its book name the same stream:
/// the topic `orderbook.1.{market}` has the key that the market field of the
/// book gives.
pub proof fn lemma_topic_same_subscription(market: Seq<char>)
    requires
        is_ascii_chars(market),
        market.len() > 0,
        !market.contains('.'),
    ensures
        topic_parts("orderbook.1"@ + seq!['.'] + market) == Some(("orderbook.1"@, market)),
        ob_l1_subscription_of(Json::Text(market)) == Some(
            subscription_key("orderbook.1"@, market),
        ),
{
    reveal_strlit("orderbook.1");
    lemma_topic_names_channel_and_market("orderbook.1"@, market);
}

impl Identifier<Option<SubscriptionId>> for BybitMessage<BybitOrderBookL1> {
    /// The stream that a data message belongs to; none for an answer.
    fn id(&self) -> (r: Option<SubscriptionId>)
        ensures
            match *self {
                BybitMessage::Trade(book) => r matches Some(id) && subscription_text(id)
                    == subscription_text(book.data.subscription_id),
                BybitMessage::Response(_) => r is None,
            },
    {
        match self {
            BybitMessage::Trade(book) => Some(
                subscription_id_from(
                    String::from_str(subscription_id_str(&book.data.subscription_id)),
                ),
            ),
            _ => None,
        }
    }
}

/// `items` are what a Bybit `orderbook.1` message, handled at
/// `received_time`, yields for `instrument`: nothing for an answer; for a
/// book, the event of its top, or the error that it has none.
pub open spec fn bybit_l1_items<InstrumentId>(
    exchange_id: ExchangeId,
    instrument: InstrumentId,
    message: BybitMessage<BybitOrderBookL1>,
    received_time: i64,
    items: Seq<Result<MarketEvent<InstrumentId, OrderBookL1>, DataError>>,
) -> bool {
    match message {
        BybitMessage::Response(_) => items.len() == 0,
        BybitMessage::Trade(book) => {
            &&& items.len() == 1
            &&& items[0] == match top_of_book(book.data.bids@, book.data.asks@, book.time) {
                Ok(kind) => Ok::<MarketEvent<InstrumentId, OrderBookL1>, DataError>(
                    MarketEvent {
                        exchange_time: book.time,
                        received_time,
                        exchange: exchange_id,
                        instrument,
                        kind,
                    },
                ),
                Err(error) => Err::<MarketEvent<InstrumentId, OrderBookL1>, DataError>(error),
            }
        },
    }
}

impl<InstrumentId> MarketIter<InstrumentId, OrderBookL1> {
    /// The events of a Bybit `orderbook.1` message handled at
    /// `received_time`. An answer to a request yields nothing. A book yields
    /// one item: its top of book as of the time of the message, or an error
    /// where it lacks a side.
    pub fn from_bybit_at(
        exchange_id: ExchangeId,
        instrument: InstrumentId,
        message: BybitMessage<BybitOrderBookL1>,
        received_time: i64,
    ) -> (r: Self)
        ensures
            bybit_l1_items(exchange_id, instrument, message, received_time, r.0@),
    {
        let mut events: Vec<Result<MarketEvent<InstrumentId, OrderBookL1>, DataError>> = Vec::new();
        match message {
            BybitMessage::Trade(book) => {
                let item = match OrderBookL1::top_of(&book.data.bids, &book.data.asks, book.time) {
                    Ok(kind) => Ok(
                        MarketEvent {
                            exchange_time: book.time,
                            received_time,
                            exchange: exchange_id,
                            instrument,
                            kind,
                        },
                    ),
                    Err(error) => Err(error),
                };
                events.push(item);
            },
            BybitMessage::Response(_) => {},
        }
        MarketIter(events)
    }
}

impl<InstrumentId> From<(ExchangeId, InstrumentId, BybitMessage<BybitOrderBookL1>)>
    for MarketIter<InstrumentId, OrderBookL1>
{
    /// The events of a Bybit `orderbook.1` message, handled at the time that
    /// the local clock shows.
    fn from(value: (ExchangeId, InstrumentId, BybitMessage<BybitOrderBookL1>)) -> (r: Self)
        ensures
            exists|received_time: i64| #[trigger]
                bybit_l1_items(value.0, value.1, value.2, received_time, r.0@),
    {
        let (exchange_id, instrument, message) = value;
        let received_time = now_epoch_ms();
        let r = Self::from_bybit_at(exchange_id, instrument, message, received_time);
        assert(bybit_l1_items(exchange_id, instrument, message, received_time, r.0@));
        r
    }
}

impl<InstrumentId> FromSpecImpl<(ExchangeId, InstrumentId, BybitMessage<BybitOrderBookL1>)>
    for MarketIter<InstrumentId, OrderBookL1>
{
    /// The result depends on the clock, so no function of the message gives it.
    open spec fn obeys_from_spec() -> bool {
        false
    }

    open spec fn from_spec(
        value: (ExchangeId, InstrumentId, BybitMessage<BybitOrderBookL1>),
    ) -> Self {
        arbitrary()
    }
}

} // verus!
