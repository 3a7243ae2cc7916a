//! The best bid and ask of OKX, channel `bbo-tbt`.
use crate::de::{
    epoch_ms_of, field, field_of, levels_of, required, required_epoch_ms, required_levels,
    required_signed, Decode,
};
use crate::error::{DataError, Field, SchemaError};
use crate::event::{MarketEvent, MarketIter};
use crate::exchange::okx::trade::OkxMessage;
use crate::exchange::ExchangeId;
use crate::clock::now_epoch_ms;
use crate::json::{member, Json};
use crate::subscription::book::{top_of_book, Level, OrderBookL1};
use serde_json::Value;
use vstd::prelude::*;
use vstd::std_specs::convert::{FromSpecImpl, TryFromSpecImpl};

verus! {

/// One entry of the `bbo-tbt` channel: the best ask and the best bid at one
/// instant, each side listed best price first.
///
/// On the wire the instant is `ts` (also read as `time`), milliseconds since
/// the Unix epoch; the sides are `asks` and `bids`; the sequence number is
/// `seqId`.
#[derive(Clone, Debug, PartialEq, Eq)]
pub struct OkxOrderBookDataL1 {
    pub time: i64,
    pub asks: Vec<Level>,
    pub bids: Vec<Level>,
    pub seq_id: i64,
}

/// An entry of the `bbo-tbt` channel as a value.
pub ghost struct OkxOrderBookDataL1View {
    pub time: i64,
    pub asks: Seq<Level>,
    pub bids: Seq<Level>,
    pub seq_id: i64,
}

impl View for OkxOrderBookDataL1 {
    type V = OkxOrderBookDataL1View;

    open spec fn view(&self) -> OkxOrderBookDataL1View {
        OkxOrderBookDataL1View {
            time: self.time,
            asks: self.asks@,
            bids: self.bids@,
            seq_id: self.seq_id,
        }
    }
}

impl Decode for OkxOrderBookDataL1 {
    open spec fn decoded(document: Json, received_time: i64) -> Result<
        OkxOrderBookDataL1View,
        SchemaError,
    > {
        match required(
            field_of(document, "time"@, "ts"@),
            |d: Json| epoch_ms_of(d),
            Field::Time,
        ) {
            Err(error) => Err(error),
            Ok(time) => match required(
                document.member("asks"@),
                |d: Json| levels_of(d),
                Field::Asks,
            ) {
                Err(error) => Err(error),
                Ok(asks) => match required(
                    document.member("bids"@),
                    |d: Json| levels_of(d),
                    Field::Bids,
                ) {
                    Err(error) => Err(error),
                    Ok(bids) => match required(
                        document.member("seqId"@),
                        |d: Json| d.as_signed(),
                        Field::Sequence,
                    ) {
                        Err(error) => Err(error),
                        Ok(seq_id) => Ok(OkxOrderBookDataL1View { time, asks, bids, seq_id }),
                    },
                },
            },
        }
    }

    fn decode(document: &Value, received_time: i64) -> (r: Result<Self, SchemaError>) {
        let time = required_epoch_ms(field(document, "time", "ts"), Field::Time)?;
        let asks = required_levels(member(document, "asks"), Field::Asks)?;
        let bids = required_levels(member(document, "bids"), Field::Bids)?;
        let seq_id = required_signed(member(document, "seqId"), Field::Sequence)?;
        Ok(OkxOrderBookDataL1 { time, asks, bids, seq_id })
    }
}

impl OkxOrderBookDataL1 {
    /// The top of the book, as updated at `last_update_time`; an error where
    /// a side is empty.
    pub fn top(&self, last_update_time: i64) -> (r: Result<OrderBookL1, DataError>)
        ensures
            r == top_of_book(self.bids@, self.asks@, last_update_time),
    {
        OrderBookL1::top_of(&self.bids, &self.asks, last_update_time)
    }
}

impl TryFrom<OkxOrderBookDataL1> for OrderBookL1 {
    type Error = DataError;

    /// The top of the book, as updated at the time that the local clock
    /// shows; an error where a side is empty.
    fn try_from(data: OkxOrderBookDataL1) -> (r: Result<Self, DataError>)
        ensures
            exists|last_update_time: i64|
                r == #[trigger] top_of_book(data.bids@, data.asks@, last_update_time),
    {
        let last_update_time = now_epoch_ms();
        let r = data.top(last_update_time);
        assert(r == top_of_book(data.bids@, data.asks@, last_update_time));
        r
    }
}

impl TryFromSpecImpl<OkxOrderBookDataL1> for OrderBookL1 {
    /// The result depends on the clock, so no function of the entry gives it.
    open spec fn obeys_try_from_spec() -> bool {
        false
    }

    open spec fn try_from_spec(data: OkxOrderBookDataL1) -> Result<Self, DataError> {
        arbitrary()
    }
}

/// What the entry `data`, handled at `received_time`, yields for
/// `instrument`: the event of its top of book, or the error that it has none.
pub open spec fn okx_l1_item<InstrumentId: Clone>(
    exchange_id: ExchangeId,
    instrument: InstrumentId,
    data: OkxOrderBookDataL1,
    received_time: i64,
    item: Result<MarketEvent<InstrumentId, OrderBookL1>, DataError>,
) -> bool {
    match top_of_book(data.bids@, data.asks@, received_time) {
        Ok(kind) => {
            &&& item matches Ok(event)
            &&& event.exchange_time == data.time
            &&& event.received_time == received_time
            &&& event.exchange == exchange_id
            &&& cloned(instrument, event.instrument)
            &&& event.kind == kind
        },
        Err(error) => item == Err::<MarketEvent<InstrumentId, OrderBookL1>, DataError>(error),
    }
}

/// `items` are what the entries `data`, handled at `received_time`, yield for
/// `instrument`, one item for each entry and in the same order.
pub open spec fn okx_l1_items<InstrumentId: Clone>(
    exchange_id: ExchangeId,
    instrument: InstrumentId,
    data: Seq<OkxOrderBookDataL1>,
    received_time: i64,
    items: Seq<Result<MarketEvent<InstrumentId, OrderBookL1>, DataError>>,
) -> bool {
    &&& items.len() == data.len()
    &&& forall|i: int|
        0 <= i < data.len() ==> okx_l1_item(
            exchange_id,
            instrument,
            data[i],
            received_time,
            #[trigger] items[i],
        )
}

impl<InstrumentId: Clone> MarketIter<InstrumentId, OrderBookL1> {
    /// The events of an OKX `bbo-tbt` message handled at `received_time`: one
    /// item for each entry, in the order of the wire. An entry that lacks a
    /// side yields an error in its place.
    pub fn from_okx_at(
        exchange_id: ExchangeId,
        instrument: InstrumentId,
        book: OkxMessage<OkxOrderBookDataL1>,
        received_time: i64,
    ) -> (r: Self)
        ensures
            okx_l1_items(exchange_id, instrument, book.data@, received_time, r.0@),
    {
        let mut events: Vec<Result<MarketEvent<InstrumentId, OrderBookL1>, DataError>> = Vec::new();
        let mut i: usize = 0;
        while i < book.data.len()
            invariant
                0 <= i <= book.data@.len(),
                events@.len() == i,
                forall|k: int|
                    0 <= k < i ==> okx_l1_item(
                        exchange_id,
                        instrument,
                        book.data@[k],
                        received_time,
                        #[trigger] events@[k],
                    ),
            decreases book.data@.len() - i,
        {
            let data = &book.data[i];
            let item = match data.top(received_time) {
                Ok(kind) => Ok(
                    MarketEvent {
                        exchange_time: data.time,
                        received_time,
                        exchange: exchange_id,
                        instrument: instrument.clone(),
                        kind,
                    },
                ),
                Err(error) => Err(error),
            };
            events.push(item);
            i = i + 1;
        }
        MarketIter(events)
    }
}

impl<InstrumentId: Clone> From<(ExchangeId, InstrumentId, OkxMessage<OkxOrderBookDataL1>)>
    for MarketIter<InstrumentId, OrderBookL1>
{
    /// The events of an OKX `bbo-tbt` message, handled at the time that the
    /// local clock shows.
    fn from(value: (ExchangeId, InstrumentId, OkxMessage<OkxOrderBookDataL1>)) -> (r: Self)
        ensures
            exists|received_time: i64| #[trigger]
                okx_l1_items(value.0, value.1, value.2.data@, received_time, r.0@),
    {
        let (exchange_id, instrument, book) = value;
        let received_time = now_epoch_ms();
        let ghost data = book.data@;
        let r = Self::from_okx_at(exchange_id, instrument, book, received_time);
        assert(okx_l1_items(exchange_id, instrument, data, received_time, r.0@));
        r
    }
}

impl<InstrumentId: Clone> FromSpecImpl<(ExchangeId, InstrumentId, OkxMessage<OkxOrderBookDataL1>)>
    for MarketIter<InstrumentId, OrderBookL1>
{
    /// The result depends on the clock, so no function of the message gives it.
    open spec fn obeys_from_spec() -> bool {
        false
    }

    open spec fn from_spec(
        value: (ExchangeId, InstrumentId, OkxMessage<OkxOrderBookDataL1>),
    ) -> Self {
        arbitrary()
    }
}

} // verus!
