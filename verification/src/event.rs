//! The canonical event: what every exchange message is turned into.
use crate::error::DataError;
use crate::exchange::ExchangeId;
use vstd::prelude::*;

verus! {

/// One canonical market event. Times are milliseconds since the Unix epoch,
/// UTC: `exchange_time` as the exchange reports it, `received_time` as read
/// from the local clock when the message was handled.
#[derive(Clone, Debug, PartialEq, Eq)]
pub struct MarketEvent<InstrumentId, T> {
    pub exchange_time: i64,
    pub received_time: i64,
    pub exchange: ExchangeId,
    pub instrument: InstrumentId,
    pub kind: T,
}

/// What one exchange message yields: events and errors in the order of the
/// wire, none for a message that carries no data.
#[derive(Debug)]
pub struct MarketIter<InstrumentId, T>(pub Vec<Result<MarketEvent<InstrumentId, T>, DataError>>);

} // verus!
