//! Aggregated public trades.
use crate::decimal::Decimal;
use crate::subscription::SubscriptionKind;
use vstd::prelude::*;

verus! {

/// Subscription kind that yields [`PublicAggregatedTrade`] events.
#[derive(Clone, Copy, Debug, PartialEq, Eq, PartialOrd, Ord, Hash)]
pub struct PublicAggregatedTrades;

impl SubscriptionKind for PublicAggregatedTrades {
    type Event = PublicAggregatedTrade;
}

/// The public trades of one instant taken together: the price and the amount
/// traded, and the highest and the lowest price among them.
#[derive(Clone, Debug, PartialEq, Eq)]
pub struct PublicAggregatedTrade {
    pub id: String,
    pub price: Decimal,
    pub amount: Decimal,
    pub high: Decimal,
    pub low: Decimal,
}

} // verus!
