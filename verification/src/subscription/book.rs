//! Order-book values: a price level, the best bid and ask, and one side of a
//! reconstructed book.
use crate::decimal::Decimal;
use crate::error::DataError;
use crate::subscription::SubscriptionKind;
use vstd::prelude::*;

verus! {

/// An amount resting at a price. Whether it is a bid or an ask depends on the
/// ladder that holds it.
#[derive(Clone, Copy, Debug, PartialEq, Eq, Hash, Structural)]
pub struct Level {
    pub price: Decimal,
    pub amount: Decimal,
}

/// Top of book: the best bid and the best ask, and when they were last updated
/// (milliseconds since the Unix epoch, UTC).
#[derive(Clone, Copy, Debug, PartialEq, Eq, Hash, Structural)]
pub struct OrderBookL1 {
    pub last_update_time: i64,
    pub best_bid: Level,
    pub best_ask: Level,
}

/// Subscription kind that yields [`OrderBookL1`] events.
#[derive(Clone, Copy, Debug, PartialEq, Eq, PartialOrd, Ord, Hash, Default)]
pub struct OrderBooksL1;

/// Subscription kind that yields [`OrderBookL2`] events.
#[derive(Clone, Copy, Debug, PartialEq, Eq, PartialOrd, Ord, Hash, Default)]
pub struct OrderBooksL2;

impl SubscriptionKind for OrderBooksL1 {
    type Event = OrderBookL1;
}

impl SubscriptionKind for OrderBooksL2 {
    type Event = OrderBookL2;
}

/// A full-depth book as emitted after an update: both ladders as they stand
/// once the update is applied, and the sequence number of that update.
#[derive(Clone, Debug, PartialEq, Eq)]
pub struct OrderBookL2 {
    pub bids: Vec<Level>,
    pub asks: Vec<Level>,
    pub sequence: u64,
}

/// The top of a book whose sides are listed best price first: the first bid
/// and the first ask. A book that lacks a side has no top, and is reported
/// as incomplete with the number of levels on each side.
pub open spec fn top_of_book(bids: Seq<Level>, asks: Seq<Level>, last_update_time: i64) -> Result<
    OrderBookL1,
    DataError,
> {
    if bids.len() > 0 && asks.len() > 0 {
        Ok(OrderBookL1 { last_update_time, best_bid: bids[0], best_ask: asks[0] })
    } else {
        Err(DataError::IncompleteBook { bids: bids.len() as usize, asks: asks.len() as usize })
    }
}

impl OrderBookL1 {
    /// The top of a book whose sides are listed best price first.
    pub fn top_of(bids: &Vec<Level>, asks: &Vec<Level>, last_update_time: i64) -> (r: Result<
        OrderBookL1,
        DataError,
    >)
        ensures
            r == top_of_book(bids@, asks@, last_update_time),
    {
        if bids.len() > 0 && asks.len() > 0 {
            Ok(OrderBookL1 { last_update_time, best_bid: bids[0], best_ask: asks[0] })
        } else {
            Err(DataError::IncompleteBook { bids: bids.len(), asks: asks.len() })
        }
    }
}

/// A ladder after one level update: an amount of zero removes the price, any
/// other amount is stored at the price, replacing what was there.
pub open spec fn apply_level(ladder: Map<Decimal, Decimal>, level: Level) -> Map<Decimal, Decimal> {
    if level.amount.units == 0 {
        ladder.remove(level.price)
    } else {
        ladder.insert(level.price, level.amount)
    }
}

/// A ladder after the level updates `levels`, applied first to last.
pub open spec fn apply_levels(ladder: Map<Decimal, Decimal>, levels: Seq<Level>) -> Map<
    Decimal,
    Decimal,
>
    decreases levels.len(),
{
    if levels.len() == 0 {
        ladder
    } else {
        apply_level(apply_levels(ladder, levels.drop_last()), levels.last())
    }
}

/// The ladder that `levels` build from nothing.
pub open spec fn ladder_of(levels: Seq<Level>) -> Map<Decimal, Decimal> {
    apply_levels(Map::empty(), levels)
}

/// No price occurs twice in `levels`.
pub open spec fn distinct_prices(levels: Seq<Level>) -> bool {
    forall|i: int, j: int|
        0 <= i < levels.len() && 0 <= j < levels.len() && i != j ==> (#[trigger] levels[i]).price
            != (#[trigger] levels[j]).price
}

/// No level of `levels` has an amount of zero.
pub open spec fn no_empty_level(levels: Seq<Level>) -> bool {
    forall|i: int| 0 <= i < levels.len() ==> (#[trigger] levels[i]).amount.units != 0
}

/// `levels` list a ladder as it is: each price once, none with an amount of zero.
pub open spec fn is_ladder_listing(levels: Seq<Level>) -> bool {
    distinct_prices(levels) && no_empty_level(levels)
}

/// `price` is the price of one of `levels`.
pub open spec fn has_price(levels: Seq<Level>, price: Decimal) -> bool {
    exists|i: int| 0 <= i < levels.len() && (#[trigger] levels[i]).price == price
}

/// One level update touches one price. An amount of zero takes that price out
/// of the ladder. Any other amount stands at that price afterwards, whether
/// the price was in the ladder or not. Every other price stays as it was.
pub proof fn lemma_level_update(ladder: Map<Decimal, Decimal>, level: Level)
    ensures
        level.amount.units == 0 ==> !apply_level(ladder, level).contains_key(level.price),
        level.amount.units != 0 ==> apply_level(ladder, level).contains_key(level.price)
            && apply_level(ladder, level)[level.price] == level.amount,
        forall|price: Decimal|
            price != level.price ==> (#[trigger] apply_level(ladder, level).contains_key(price)
                <==> ladder.contains_key(price)),
        forall|price: Decimal|
            price != level.price && ladder.contains_key(price) ==> #[trigger] apply_level(
                ladder,
                level,
            )[price] == ladder[price],
{
}

/// Applying `first` and then `second` is applying their concatenation.
pub proof fn lemma_apply_levels_concat(
    ladder: Map<Decimal, Decimal>,
    first: Seq<Level>,
    second: Seq<Level>,
)
    ensures
        apply_levels(ladder, first + second) == apply_levels(apply_levels(ladder, first), second),
    decreases second.len(),
{
    if second.len() == 0 {
        assert(first + second == first);
    } else {
        lemma_apply_levels_concat(ladder, first, second.drop_last());
        assert((first + second).drop_last() == first + second.drop_last());
        assert((first + second).last() == second.last());
    }
}

/// A listing builds the ladder that holds exactly its levels: the prices of
/// the ladder are the prices listed, each with the amount listed for it.
pub proof fn lemma_listing_is_ladder(levels: Seq<Level>)
    requires
        is_ladder_listing(levels),
    ensures
        ladder_of(levels).dom().finite(),
        forall|price: Decimal| #[trigger]
            ladder_of(levels).contains_key(price) <==> has_price(levels, price),
        forall|i: int|
            0 <= i < levels.len() ==> ladder_of(levels)[(#[trigger] levels[i]).price]
                == levels[i].amount,
    decreases levels.len(),
{
    if levels.len() == 0 {
    } else {
        let rest = levels.drop_last();
        let last = levels.last();
        assert forall|i: int| 0 <= i < rest.len() implies rest[i] == levels[i] by {}
        lemma_listing_is_ladder(rest);
        assert(ladder_of(levels) == ladder_of(rest).insert(last.price, last.amount));
        assert forall|price: Decimal| #[trigger]
            ladder_of(levels).contains_key(price) <==> has_price(levels, price) by {
            if has_price(levels, price) {
                let i = choose|i: int|
                    0 <= i < levels.len() && (#[trigger] levels[i]).price == price;
                if i < rest.len() {
                    assert(rest[i].price == price);
                    assert(has_price(rest, price));
                }
            }
            if ladder_of(levels).contains_key(price) {
                if price == last.price {
                    assert(levels[levels.len() - 1].price == price);
                } else {
                    assert(has_price(rest, price));
                    let i = choose|i: int|
                        0 <= i < rest.len() && (#[trigger] rest[i]).price == price;
                    assert(levels[i].price == price);
                }
            }
        }
        assert forall|i: int| 0 <= i < levels.len() implies ladder_of(levels)[(
        #[trigger] levels[i]).price] == levels[i].amount by {
            if i < rest.len() {
                assert(rest[i] == levels[i]);
                assert(levels[i].price != levels[levels.len() - 1].price);
            }
        }
    }
}

/// Replacing the level at a price by another amount for the same price.
proof fn lemma_listing_update(levels: Seq<Level>, at: int, level: Level)
    requires
        is_ladder_listing(levels),
        0 <= at < levels.len(),
        levels[at].price == level.price,
        level.amount.units != 0,
    ensures
        is_ladder_listing(levels.update(at, level)),
        ladder_of(levels.update(at, level)) == apply_level(ladder_of(levels), level),
    decreases levels.len(),
{
    let updated = levels.update(at, level);
    let rest = levels.drop_last();
    assert forall|i: int| 0 <= i < rest.len() implies rest[i] == levels[i] by {}
    if at == levels.len() - 1 {
        assert(updated.drop_last() == rest);
        assert(ladder_of(updated) == ladder_of(rest).insert(level.price, level.amount));
        assert(ladder_of(levels) == ladder_of(rest).insert(level.price, levels[at].amount));
        assert(ladder_of(updated) == ladder_of(levels).insert(level.price, level.amount));
    } else {
        let last = levels.last();
        lemma_listing_update(rest, at, level);
        assert(updated.drop_last() == rest.update(at, level));
        assert(updated.last() == last);
        assert(levels[at].price != levels[levels.len() - 1].price);
        assert(ladder_of(updated) == ladder_of(rest).insert(level.price, level.amount).insert(
            last.price,
            last.amount,
        ));
        assert(ladder_of(levels) == ladder_of(rest).insert(last.price, last.amount));
        assert(ladder_of(updated) == ladder_of(levels).insert(level.price, level.amount));
    }
}

/// Taking the level at one position out of a listing.
proof fn lemma_listing_remove(levels: Seq<Level>, at: int)
    requires
        is_ladder_listing(levels),
        0 <= at < levels.len(),
    ensures
        is_ladder_listing(levels.remove(at)),
        ladder_of(levels.remove(at)) == ladder_of(levels).remove(levels[at].price),
    decreases levels.len(),
{
    let removed = levels.remove(at);
    let rest = levels.drop_last();
    let price = levels[at].price;
    assert forall|i: int| 0 <= i < rest.len() implies rest[i] == levels[i] by {}
    assert forall|i: int| 0 <= i < removed.len() implies removed[i] == (if i < at {
        levels[i]
    } else {
        levels[i + 1]
    }) by {}
    if at == levels.len() - 1 {
        assert(removed == rest);
        lemma_listing_is_ladder(rest);
        if has_price(rest, price) {
            let i = choose|i: int| 0 <= i < rest.len() && (#[trigger] rest[i]).price == price;
            assert(levels[i].price == levels[at].price);
        }
        assert(!ladder_of(rest).contains_key(price));
        assert(ladder_of(levels) == ladder_of(rest).insert(price, levels[at].amount));
        assert(ladder_of(removed) == ladder_of(levels).remove(price));
    } else {
        let last = levels.last();
        lemma_listing_remove(rest, at);
        assert(removed.drop_last() == rest.remove(at));
        assert(removed.last() == last);
        assert(levels[at].price != levels[levels.len() - 1].price);
        assert(ladder_of(removed) == ladder_of(rest).remove(price).insert(last.price, last.amount));
        assert(ladder_of(levels) == ladder_of(rest).insert(last.price, last.amount));
        assert(ladder_of(removed) == ladder_of(levels).remove(price));
    }
}

/// One side of a reconstructed order book: at most one amount for each price,
/// and never an amount of zero.
#[derive(Debug)]
pub struct Ladder {
    levels: Vec<Level>,
}

impl View for Ladder {
    type V = Map<Decimal, Decimal>;

    /// The amount resting at each price.
    closed spec fn view(&self) -> Map<Decimal, Decimal> {
        ladder_of(self.levels@)
    }
}

impl Ladder {
    #[verifier::type_invariant]
    spec fn well_formed(&self) -> bool {
        is_ladder_listing(self.levels@)
    }

    /// A ladder without any level.
    pub fn new() -> (r: Ladder)
        ensures
            r@ == Map::<Decimal, Decimal>::empty(),
    {
        Ladder { levels: Vec::new() }
    }

    /// Number of prices with an amount.
    pub fn len(&self) -> (r: usize)
        ensures
            self@.dom().finite(),
            r == self@.dom().len(),
    {
        proof {
            use_type_invariant(self);
            lemma_listing_len(self.levels@);
        }
        self.levels.len()
    }

    /// Position of `price` among the levels.
    fn position(&self, price: Decimal) -> (r: Option<usize>)
        ensures
            match r {
                Some(at) => at < self.levels@.len() && self.levels@[at as int].price == price,
                None => !has_price(self.levels@, price),
            },
    {
        let mut i: usize = 0;
        while i < self.levels.len()
            invariant
                0 <= i <= self.levels@.len(),
                forall|k: int| 0 <= k < i ==> (#[trigger] self.levels@[k]).price != price,
            decreases self.levels@.len() - i,
        {
            if self.levels[i].price == price {
                return Some(i);
            }
            i = i + 1;
        }
        None
    }

    /// The amount resting at `price`, if any.
    pub fn get(&self, price: Decimal) -> (r: Option<Decimal>)
        ensures
            r == (if self@.contains_key(price) {
                Some(self@[price])
            } else {
                None
            }),
    {
        proof {
            use_type_invariant(self);
            lemma_listing_is_ladder(self.levels@);
        }
        match self.position(price) {
            Some(at) => Some(self.levels[at].amount),
            None => None,
        }
    }

    /// The ladder after one level update.
    fn with_level(self, level: Level) -> (r: Ladder)
        ensures
            r@ == apply_level(self@, level),
    {
        proof {
            use_type_invariant(&self);
            lemma_listing_is_ladder(self.levels@);
        }
        let found = self.position(level.price);
        let mut levels = self.levels;
        match found {
            Some(at) => {
                if level.amount.units == 0 {
                    proof {
                        lemma_listing_remove(levels@, at as int);
                    }
                    levels.remove(at);
                } else {
                    proof {
                        lemma_listing_update(levels@, at as int, level);
                    }
                    levels[at] = level;
                }
            },
            None => {
                if level.amount.units == 0 {
                    assert(ladder_of(levels@).remove(level.price) == ladder_of(levels@));
                } else {
                    proof {
                        let pushed = levels@.push(level);
                        assert(pushed.drop_last() == levels@);
                        assert forall|i: int, j: int|
                            0 <= i < pushed.len() && 0 <= j < pushed.len() && i != j implies (
                        #[trigger] pushed[i]).price != (#[trigger] pushed[j]).price by {
                            if i < levels@.len() {
                                assert(pushed[i] == levels@[i]);
                            }
                            if j < levels@.len() {
                                assert(pushed[j] == levels@[j]);
                            }
                        }
                    }
                    levels.push(level);
                }
            },
        }
        Ladder { levels }
    }

    /// Applies one level update: an amount of zero removes the price from the
    /// ladder, any other amount is stored at the price, replacing what was
    /// there.
    pub fn upsert(&mut self, level: Level)
        ensures
            final(self)@ == apply_level(old(self)@, level),
    {
        let mut taken = Ladder::new();
        core::mem::swap(self, &mut taken);
        *self = taken.with_level(level);
    }

    /// Applies the level updates `levels`, first to last.
    pub fn merge(&mut self, levels: &Vec<Level>)
        ensures
            final(self)@ == apply_levels(old(self)@, levels@),
    {
        let mut i: usize = 0;
        while i < levels.len()
            invariant
                0 <= i <= levels@.len(),
                self@ == apply_levels(old(self)@, levels@.take(i as int)),
            decreases levels@.len() - i,
        {
            proof {
                assert(levels@.take(i + 1).drop_last() == levels@.take(i as int));
                assert(levels@.take(i + 1).last() == levels@[i as int]);
            }
            self.upsert(levels[i]);
            i = i + 1;
        }
        proof {
            assert(levels@.take(levels@.len() as int) == levels@);
        }
    }

    /// The ladder that `levels` build from nothing.
    pub fn from_levels(levels: &Vec<Level>) -> (r: Ladder)
        ensures
            r@ == ladder_of(levels@),
    {
        let mut ladder = Ladder::new();
        ladder.merge(levels);
        ladder
    }

    /// The levels of the ladder: each price once, with the amount resting at it.
    pub fn to_levels(&self) -> (r: Vec<Level>)
        ensures
            is_ladder_listing(r@),
            ladder_of(r@) == self@,
    {
        proof {
            use_type_invariant(self);
        }
        let mut out: Vec<Level> = Vec::new();
        let mut i: usize = 0;
        while i < self.levels.len()
            invariant
                0 <= i <= self.levels@.len(),
                out@ == self.levels@.take(i as int),
            decreases self.levels@.len() - i,
        {
            out.push(self.levels[i]);
            proof {
                assert(self.levels@.take(i + 1) == self.levels@.take(i as int).push(
                    self.levels@[i as int],
                ));
            }
            i = i + 1;
        }
        proof {
            assert(self.levels@.take(self.levels@.len() as int) == self.levels@);
        }
        out
    }
}

/// A listing has as many levels as its ladder has prices.
proof fn lemma_listing_len(levels: Seq<Level>)
    requires
        is_ladder_listing(levels),
    ensures
        ladder_of(levels).dom().finite(),
        ladder_of(levels).dom().len() == levels.len(),
    decreases levels.len(),
{
    if levels.len() == 0 {
    } else {
        let rest = levels.drop_last();
        let last = levels.last();
        assert forall|i: int| 0 <= i < rest.len() implies rest[i] == levels[i] by {}
        lemma_listing_len(rest);
        lemma_listing_is_ladder(rest);
        if has_price(rest, last.price) {
            let i = choose|i: int| 0 <= i < rest.len() && (#[trigger] rest[i]).price == last.price;
            assert(levels[i].price == levels[levels.len() - 1].price);
        }
        assert(ladder_of(levels).dom() == ladder_of(rest).dom().insert(last.price));
    }
}

} // verus!
