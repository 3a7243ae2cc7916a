//! Reconstruction of full-depth order books from snapshots and deltas.
//!
//! Each subscription has a book of its own, in one of three states. A
//! snapshot replaces the book and makes it synced. A delta is merged into a
//! synced book if its sequence number follows the last one applied. A delta
//! that is not newer is dropped and reported. A delta that skips updates, or
//! that finds no snapshot to build on, leaves the book desynced until the
//! next snapshot. Every update that is applied yields the whole book as it
//! stands after it.
use crate::clock::now_epoch_ms;
use crate::decimal::Decimal;
use crate::error::{DataError, SocketError};
use crate::event::{MarketEvent, MarketIter};
use crate::exchange::ExchangeId;
use crate::subscription::book::{
    apply_levels, is_ladder_listing, ladder_of, lemma_apply_levels_concat,
    lemma_listing_is_ladder, has_price, Ladder, Level, OrderBookL2,
};
use crate::subscription::{
    same_subscription, subscription_id_from, subscription_id_str, subscription_text,
};
use barter_integration::model::SubscriptionId;
use vstd::prelude::*;
use vstd::string::*;

verus! {

/// The levels of one book message and its sequence number: a snapshot lists
/// the whole book, a delta the levels that changed.
#[derive(Clone, Debug, PartialEq, Eq)]
pub struct BookUpdate {
    pub bids: Vec<Level>,
    pub asks: Vec<Level>,
    pub sequence: u64,
}

/// A book message: the whole book, or the changes since the last message.
#[derive(Clone, Debug, PartialEq, Eq)]
pub enum BookMessage {
    Snapshot(BookUpdate),
    Delta(BookUpdate),
}

/// Which sequence numbers an exchange lets follow one another.
#[derive(Clone, Copy, Debug, PartialEq, Eq, Hash, Structural)]
pub enum SequencePolicy {
    /// Each delta carries the number after the last: anything else is a gap.
    Contiguous,
    /// Each delta carries a larger number than the last.
    Increasing,
}

/// A book update as a value.
pub ghost struct UpdateView {
    pub bids: Seq<Level>,
    pub asks: Seq<Level>,
    pub sequence: u64,
}

impl View for BookUpdate {
    type V = UpdateView;

    open spec fn view(&self) -> UpdateView {
        UpdateView { bids: self.bids@, asks: self.asks@, sequence: self.sequence }
    }
}

/// A reconstructed book: the amount at each price on either side, and the
/// sequence number of the last update applied.
#[derive(Debug)]
pub struct Book {
    pub bids: Ladder,
    pub asks: Ladder,
    pub sequence: u64,
}

/// A reconstructed book as a value.
pub ghost struct BookView {
    pub bids: Map<Decimal, Decimal>,
    pub asks: Map<Decimal, Decimal>,
    pub sequence: u64,
}

impl View for Book {
    type V = BookView;

    open spec fn view(&self) -> BookView {
        BookView { bids: self.bids@, asks: self.asks@, sequence: self.sequence }
    }
}

/// The state of the book of one subscription.
#[derive(Debug)]
pub enum BookState {
    /// No snapshot has come yet.
    Uninitialized,
    /// The book follows the exchange.
    Synced(Book),
    /// Updates were missed: the book is not to be trusted before the next snapshot.
    Desynced,
}

/// The state of a book as a value.
pub ghost enum BookStateView {
    Uninitialized,
    Synced(BookView),
    Desynced,
}

impl View for BookState {
    type V = BookStateView;

    open spec fn view(&self) -> BookStateView {
        match self {
            BookState::Uninitialized => BookStateView::Uninitialized,
            BookState::Synced(book) => BookStateView::Synced(book@),
            BookState::Desynced => BookStateView::Desynced,
        }
    }
}

/// The book that a snapshot describes.
pub open spec fn snapshot_book(snapshot: UpdateView) -> BookView {
    BookView {
        bids: ladder_of(snapshot.bids),
        asks: ladder_of(snapshot.asks),
        sequence: snapshot.sequence,
    }
}

/// A book with a delta merged into it.
pub open spec fn merged(book: BookView, delta: UpdateView) -> BookView {
    BookView {
        bids: apply_levels(book.bids, delta.bids),
        asks: apply_levels(book.asks, delta.asks),
        sequence: delta.sequence,
    }
}

/// The sequence number `next` may follow `last`.
pub open spec fn follows(last: u64, next: u64, policy: SequencePolicy) -> bool {
    match policy {
        SequencePolicy::Contiguous => next == last + 1,
        SequencePolicy::Increasing => next > last,
    }
}

/// Why a delta is not applied; `None` where it is.
pub open spec fn delta_rejection(
    state: BookStateView,
    delta: UpdateView,
    policy: SequencePolicy,
) -> Option<DataError> {
    match state {
        BookStateView::Synced(book) => if delta.sequence <= book.sequence {
            Some(DataError::StaleSequence { last: book.sequence, received: delta.sequence })
        } else if !follows(book.sequence, delta.sequence, policy) {
            Some(DataError::SequenceGap { last: book.sequence, received: delta.sequence })
        } else {
            None
        },
        _ => Some(DataError::NotSynced),
    }
}

/// The state of a book after a delta has come.
pub open spec fn after_delta(
    state: BookStateView,
    delta: UpdateView,
    policy: SequencePolicy,
) -> BookStateView {
    match state {
        BookStateView::Synced(book) => if delta.sequence <= book.sequence {
            state
        } else if follows(book.sequence, delta.sequence, policy) {
            BookStateView::Synced(merged(book, delta))
        } else {
            BookStateView::Desynced
        },
        _ => BookStateView::Desynced,
    }
}

/// The state of a book after the deltas `deltas` have come, first to last.
pub open spec fn after_deltas(
    state: BookStateView,
    deltas: Seq<UpdateView>,
    policy: SequencePolicy,
) -> BookStateView
    decreases deltas.len(),
{
    if deltas.len() == 0 {
        state
    } else {
        after_delta(after_deltas(state, deltas.drop_last(), policy), deltas.last(), policy)
    }
}

/// Each of `deltas` follows the one before it, the first one `last`.
pub open spec fn in_sequence(last: u64, deltas: Seq<UpdateView>, policy: SequencePolicy) -> bool {
    &&& deltas.len() > 0 ==> follows(last, deltas[0].sequence, policy)
    &&& forall|i: int, j: int|
        0 <= i && j == i + 1 && j < deltas.len() ==> follows(
            (#[trigger] deltas[i]).sequence,
            (#[trigger] deltas[j]).sequence,
            policy,
        )
}

/// The bid updates of `deltas`, one delta after the other.
pub open spec fn all_bids(deltas: Seq<UpdateView>) -> Seq<Level>
    decreases deltas.len(),
{
    if deltas.len() == 0 {
        Seq::empty()
    } else {
        all_bids(deltas.drop_last()) + deltas.last().bids
    }
}

/// The ask updates of `deltas`, one delta after the other.
pub open spec fn all_asks(deltas: Seq<UpdateView>) -> Seq<Level>
    decreases deltas.len(),
{
    if deltas.len() == 0 {
        Seq::empty()
    } else {
        all_asks(deltas.drop_last()) + deltas.last().asks
    }
}

/// The sequence number of the last of `deltas`, or `last` where there is none.
pub open spec fn last_sequence(last: u64, deltas: Seq<UpdateView>) -> u64 {
    if deltas.len() == 0 {
        last
    } else {
        deltas.last().sequence
    }
}

/// The event shows the book: its ladders list each price of the book once,
/// with the amount resting at it, and it carries the book's sequence number.
pub open spec fn shows_book(event: OrderBookL2, book: BookView) -> bool {
    &&& event.sequence == book.sequence
    &&& is_ladder_listing(event.bids@)
    &&& ladder_of(event.bids@) == book.bids
    &&& is_ladder_listing(event.asks@)
    &&& ladder_of(event.asks@) == book.asks
}

/// A snapshot whose sides list each price once, with no amount of zero, gives
/// a book that holds exactly the levels of the snapshot.
pub proof fn lemma_snapshot_matches_levels(snapshot: UpdateView)
    requires
        is_ladder_listing(snapshot.bids),
        is_ladder_listing(snapshot.asks),
    ensures
        forall|price: Decimal| #[trigger]
            snapshot_book(snapshot).bids.contains_key(price) <==> has_price(snapshot.bids, price),
        forall|i: int|
            0 <= i < snapshot.bids.len() ==> snapshot_book(snapshot).bids[(
            #[trigger] snapshot.bids[i]).price] == snapshot.bids[i].amount,
        forall|price: Decimal| #[trigger]
            snapshot_book(snapshot).asks.contains_key(price) <==> has_price(snapshot.asks, price),
        forall|i: int|
            0 <= i < snapshot.asks.len() ==> snapshot_book(snapshot).asks[(
            #[trigger] snapshot.asks[i]).price] == snapshot.asks[i].amount,
{
    lemma_listing_is_ladder(snapshot.bids);
    lemma_listing_is_ladder(snapshot.asks);
}

/// Replay: deltas that come in sequence after a snapshot leave the book
/// synced, with the ladders that the levels of the snapshot followed by the
/// levels of every delta, in order, build from nothing.
pub proof fn lemma_replay(snapshot: UpdateView, deltas: Seq<UpdateView>, policy: SequencePolicy)
    requires
        in_sequence(snapshot.sequence, deltas, policy),
    ensures
        after_deltas(BookStateView::Synced(snapshot_book(snapshot)), deltas, policy)
            == BookStateView::Synced(
            BookView {
                bids: ladder_of(snapshot.bids + all_bids(deltas)),
                asks: ladder_of(snapshot.asks + all_asks(deltas)),
                sequence: last_sequence(snapshot.sequence, deltas),
            },
        ),
    decreases deltas.len(),
{
    if deltas.len() == 0 {
        assert(snapshot.bids + all_bids(deltas) == snapshot.bids);
        assert(snapshot.asks + all_asks(deltas) == snapshot.asks);
    } else {
        let earlier = deltas.drop_last();
        let delta = deltas.last();
        assert(in_sequence(snapshot.sequence, earlier, policy)) by {
            if earlier.len() > 0 {
                assert(earlier[0] == deltas[0]);
            }
            assert forall|i: int, j: int| 0 <= i && j == i + 1 && j < earlier.len() implies follows(
                (#[trigger] earlier[i]).sequence,
                (#[trigger] earlier[j]).sequence,
                policy,
            ) by {
                assert(earlier[i] == deltas[i]);
                assert(earlier[j] == deltas[j]);
            }
        }
        lemma_replay(snapshot, earlier, policy);
        let before = last_sequence(snapshot.sequence, earlier);
        assert(follows(before, delta.sequence, policy)) by {
            let n = deltas.len() as int;
            assert(deltas[n - 1] == delta);
            if earlier.len() > 0 {
                assert(earlier.last() == deltas[n - 2]);
                assert(follows(deltas[n - 2].sequence, deltas[n - 1].sequence, policy));
            }
        }
        lemma_apply_levels_concat(Map::empty(), snapshot.bids + all_bids(earlier), delta.bids);
        lemma_apply_levels_concat(Map::empty(), snapshot.asks + all_asks(earlier), delta.asks);
        assert(snapshot.bids + all_bids(deltas) == (snapshot.bids + all_bids(earlier))
            + delta.bids);
        assert(snapshot.asks + all_asks(deltas) == (snapshot.asks + all_asks(earlier))
            + delta.asks);
    }
}

/// A delta that is not newer than the last update applied changes nothing and
/// is reported as stale, whatever the policy.
pub proof fn lemma_stale_delta_rejected(book: BookView, delta: UpdateView, policy: SequencePolicy)
    requires
        delta.sequence <= book.sequence,
    ensures
        after_delta(BookStateView::Synced(book), delta, policy) == BookStateView::Synced(book),
        delta_rejection(BookStateView::Synced(book), delta, policy) == Some(
            DataError::StaleSequence { last: book.sequence, received: delta.sequence },
        ),
{
}

impl Book {
    /// The book as an event.
    pub fn to_event(&self) -> (event: OrderBookL2)
        ensures
            shows_book(event, self@),
    {
        OrderBookL2 {
            bids: self.bids.to_levels(),
            asks: self.asks.to_levels(),
            sequence: self.sequence,
        }
    }
}

impl BookState {
    /// The state of a book before its first snapshot.
    pub fn new() -> (state: BookState)
        ensures
            state@ == BookStateView::Uninitialized,
    {
        BookState::Uninitialized
    }

    /// Replaces the book by the one that `snapshot` describes, whatever the
    /// state was, and returns the new book.
    pub fn apply_snapshot(&mut self, snapshot: &BookUpdate) -> (event: OrderBookL2)
        ensures
            final(self)@ == BookStateView::Synced(snapshot_book(snapshot@)),
            shows_book(event, snapshot_book(snapshot@)),
    {
        let book = Book {
            bids: Ladder::from_levels(&snapshot.bids),
            asks: Ladder::from_levels(&snapshot.asks),
            sequence: snapshot.sequence,
        };
        let event = book.to_event();
        *self = BookState::Synced(book);
        event
    }

    /// The state after `delta`, and the book as it then stands or the reason
    /// why the delta was not applied.
    fn step(self, delta: &BookUpdate, policy: SequencePolicy) -> (r: (
        BookState,
        Result<OrderBookL2, DataError>,
    ))
        ensures
            r.0@ == after_delta(self@, delta@, policy),
            match r.1 {
                Ok(event) => {
                    &&& delta_rejection(self@, delta@, policy) is None
                    &&& r.0@ matches BookStateView::Synced(book)
                    &&& shows_book(event, book)
                },
                Err(error) => delta_rejection(self@, delta@, policy) == Some(error),
            },
    {
        match self {
            BookState::Synced(book) => {
                if delta.sequence <= book.sequence {
                    let error = DataError::StaleSequence {
                        last: book.sequence,
                        received: delta.sequence,
                    };
                    (BookState::Synced(book), Err(error))
                } else if matches!(policy, SequencePolicy::Contiguous) && delta.sequence
                    - book.sequence != 1 {
                    let error = DataError::SequenceGap {
                        last: book.sequence,
                        received: delta.sequence,
                    };
                    (BookState::Desynced, Err(error))
                } else {
                    let Book { bids, asks, sequence: _ } = book;
                    let mut bids = bids;
                    let mut asks = asks;
                    bids.merge(&delta.bids);
                    asks.merge(&delta.asks);
                    let next = Book { bids, asks, sequence: delta.sequence };
                    let event = next.to_event();
                    (BookState::Synced(next), Ok(event))
                }
            },
            _ => (BookState::Desynced, Err(DataError::NotSynced)),
        }
    }

    /// Merges `delta` into a synced book if its sequence number follows the
    /// last one applied, and returns the book as it then stands.
    ///
    /// A delta that is not newer than the last update applied is dropped: the
    /// state stays as it is and `StaleSequence` is returned. A delta that
    /// skips updates under [`SequencePolicy::Contiguous`] desyncs the book and
    /// returns `SequenceGap`. A delta for a book that is not synced leaves it
    /// desynced and returns `NotSynced`.
    pub fn apply_delta(&mut self, delta: &BookUpdate, policy: SequencePolicy) -> (r: Result<
        OrderBookL2,
        DataError,
    >)
        ensures
            final(self)@ == after_delta(old(self)@, delta@, policy),
            match r {
                Ok(event) => {
                    &&& delta_rejection(old(self)@, delta@, policy) is None
                    &&& final(self)@ matches BookStateView::Synced(book)
                    &&& shows_book(event, book)
                },
                Err(error) => delta_rejection(old(self)@, delta@, policy) == Some(error),
            },
            old(self)@ matches BookStateView::Synced(book) ==> (delta.sequence <= book.sequence
                ==> final(self)@ == old(self)@ && r == Err::<OrderBookL2, DataError>(
                DataError::StaleSequence { last: book.sequence, received: delta.sequence },
            )),
    {
        let mut state = BookState::Uninitialized;
        core::mem::swap(self, &mut state);
        let (next, result) = state.step(delta, policy);
        *self = next;
        result
    }
}

/// The book of one subscription and the instrument that it belongs to.
#[derive(Debug)]
pub struct InstrumentBook<InstrumentId> {
    pub subscription_id: SubscriptionId,
    pub instrument: InstrumentId,
    pub state: BookState,
}

/// Reconstructs the books of the subscriptions of one connection.
#[derive(Debug)]
pub struct MultiBookTransformer<InstrumentId> {
    pub exchange: ExchangeId,
    pub policy: SequencePolicy,
    pub books: Vec<InstrumentBook<InstrumentId>>,
}

/// `at` is the first of `books` whose key has the characters `key`.
pub open spec fn is_book_of<InstrumentId>(
    books: Seq<InstrumentBook<InstrumentId>>,
    key: Seq<char>,
    at: int,
) -> bool {
    &&& 0 <= at < books.len()
    &&& subscription_text(books[at].subscription_id) == key
    &&& forall|j: int|
        0 <= j < at ==> subscription_text((#[trigger] books[j]).subscription_id) != key
}

/// One of `books` has a key with the characters `key`.
pub open spec fn has_book<InstrumentId>(
    books: Seq<InstrumentBook<InstrumentId>>,
    key: Seq<char>,
) -> bool {
    exists|at: int|
        0 <= at < books.len() && subscription_text((#[trigger] books[at]).subscription_id) == key
}

/// The state of a book after a message has come.
pub open spec fn after_message(
    state: BookStateView,
    message: BookMessage,
    policy: SequencePolicy,
) -> BookStateView {
    match message {
        BookMessage::Snapshot(snapshot) => BookStateView::Synced(snapshot_book(snapshot@)),
        BookMessage::Delta(delta) => after_delta(state, delta@, policy),
    }
}

/// Why a message is not applied; `None` where it is.
pub open spec fn message_rejection(
    state: BookStateView,
    message: BookMessage,
    policy: SequencePolicy,
) -> Option<DataError> {
    match message {
        BookMessage::Snapshot(_) => None,
        BookMessage::Delta(delta) => delta_rejection(state, delta@, policy),
    }
}

/// Between `before` and `after` no book but the one at `at` has changed, and
/// that one has kept its key and its instrument.
pub open spec fn only_book_changed<InstrumentId>(
    before: Seq<InstrumentBook<InstrumentId>>,
    after: Seq<InstrumentBook<InstrumentId>>,
    at: int,
) -> bool {
    &&& after.len() == before.len()
    &&& forall|j: int|
        0 <= j < before.len() ==> (#[trigger] after[j]).subscription_id
            == before[j].subscription_id && after[j].instrument == before[j].instrument
    &&& forall|j: int|
        0 <= j < before.len() && j != at ==> (#[trigger] after[j]).state == before[j].state
}

/// `item` is what `message` yields for the book `before`, which it leaves as
/// `after`: the event that shows the book, or the reason why the message was
/// not applied.
pub open spec fn book_transformed<InstrumentId: Clone>(
    exchange: ExchangeId,
    policy: SequencePolicy,
    before: InstrumentBook<InstrumentId>,
    message: BookMessage,
    exchange_time: i64,
    received_time: i64,
    after: InstrumentBook<InstrumentId>,
    item: Result<MarketEvent<InstrumentId, OrderBookL2>, DataError>,
) -> bool {
    &&& after.state@ == after_message(before.state@, message, policy)
    &&& match item {
        Ok(event) => {
            &&& message_rejection(before.state@, message, policy) is None
            &&& event.exchange_time == exchange_time
            &&& event.received_time == received_time
            &&& event.exchange == exchange
            &&& cloned(before.instrument, event.instrument)
            &&& after.state@ matches BookStateView::Synced(book)
            &&& shows_book(event.kind, book)
        },
        Err(error) => message_rejection(before.state@, message, policy) == Some(error),
    }
}

/// `items` are what a message of the subscription `id` yields, and `after` is
/// the transformer that it leaves behind.
///
/// There is one item. The message goes to the first book whose key has the
/// characters of `id`, and no other book changes. Where no book has that key,
/// no book changes at all and the item is the error that `id` is
/// unidentifiable.
pub open spec fn transformed<InstrumentId: Clone>(
    before: MultiBookTransformer<InstrumentId>,
    id: SubscriptionId,
    message: BookMessage,
    exchange_time: i64,
    received_time: i64,
    after: MultiBookTransformer<InstrumentId>,
    items: Seq<Result<MarketEvent<InstrumentId, OrderBookL2>, DataError>>,
) -> bool {
    &&& after.exchange == before.exchange
    &&& after.policy == before.policy
    &&& items.len() == 1
    &&& !has_book(before.books@, subscription_text(id)) ==> {
        &&& only_book_changed(before.books@, after.books@, -1)
        &&& items[0] matches Err(DataError::Socket(error))
        &&& error.is_unidentifiable(id)
    }
    &&& forall|at: int|
        is_book_of(before.books@, subscription_text(id), at) ==> {
            &&& only_book_changed(before.books@, after.books@, at)
            &&& book_transformed(
                before.exchange,
                before.policy,
                before.books@[at],
                message,
                exchange_time,
                received_time,
                #[trigger] after.books@[at],
                items[0],
            )
        }
}

impl BookState {
    /// Applies a snapshot or a delta, and returns the book as it then stands
    /// or the reason why the message was not applied.
    pub fn apply(&mut self, message: &BookMessage, policy: SequencePolicy) -> (r: Result<
        OrderBookL2,
        DataError,
    >)
        ensures
            final(self)@ == after_message(old(self)@, *message, policy),
            match r {
                Ok(event) => {
                    &&& message_rejection(old(self)@, *message, policy) is None
                    &&& final(self)@ matches BookStateView::Synced(book)
                    &&& shows_book(event, book)
                },
                Err(error) => message_rejection(old(self)@, *message, policy) == Some(error),
            },
    {
        match message {
            BookMessage::Snapshot(snapshot) => Ok(self.apply_snapshot(snapshot)),
            BookMessage::Delta(delta) => self.apply_delta(delta, policy),
        }
    }
}

impl<InstrumentId: Clone> MultiBookTransformer<InstrumentId> {
    /// A transformer for `exchange` that knows no subscription yet.
    pub fn new(exchange: ExchangeId, policy: SequencePolicy) -> (r: Self)
        ensures
            r.exchange == exchange,
            r.policy == policy,
            r.books@.len() == 0,
    {
        MultiBookTransformer { exchange, policy, books: Vec::new() }
    }

    /// Makes a subscription known, with a book that awaits its first snapshot.
    pub fn insert(&mut self, subscription_id: SubscriptionId, instrument: InstrumentId)
        ensures
            final(self).exchange == old(self).exchange,
            final(self).policy == old(self).policy,
            final(self).books@ == old(self).books@.push(
                InstrumentBook { subscription_id, instrument, state: BookState::Uninitialized },
            ),
    {
        self.books.push(InstrumentBook { subscription_id, instrument, state: BookState::new() });
    }

    /// Position of the first book whose key has the characters of `id`.
    pub fn find(&self, id: &SubscriptionId) -> (r: Option<usize>)
        ensures
            match r {
                Some(at) => is_book_of(self.books@, subscription_text(*id), at as int),
                None => !has_book(self.books@, subscription_text(*id)),
            },
    {
        let mut i: usize = 0;
        while i < self.books.len()
            invariant
                0 <= i <= self.books@.len(),
                forall|j: int|
                    0 <= j < i ==> subscription_text((#[trigger] self.books@[j]).subscription_id)
                        != subscription_text(*id),
            decreases self.books@.len() - i,
        {
            if same_subscription(&self.books[i].subscription_id, id) {
                return Some(i);
            }
            i = i + 1;
        }
        None
    }

    /// Applies a book message of the subscription `id`, handled at
    /// `received_time`, and returns what it yields: one event that carries the
    /// whole book as it stands after the message, or one error.
    ///
    /// The message goes to the first book whose key has the characters of
    /// `id`; every other book stays as it is. Where there is no such book,
    /// nothing changes and the error says that `id` is unidentifiable.
    pub fn transform_at(
        &mut self,
        id: &SubscriptionId,
        message: &BookMessage,
        exchange_time: i64,
        received_time: i64,
    ) -> (r: MarketIter<InstrumentId, OrderBookL2>)
        ensures
            transformed(
                *old(self),
                *id,
                *message,
                exchange_time,
                received_time,
                *final(self),
                r.0@,
            ),
    {
        let mut items: Vec<Result<MarketEvent<InstrumentId, OrderBookL2>, DataError>> = Vec::new();
        match self.find(id) {
            None => {
                let unknown = subscription_id_from(String::from_str(subscription_id_str(id)));
                items.push(Err(DataError::Socket(SocketError::Unidentifiable(unknown))));
            },
            Some(at) => {
                let mut entry = self.books.remove(at);
                let outcome = entry.state.apply(message, self.policy);
                match outcome {
                    Ok(kind) => {
                        let instrument = entry.instrument.clone();
                        items.push(
                            Ok(
                                MarketEvent {
                                    exchange_time,
                                    received_time,
                                    exchange: self.exchange,
                                    instrument,
                                    kind,
                                },
                            ),
                        );
                    },
                    Err(error) => {
                        items.push(Err(error));
                    },
                }
                self.books.insert(at, entry);
                proof {
                    let key = subscription_text(*id);
                    assert forall|k: int|
                        is_book_of(old(self).books@, key, k) implies k == at by {
                        if k < at {
                            assert(subscription_text(old(self).books@[k].subscription_id) != key);
                        }
                        if at < k {
                            let found = old(self).books@[at as int];
                            assert(subscription_text(found.subscription_id) != key);
                        }
                    }
                    assert(has_book(old(self).books@, key));
                }
            },
        }
        MarketIter(items)
    }

    /// Applies a book message of the subscription `id`, handled at the time
    /// that the local clock shows.
    pub fn transform(
        &mut self,
        id: &SubscriptionId,
        message: &BookMessage,
        exchange_time: i64,
    ) -> (r: MarketIter<InstrumentId, OrderBookL2>)
        ensures
            exists|received_time: i64| #[trigger]
                transformed(
                    *old(self),
                    *id,
                    *message,
                    exchange_time,
                    received_time,
                    *final(self),
                    r.0@,
                ),
    {
        let received_time = now_epoch_ms();
        let r = self.transform_at(id, message, exchange_time, received_time);
        assert(transformed(
            *old(self),
            *id,
            *message,
            exchange_time,
            received_time,
            *self,
            r.0@,
        ));
        r
    }
}

} // verus!
