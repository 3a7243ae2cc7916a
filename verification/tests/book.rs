use barter_data::decimal::Decimal;
use barter_data::error::{DataError, SocketError};
use barter_data::exchange::ExchangeId;
use barter_data::subscription::book::{Ladder, Level, OrderBookL1, OrderBookL2};
use barter_data::transformer::book::{
    BookMessage, BookState, BookUpdate, MultiBookTransformer, SequencePolicy,
};
use barter_integration::model::SubscriptionId;

fn d(text: &str) -> Decimal {
    Decimal::parse(text).unwrap()
}

fn level(price: &str, amount: &str) -> Level {
    Level { price: d(price), amount: d(amount) }
}

fn sorted(mut levels: Vec<Level>) -> Vec<(u64, u32, u64, u32)> {
    let mut out: Vec<(u64, u32, u64, u32)> = levels
        .drain(..)
        .map(|l| (l.price.units, l.price.scale, l.amount.units, l.amount.scale))
        .collect();
    out.sort();
    out
}

fn update(bids: Vec<Level>, asks: Vec<Level>, sequence: u64) -> BookUpdate {
    BookUpdate { bids, asks, sequence }
}

#[test]
fn a_new_amount_at_a_new_price_is_inserted() {
    let mut ladder = Ladder::new();
    assert_eq!(ladder.len(), 0);
    ladder.upsert(level("100.5", "2"));
    ladder.upsert(level("101", "3"));
    assert_eq!(ladder.len(), 2);
    assert_eq!(ladder.get(d("100.5")), Some(d("2")));
    assert_eq!(ladder.get(d("101")), Some(d("3")));
    assert_eq!(ladder.get(d("102")), None);
}

#[test]
fn a_new_amount_at_a_known_price_overwrites() {
    let mut ladder = Ladder::from_levels(&vec![level("100.5", "2"), level("101", "3")]);
    ladder.upsert(level("100.50", "7.25"));
    assert_eq!(ladder.len(), 2);
    assert_eq!(ladder.get(d("100.5")), Some(d("7.25")));
    assert_eq!(ladder.get(d("101")), Some(d("3")));
}

#[test]
fn an_amount_of_zero_removes_that_exact_price() {
    let mut ladder =
        Ladder::from_levels(&vec![level("100.5", "2"), level("101", "3"), level("102", "4")]);
    ladder.upsert(level("101.0", "0.000"));
    assert_eq!(ladder.len(), 2);
    assert_eq!(ladder.get(d("101")), None);
    assert_eq!(ladder.get(d("100.5")), Some(d("2")));
    assert_eq!(ladder.get(d("102")), Some(d("4")));
    assert_eq!(
        sorted(ladder.to_levels()),
        sorted(vec![level("100.5", "2"), level("102", "4")])
    );
}

#[test]
fn an_amount_of_zero_at_an_unknown_price_changes_nothing() {
    let mut ladder = Ladder::from_levels(&vec![level("100.5", "2")]);
    ladder.upsert(level("99", "0"));
    assert_eq!(sorted(ladder.to_levels()), sorted(vec![level("100.5", "2")]));
}

#[test]
fn from_levels_applies_first_to_last() {
    let ladder = Ladder::from_levels(&vec![
        level("1", "1"),
        level("2", "2"),
        level("1", "5"),
        level("2", "0"),
        level("3", "0"),
    ]);
    assert_eq!(sorted(ladder.to_levels()), sorted(vec![level("1", "5")]));
}

#[test]
fn merge_applies_first_to_last() {
    let mut ladder = Ladder::from_levels(&vec![level("1", "1"), level("2", "2")]);
    ladder.merge(&vec![level("2", "0"), level("3", "3"), level("3", "4"), level("1", "9")]);
    assert_eq!(sorted(ladder.to_levels()), sorted(vec![level("1", "9"), level("3", "4")]));
}

#[test]
fn top_of_book_is_the_first_level_of_each_side() {
    let bids = vec![level("10", "1"), level("9", "2")];
    let asks = vec![level("11", "3"), level("12", "4")];
    assert_eq!(
        OrderBookL1::top_of(&bids, &asks, 42).unwrap(),
        OrderBookL1 { last_update_time: 42, best_bid: level("10", "1"), best_ask: level("11", "3") }
    );
}

#[test]
fn a_book_without_a_side_has_no_top() {
    let some = vec![level("10", "1"), level("9", "2")];
    let none: Vec<Level> = vec![];
    assert!(matches!(
        OrderBookL1::top_of(&none, &some, 0),
        Err(DataError::IncompleteBook { bids: 0, asks: 2 })
    ));
    assert!(matches!(
        OrderBookL1::top_of(&some, &none, 0),
        Err(DataError::IncompleteBook { bids: 2, asks: 0 })
    ));
    assert!(matches!(
        OrderBookL1::top_of(&none, &none, 0),
        Err(DataError::IncompleteBook { bids: 0, asks: 0 })
    ));
}

#[test]
fn a_snapshot_syncs_the_book_with_exactly_its_levels() {
    let mut state = BookState::new();
    assert!(matches!(state, BookState::Uninitialized));
    let snapshot = update(
        vec![level("100", "1"), level("99", "2")],
        vec![level("101", "3"), level("102", "4")],
        10,
    );
    let event = state.apply_snapshot(&snapshot);
    assert_eq!(event.sequence, 10);
    assert_eq!(sorted(event.bids), sorted(snapshot.bids.clone()));
    assert_eq!(sorted(event.asks), sorted(snapshot.asks.clone()));
    match &state {
        BookState::Synced(book) => {
            assert_eq!(book.sequence, 10);
            assert_eq!(book.bids.len(), 2);
            assert_eq!(book.bids.get(d("100")), Some(d("1")));
            assert_eq!(book.bids.get(d("99")), Some(d("2")));
            assert_eq!(book.asks.len(), 2);
            assert_eq!(book.asks.get(d("101")), Some(d("3")));
            assert_eq!(book.asks.get(d("102")), Some(d("4")));
        }
        other => panic!("expected a synced book, got {:?}", other),
    }
}

#[test]
fn a_snapshot_replaces_whatever_was_there() {
    let mut state = BookState::new();
    state.apply_snapshot(&update(vec![level("100", "1")], vec![level("101", "3")], 10));
    let event = state.apply_snapshot(&update(vec![level("50", "5")], vec![], 3));
    assert_eq!(
        event,
        OrderBookL2 { bids: vec![level("50", "5")], asks: vec![], sequence: 3 }
    );
    let mut desynced = BookState::Desynced;
    desynced.apply_snapshot(&update(vec![], vec![], 1));
    assert!(matches!(desynced, BookState::Synced(_)));
}

#[test]
fn deltas_in_increasing_order_replay_to_the_same_ladder() {
    let snapshot = update(
        vec![level("100", "1"), level("99", "2")],
        vec![level("101", "3"), level("102", "4")],
        10,
    );
    let deltas = vec![
        update(vec![level("100", "0"), level("98", "7")], vec![level("101", "3.5")], 12),
        update(vec![level("99", "2.5")], vec![level("102", "0"), level("103", "1")], 13),
        update(vec![level("100", "4")], vec![], 20),
    ];

    let mut state = BookState::new();
    state.apply_snapshot(&snapshot);
    let mut last = None;
    for delta in &deltas {
        last = Some(state.apply_delta(delta, SequencePolicy::Increasing).unwrap());
    }
    let last = last.unwrap();

    let mut all_bids = snapshot.bids.clone();
    let mut all_asks = snapshot.asks.clone();
    for delta in &deltas {
        all_bids.extend(delta.bids.iter().copied());
        all_asks.extend(delta.asks.iter().copied());
    }
    let replayed_bids = Ladder::from_levels(&all_bids).to_levels();
    let replayed_asks = Ladder::from_levels(&all_asks).to_levels();

    assert_eq!(last.sequence, 20);
    assert_eq!(sorted(last.bids.clone()), sorted(replayed_bids));
    assert_eq!(sorted(last.asks.clone()), sorted(replayed_asks));
    assert_eq!(
        sorted(last.bids),
        sorted(vec![level("100", "4"), level("99", "2.5"), level("98", "7")])
    );
    assert_eq!(sorted(last.asks), sorted(vec![level("101", "3.5"), level("103", "1")]));
}

#[test]
fn a_delta_that_is_not_newer_is_rejected_and_changes_nothing() {
    let mut state = BookState::new();
    state.apply_snapshot(&update(vec![level("100", "1")], vec![level("101", "3")], 10));
    for (sequence, policy) in [
        (10, SequencePolicy::Increasing),
        (9, SequencePolicy::Increasing),
        (0, SequencePolicy::Increasing),
        (10, SequencePolicy::Contiguous),
        (3, SequencePolicy::Contiguous),
    ] {
        let result =
            state.apply_delta(&update(vec![level("100", "0")], vec![level("7", "7")], sequence), policy);
        match result {
            Err(DataError::StaleSequence { last, received }) => {
                assert_eq!(last, 10);
                assert_eq!(received, sequence);
            }
            other => panic!("expected a stale sequence, got {:?}", other),
        }
        match &state {
            BookState::Synced(book) => {
                assert_eq!(book.sequence, 10);
                assert_eq!(book.bids.to_levels(), vec![level("100", "1")]);
                assert_eq!(book.asks.to_levels(), vec![level("101", "3")]);
            }
            other => panic!("expected a synced book, got {:?}", other),
        }
    }
    let event = state
        .apply_delta(&update(vec![level("100", "0")], vec![], 11), SequencePolicy::Contiguous)
        .unwrap();
    assert_eq!(event, OrderBookL2 { bids: vec![], asks: vec![level("101", "3")], sequence: 11 });
}

#[test]
fn a_gap_desyncs_a_contiguous_book() {
    let mut state = BookState::new();
    state.apply_snapshot(&update(vec![level("100", "1")], vec![], 10));
    let result = state.apply_delta(&update(vec![], vec![], 12), SequencePolicy::Contiguous);
    assert!(matches!(result, Err(DataError::SequenceGap { last: 10, received: 12 })));
    assert!(matches!(state, BookState::Desynced));
    let result = state.apply_delta(&update(vec![], vec![], 13), SequencePolicy::Contiguous);
    assert!(matches!(result, Err(DataError::NotSynced)));
    assert!(matches!(state, BookState::Desynced));
    let event = state.apply_snapshot(&update(vec![level("1", "1")], vec![], 50));
    assert_eq!(event.sequence, 50);
    assert!(matches!(state, BookState::Synced(_)));
}

#[test]
fn a_gap_is_no_gap_where_numbers_only_increase() {
    let mut state = BookState::new();
    state.apply_snapshot(&update(vec![], vec![], 10));
    let event = state.apply_delta(&update(vec![], vec![], 1000), SequencePolicy::Increasing);
    assert_eq!(event.unwrap().sequence, 1000);
    let event = state.apply_delta(&update(vec![], vec![], u64::MAX), SequencePolicy::Contiguous);
    assert!(matches!(event, Err(DataError::SequenceGap { last: 1000, received: u64::MAX })));
}

#[test]
fn a_delta_before_any_snapshot_desyncs() {
    let mut state = BookState::new();
    let result = state.apply_delta(&update(vec![], vec![], 1), SequencePolicy::Increasing);
    assert!(matches!(result, Err(DataError::NotSynced)));
    assert!(matches!(state, BookState::Desynced));
}

#[test]
fn apply_tells_snapshots_from_deltas() {
    let mut state = BookState::new();
    let snapshot = BookMessage::Snapshot(update(vec![level("1", "1")], vec![], 5));
    let delta = BookMessage::Delta(update(vec![level("1", "2")], vec![level("3", "3")], 6));
    assert_eq!(state.apply(&snapshot, SequencePolicy::Contiguous).unwrap().sequence, 5);
    let event = state.apply(&delta, SequencePolicy::Contiguous).unwrap();
    assert_eq!(
        event,
        OrderBookL2 { bids: vec![level("1", "2")], asks: vec![level("3", "3")], sequence: 6 }
    );
    assert!(matches!(
        state.apply(&delta, SequencePolicy::Contiguous),
        Err(DataError::StaleSequence { last: 6, received: 6 })
    ));
}

#[test]
fn the_transformer_keeps_one_book_for_each_subscription() {
    let mut transformer =
        MultiBookTransformer::<String>::new(ExchangeId::Okx, SequencePolicy::Contiguous);
    transformer.insert(SubscriptionId::from("books|BTC-USDT"), "btc".to_string());
    transformer.insert(SubscriptionId::from("books|ETH-USDT"), "eth".to_string());
    assert_eq!(transformer.find(&SubscriptionId::from("books|ETH-USDT")), Some(1));
    assert_eq!(transformer.find(&SubscriptionId::from("books|XRP-USDT")), None);

    let eth = SubscriptionId::from("books|ETH-USDT");
    let snapshot = BookMessage::Snapshot(update(vec![level("10", "1")], vec![level("11", "2")], 7));
    let out = transformer.transform_at(&eth, &snapshot, 1000, 1001);
    assert_eq!(out.0.len(), 1);
    let event = out.0[0].as_ref().unwrap();
    assert_eq!(event.exchange_time, 1000);
    assert_eq!(event.received_time, 1001);
    assert_eq!(event.exchange, ExchangeId::Okx);
    assert_eq!(event.instrument, "eth");
    assert_eq!(
        event.kind,
        OrderBookL2 { bids: vec![level("10", "1")], asks: vec![level("11", "2")], sequence: 7 }
    );
    assert!(matches!(transformer.books[0].state, BookState::Uninitialized));
    assert!(matches!(transformer.books[1].state, BookState::Synced(_)));
    assert_eq!(transformer.books[0].subscription_id, SubscriptionId::from("books|BTC-USDT"));
    assert_eq!(transformer.books[1].subscription_id, eth);

    let delta = BookMessage::Delta(update(vec![level("10", "0")], vec![], 9));
    let out = transformer.transform_at(&eth, &delta, 1002, 1003);
    assert!(matches!(out.0[0], Err(DataError::SequenceGap { last: 7, received: 9 })));
    assert!(matches!(transformer.books[1].state, BookState::Desynced));

    let btc = SubscriptionId::from("books|BTC-USDT");
    let out = transformer.transform_at(&btc, &delta, 1004, 1005);
    assert!(matches!(out.0[0], Err(DataError::NotSynced)));
    assert!(matches!(transformer.books[0].state, BookState::Desynced));
    assert_eq!(transformer.books.len(), 2);
}

#[test]
fn the_transformer_reads_the_local_clock() {
    let mut transformer =
        MultiBookTransformer::<u32>::new(ExchangeId::Okx, SequencePolicy::Increasing);
    let id = SubscriptionId::from("books|BTC-USDT");
    transformer.insert(SubscriptionId::from("books|BTC-USDT"), 9);
    let snapshot = BookMessage::Snapshot(update(vec![level("1", "1")], vec![], 1));
    let before = chrono::Utc::now().timestamp_millis();
    let out = transformer.transform(&id, &snapshot, 5);
    let after = chrono::Utc::now().timestamp_millis();
    let event = out.0[0].as_ref().unwrap();
    assert_eq!(event.exchange_time, 5);
    assert_eq!(event.instrument, 9);
    assert!(before <= event.received_time && event.received_time <= after);
}

#[test]
fn the_transformer_reports_an_unknown_subscription() {
    let mut transformer =
        MultiBookTransformer::<u32>::new(ExchangeId::BybitSpot, SequencePolicy::Increasing);
    transformer.insert(SubscriptionId::from("orderbook.50|BTCUSDT"), 1);
    let unknown = SubscriptionId::from("orderbook.50|ETHUSDT");
    let snapshot = BookMessage::Snapshot(update(vec![], vec![], 1));
    let out = transformer.transform_at(&unknown, &snapshot, 0, 0);
    assert_eq!(out.0.len(), 1);
    match &out.0[0] {
        Err(DataError::Socket(SocketError::Unidentifiable(id))) => assert_eq!(id, &unknown),
        other => panic!("expected an unidentifiable subscription, got {:?}", other),
    }
    assert!(matches!(transformer.books[0].state, BookState::Uninitialized));
}
