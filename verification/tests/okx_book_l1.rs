use barter_data::decimal::Decimal;
use barter_data::error::{DataError, DecodeError, Field, SchemaError};
use barter_data::event::MarketIter;
use barter_data::exchange::okx::book::OkxOrderBookDataL1;
use barter_data::exchange::okx::trade::OkxMessage;
use barter_data::exchange::ExchangeId;
use barter_data::protocol::decode_text;
use barter_data::subscription::book::{Level, OrderBookL1};
use barter_data::subscription::{ExchangeSub, Identifier};
use barter_integration::model::SubscriptionId;
use chrono::{DateTime, Utc};

fn as_f64(quantity: Decimal) -> f64 {
    quantity.units as f64 / 10f64.powi(quantity.scale as i32)
}

const BBO_TBT: &str = r#"
    {
      "arg": {
        "channel": "bbo-tbt",
        "instId": "BCH-USDT-SWAP"
      },
      "data": [
        {
          "asks": [
            [
              "111.06","55154","0","2"
            ]
          ],
          "bids": [
            [
              "111.05","57745","0","2"
            ]
          ],
          "ts": "1670324386802",
          "seqId": 363996337
        }
      ]
    }
    "#;

#[test]
fn test_okx_order_book_l1() {
    let input = BBO_TBT;

    let actual = decode_text::<OkxMessage<OkxOrderBookDataL1>>(input, 0).unwrap();

    assert_eq!(
        actual,
        OkxMessage {
            subscription_id: SubscriptionId::from("bbo-tbt|BCH-USDT-SWAP"),
            data: vec![OkxOrderBookDataL1 {
                time: DateTime::<Utc>::from_timestamp_millis(1670324386802)
                    .unwrap()
                    .timestamp_millis(),
                asks: vec![Level {
                    price: Decimal { units: 11106, scale: 2 },
                    amount: Decimal { units: 55154, scale: 0 },
                }],
                bids: vec![Level {
                    price: Decimal { units: 11105, scale: 2 },
                    amount: Decimal { units: 57745, scale: 0 },
                }],
                seq_id: 363996337,
            }]
        }
    );
    assert_eq!(as_f64(actual.data[0].asks[0].price), 111.06);
    assert_eq!(as_f64(actual.data[0].asks[0].amount), 55154.0);
    assert_eq!(as_f64(actual.data[0].bids[0].price), 111.05);
    assert_eq!(as_f64(actual.data[0].bids[0].amount), 57745.0);
}

#[test]
fn okx_example_yields_the_documented_top_of_book() {
    let message = decode_text::<OkxMessage<OkxOrderBookDataL1>>(BBO_TBT, 5).unwrap();
    assert_eq!(message.subscription_id, SubscriptionId::from("bbo-tbt|BCH-USDT-SWAP"));

    let events =
        MarketIter::<u32, OrderBookL1>::from_okx_at(ExchangeId::Okx, 7u32, message, 1670324386900);
    assert_eq!(events.0.len(), 1);
    let event = events.0[0].as_ref().unwrap();
    assert_eq!(
        DateTime::<Utc>::from_timestamp_millis(event.exchange_time).unwrap(),
        DateTime::<Utc>::from_timestamp_millis(1670324386802).unwrap()
    );
    assert_eq!(event.received_time, 1670324386900);
    assert_eq!(event.exchange, ExchangeId::Okx);
    assert_eq!(event.instrument, 7);
    assert_eq!(event.kind.last_update_time, 1670324386900);
    assert_eq!(as_f64(event.kind.best_bid.price), 111.05);
    assert_eq!(as_f64(event.kind.best_bid.amount), 57745.0);
    assert_eq!(as_f64(event.kind.best_ask.price), 111.06);
    assert_eq!(as_f64(event.kind.best_ask.amount), 55154.0);
}

#[test]
fn okx_key_is_the_key_of_the_exchange_sub() {
    let message = decode_text::<OkxMessage<OkxOrderBookDataL1>>(BBO_TBT, 0).unwrap();
    let sub = ExchangeSub::new("bbo-tbt", "BCH-USDT-SWAP");
    assert_eq!(message.subscription_id, sub.id());
    assert_eq!(sub.id().0, "bbo-tbt|BCH-USDT-SWAP");
}

#[test]
fn okx_timestamp_may_be_a_number() {
    let input = r#"{"arg":{"channel":"bbo-tbt","instId":"X"},
        "data":[{"asks":[],"bids":[],"ts":1670324386802,"seqId":-1}]}"#;
    let message = decode_text::<OkxMessage<OkxOrderBookDataL1>>(input, 0).unwrap();
    assert_eq!(message.data[0].time, 1670324386802);
    assert_eq!(message.data[0].seq_id, -1);
    assert!(message.data[0].asks.is_empty());
}

#[test]
fn okx_timestamp_is_also_read_as_time() {
    let input = r#"{"arg":{"channel":"bbo-tbt","instId":"X"},
        "data":[{"asks":[],"bids":[],"time":"12","ts":"13","seqId":1}]}"#;
    let message = decode_text::<OkxMessage<OkxOrderBookDataL1>>(input, 0).unwrap();
    assert_eq!(message.data[0].time, 12);
}

#[test]
fn okx_entries_keep_wire_order_and_an_empty_side_is_an_error() {
    let input = r#"{"arg":{"channel":"bbo-tbt","instId":"X"},"data":[
        {"asks":[["2","1"]],"bids":[["1","1"]],"ts":"10","seqId":1},
        {"asks":[],"bids":[["1","1"],["0.5","3"]],"ts":"11","seqId":2},
        {"asks":[["3","1"],["4","1"]],"bids":[["2.5","9"]],"ts":"12","seqId":3}]}"#;
    let message = decode_text::<OkxMessage<OkxOrderBookDataL1>>(input, 0).unwrap();
    let events = MarketIter::<String, OrderBookL1>::from_okx_at(
        ExchangeId::Okx,
        "x".to_string(),
        message,
        99,
    );
    assert_eq!(events.0.len(), 3);
    assert_eq!(events.0[0].as_ref().unwrap().exchange_time, 10);
    assert_eq!(events.0[0].as_ref().unwrap().instrument, "x");
    assert!(matches!(events.0[1], Err(DataError::IncompleteBook { bids: 2, asks: 0 })));
    let last = events.0[2].as_ref().unwrap();
    assert_eq!(last.exchange_time, 12);
    assert_eq!(last.kind.best_bid.price, Decimal { units: 25, scale: 1 });
    assert_eq!(last.kind.best_ask.price, Decimal { units: 3, scale: 0 });
}

#[test]
fn okx_entry_converts_to_its_top_of_book() {
    let mut message = decode_text::<OkxMessage<OkxOrderBookDataL1>>(BBO_TBT, 0).unwrap();
    let data = message.data.remove(0);
    assert_eq!(
        data.top(17).unwrap(),
        OrderBookL1 {
            last_update_time: 17,
            best_bid: Level {
                price: Decimal { units: 11105, scale: 2 },
                amount: Decimal { units: 57745, scale: 0 },
            },
            best_ask: Level {
                price: Decimal { units: 11106, scale: 2 },
                amount: Decimal { units: 55154, scale: 0 },
            },
        }
    );
    let before = Utc::now().timestamp_millis();
    let top = OrderBookL1::try_from(data).unwrap();
    let after = Utc::now().timestamp_millis();
    assert!(before <= top.last_update_time && top.last_update_time <= after);
    assert_eq!(top.best_bid.price, Decimal { units: 11105, scale: 2 });
    assert_eq!(top.best_ask.price, Decimal { units: 11106, scale: 2 });

    let empty = OkxOrderBookDataL1 { time: 1, asks: vec![], bids: vec![], seq_id: 1 };
    assert!(matches!(empty.top(0), Err(DataError::IncompleteBook { bids: 0, asks: 0 })));
    assert!(matches!(
        OrderBookL1::try_from(empty),
        Err(DataError::IncompleteBook { bids: 0, asks: 0 })
    ));
}

#[test]
fn okx_message_without_entries_yields_nothing() {
    let input = r#"{"arg":{"channel":"bbo-tbt","instId":"X"},"data":[]}"#;
    let message = decode_text::<OkxMessage<OkxOrderBookDataL1>>(input, 0).unwrap();
    let events = MarketIter::<u8, OrderBookL1>::from_okx_at(ExchangeId::Okx, 1, message, 0);
    assert!(events.0.is_empty());
}

#[test]
fn okx_events_carry_the_time_of_the_local_clock() {
    let message = decode_text::<OkxMessage<OkxOrderBookDataL1>>(BBO_TBT, 0).unwrap();
    let before = Utc::now().timestamp_millis();
    let events = MarketIter::<u8, OrderBookL1>::from((ExchangeId::Okx, 1, message));
    let after = Utc::now().timestamp_millis();
    let event = events.0[0].as_ref().unwrap();
    assert!(before <= event.received_time && event.received_time <= after);
    assert_eq!(event.kind.last_update_time, event.received_time);
}

fn schema_error(input: &str) -> SchemaError {
    match decode_text::<OkxMessage<OkxOrderBookDataL1>>(input, 0) {
        Err(DecodeError::Schema(error)) => error,
        other => panic!("expected a schema error, got {:?}", other),
    }
}

#[test]
fn okx_schema_errors_name_the_field() {
    assert_eq!(schema_error(r#"{"data":[]}"#), SchemaError::Missing(Field::Arg));
    assert_eq!(schema_error(r#"[1,2]"#), SchemaError::Missing(Field::Arg));
    assert_eq!(
        schema_error(r#"{"arg":{"instId":"X"},"data":[]}"#),
        SchemaError::Missing(Field::Channel)
    );
    assert_eq!(
        schema_error(r#"{"arg":{"channel":5,"instId":"X"},"data":[]}"#),
        SchemaError::Invalid(Field::Channel)
    );
    assert_eq!(
        schema_error(r#"{"arg":{"channel":"c"},"data":[]}"#),
        SchemaError::Missing(Field::Market)
    );
    assert_eq!(
        schema_error(r#"{"arg":{"channel":"c","instId":null},"data":[]}"#),
        SchemaError::Invalid(Field::Market)
    );
    assert_eq!(
        schema_error(r#"{"arg":{"channel":"c","instId":"X"}}"#),
        SchemaError::Missing(Field::Data)
    );
    assert_eq!(
        schema_error(r#"{"arg":{"channel":"c","instId":"X"},"data":{}}"#),
        SchemaError::Invalid(Field::Data)
    );
    let entry = |body: &str| {
        format!(r#"{{"arg":{{"channel":"c","instId":"X"}},"data":[{}]}}"#, body)
    };
    assert_eq!(
        schema_error(&entry(r#"{"asks":[],"bids":[],"seqId":1}"#)),
        SchemaError::Missing(Field::Time)
    );
    assert_eq!(
        schema_error(&entry(r#"{"asks":[],"bids":[],"ts":"-5","seqId":1}"#)),
        SchemaError::Invalid(Field::Time)
    );
    assert_eq!(
        schema_error(&entry(r#"{"asks":[],"bids":[],"ts":"1.5","seqId":1}"#)),
        SchemaError::Invalid(Field::Time)
    );
    assert_eq!(
        schema_error(&entry(r#"{"asks":[],"bids":[],"ts":9223372036854775808,"seqId":1}"#)),
        SchemaError::Invalid(Field::Time)
    );
    assert_eq!(
        schema_error(&entry(r#"{"bids":[],"ts":"1","seqId":1}"#)),
        SchemaError::Missing(Field::Asks)
    );
    assert_eq!(
        schema_error(&entry(r#"{"asks":[["1"]],"bids":[],"ts":"1","seqId":1}"#)),
        SchemaError::Invalid(Field::Asks)
    );
    assert_eq!(
        schema_error(&entry(r#"{"asks":[["1",2]],"bids":[],"ts":"1","seqId":1}"#)),
        SchemaError::Invalid(Field::Asks)
    );
    assert_eq!(
        schema_error(&entry(r#"{"asks":[],"ts":"1","seqId":1}"#)),
        SchemaError::Missing(Field::Bids)
    );
    assert_eq!(
        schema_error(&entry(r#"{"asks":[],"bids":[["x","1"]],"ts":"1","seqId":1}"#)),
        SchemaError::Invalid(Field::Bids)
    );
    assert_eq!(
        schema_error(&entry(r#"{"asks":[],"bids":[],"ts":"1"}"#)),
        SchemaError::Missing(Field::Sequence)
    );
    assert_eq!(
        schema_error(&entry(r#"{"asks":[],"bids":[],"ts":"1","seqId":"1"}"#)),
        SchemaError::Invalid(Field::Sequence)
    );
    assert_eq!(
        schema_error(&entry(r#"{"asks":[],"bids":[],"ts":"1","seqId":1.5}"#)),
        SchemaError::Invalid(Field::Sequence)
    );
    assert_eq!(
        schema_error(&entry(
            r#"{"asks":[],"bids":[],"ts":"1","seqId":1},{"asks":[],"bids":[],"seqId":1},{"bids":[]}"#
        )),
        SchemaError::Missing(Field::Time)
    );
}

#[test]
fn text_that_is_no_json_is_a_syntax_error() {
    assert!(matches!(
        decode_text::<OkxMessage<OkxOrderBookDataL1>>("pong", 0),
        Err(DecodeError::Syntax(_))
    ));
    assert!(matches!(
        decode_text::<OkxMessage<OkxOrderBookDataL1>>("{\"arg\":", 0),
        Err(DecodeError::Syntax(_))
    ));
}
