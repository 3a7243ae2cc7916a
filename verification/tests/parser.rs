use barter_data::error::{DecodeError, Field, SchemaError, SocketError, WsError};
use barter_data::exchange::okx::book::OkxOrderBookDataL1;
use barter_data::exchange::okx::trade::OkxMessage;
use barter_data::exchange::okx::{Okx, OkxChannel, OkxWebSocketParser, PING_INTERVAL_OKX};
use barter_data::exchange::{endpoint, ExchangeId};
use barter_data::protocol::WsMessage;
use barter_data::subscription::ExchangeSub;

type Message = OkxMessage<OkxOrderBookDataL1>;

const VALID: &str = r#"{"arg":{"channel":"bbo-tbt","instId":"BCH-USDT-SWAP"},"data":[{"asks":[["111.06","55154","0","2"]],"bids":[["111.05","57745","0","2"]],"ts":"1670324386802","seqId":363996337}]}"#;

#[test]
fn a_plain_text_pong_yields_no_item() {
    let parsed = OkxWebSocketParser::parse::<Message>(Ok(WsMessage::Text("pong".to_string())));
    assert!(parsed.is_none());
    let parsed =
        OkxWebSocketParser::parse_at::<Message>(Ok(WsMessage::Text("pong".to_string())), 0);
    assert!(parsed.is_none());
}

#[test]
fn invalid_text_yields_one_error_with_the_payload_as_it_came() {
    for payload in ["ping", "pong ", " pong", "Pong", "", "{\"arg\":", "not json \u{1F600}"] {
        let parsed =
            OkxWebSocketParser::parse::<Message>(Ok(WsMessage::Text(payload.to_string())));
        match parsed {
            Some(Err(SocketError::Deserialise { error, payload: kept })) => {
                assert_eq!(kept, payload);
                assert!(matches!(error, DecodeError::Syntax(_)));
            }
            other => panic!("expected a deserialise error, got {:?}", other),
        }
    }
}

#[test]
fn json_that_is_no_message_yields_one_error_with_the_payload_as_it_came() {
    let payload = r#"{"event":"subscribe","arg":{"channel":"bbo-tbt","instId":"BCH-USDT-SWAP"}}"#;
    let parsed = OkxWebSocketParser::parse::<Message>(Ok(WsMessage::Text(payload.to_string())));
    match parsed {
        Some(Err(SocketError::Deserialise { error, payload: kept })) => {
            assert_eq!(kept, payload);
            assert!(matches!(error, DecodeError::Schema(SchemaError::Missing(Field::Data))));
        }
        other => panic!("expected a deserialise error, got {:?}", other),
    }
}

#[test]
fn a_json_string_pong_is_an_error_not_a_pong() {
    let parsed =
        OkxWebSocketParser::parse::<Message>(Ok(WsMessage::Text("\"pong\"".to_string())));
    assert!(matches!(parsed, Some(Err(SocketError::Deserialise { .. }))));
}

#[test]
fn valid_text_yields_the_message() {
    let parsed = OkxWebSocketParser::parse::<Message>(Ok(WsMessage::Text(VALID.to_string())));
    let message = parsed.unwrap().unwrap();
    assert_eq!(message.subscription_id.0, "bbo-tbt|BCH-USDT-SWAP");
    assert_eq!(message.data.len(), 1);
    assert_eq!(message.data[0].seq_id, 363996337);
}

#[test]
fn a_binary_frame_is_decoded_like_text() {
    let parsed =
        OkxWebSocketParser::parse::<Message>(Ok(WsMessage::Binary(VALID.as_bytes().to_vec())));
    assert_eq!(parsed.unwrap().unwrap().data[0].time, 1670324386802);

    let parsed = OkxWebSocketParser::parse::<Message>(Ok(WsMessage::Binary(b"pong".to_vec())));
    match parsed {
        Some(Err(SocketError::DeserialiseBinary { error, bytes })) => {
            assert_eq!(bytes, b"pong".to_vec());
            assert!(matches!(error, DecodeError::Syntax(_)));
        }
        other => panic!("expected a deserialise error, got {:?}", other),
    }
    let parsed = OkxWebSocketParser::parse::<Message>(Ok(WsMessage::Binary(b"{}".to_vec())));
    match parsed {
        Some(Err(SocketError::DeserialiseBinary { error, bytes })) => {
            assert_eq!(bytes, b"{}".to_vec());
            assert!(matches!(error, DecodeError::Schema(SchemaError::Missing(Field::Arg))));
        }
        other => panic!("expected a deserialise error, got {:?}", other),
    }
}

#[test]
fn control_frames_yield_no_item() {
    assert!(OkxWebSocketParser::parse::<Message>(Ok(WsMessage::Ping(vec![1, 2]))).is_none());
    assert!(OkxWebSocketParser::parse::<Message>(Ok(WsMessage::Pong(vec![]))).is_none());
    assert!(OkxWebSocketParser::parse::<Message>(Ok(WsMessage::Frame(vec![9]))).is_none());
}

#[test]
fn a_closing_frame_terminates() {
    let parsed =
        OkxWebSocketParser::parse::<Message>(Ok(WsMessage::Close("Some(CloseFrame)".to_string())));
    match parsed {
        Some(Err(SocketError::Terminated(frame))) => assert_eq!(frame, "Some(CloseFrame)"),
        other => panic!("expected a termination, got {:?}", other),
    }
}

#[test]
fn a_transport_error_is_handed_on() {
    let parsed = OkxWebSocketParser::parse::<Message>(Err(WsError {
        message: "connection reset".to_string(),
    }));
    match parsed {
        Some(Err(SocketError::WebSocket(error))) => assert_eq!(error.message, "connection reset"),
        other => panic!("expected a transport error, got {:?}", other),
    }
}

#[test]
fn frames_are_parsed_independently() {
    let frames = vec![
        Ok(WsMessage::Text("garbage".to_string())),
        Ok(WsMessage::Text("pong".to_string())),
        Ok(WsMessage::Text(VALID.to_string())),
        Ok(WsMessage::Ping(vec![])),
        Ok(WsMessage::Text(VALID.to_string())),
    ];
    let parsed: Vec<_> =
        frames.into_iter().map(|frame| OkxWebSocketParser::parse::<Message>(frame)).collect();
    assert!(matches!(parsed[0], Some(Err(_))));
    assert!(parsed[1].is_none());
    assert!(matches!(parsed[2], Some(Ok(_))));
    assert!(parsed[3].is_none());
    assert!(matches!(parsed[4], Some(Ok(_))));
}

#[test]
fn on_text_decides_by_the_outcome_of_the_decode() {
    let ok: Result<u8, DecodeError> = Ok(3);
    assert!(matches!(OkxWebSocketParser::on_text("pong".to_string(), ok), Some(Ok(3))));
    let failed = || -> Result<u8, DecodeError> {
        Err(DecodeError::Schema(SchemaError::Missing(Field::Data)))
    };
    assert!(OkxWebSocketParser::on_text("pong".to_string(), failed()).is_none());
    match OkxWebSocketParser::on_text("pongs".to_string(), failed()) {
        Some(Err(SocketError::Deserialise { error, payload })) => {
            assert_eq!(payload, "pongs");
            assert!(matches!(error, DecodeError::Schema(SchemaError::Missing(Field::Data))));
        }
        other => panic!("expected a deserialise error, got {:?}", other),
    }
}

#[test]
fn the_endpoint_is_a_url() {
    let url = Okx::url().unwrap();
    assert_eq!(url.as_str(), "wss://wsaws.okx.com:8443/ws/v5/public");
    assert_eq!(url.scheme(), "wss");
    assert_eq!(url.port(), Some(8443));
    assert_eq!(Okx::id(), ExchangeId::Okx);
}

#[test]
fn a_malformed_endpoint_is_an_error() {
    assert!(matches!(
        endpoint("//wsaws.okx.com:8443/ws/v5/public"),
        Err(SocketError::UrlParse(url::ParseError::RelativeUrlWithoutBase))
    ));
    assert!(matches!(endpoint(""), Err(SocketError::UrlParse(_))));
    assert!(matches!(endpoint("wss://exa mple.com"), Err(SocketError::UrlParse(_))));
    assert_eq!(endpoint("wss://example.com:1/x").unwrap().as_str(), "wss://example.com:1/x");
}

#[test]
fn the_keep_alive_is_a_text_ping_every_29_seconds() {
    let keep_alive = Okx::ping_interval().unwrap();
    assert_eq!(keep_alive.interval, 29);
    assert_eq!(PING_INTERVAL_OKX, 29);
    assert_eq!(keep_alive.ping, WsMessage::Text("ping".to_string()));
}

#[test]
fn the_subscribe_request_lists_every_subscription() {
    let subs = vec![
        ExchangeSub::new(OkxChannel::trades().0, "BTC-USDT"),
        ExchangeSub::new(OkxChannel::order_book_l1().0, "BCH-USDT-SWAP"),
    ];
    let requests = Okx::requests(subs);
    assert_eq!(
        requests,
        vec![WsMessage::Text(
            r#"{"args":[{"channel":"trades","instId":"BTC-USDT"},{"channel":"bbo-tbt","instId":"BCH-USDT-SWAP"}],"op":"subscribe"}"#
                .to_string()
        )]
    );
}

#[test]
fn the_subscribe_request_escapes_what_json_must_escape() {
    let requests = Okx::requests(vec![ExchangeSub::new("a\"b", "c\\d\n")]);
    assert_eq!(
        requests,
        vec![WsMessage::Text(
            r#"{"args":[{"channel":"a\"b","instId":"c\\d\n"}],"op":"subscribe"}"#.to_string()
        )]
    );
    let text = match &requests[0] {
        WsMessage::Text(text) => text.clone(),
        other => panic!("expected text, got {:?}", other),
    };
    let read: serde_json::Value = serde_json::from_str(&text).unwrap();
    assert_eq!(read["args"][0]["channel"].as_str(), Some("a\"b"));
    assert_eq!(read["args"][0]["instId"].as_str(), Some("c\\d\n"));
    assert_eq!(read["op"].as_str(), Some("subscribe"));
}

#[test]
fn the_subscribe_request_for_no_subscription_has_no_argument() {
    assert_eq!(
        Okx::requests(vec![]),
        vec![WsMessage::Text(r#"{"args":[],"op":"subscribe"}"#.to_string())]
    );
}
