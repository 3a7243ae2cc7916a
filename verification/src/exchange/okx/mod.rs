//! The OKX exchange: its endpoint, its subscribe request, its keep-alive and
//! its stream parser.
use crate::clock::now_epoch_ms;
use crate::de::Decode;
use crate::error::{DecodeError, SocketError, WsError};
use crate::json::{
    json_list, json_model, json_models, json_pair, json_render, json_rendering, json_text, Json,
};
use crate::exchange::{endpoint, url_parsed, ExchangeId};
use crate::protocol::{
    binary_processed, decode_text, process_binary, process_close_frame, process_error,
    process_frame, process_ping, process_pong, text_decoded, WsMessage,
};
use crate::subscription::{same_text, ExchangeSub};
use serde_json::Value;
use url::Url;
use vstd::prelude::*;
use vstd::string::*;

pub mod book;
pub mod subscription;
pub mod trade;

verus! {

/// The websocket endpoint of the public OKX feed.
pub const BASE_URL_OKX: &'static str = "wss://wsaws.okx.com:8443/ws/v5/public";

/// Seconds between two keep-alive pings to OKX.
pub const PING_INTERVAL_OKX: u64 = 29;

/// The OKX exchange.
#[derive(Clone, Copy, Debug, PartialEq, Eq, PartialOrd, Ord, Hash, Default)]
pub struct Okx;

/// The channels of OKX by the names that the exchange gives them.
#[derive(Clone, Copy, Debug, PartialEq, Eq, Hash)]
pub struct OkxChannel(pub &'static str);

impl OkxChannel {
    /// The channel of public trades.
    pub fn trades() -> (channel: OkxChannel)
        ensures
            channel.0@ == "trades"@,
    {
        OkxChannel("trades")
    }

    /// The channel of the best bid and ask, tick by tick.
    pub fn order_book_l1() -> (channel: OkxChannel)
        ensures
            channel.0@ == "bbo-tbt"@,
    {
        OkxChannel("bbo-tbt")
    }
}

/// When to send a keep-alive, and what to send.
#[derive(Clone, Debug, PartialEq, Eq)]
pub struct PingInterval {
    /// Seconds from one ping to the next.
    pub interval: u64,
    /// The frame that is sent.
    pub ping: WsMessage,
}

/// One subscription as the subscribe request lists it.
pub open spec fn subscription_arg(sub: ExchangeSub) -> Json {
    Json::Object(
        Map::<Seq<char>, Json>::empty().insert("channel"@, Json::Text(sub.channel@)).insert(
            "instId"@,
            Json::Text(sub.market@),
        ),
    )
}

/// The request that subscribes to `subs`: the operation `"subscribe"` and one
/// argument for each subscription, in their order.
pub open spec fn subscribe_request(subs: Seq<ExchangeSub>) -> Json {
    Json::Object(
        Map::<Seq<char>, Json>::empty().insert("op"@, Json::Text("subscribe"@)).insert(
            "args"@,
            Json::List(subs.map_values(|sub: ExchangeSub| subscription_arg(sub))),
        ),
    )
}

/// What the OKX parser yields for a frame handled at `received_time`.
///
/// A text frame yields the message that it decodes to. One that decodes to
/// none yields nothing if it is the plain text `pong`, with which OKX answers
/// a ping, and otherwise an error that keeps the payload as it came. Every
/// other frame is handled as on any websocket.
pub open spec fn okx_parsed<Output: Decode>(
    payload: Result<WsMessage, WsError>,
    received_time: i64,
    r: Option<Result<Output, SocketError>>,
) -> bool {
    match payload {
        Ok(WsMessage::Text(text)) => match text_decoded::<Output>(text@, received_time) {
            Ok(message) => r matches Some(Ok(found)) && found@ == message,
            Err(cause) => if text@ == "pong"@ {
                r is None
            } else {
                &&& r matches Some(Err(SocketError::Deserialise { error, payload: kept }))
                &&& kept == text
                &&& error.schema() == cause
            },
        },
        Ok(WsMessage::Binary(bytes)) => binary_processed::<Output>(bytes, received_time, r),
        Ok(WsMessage::Ping(_)) => r is None,
        Ok(WsMessage::Pong(_)) => r is None,
        Ok(WsMessage::Frame(_)) => r is None,
        Ok(WsMessage::Close(frame)) => r == Some(
            Err::<Output, SocketError>(SocketError::Terminated(frame)),
        ),
        Err(error) => r == Some(Err::<Output, SocketError>(SocketError::WebSocket(error))),
    }
}

impl Okx {
    /// The exchange that this connector reads.
    pub fn id() -> (id: ExchangeId)
        ensures
            id == ExchangeId::Okx,
    {
        ExchangeId::Okx
    }

    /// The endpoint to connect to: [`BASE_URL_OKX`] as a URL, or the reason
    /// why it is none.
    pub fn url() -> (r: Result<Url, SocketError>)
        ensures
            r == match url_parsed(BASE_URL_OKX@) {
                Ok(url) => Ok::<Url, SocketError>(url),
                Err(error) => Err::<Url, SocketError>(SocketError::UrlParse(error)),
            },
    {
        endpoint(BASE_URL_OKX)
    }

    /// The keep-alive of OKX: the text `ping`, every [`PING_INTERVAL_OKX`] seconds.
    pub fn ping_interval() -> (r: Option<PingInterval>)
        ensures
            ({
                &&& r matches Some(keep_alive)
                &&& keep_alive.interval == PING_INTERVAL_OKX
                &&& keep_alive.ping matches WsMessage::Text(text)
                &&& text@ == "ping"@
            }),
    {
        Some(
            PingInterval {
                interval: PING_INTERVAL_OKX,
                ping: WsMessage::Text(String::from_str("ping")),
            },
        )
    }

    /// One subscription as a JSON document.
    fn request_arg(sub: &ExchangeSub) -> (r: Value)
        ensures
            json_model(r) == subscription_arg(*sub),
    {
        proof {
            reveal_strlit("channel");
            reveal_strlit("instId");
            assert("channel"@.len() != "instId"@.len());
        }
        json_pair(
            "channel",
            json_text(sub.channel.as_str()),
            "instId",
            json_text(sub.market.as_str()),
        )
    }

    /// The frames that subscribe to `exchange_subs`: one text frame that holds
    /// the subscribe request as JSON.
    pub fn requests(exchange_subs: Vec<ExchangeSub>) -> (r: Vec<WsMessage>)
        ensures
            r@.len() == 1,
            r@[0] matches WsMessage::Text(text) && text@ == json_rendering(
                subscribe_request(exchange_subs@),
            ),
    {
        let mut args: Vec<Value> = Vec::new();
        let mut i: usize = 0;
        while i < exchange_subs.len()
            invariant
                0 <= i <= exchange_subs@.len(),
                args@.len() == i,
                forall|k: int|
                    0 <= k < i ==> json_model(#[trigger] args@[k]) == subscription_arg(
                        exchange_subs@[k],
                    ),
            decreases exchange_subs@.len() - i,
        {
            args.push(Self::request_arg(&exchange_subs[i]));
            i = i + 1;
        }
        proof {
            assert(json_models(args@) =~= exchange_subs@.map_values(
                |sub: ExchangeSub| subscription_arg(sub),
            ));
        }
        proof {
            reveal_strlit("op");
            reveal_strlit("args");
            assert("op"@.len() != "args"@.len());
        }
        let request = json_pair("op", json_text("subscribe"), "args", json_list(args));
        let mut frames: Vec<WsMessage> = Vec::new();
        frames.push(WsMessage::Text(json_render(&request)));
        frames
    }
}

/// The stream parser of OKX. It differs from a plain websocket parser in one
/// thing: OKX answers a ping with the plain text `pong`, which is no JSON and
/// is passed over in silence.
#[derive(Clone, Copy, Debug, PartialEq, Eq, PartialOrd, Ord, Hash)]
pub struct OkxWebSocketParser;

impl OkxWebSocketParser {
    /// What a text frame yields, given what its payload decoded to: the
    /// message; nothing for the text `pong` that decoded to none; an error
    /// that keeps the payload for any other text that decoded to none.
    pub fn on_text<Output>(payload: String, decoded: Result<Output, DecodeError>) -> (r: Option<
        Result<Output, SocketError>,
    >)
        ensures
            r == match decoded {
                Ok(message) => Some(Ok::<Output, SocketError>(message)),
                Err(error) => if payload@ == "pong"@ {
                    None
                } else {
                    Some(Err::<Output, SocketError>(SocketError::Deserialise { error, payload }))
                },
            },
    {
        match decoded {
            Ok(message) => Some(Ok(message)),
            Err(error) => {
                if same_text(payload.as_str(), "pong") {
                    None
                } else {
                    Some(Err(SocketError::Deserialise { error, payload }))
                }
            },
        }
    }

    /// Parses one frame, or the failure of the transport to deliver one,
    /// handled at `received_time`.
    pub fn parse_at<Output: Decode>(payload: Result<WsMessage, WsError>, received_time: i64) -> (r:
        Option<Result<Output, SocketError>>)
        ensures
            okx_parsed::<Output>(payload, received_time, r),
            payload matches Ok(WsMessage::Text(text)) ==> (text@ == "pong"@ ==> r is None),
    {
        match payload {
            Ok(ws_message) => match ws_message {
                WsMessage::Text(text) => {
                    let decoded = decode_text::<Output>(text.as_str(), received_time);
                    Self::on_text(text, decoded)
                },
                WsMessage::Binary(binary) => process_binary(binary, received_time),
                WsMessage::Ping(ping) => process_ping(ping),
                WsMessage::Pong(pong) => process_pong(pong),
                WsMessage::Close(close_frame) => process_close_frame(close_frame),
                WsMessage::Frame(frame) => process_frame(frame),
            },
            Err(ws_err) => process_error(ws_err),
        }
    }

    /// Parses one frame, or the failure of the transport to deliver one, at
    /// the time that the local clock shows.
    pub fn parse<Output: Decode>(payload: Result<WsMessage, WsError>) -> (r: Option<
        Result<Output, SocketError>,
    >)
        ensures
            exists|received_time: i64| okx_parsed::<Output>(payload, received_time, r),
            payload matches Ok(WsMessage::Text(text)) ==> (text@ == "pong"@ ==> r is None),
    {
        let received_time = now_epoch_ms();
        let r = Self::parse_at(payload, received_time);
        assert(okx_parsed::<Output>(payload, received_time, r));
        r
    }
}

} // verus!
