//! Transport frames, and what a stream parser makes of each kind of frame.
//!
//! A parser turns one frame into nothing (the frame carries no data), one
//! decoded message, or one error. It never ends the stream: every frame is
//! parsed by itself.
use crate::de::Decode;
use crate::error::{DecodeError, SchemaError, SocketError, WsError};
use crate::json::{json_bytes_document, json_document, parse_document, parse_document_bytes};
use vstd::prelude::*;

verus! {

/// One frame of a websocket connection, by what it holds.
#[derive(Clone, Debug, PartialEq, Eq)]
pub enum WsMessage {
    /// A text payload.
    Text(String),
    /// A binary payload.
    Binary(Vec<u8>),
    /// A ping, with its payload.
    Ping(Vec<u8>),
    /// A pong, with its payload.
    Pong(Vec<u8>),
    /// The closing frame, as the transport prints it.
    Close(String),
    /// A raw frame, with its payload.
    Frame(Vec<u8>),
}

/// What a text payload decodes to: the message, or the reason why not, which
/// is `None` for a payload that is not JSON.
pub open spec fn text_decoded<Output: Decode>(text: Seq<char>, received_time: i64) -> Result<
    Output::V,
    Option<SchemaError>,
> {
    match json_document(text) {
        None => Err(None),
        Some(document) => match Output::decoded(document, received_time) {
            Ok(message) => Ok(message),
            Err(error) => Err(Some(error)),
        },
    }
}

/// What a binary payload decodes to: the message, or the reason why not,
/// which is `None` for a payload that is not JSON.
pub open spec fn bytes_decoded<Output: Decode>(bytes: Seq<u8>, received_time: i64) -> Result<
    Output::V,
    Option<SchemaError>,
> {
    match json_bytes_document(bytes) {
        None => Err(None),
        Some(document) => match Output::decoded(document, received_time) {
            Ok(message) => Ok(message),
            Err(error) => Err(Some(error)),
        },
    }
}

/// Decodes a text payload.
pub fn decode_text<Output: Decode>(text: &str, received_time: i64) -> (r: Result<
    Output,
    DecodeError,
>)
    ensures
        match r {
            Ok(message) => text_decoded::<Output>(text@, received_time) == Ok::<
                Output::V,
                Option<SchemaError>,
            >(message@),
            Err(error) => text_decoded::<Output>(text@, received_time) == Err::<
                Output::V,
                Option<SchemaError>,
            >(error.schema()),
        },
        text@ == "pong"@ ==> r is Err,
{
    match parse_document(text) {
        Ok(document) => match Output::decode(&document, received_time) {
            Ok(message) => Ok(message),
            Err(error) => Err(DecodeError::Schema(error)),
        },
        Err(error) => Err(DecodeError::Syntax(error)),
    }
}

/// Decodes a binary payload.
pub fn decode_binary<Output: Decode>(bytes: &Vec<u8>, received_time: i64) -> (r: Result<
    Output,
    DecodeError,
>)
    ensures
        match r {
            Ok(message) => bytes_decoded::<Output>(bytes@, received_time) == Ok::<
                Output::V,
                Option<SchemaError>,
            >(message@),
            Err(error) => bytes_decoded::<Output>(bytes@, received_time) == Err::<
                Output::V,
                Option<SchemaError>,
            >(error.schema()),
        },
{
    match parse_document_bytes(bytes.as_slice()) {
        Ok(document) => match Output::decode(&document, received_time) {
            Ok(message) => Ok(message),
            Err(error) => Err(DecodeError::Schema(error)),
        },
        Err(error) => Err(DecodeError::Syntax(error)),
    }
}

/// What a binary frame yields: the message that it decodes to, or the reason
/// why it decodes to none, with the payload as it came.
pub open spec fn binary_processed<Output: Decode>(
    bytes: Vec<u8>,
    received_time: i64,
    r: Option<Result<Output, SocketError>>,
) -> bool {
    match bytes_decoded::<Output>(bytes@, received_time) {
        Ok(message) => r matches Some(Ok(found)) && found@ == message,
        Err(cause) => {
            &&& r matches Some(Err(SocketError::DeserialiseBinary { error, bytes: kept }))
            &&& kept == bytes
            &&& error.schema() == cause
        },
    }
}

/// A binary frame is decoded like a text frame.
pub fn process_binary<Output: Decode>(payload: Vec<u8>, received_time: i64) -> (r: Option<
    Result<Output, SocketError>,
>)
    ensures
        binary_processed::<Output>(payload, received_time, r),
{
    match decode_binary::<Output>(&payload, received_time) {
        Ok(message) => Some(Ok(message)),
        Err(error) => Some(Err(SocketError::DeserialiseBinary { error, bytes: payload })),
    }
}

/// A ping carries no data.
pub fn process_ping<Output>(ping: Vec<u8>) -> (r: Option<Result<Output, SocketError>>)
    ensures
        r is None,
{
    None
}

/// A pong carries no data.
pub fn process_pong<Output>(pong: Vec<u8>) -> (r: Option<Result<Output, SocketError>>)
    ensures
        r is None,
{
    None
}

/// A closing frame is reported: the exchange has ended the stream.
pub fn process_close_frame<Output>(close_frame: String) -> (r: Option<Result<Output, SocketError>>)
    ensures
        r == Some(Err::<Output, SocketError>(SocketError::Terminated(close_frame))),
{
    Some(Err(SocketError::Terminated(close_frame)))
}

/// A raw frame carries no data.
pub fn process_frame<Output>(frame: Vec<u8>) -> (r: Option<Result<Output, SocketError>>)
    ensures
        r is None,
{
    None
}

/// A failure of the transport is handed on.
pub fn process_error<Output>(error: WsError) -> (r: Option<Result<Output, SocketError>>)
    ensures
        r == Some(Err::<Output, SocketError>(SocketError::WebSocket(error))),
{
    Some(Err(SocketError::WebSocket(error)))
}

} // verus!
