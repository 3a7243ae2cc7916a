//! The errors that the library reports.
//!
//! Every error but a transport failure is recoverable: it is handed on as one
//! item of the event sequence, and the stream goes on with the next frame.
use crate::subscription::subscription_text;
use barter_integration::model::SubscriptionId;
use vstd::prelude::*;

verus! {

/// A logical field of an exchange message, whatever name the wire gives it.
#[derive(Clone, Copy, Debug, PartialEq, Eq, Hash, Structural)]
pub enum Field {
    Arg,
    Channel,
    Market,
    Topic,
    Data,
    Time,
    CreatedTime,
    Bids,
    Asks,
    Sequence,
    UpdateId,
    Event,
    Code,
    Message,
}

/// Why a JSON document is not the message that was expected.
#[derive(Clone, Copy, Debug, PartialEq, Eq, Hash, Structural)]
pub enum SchemaError {
    /// A required field is absent.
    Missing(Field),
    /// A field is present and does not hold what it should.
    Invalid(Field),
}

/// Why a payload could not be decoded.
#[derive(Debug)]
pub enum DecodeError {
    /// The payload is not JSON.
    Syntax(serde_json::Error),
    /// The payload is JSON and not the expected message.
    Schema(SchemaError),
}

/// A failure of the connection itself, as the transport words it.
#[derive(Clone, Debug, PartialEq, Eq)]
pub struct WsError {
    pub message: String,
}

/// What the stream parser and the connector report.
#[derive(Debug)]
pub enum SocketError {
    /// The transport failed.
    WebSocket(WsError),
    /// A text payload could not be decoded; the payload is kept as it came.
    Deserialise { error: DecodeError, payload: String },
    /// A binary payload could not be decoded; the payload is kept as it came.
    DeserialiseBinary { error: DecodeError, bytes: Vec<u8> },
    /// The exchange closed the stream, with the closing frame as the
    /// transport prints it.
    Terminated(String),
    /// The endpoint of the exchange is no URL.
    UrlParse(url::ParseError),
    /// A message belongs to no known subscription.
    Unidentifiable(SubscriptionId),
    /// The exchange refused a subscription, with what it says of it.
    Subscribe(String),
}

/// What a transformer reports in place of an event.
#[derive(Debug)]
pub enum DataError {
    /// The stream parser or the connector failed.
    Socket(SocketError),
    /// A book message lacks a side, so that no best bid or ask can be told.
    IncompleteBook { bids: usize, asks: usize },
    /// A delta is not newer than the last update applied: it is dropped and
    /// the book stays as it is.
    StaleSequence { last: u64, received: u64 },
    /// A delta skips updates that the exchange promised: the book can no
    /// longer be trusted.
    SequenceGap { last: u64, received: u64 },
    /// A delta came for a book with no snapshot to build on.
    NotSynced,
}

impl DecodeError {
    /// The schema error, if that is what the error is.
    pub open spec fn schema(self) -> Option<SchemaError> {
        match self {
            DecodeError::Schema(e) => Some(e),
            _ => None,
        }
    }
}

impl SocketError {
    /// The error says that `id` belongs to no known subscription.
    pub open spec fn is_unidentifiable(self, id: SubscriptionId) -> bool {
        self matches SocketError::Unidentifiable(found) && subscription_text(found)
            == subscription_text(id)
    }
}

} // verus!
