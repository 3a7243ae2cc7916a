//! Normalisation of exchange market-data feeds into one canonical event model.
//!
//! A frame of a websocket connection goes through three steps, each a
//! function of its input alone:
//!
//! 1. a stream parser ([`exchange::okx::OkxWebSocketParser`]) turns the frame
//!    into nothing, one decoded exchange message, or one error;
//! 2. the message is read out of its JSON document ([`de::Decode`]), along
//!    with the key of the stream that it belongs to
//!    ([`subscription::subscription_key`]);
//! 3. a transformer turns the message into canonical events
//!    ([`event::MarketIter`]): without memory for the best bid and ask, and
//!    with one reconstructed book for each subscription for full depth
//!    ([`transformer::book::MultiBookTransformer`]).
//!
//! Prices and amounts are exact decimals ([`decimal::Decimal`]); instants are
//! milliseconds since the Unix epoch, UTC. JSON syntax is left to
//! `serde_json`, whose documents are read through the contracts of [`json`].
pub mod clock;
pub mod de;
pub mod decimal;
pub mod error;
pub mod event;
pub mod exchange;
pub mod json;
pub mod protocol;
pub mod subscription;
pub mod transformer;
