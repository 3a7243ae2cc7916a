//! The exchanges that the library reads, and what they have in common.
use crate::error::SocketError;
use url::Url;
use vstd::prelude::*;

pub mod bybit;
pub mod okx;

verus! {

/// `url::Url`, a parsed absolute URL. Opaque to the verifier.
#[verifier::external_type_specification]
#[verifier::external_body]
pub struct ExUrl(Url);

/// `url::ParseError`, the reason why a text is no absolute URL.
#[verifier::external_type_specification]
#[verifier::external_body]
pub struct ExUrlParseError(url::ParseError);

/// What `url::Url::parse` makes of `text`.
pub uninterp spec fn url_parsed(text: Seq<char>) -> Result<Url, url::ParseError>;

/// `url::Url::parse`: parses an absolute URL. The contract names the outcome
/// [`url_parsed`]: the same text always gives the same URL, or the same error.
pub assume_specification[ Url::parse ](input: &str) -> (r: Result<Url, url::ParseError>)
    ensures
        r == url_parsed(input@),
;

/// The endpoint that `text` spells, or the reason why it spells none.
pub fn endpoint(text: &str) -> (r: Result<Url, SocketError>)
    ensures
        r == match url_parsed(text@) {
            Ok(url) => Ok::<Url, SocketError>(url),
            Err(error) => Err::<Url, SocketError>(SocketError::UrlParse(error)),
        },
{
    match Url::parse(text) {
        Ok(url) => Ok(url),
        Err(error) => Err(SocketError::UrlParse(error)),
    }
}

/// The exchanges whose feeds the library reads.
#[derive(Clone, Copy, Debug, PartialEq, Eq, PartialOrd, Ord, Hash, Structural)]
pub enum ExchangeId {
    BybitPerpetualsUsd,
    BybitSpot,
    Okx,
}

impl ExchangeId {
    /// The name of the exchange as canonical events spell it.
    pub fn as_str(&self) -> (name: &'static str)
        ensures
            name@ == match *self {
                ExchangeId::BybitPerpetualsUsd => "bybit_perpetuals_usd"@,
                ExchangeId::BybitSpot => "bybit_spot"@,
                ExchangeId::Okx => "okx"@,
            },
    {
        match self {
            ExchangeId::BybitPerpetualsUsd => "bybit_perpetuals_usd",
            ExchangeId::BybitSpot => "bybit_spot",
            ExchangeId::Okx => "okx",
        }
    }
}

} // verus!
