//! The answer of OKX to a subscribe request.
use crate::de::{required, required_text, Decode};
use crate::error::{Field, SchemaError, SocketError};
use crate::json::{member, Json};
use crate::subscription::same_text;
use serde_json::Value;
use vstd::prelude::*;
use vstd::string::*;

verus! {

/// What OKX answers to a subscribe request.
///
/// On the wire the answer is an object whose `event` is `subscribe` or
/// `error`; an error carries a `code` and a `msg`.
#[derive(Clone, Debug, PartialEq, Eq, Hash)]
pub enum OkxSubResponse {
    /// The subscription stands.
    Subscribed,
    /// The subscription was refused.
    Error { code: String, message: String },
}

/// An answer of OKX as a value.
pub ghost enum OkxSubResponseView {
    Subscribed,
    Error { code: Seq<char>, message: Seq<char> },
}

impl View for OkxSubResponse {
    type V = OkxSubResponseView;

    open spec fn view(&self) -> OkxSubResponseView {
        match self {
            OkxSubResponse::Subscribed => OkxSubResponseView::Subscribed,
            OkxSubResponse::Error { code, message } => OkxSubResponseView::Error {
                code: code@,
                message: message@,
            },
        }
    }
}

/// What a refused subscription is reported as.
pub open spec fn refusal_text(code: Seq<char>, message: Seq<char>) -> Seq<char> {
    "received failure subscription response code: "@ + code + " with message: "@ + message
}

impl Decode for OkxSubResponse {
    open spec fn decoded(document: Json, received_time: i64) -> Result<
        OkxSubResponseView,
        SchemaError,
    > {
        match required(document.member("event"@), |d: Json| d.as_text(), Field::Event) {
            Err(error) => Err(error),
            Ok(event) => if event == "subscribe"@ {
                Ok(OkxSubResponseView::Subscribed)
            } else if event == "error"@ {
                match required(document.member("code"@), |d: Json| d.as_text(), Field::Code) {
                    Err(error) => Err(error),
                    Ok(code) => match required(
                        document.member("msg"@),
                        |d: Json| d.as_text(),
                        Field::Message,
                    ) {
                        Err(error) => Err(error),
                        Ok(message) => Ok(OkxSubResponseView::Error { code, message }),
                    },
                }
            } else {
                Err(SchemaError::Invalid(Field::Event))
            },
        }
    }

    fn decode(document: &Value, received_time: i64) -> (r: Result<Self, SchemaError>) {
        let event = required_text(member(document, "event"), Field::Event)?;
        if same_text(event, "subscribe") {
            Ok(OkxSubResponse::Subscribed)
        } else if same_text(event, "error") {
            let code = required_text(member(document, "code"), Field::Code)?;
            let message = required_text(member(document, "msg"), Field::Message)?;
            Ok(
                OkxSubResponse::Error {
                    code: String::from_str(code),
                    message: String::from_str(message),
                },
            )
        } else {
            Err(SchemaError::Invalid(Field::Event))
        }
    }
}

impl OkxSubResponse {
    /// Whether the subscription stands: the answer itself where it does, the
    /// refusal as an error where it does not.
    pub fn validate(self) -> (r: Result<Self, SocketError>)
        ensures
            match self {
                OkxSubResponse::Subscribed => r == Ok::<Self, SocketError>(self),
                OkxSubResponse::Error { code, message } => {
                    &&& r matches Err(SocketError::Subscribe(text))
                    &&& text@ == refusal_text(code@, message@)
                },
            },
    {
        match self {
            OkxSubResponse::Subscribed => Ok(OkxSubResponse::Subscribed),
            OkxSubResponse::Error { code, message } => {
                let mut text = String::from_str("received failure subscription response code: ");
                text.append(code.as_str());
                text.append(" with message: ");
                text.append(message.as_str());
                Err(SocketError::Subscribe(text))
            },
        }
    }
}

} // verus!
