//! The two shapes of a Bybit message: an answer to a request, or data.
use crate::de::Decode;
use crate::error::{SchemaError, SocketError};
use crate::json::{json_model, member, Json};
use serde_json::Value;
use vstd::prelude::*;
use vstd::string::*;

verus! {

/// The answer of Bybit to a request such as a subscription: whether the
/// request succeeded, and what the exchange says of it.
///
/// On the wire these are `success` and `ret_msg`; the latter may be left out.
#[derive(Clone, Debug, PartialEq, Eq)]
pub struct BybitResponse {
    pub success: bool,
    pub ret_msg: String,
}

/// An answer of Bybit as a value.
pub ghost struct BybitResponseView {
    pub success: bool,
    pub ret_msg: Seq<char>,
}

impl View for BybitResponse {
    type V = BybitResponseView;

    open spec fn view(&self) -> BybitResponseView {
        BybitResponseView { success: self.success, ret_msg: self.ret_msg@ }
    }
}

/// A Bybit message: an answer to a request, which carries no data, or a data
/// message.
#[derive(Clone, Debug, PartialEq, Eq)]
pub enum BybitMessage<T> {
    Response(BybitResponse),
    Trade(T),
}

/// A Bybit message as a value.
pub ghost enum BybitMessageView<V> {
    Response(BybitResponseView),
    Trade(V),
}

impl<T: View> View for BybitMessage<T> {
    type V = BybitMessageView<T::V>;

    open spec fn view(&self) -> BybitMessageView<T::V> {
        match self {
            BybitMessage::Response(response) => BybitMessageView::Response(response@),
            BybitMessage::Trade(data) => BybitMessageView::Trade(data@),
        }
    }
}

impl BybitResponse {
    /// Whether the request succeeded: the answer itself where it did, what
    /// the exchange says of the failure as an error where it did not.
    pub fn validate(self) -> (r: Result<Self, SocketError>)
        ensures
            r == if self.success {
                Ok::<Self, SocketError>(self)
            } else {
                Err::<Self, SocketError>(SocketError::Subscribe(self.ret_msg))
            },
    {
        if self.success {
            Ok(self)
        } else {
            Err(SocketError::Subscribe(self.ret_msg))
        }
    }
}

/// The answer that `document` holds: an object whose `success` is a boolean
/// and whose `ret_msg`, if it has one, is a string.
pub open spec fn response_of(document: Json) -> Option<BybitResponseView> {
    match document.member("success"@) {
        None => None,
        Some(success) => match success.as_bool() {
            None => None,
            Some(success) => match document.member("ret_msg"@) {
                None => Some(BybitResponseView { success, ret_msg: Seq::empty() }),
                Some(ret_msg) => match ret_msg.as_text() {
                    None => None,
                    Some(ret_msg) => Some(BybitResponseView { success, ret_msg }),
                },
            },
        },
    }
}

/// Reads an answer.
pub fn response(document: &Value) -> (r: Option<BybitResponse>)
    ensures
        match r {
            Some(read) => response_of(json_model(*document)) == Some(read@),
            None => response_of(json_model(*document)) is None,
        },
{
    let success = match member(document, "success") {
        Some(success) => match success.as_bool() {
            Some(success) => success,
            None => {
                return None;
            },
        },
        None => {
            return None;
        },
    };
    match member(document, "ret_msg") {
        None => Some(BybitResponse { success, ret_msg: String::new() }),
        Some(ret_msg) => match ret_msg.as_str() {
            Some(ret_msg) => Some(BybitResponse { success, ret_msg: String::from_str(ret_msg) }),
            None => None,
        },
    }
}

impl<T: Decode> Decode for BybitMessage<T> {
    /// A document that holds an answer is an answer. Any other document is
    /// read as data.
    open spec fn decoded(document: Json, received_time: i64) -> Result<
        BybitMessageView<T::V>,
        SchemaError,
    > {
        match response_of(document) {
            Some(response) => Ok(BybitMessageView::Response(response)),
            None => match T::decoded(document, received_time) {
                Ok(data) => Ok(BybitMessageView::Trade(data)),
                Err(error) => Err(error),
            },
        }
    }

    fn decode(document: &Value, received_time: i64) -> (r: Result<Self, SchemaError>) {
        match response(document) {
            Some(response) => Ok(BybitMessage::Response(response)),
            None => match T::decode(document, received_time) {
                Ok(data) => Ok(BybitMessage::Trade(data)),
                Err(error) => Err(error),
            },
        }
    }
}

} // verus!
