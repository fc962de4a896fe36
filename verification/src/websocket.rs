//! Messages that are exchanged with a connected client.
use crate::step::text_view;
use crate::text::str_eq;
use vstd::prelude::*;

verus! {

/// What a client sends along to open a connection.
#[derive(Debug)]
pub struct WsQuery {
    pub token: Option<String>,
}

/// A message to or from a connected client: its kind, and what it carries,
/// in serialized form.
#[derive(Debug, PartialEq, Eq)]
pub struct WsMessage {
    pub msg_type: String,
    pub payload: Option<String>,
}

/// The answer that a message of a client calls for, if it calls for one: a
/// `ping` is answered by a `pong` that carries nothing.
pub fn reply_to(message: &WsMessage) -> (reply: Option<WsMessage>)
    ensures
        reply.is_some() == (message.msg_type@ == "ping"@),
        reply.is_some() ==> reply.unwrap().msg_type@ == "pong"@ && reply.unwrap().payload.is_none(),
{
    if str_eq(message.msg_type.as_str(), "ping") {
        Some(WsMessage { msg_type: "pong".to_owned(), payload: None })
    } else {
        None
    }
}

/// The message that is sent to every connected client for a text that was
/// read as an object: its kind is the text of the member `type`, or
/// `unknown` where there is none, and it carries the member `data`.
pub fn broadcast_message(msg_type: Option<String>, data: Option<String>) -> (message: WsMessage)
    ensures
        message.msg_type@ == crate::users::or_else(text_view(msg_type), "unknown"@),
        text_view(message.payload) == text_view(data),
{
    WsMessage {
        msg_type: match msg_type {
            Some(kind) => kind,
            None => "unknown".to_owned(),
        },
        payload: data,
    }
}

/// The message that is sent to every connected client for a text that
/// could not be read: its kind is `raw`, and it carries `wrapped`, the text
/// as the one member of an object.
pub fn raw_message(wrapped: String) -> (message: WsMessage)
    ensures
        message.msg_type@ == "raw"@,
        text_view(message.payload) == Some(wrapped@),
{
    WsMessage { msg_type: "raw".to_owned(), payload: Some(wrapped) }
}

} // verus!
