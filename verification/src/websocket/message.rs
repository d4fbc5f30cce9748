//! The message kinds the broker accepts and the wire format of an event.

use vstd::prelude::*;
use vstd::string::*;
use super::json::{SerializeError, json_of_value, string_value, value_of_str, value_to_json};

verus! {

/// One outbound text frame, as handed to a subscriber's channel.
#[derive(Debug)]
pub struct Message(pub String);

impl View for Message {
    type V = Seq<char>;

    open spec fn view(&self) -> Seq<char> {
        self.0@
    }
}

/// Asks the broker to register `addr` under the connection identifier `id`.
#[derive(Debug)]
pub struct Connect<C> {
    pub addr: C,
    pub id: String,
}

/// Asks the broker to forget the connection registered under `id`.
#[derive(Debug)]
pub struct Disconnect {
    pub id: String,
}

/// An event envelope: a tag naming the kind of event and its payload.
#[derive(Debug)]
pub struct MessageToClient {
    pub msg_type: String,
    pub data: serde_json::Value,
}

/// The frame of an envelope whose tag encodes to `tag_json` and whose payload
/// encodes to `data_json`: `{"msg_type":<tag_json>,"data":<data_json>}`.
pub open spec fn frame(tag_json: Seq<char>, data_json: Seq<char>) -> Seq<char> {
    "{\"msg_type\":"@ + tag_json + ",\"data\":"@ + data_json + "}"@
}

/// Puts the encoded tag and the encoded payload into one frame.
pub fn frame_envelope(tag_json: &str, data_json: &str) -> (text: String)
    ensures
        text@ == frame(tag_json@, data_json@),
{
    let mut text = String::from_str("{\"msg_type\":");
    text.append(tag_json);
    text.append(",\"data\":");
    text.append(data_json);
    text.append("}");
    text
}

impl MessageToClient {
    /// An envelope with the tag `msg_type` and the payload `data`.
    pub fn new(msg_type: &str, data: serde_json::Value) -> (msg: Self)
        ensures
            msg.msg_type@ == msg_type@,
            msg.data == data,
    {
        MessageToClient { msg_type: msg_type.to_owned(), data }
    }

    /// The text frame of this envelope, or `None` where the tag or the
    /// payload has no JSON encoding.
    pub open spec fn payload(&self) -> Option<Seq<char>> {
        match (json_of_value(string_value(self.msg_type@)), json_of_value(self.data)) {
            (Some(tag_json), Some(data_json)) => Some(frame(tag_json, data_json)),
            _ => None,
        }
    }

    /// Serialises the envelope to its text frame.
    pub fn to_payload(&self) -> (r: Result<String, SerializeError>)
        ensures
            match r {
                Ok(text) => self.payload() == Some(text@),
                Err(_) => self.payload() is None,
            },
    {
        let tag = value_of_str(self.msg_type.as_str());
        let tag_json = match value_to_json(&tag) {
            Ok(text) => text,
            Err(e) => {
                return Err(e);
            },
        };
        let data_json = match value_to_json(&self.data) {
            Ok(text) => text,
            Err(e) => {
                return Err(e);
            },
        };
        Ok(frame_envelope(tag_json.as_str(), data_json.as_str()))
    }
}

} // verus!
