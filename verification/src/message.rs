//! Outgoing MQTT messages.

use vstd::prelude::*;

verus! {

/// A message to publish: its topic, its payload and its quality of service.
#[derive(Debug)]
pub struct Message {
    pub topic: String,
    pub payload: String,
    pub qos: i32,
}

/// What a message is, as plain text and a number.
pub struct MessageView {
    pub topic: Seq<char>,
    pub payload: Seq<char>,
    pub qos: i32,
}

impl View for Message {
    type V = MessageView;

    open spec fn view(&self) -> MessageView {
        MessageView { topic: self.topic@, payload: self.payload@, qos: self.qos }
    }
}

/// Builds the message with the given topic, payload and quality of service.
pub fn message(topic: &str, payload: String, qos: i32) -> (res: Message)
    ensures
        res@ == (MessageView { topic: topic@, payload: payload@, qos }),
{
    Message { topic: String::from_str(topic), payload, qos }
}

} // verus!
