//! The first topic table of the listener, kept beside the current one.

use vstd::prelude::*;
use vstd::string::*;
use crate::message::{message, Message, MessageView};
use crate::router::same_text;

verus! {

/// What to do for one received message.
#[derive(Debug)]
pub enum Action {
    /// Take the database lock and release it.
    LockDatabase,
    /// Publish `message`.
    Publish { message: Message },
    /// Nothing to do.
    Ignore,
}

/// Decides what to do with the message `msg` received on `topic`: a
/// `schedule` message takes the database lock, a `sensor/req` message is
/// answered with `MyMessage` on `sensor/res`, every other one is ignored.
pub fn route(topic: String, msg: String) -> (res: Action)
    ensures
        topic@ == "schedule"@ ==> res is LockDatabase,
        topic@ == "sensor/req"@ ==> (res matches Action::Publish { message }
            && message@ == (MessageView { topic: "sensor/res"@, payload: "MyMessage"@, qos: 0 })),
        topic@ != "schedule"@ && topic@ != "sensor/req"@ ==> res is Ignore,
{
    proof {
        reveal_strlit("schedule");
        reveal_strlit("sensor/req");
        assert("schedule"@.len() != "sensor/req"@.len());
    }
    if same_text(&topic, "schedule") {
        Action::LockDatabase
    } else if same_text(&topic, "sensor/req") {
        let payload = String::from_str("MyMessage");
        Action::Publish { message: message("sensor/res", payload, 0) }
    } else {
        Action::Ignore
    }
}

} // verus!
