//! The decisions of the MQTT listener: how it connects, and what it does on
//! each event of the client.

pub mod router;

use vstd::prelude::*;
use vstd::string::*;
use crate::router::{route, sensor_reply, topic_of, Action, Topic};

verus! {

/// How the MQTT client is created and connected.
#[derive(Debug)]
pub struct ClientConfig {
    /// The broker to connect to.
    pub server_uri: String,
    /// The identity of this client.
    pub client_id: String,
    /// The protocol version, as the MQTT library numbers it (4 is 3.1.1).
    pub mqtt_version: u32,
    /// Whether the broker forgets the session on disconnection.
    pub clean_session: bool,
}

/// The broker the controller talks to.
pub open spec fn broker_uri() -> Seq<char> {
    "tcp://localhost:1883"@
}

/// The configuration of the client named `client_id`: the local broker,
/// MQTT 3.1.1, a clean session.
pub fn client_config(client_id: String) -> (res: ClientConfig)
    ensures
        res.server_uri@ == broker_uri(),
        res.client_id@ == client_id@,
        res.mqtt_version == 4,
        res.clean_session,
{
    ClientConfig {
        server_uri: String::from_str("tcp://localhost:1883"),
        client_id,
        mqtt_version: 4,
        clean_session: true,
    }
}

/// What the MQTT client reports.
#[derive(Debug)]
pub enum ListenerEvent {
    /// The connection is up.
    Connected,
    /// A connection attempt succeeded.
    ConnectSucceeded,
    /// A connection attempt failed.
    ConnectFailed,
    /// The connection was lost.
    ConnectionLost,
    /// A message arrived.
    Received { topic: String, payload: String },
    /// The message callback ran without a message.
    ReceivedNothing,
}

/// What the listener does next.
#[derive(Debug)]
pub enum ListenerAction {
    /// Subscribe to `topics`, with the qualities of service `qos`.
    Subscribe { topics: Vec<String>, qos: Vec<i32> },
    /// Wait `millis` milliseconds, then reconnect.
    ReconnectAfter { millis: u64 },
    /// Carry out what the router decided for a received message.
    Handle { action: Action },
    /// Nothing to do.
    Nothing,
}

/// The wait before a new connection attempt, in milliseconds.
pub open spec fn reconnect_delay() -> u64 {
    2500
}

/// Decides what the listener does on `event`: after a successful
/// connection it subscribes to every topic (`#`) with quality of service 1;
/// after a failed attempt or a lost connection it waits 2.5 s and
/// reconnects; a received message goes to the router.
pub fn on_event(event: ListenerEvent) -> (res: ListenerAction)
    ensures
        event is ConnectSucceeded ==> (res matches ListenerAction::Subscribe { topics, qos }
            && topics@.len() == 1 && topics@[0]@ == "#"@ && qos@ == seq![1i32]),
        event is ConnectFailed || event is ConnectionLost ==> res == (ListenerAction::ReconnectAfter { millis: reconnect_delay() }),
        event is Connected || event is ReceivedNothing ==> res is Nothing,
        event matches ListenerEvent::Received { topic, payload } ==> (res matches ListenerAction::Handle { action }
            && match topic_of(topic@) {
                Topic::ScheduleAdd => action matches Action::AddSchedule { payload: p } && p@ == payload@,
                Topic::ScheduleReq => action is SendSchedules,
                Topic::WaterOn => action == (Action::SetRelay { level: 1 }),
                Topic::WaterOff => action == (Action::SetRelay { level: 0 }),
                Topic::SensorReq => action matches Action::Publish { message } && message@ == sensor_reply(),
                _ => action is Ignore,
            }),
{
    match event {
        ListenerEvent::ConnectSucceeded => {
            let mut topics: Vec<String> = Vec::new();
            topics.push(String::from_str("#"));
            let mut qos: Vec<i32> = Vec::new();
            qos.push(1);
            ListenerAction::Subscribe { topics, qos }
        },
        ListenerEvent::ConnectFailed => ListenerAction::ReconnectAfter { millis: 2500 },
        ListenerEvent::ConnectionLost => ListenerAction::ReconnectAfter { millis: 2500 },
        ListenerEvent::Received { topic, payload } => ListenerAction::Handle { action: route(topic, payload) },
        _ => ListenerAction::Nothing,
    }
}

} // verus!
