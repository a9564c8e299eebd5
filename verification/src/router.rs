//! What the controller does with each MQTT message it receives.

use vstd::prelude::*;
use vstd::string::*;
use crate::decimal::{decimal_string, decimal_text};
use crate::message::{message, Message, MessageView};
use crate::models::Schedule;

verus! {

/// The topics the controller tells apart.
#[derive(Debug, Clone, Copy, PartialEq, Eq, Structural)]
pub enum Topic {
    ScheduleAdd,
    ScheduleReq,
    ScheduleRes,
    WaterOn,
    WaterOff,
    SensorReq,
    Report,
    Poweroff,
    Irrelevant,
}

/// The topic that the name `t` stands for.
pub open spec fn topic_of(t: Seq<char>) -> Topic {
    if t == "schedule/add"@ {
        Topic::ScheduleAdd
    } else if t == "schedule/req"@ {
        Topic::ScheduleReq
    } else if t == "schedule/res"@ {
        Topic::ScheduleRes
    } else if t == "water/on"@ {
        Topic::WaterOn
    } else if t == "water/off"@ {
        Topic::WaterOff
    } else if t == "sensor/req"@ {
        Topic::SensorReq
    } else if t == "report"@ {
        Topic::Report
    } else if t == "poweroff"@ {
        Topic::Poweroff
    } else {
        Topic::Irrelevant
    }
}

/// Whether the text of `a` is `b`.
pub(crate) fn same_text(a: &String, b: &str) -> (res: bool)
    ensures
        res == (a@ == b@),
{
    let b = String::from_str(b);
    *a == b
}

/// Tells which topic a message was published on.
pub fn classify(topic: &String) -> (res: Topic)
    ensures
        res == topic_of(topic@),
{
    if same_text(topic, "schedule/add") {
        Topic::ScheduleAdd
    } else if same_text(topic, "schedule/req") {
        Topic::ScheduleReq
    } else if same_text(topic, "schedule/res") {
        Topic::ScheduleRes
    } else if same_text(topic, "water/on") {
        Topic::WaterOn
    } else if same_text(topic, "water/off") {
        Topic::WaterOff
    } else if same_text(topic, "sensor/req") {
        Topic::SensorReq
    } else if same_text(topic, "report") {
        Topic::Report
    } else if same_text(topic, "poweroff") {
        Topic::Poweroff
    } else {
        Topic::Irrelevant
    }
}

/// What to do for one received message.
#[derive(Debug)]
pub enum Action {
    /// Read `payload` as a JSON schedule; when it reads, store the schedule
    /// and send `schedule_added_reply` of its row id.
    AddSchedule { payload: String },
    /// Read every stored schedule and send `schedules_reply` of their JSON list.
    SendSchedules,
    /// Drive the relay line of the water valve to `level`.
    SetRelay { level: u8 },
    /// Publish `message`.
    Publish { message: Message },
    /// Nothing to do.
    Ignore,
}

/// The topic of the replies about schedules.
pub open spec fn schedule_reply_topic() -> Seq<char> {
    "schedule/res"@
}

/// The answer to a sensor request.
pub open spec fn sensor_reply() -> MessageView {
    MessageView { topic: "sensor/res"@, payload: "MyMessage"@, qos: 0 }
}

/// Decides what to do with the message `msg` received on `topic`.
pub fn route(topic: String, msg: String) -> (res: Action)
    ensures
        match topic_of(topic@) {
            Topic::ScheduleAdd => res matches Action::AddSchedule { payload } && payload@ == msg@,
            Topic::ScheduleReq => res is SendSchedules,
            Topic::WaterOn => res == (Action::SetRelay { level: 1 }),
            Topic::WaterOff => res == (Action::SetRelay { level: 0 }),
            Topic::SensorReq => res matches Action::Publish { message } && message@ == sensor_reply(),
            _ => res is Ignore,
        },
{
    match classify(&topic) {
        Topic::ScheduleAdd => Action::AddSchedule { payload: msg },
        Topic::ScheduleReq => Action::SendSchedules,
        Topic::WaterOn => Action::SetRelay { level: 1 },
        Topic::WaterOff => Action::SetRelay { level: 0 },
        Topic::SensorReq => {
            let payload = String::from_str("MyMessage");
            Action::Publish { message: message("sensor/res", payload, 0) }
        },
        _ => Action::Ignore,
    }
}

/// The reply to a stored schedule: its row id in decimal, on `schedule/res`.
pub fn schedule_added_reply(row_id: i64) -> (res: Message)
    ensures
        res@ == (MessageView { topic: schedule_reply_topic(), payload: decimal_text(row_id as int), qos: 0 }),
{
    message("schedule/res", decimal_string(row_id), 0)
}

/// The reply to a schedule request: the JSON list of the stored schedules,
/// on `schedule/res`.
pub fn schedules_reply(schedules_json: String) -> (res: Message)
    ensures
        res@ == (MessageView { topic: schedule_reply_topic(), payload: schedules_json@, qos: 0 }),
{
    message("schedule/res", schedules_json, 0)
}

/// A schedule to store: its time and its watering length. The database
/// numbers it.
#[derive(Debug, Clone, Copy, PartialEq, Eq, Structural)]
pub struct NewSchedule {
    pub hour: i32,
    pub minute: i32,
    pub watering_minute: i32,
    pub watering_second: i32,
}

/// Decides what becomes of the payload of `schedule/add` once read as JSON:
/// a schedule that was read is stored without its id (the database gives
/// the row id, which the reply then carries); a payload that did not read
/// as a schedule is dropped.
pub fn schedule_to_store(parsed: Option<Schedule>) -> (res: Option<NewSchedule>)
    ensures
        match parsed {
            None => res is None,
            Some(s) => res == Some(NewSchedule {
                hour: s.hour,
                minute: s.minute,
                watering_minute: s.watering_minute,
                watering_second: s.watering_second,
            }),
        },
{
    match parsed {
        None => None,
        Some(s) => Some(NewSchedule {
            hour: s.hour,
            minute: s.minute,
            watering_minute: s.watering_minute,
            watering_second: s.watering_second,
        }),
    }
}

} // verus!
