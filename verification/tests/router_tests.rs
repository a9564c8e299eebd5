use smart_garden::decimal::decimal_string;
use smart_garden::models::Schedule;
use smart_garden::mqtt_listener::router as first_router;
use smart_garden::router::{classify, route, schedule_added_reply, schedule_to_store, schedules_reply, Action, NewSchedule, Topic};

fn relay_level(topic: &str) -> Option<u8> {
    match route(topic.to_string(), String::new()) {
        Action::SetRelay { level } => Some(level),
        _ => None,
    }
}

#[test]
fn water_on_drives_relay_high() {
    assert_eq!(relay_level("water/on"), Some(1));
}

#[test]
fn water_off_drives_relay_low() {
    assert_eq!(relay_level("water/off"), Some(0));
}

#[test]
fn schedule_add_carries_payload() {
    let payload = r#"{"id":0,"hour":6,"minute":30,"watering_minute":2,"watering_second":15}"#;
    match route("schedule/add".to_string(), payload.to_string()) {
        Action::AddSchedule { payload: p } => assert_eq!(p, payload),
        other => panic!("unexpected {:?}", other),
    }
}

#[test]
fn schedule_req_sends_schedules() {
    assert!(matches!(route("schedule/req".to_string(), "x".to_string()), Action::SendSchedules));
}

#[test]
fn sensor_req_answers_on_sensor_res() {
    match route("sensor/req".to_string(), String::new()) {
        Action::Publish { message } => {
            assert_eq!(message.topic, "sensor/res");
            assert_eq!(message.payload, "MyMessage");
            assert_eq!(message.qos, 0);
        }
        other => panic!("unexpected {:?}", other),
    }
}

#[test]
fn other_topics_are_ignored() {
    for topic in ["schedule/res", "report", "poweroff", "garden", "", "water/on/", "Water/on"] {
        assert!(matches!(route(topic.to_string(), "payload".to_string()), Action::Ignore), "{}", topic);
    }
}

#[test]
fn classify_tells_topics_apart() {
    assert_eq!(classify(&"schedule/add".to_string()), Topic::ScheduleAdd);
    assert_eq!(classify(&"schedule/req".to_string()), Topic::ScheduleReq);
    assert_eq!(classify(&"schedule/res".to_string()), Topic::ScheduleRes);
    assert_eq!(classify(&"water/on".to_string()), Topic::WaterOn);
    assert_eq!(classify(&"water/off".to_string()), Topic::WaterOff);
    assert_eq!(classify(&"sensor/req".to_string()), Topic::SensorReq);
    assert_eq!(classify(&"report".to_string()), Topic::Report);
    assert_eq!(classify(&"poweroff".to_string()), Topic::Poweroff);
    assert_eq!(classify(&"sensor/res".to_string()), Topic::Irrelevant);
}

#[test]
fn schedule_added_reply_is_decimal_id() {
    let reply = schedule_added_reply(42);
    assert_eq!(reply.topic, "schedule/res");
    assert_eq!(reply.payload, "42");
    assert_eq!(reply.qos, 0);
}

#[test]
fn decimal_string_matches_to_string() {
    for n in [0i64, 7, 9, 10, 99, 100, 12345, -1, -10, -987654321, i64::MAX, i64::MIN] {
        assert_eq!(decimal_string(n), n.to_string());
    }
}

#[test]
fn schedules_reply_carries_json() {
    let reply = schedules_reply("[]".to_string());
    assert_eq!(reply.topic, "schedule/res");
    assert_eq!(reply.payload, "[]");
    assert_eq!(reply.qos, 0);
}

#[test]
fn first_router_table() {
    assert!(matches!(first_router::route("schedule".to_string(), String::new()), first_router::Action::LockDatabase));
    match first_router::route("sensor/req".to_string(), String::new()) {
        first_router::Action::Publish { message } => {
            assert_eq!(message.topic, "sensor/res");
            assert_eq!(message.payload, "MyMessage");
            assert_eq!(message.qos, 0);
        }
        other => panic!("unexpected {:?}", other),
    }
    for topic in ["watering_time", "report", "poweroff", "water/on"] {
        assert!(matches!(first_router::route(topic.to_string(), String::new()), first_router::Action::Ignore));
    }
}

#[test]
fn schedule_record_fields() {
    let s = Schedule { id: 1, hour: 6, minute: 30, watering_minute: 2, watering_second: 15 };
    let t = s;
    assert_eq!(s, t);
    assert_eq!(t.watering_second, 15);
}

#[test]
fn decimal_replies_read_back_and_differ() {
    let ids = [0i64, 1, 10, 11, 101, -1, -11, 1 << 40, i64::MIN, i64::MAX];
    for id in ids {
        assert_eq!(schedule_added_reply(id).payload.parse::<i64>().unwrap(), id);
    }
    for a in ids {
        for b in ids {
            if a != b {
                assert_ne!(decimal_string(a), decimal_string(b));
            }
        }
    }
}

#[test]
fn parsed_schedule_is_stored_without_id() {
    let s = Schedule { id: 99, hour: 6, minute: 30, watering_minute: 2, watering_second: 15 };
    assert_eq!(
        schedule_to_store(Some(s)),
        Some(NewSchedule { hour: 6, minute: 30, watering_minute: 2, watering_second: 15 })
    );
    assert_eq!(schedule_to_store(None), None);
}
