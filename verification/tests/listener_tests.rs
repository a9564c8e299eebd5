use smart_garden::mqtt_listener::{client_config, on_event, ListenerAction, ListenerEvent};
use smart_garden::router::Action;

#[test]
fn client_config_for_local_broker() {
    let config = client_config("abc-123".to_string());
    assert_eq!(config.server_uri, "tcp://localhost:1883");
    assert_eq!(config.client_id, "abc-123");
    assert_eq!(config.mqtt_version, 4);
    assert!(config.clean_session);
}

#[test]
fn subscribes_to_everything_on_connect() {
    match on_event(ListenerEvent::ConnectSucceeded) {
        ListenerAction::Subscribe { topics, qos } => {
            assert_eq!(topics, vec!["#".to_string()]);
            assert_eq!(qos, vec![1]);
        }
        other => panic!("unexpected {:?}", other),
    }
}

#[test]
fn reconnects_after_failure_or_loss() {
    assert!(matches!(on_event(ListenerEvent::ConnectFailed), ListenerAction::ReconnectAfter { millis: 2500 }));
    assert!(matches!(on_event(ListenerEvent::ConnectionLost), ListenerAction::ReconnectAfter { millis: 2500 }));
}

#[test]
fn quiet_events_do_nothing() {
    assert!(matches!(on_event(ListenerEvent::Connected), ListenerAction::Nothing));
    assert!(matches!(on_event(ListenerEvent::ReceivedNothing), ListenerAction::Nothing));
}

#[test]
fn received_message_is_routed() {
    let event = ListenerEvent::Received { topic: "water/off".to_string(), payload: String::new() };
    match on_event(event) {
        ListenerAction::Handle { action } => assert!(matches!(action, Action::SetRelay { level: 0 })),
        other => panic!("unexpected {:?}", other),
    }
}
