use mqtt_adls_bridge::classify::ClassificationError;
use mqtt_adls_bridge::job::WriteJob;
use mqtt_adls_bridge::options::{on_connect_success, parse_topics, MqttConnectOptions, Subscription};
use mqtt_adls_bridge::session::{
    Delivery, FatalStage, Handling, MqttClient, RetryPolicy, SessionAction, SessionEvent,
    SessionState,
};

fn client() -> MqttClient {
    MqttClient::new(MqttConnectOptions::default(), "packml/#, service/status")
}

fn connected() -> MqttClient {
    let mut session = client();
    assert_eq!(session.step(SessionEvent::Start), SessionAction::Connect);
    assert_eq!(session.step(SessionEvent::ConnectSucceeded), SessionAction::Subscribe);
    assert_eq!(session.state, SessionState::Connected);
    session
}

fn lost() -> Delivery {
    Delivery::Interrupted { transport_connected: false }
}

fn message(topic: &str, payload: &str) -> Delivery {
    Delivery::Message { topic: topic.to_string(), payload: payload.to_string() }
}

#[test]
fn a_session_starts_disconnected_with_the_default_policy() {
    let session = client();
    assert_eq!(session.state, SessionState::Disconnected);
    assert_eq!(session.topics, vec!["packml/#", "service/status"]);
    assert_eq!(session.policy, RetryPolicy { max_attempts: 12, delay_ms: 5000 });
    assert_eq!(RetryPolicy::default(), RetryPolicy { max_attempts: 12, delay_ms: 5000 });
    assert_eq!(session.options, MqttConnectOptions::default());
    assert!(!session.is_connected());
}

#[test]
fn connecting_registers_the_last_will() {
    let request = client().connect_request();
    assert_eq!(request.broker, "tcp://localhost:1883");
    assert_eq!(request.client_id, "rust_client");
    assert_eq!(request.username, "");
    assert_eq!(request.password, "");
    assert_eq!(request.keep_alive_secs, 20);
    assert!(request.clean_session);
    assert_eq!(request.will_topic, "lwt");
    assert_eq!(request.will_payload, "Last will for rust_client");
    assert_eq!(request.will_qos, 1);
}

#[test]
fn failed_first_connection_is_fatal() {
    let mut session = client();
    assert_eq!(session.step(SessionEvent::Start), SessionAction::Connect);
    assert_eq!(session.state, SessionState::Connecting);
    assert_eq!(session.step(SessionEvent::ConnectFailed), SessionAction::Fail(FatalStage::Connect));
    assert_eq!(session.state, SessionState::Terminated);
    assert_eq!(session.step(SessionEvent::Start), SessionAction::Nothing);
    assert_eq!(session.state, SessionState::Terminated);
}

#[test]
fn refused_subscription_is_fatal() {
    let mut session = connected();
    assert_eq!(
        session.step(SessionEvent::SubscribeFailed),
        SessionAction::Fail(FatalStage::Subscribe)
    );
    assert_eq!(session.state, SessionState::Terminated);
}

#[test]
fn fourth_reconnect_attempt_restores_the_session() {
    let mut session = connected();
    let first_subscription = session.subscribe_topics();
    assert_eq!(
        session.process_messages(lost()),
        Handling::Session(SessionAction::Reconnect { attempt: 1, delay_ms: 5000 })
    );
    assert_eq!(session.state, SessionState::Reconnecting { failed: 0 });
    for failed in 1..=3 {
        assert_eq!(
            session.try_reconnect(false),
            SessionAction::Reconnect { attempt: failed + 1, delay_ms: 5000 }
        );
        assert_eq!(session.state, SessionState::Reconnecting { failed });
        assert_eq!(
            session.process_messages(message("service/status", "{\"Host\":\"h\"}")),
            Handling::Session(SessionAction::Nothing)
        );
    }
    assert_eq!(session.try_reconnect(true), SessionAction::Subscribe);
    assert_eq!(session.state, SessionState::Connected);
    assert_eq!(session.subscribe_topics(), first_subscription);
    assert_eq!(
        first_subscription,
        Subscription {
            topics: vec!["packml/#".to_string(), "service/status".to_string()],
            qos: vec![1, 1],
        }
    );
    for host in ["a", "b", "c"] {
        let item = message("service/status", &format!("{{\"Host\":\"{}\"}}", host));
        assert_eq!(
            session.process_messages(item),
            Handling::Forward {
                job: WriteJob {
                    path: format!("master/status/host={}", host),
                    payload: format!("{{\"Host\":\"{}\"}}", host),
                    n_per_file: 1,
                },
                error: None,
            }
        );
    }
    assert_eq!(session.state, SessionState::Connected);
}

#[test]
fn twelve_failed_attempts_end_the_session_with_one_fatal_error() {
    let mut session = connected();
    let mut actions = vec![session.step(SessionEvent::ConnectionLost)];
    for _ in 0..12 {
        actions.push(session.try_reconnect(false));
    }
    assert_eq!(session.state, SessionState::Terminated);
    for event in [
        SessionEvent::ReconnectFailed,
        SessionEvent::ReconnectSucceeded,
        SessionEvent::ConnectionLost,
        SessionEvent::Start,
        SessionEvent::ConnectSucceeded,
        SessionEvent::ConnectFailed,
        SessionEvent::SubscribeFailed,
        SessionEvent::Shutdown,
    ] {
        actions.push(session.step(event));
        assert_eq!(session.state, SessionState::Terminated);
    }
    actions.push(session.disconnect());
    let fatal: Vec<&SessionAction> =
        actions.iter().filter(|a| matches!(a, SessionAction::Fail(_))).collect();
    assert_eq!(fatal, vec![&SessionAction::Fail(FatalStage::ReconnectExhausted)]);
    assert_eq!(actions[12], SessionAction::Fail(FatalStage::ReconnectExhausted));
    for (i, action) in actions[..12].iter().enumerate() {
        assert_eq!(*action, SessionAction::Reconnect { attempt: i as u32 + 1, delay_ms: 5000 });
    }
    for action in &actions[13..] {
        assert_eq!(*action, SessionAction::Nothing);
    }
    assert_eq!(session.process_messages(lost()), Handling::Session(SessionAction::Nothing));
    assert_eq!(
        session.process_messages(message("service/status", "{\"Host\":\"h\"}")),
        Handling::Session(SessionAction::Nothing)
    );
}

#[test]
fn a_policy_without_attempts_fails_at_once() {
    let mut session = connected();
    session.policy = RetryPolicy { max_attempts: 0, delay_ms: 1 };
    assert_eq!(
        session.step(SessionEvent::ConnectionLost),
        SessionAction::Fail(FatalStage::ReconnectExhausted)
    );
    assert_eq!(session.state, SessionState::Terminated);
    let mut session = connected();
    session.policy = RetryPolicy { max_attempts: 1, delay_ms: 7 };
    assert_eq!(
        session.step(SessionEvent::ConnectionLost),
        SessionAction::Reconnect { attempt: 1, delay_ms: 7 }
    );
    assert_eq!(session.try_reconnect(false), SessionAction::Fail(FatalStage::ReconnectExhausted));
}

#[test]
fn an_interruption_with_the_connection_standing_changes_nothing() {
    let mut session = connected();
    assert_eq!(
        session.process_messages(Delivery::Interrupted { transport_connected: true }),
        Handling::Session(SessionAction::Nothing)
    );
    assert_eq!(session.state, SessionState::Connected);
}

#[test]
fn events_without_meaning_change_nothing() {
    let mut session = client();
    for event in [
        SessionEvent::ConnectSucceeded,
        SessionEvent::ConnectFailed,
        SessionEvent::ConnectionLost,
        SessionEvent::ReconnectFailed,
        SessionEvent::ReconnectSucceeded,
        SessionEvent::SubscribeFailed,
    ] {
        assert_eq!(session.step(event), SessionAction::Nothing);
        assert_eq!(session.state, SessionState::Disconnected);
    }
    let mut session = connected();
    assert_eq!(session.try_reconnect(false), SessionAction::Nothing);
    assert_eq!(session.try_reconnect(true), SessionAction::Nothing);
    assert_eq!(session.step(SessionEvent::Start), SessionAction::Nothing);
    assert_eq!(session.state, SessionState::Connected);
}

#[test]
fn disconnect_says_goodbye_only_when_connected() {
    let mut session = connected();
    assert_eq!(session.disconnect(), SessionAction::Disconnect);
    assert_eq!(session.state, SessionState::Terminated);
    assert_eq!(session.disconnect(), SessionAction::Nothing);
    let mut session = client();
    assert_eq!(session.disconnect(), SessionAction::Nothing);
    assert_eq!(session.state, SessionState::Terminated);
    let mut session = connected();
    session.step(SessionEvent::ConnectionLost);
    assert_eq!(session.step(SessionEvent::Shutdown), SessionAction::Nothing);
    assert_eq!(session.state, SessionState::Terminated);
}

#[test]
fn a_malformed_message_is_forwarded_as_unroutable() {
    let mut session = connected();
    assert_eq!(
        session.process_messages(message("packml/event/1", "{")),
        Handling::Forward {
            job: WriteJob::default(),
            error: Some(ClassificationError::MalformedPayload),
        }
    );
    assert_eq!(session.state, SessionState::Connected);
}

#[test]
fn topics_are_split_at_commas_and_trimmed() {
    assert_eq!(parse_topics("packml/#, service/status ,x"), vec!["packml/#", "service/status", "x"]);
    assert_eq!(parse_topics("#"), vec!["#"]);
    assert_eq!(parse_topics(""), vec![""]);
    assert_eq!(parse_topics("a,,b,"), vec!["a", "", "b", ""]);
    assert_eq!(
        on_connect_success(" a/b ,c"),
        Subscription { topics: vec!["a/b".to_string(), "c".to_string()], qos: vec![1, 1] }
    );
    assert_eq!(
        on_connect_success("#"),
        Subscription { topics: vec!["#".to_string()], qos: vec![1] }
    );
}

#[test]
fn missing_settings_take_their_defaults() {
    let options = MqttConnectOptions::default();
    assert_eq!(
        options,
        MqttConnectOptions {
            broker: "tcp://localhost:1883".to_string(),
            client_id: "rust_client".to_string(),
            username: String::new(),
            password: String::new(),
            lwt_topic: "lwt".to_string(),
            lwt_payload: "Last will for rust_client".to_string(),
        }
    );
    let options = MqttConnectOptions::from_settings(
        Some("ssl://broker:8883".to_string()),
        Some("bridge-7".to_string()),
        None,
        Some("secret".to_string()),
        None,
        None,
    );
    assert_eq!(
        options,
        MqttConnectOptions {
            broker: "ssl://broker:8883".to_string(),
            client_id: "bridge-7".to_string(),
            username: String::new(),
            password: "secret".to_string(),
            lwt_topic: "lwt".to_string(),
            lwt_payload: "Last will for bridge-7".to_string(),
        }
    );
    let options = MqttConnectOptions::from_settings(
        None,
        None,
        Some("user".to_string()),
        None,
        Some("wills".to_string()),
        Some("gone".to_string()),
    );
    assert_eq!(options.username, "user");
    assert_eq!(options.lwt_topic, "wills");
    assert_eq!(options.lwt_payload, "gone");
}
