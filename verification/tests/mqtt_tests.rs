use principia_aves::json::JsonValue;
use principia_aves::mqtt::{
    classify_strategy_status_response, next_reconnect_backoff, StrategyContentState,
    MQTT_RECONNECT_BACKOFF_MAX_SECS,
};

fn object(members: Vec<(&str, JsonValue)>) -> JsonValue {
    JsonValue::Object(
        members
            .into_iter()
            .map(|(k, v)| (k.to_string(), v))
            .collect(),
    )
}

fn text(s: &str) -> JsonValue {
    JsonValue::Str(s.to_string())
}

#[test]
fn classifies_status_content_as_running() {
    let response = object(vec![
        ("status", JsonValue::PosInt(200)),
        ("msg", text("Markets:\n  exchange: binance")),
        ("data", text("")),
    ]);

    assert_eq!(
        classify_strategy_status_response(&response),
        StrategyContentState::Running
    );
}

#[test]
fn classifies_status_content_as_stopped() {
    let response = object(vec![
        ("status", JsonValue::PosInt(400)),
        ("msg", text("No strategy is currently running!")),
        ("data", text("")),
    ]);

    assert_eq!(
        classify_strategy_status_response(&response),
        StrategyContentState::Stopped
    );
}

#[test]
fn classifies_nested_status_content() {
    let response = object(vec![(
        "data",
        object(vec![
            ("status", JsonValue::PosInt(200)),
            ("msg", text("Strategy status")),
        ]),
    )]);

    assert_eq!(
        classify_strategy_status_response(&response),
        StrategyContentState::Running
    );
}

#[test]
fn caps_reconnect_backoff() {
    assert_eq!(next_reconnect_backoff(1), 2);
    assert_eq!(
        next_reconnect_backoff(MQTT_RECONNECT_BACKOFF_MAX_SECS),
        MQTT_RECONNECT_BACKOFF_MAX_SECS
    );
}

#[test]
fn parses_plain_string_payload() {
    assert_eq!(
        principia_aves::mqtt::parse_payload(b"hello").as_str(),
        Some("hello")
    );
}
