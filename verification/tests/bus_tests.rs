use principia_aves::mqtt::parse_payload;
use std::time::{SystemTime, UNIX_EPOCH};

use principia_aves::config::{Dotenv, EnvMap, Settings};
use principia_aves::json::JsonValue;
use principia_aves::mqtt::{
    command_message, command_topic, connection_plan, connection_plan_at, default_subscriptions,
    next_reconnect_backoff, on_bus_event, poll_after_reply, poll_before_ask, prepare_command,
    prepare_command_at, reply_topic, route_publish, status_query, BusEvent, BusReaction,
    LinkState, PollAfter, PollAsk, PublishRoute, StrategyContentState,
    MQTT_RECONNECT_BACKOFF_MAX_SECS,
};
use principia_aves::types::SlotStatus;

fn object(members: Vec<(&str, JsonValue)>) -> JsonValue {
    JsonValue::Object(members.into_iter().map(|(k, v)| (k.to_string(), v)).collect())
}

fn text(s: &str) -> JsonValue {
    JsonValue::Str(s.to_string())
}

#[test]
fn backoff_doubles_up_to_the_cap() {
    let mut delay = 1;
    let mut seen = vec![delay];
    for _ in 0..8 {
        delay = next_reconnect_backoff(delay);
        seen.push(delay);
    }
    assert_eq!(seen, vec![1, 2, 4, 8, 16, 30, 30, 30, 30]);
    assert_eq!(next_reconnect_backoff(20), MQTT_RECONNECT_BACKOFF_MAX_SECS);
}

#[test]
fn link_waits_grow_on_errors_and_reset_on_connect() {
    let mut link = LinkState::initial();
    let mut waits = Vec::new();
    for _ in 0..7 {
        let (next, reaction) = on_bus_event(link, BusEvent::PollError);
        match reaction {
            BusReaction::RetryAfter(w) => waits.push(w),
            _ => panic!("expected a retry"),
        }
        assert!(!next.connected);
        link = next;
    }
    assert_eq!(waits, vec![1, 2, 4, 8, 16, 30, 30]);
    let (next, reaction) = on_bus_event(link, BusEvent::ConnAck);
    assert!(next.connected);
    assert_eq!(next.backoff_secs, 1);
    assert!(matches!(reaction, BusReaction::Resubscribe));
    let (next, reaction) = on_bus_event(next, BusEvent::OutgoingDisconnect);
    assert!(!next.connected);
    assert!(matches!(reaction, BusReaction::Continue));
    let (next, reaction) = on_bus_event(next, BusEvent::Publish);
    assert!(next.connected);
    assert!(matches!(reaction, BusReaction::HandlePublish));
}

#[test]
fn command_topics_and_messages() {
    assert_eq!(command_topic("warmbot_1", "start"), "hbot/warmbot_1/start");
    assert_eq!(command_topic("team.bot", "stop"), "hbot/team/bot/stop");
    assert_eq!(reply_topic("status", 1700000000123), "hummingbot-api/response/status-1700000000123");
    let message = command_message("r/1", 42, status_query());
    let header = message.get("header").unwrap();
    assert_eq!(header.get("reply_to").and_then(|v| v.as_str()), Some("r/1"));
    assert!(matches!(header.get("timestamp"), Some(JsonValue::PosInt(42))));
    assert_eq!(header.get("node_id").and_then(|v| v.as_str()), Some("principia-aves"));
    assert!(matches!(
        message.get("data").and_then(|d| d.get("async_backend")),
        Some(JsonValue::Bool(false))
    ));

    let publication = prepare_command_at("warmbot_1", "status", status_query(), 77);
    assert_eq!(publication.topic, "hbot/warmbot_1/status");
    assert_eq!(publication.reply_to, "hummingbot-api/response/status-77");
}

#[test]
fn prepared_commands_are_stamped_with_the_clock() {
    let before = SystemTime::now().duration_since(UNIX_EPOCH).unwrap().as_millis() as u64;
    let publication = prepare_command("warmbot_1", "start", JsonValue::Null).unwrap();
    let after = SystemTime::now().duration_since(UNIX_EPOCH).unwrap().as_millis() as u64;
    let stamp: u64 = publication
        .reply_to
        .strip_prefix("hummingbot-api/response/start-")
        .unwrap()
        .parse()
        .unwrap();
    assert!(before <= stamp && stamp <= after);
    assert!(matches!(
        publication.message.get("header").and_then(|h| h.get("msg_id")),
        Some(JsonValue::PosInt(n)) if *n == stamp
    ));
}

#[test]
fn routes_incoming_messages() {
    let none = JsonValue::Null;
    assert!(matches!(route_publish("orchestrate/deploy", &none), PublishRoute::Orchestrate));
    assert!(matches!(
        route_publish("hummingbot-api/response/status-1", &none),
        PublishRoute::Response
    ));
    match route_publish("hbot/warmbot_1/hb", &none) {
        PublishRoute::Heartbeat(b) => assert_eq!(b, "warmbot_1"),
        _ => panic!("expected heartbeat"),
    }
    match route_publish("hbot/warmbot_2/log", &none) {
        PublishRoute::Log(b) => assert_eq!(b, "warmbot_2"),
        _ => panic!("expected log"),
    }
    let running = object(vec![("type", text("strategy")), ("msg", text("running"))]);
    match route_publish("hbot/warmbot_1/status_updates", &running) {
        PublishRoute::SetStatus(b, s) => {
            assert_eq!(b, "warmbot_1");
            assert_eq!(s, SlotStatus::Running);
        }
        _ => panic!("expected status"),
    }
    let boot = object(vec![("type", text("bootstrap")), ("msg", text("bootstrapping"))]);
    assert!(matches!(
        route_publish("hbot/w/status_updates", &boot),
        PublishRoute::SetStatus(_, SlotStatus::Bootstrapping)
    ));
    let failed = object(vec![("type", text("strategy")), ("msg", text("failed"))]);
    assert!(matches!(route_publish("hbot/w/status_updates", &failed), PublishRoute::StrategyFailed(_)));
    assert!(matches!(route_publish("hbot/w/notify", &none), PublishRoute::Ignore));
    assert!(matches!(route_publish("other/w/hb", &none), PublishRoute::Ignore));
    assert!(matches!(route_publish("hbot", &none), PublishRoute::Ignore));
}

#[test]
fn status_polls_wait_and_pause_within_bounds() {
    assert_eq!(poll_before_ask(0), PollAsk::GiveUp);
    assert_eq!(poll_before_ask(1200), PollAsk::Ask { wait_ms: 1200 });
    assert_eq!(poll_before_ask(60000), PollAsk::Ask { wait_ms: 5000 });
    let running = object(vec![("status", JsonValue::PosInt(200)), ("msg", text("Markets"))]);
    assert_eq!(
        poll_after_reply(Some(&running), StrategyContentState::Running, 9000),
        PollAfter::Satisfied
    );
    assert_eq!(
        poll_after_reply(Some(&running), StrategyContentState::Stopped, 9000),
        PollAfter::PauseMs(1000)
    );
    assert_eq!(poll_after_reply(None, StrategyContentState::Stopped, 300), PollAfter::PauseMs(300));
}

#[test]
fn subscribes_to_bot_and_orchestration_topics() {
    let topics = default_subscriptions();
    assert!(topics.contains(&"orchestrate/deploy"));
    assert!(topics.iter().any(|t| t.starts_with("hbot/")));
}

fn settings_with(pairs: &[(&str, &str)]) -> Settings {
    let mut values = EnvMap::new();
    for (k, v) in pairs {
        values.insert(k.to_string(), v.to_string());
    }
    Settings::load(&Dotenv::new(values, EnvMap::new()))
}

#[test]
fn connection_plan_follows_settings() {
    let settings = settings_with(&[
        ("BROKER_HOST", "mqtt.local"),
        ("BROKER_PORT", "8883"),
        ("BROKER_USERNAME", "user"),
        ("BROKER_PASSWORD", "pw"),
        ("BROKER_SSL", "true"),
    ]);
    let plan = connection_plan_at(&settings, 5);
    assert_eq!(plan.client_id, "principia-aves-5");
    assert_eq!(plan.host, "mqtt.local");
    assert_eq!(plan.port, 8883);
    assert_eq!(plan.keep_alive_secs, 30);
    assert_eq!(plan.credentials, Some(("user".to_string(), "pw".to_string())));
    assert!(plan.use_tls);

    let plain = connection_plan(&settings_with(&[("BROKER_USERNAME", "user")]));
    assert!(plain.credentials.is_none());
    assert!(plain.client_id.starts_with("principia-aves-"));
    assert!(!plain.use_tls);
}

#[test]
fn parses_json_payloads_and_falls_back_to_text() {
    let v = parse_payload(br#"{"type":"strategy","msg":"running","n":-3,"x":1.5,"ok":true}"#);
    assert_eq!(v.get("type").and_then(|t| t.as_str()), Some("strategy"));
    assert_eq!(v.get("n").and_then(|t| t.as_i64()), Some(-3));
    assert!(matches!(v.get("x"), Some(JsonValue::Float(t)) if t == "1.5"));
    assert!(matches!(v.get("ok"), Some(JsonValue::Bool(true))));
    assert!(matches!(parse_payload(b"42"), JsonValue::PosInt(42)));
    assert!(matches!(parse_payload(b"[null]"), JsonValue::Array(items) if items.len() == 1));
    assert!(matches!(parse_payload(b"{bad"), JsonValue::Str(t) if t == "{bad"));
    assert!(matches!(parse_payload(&[0x61, 0xff]), JsonValue::Str(t) if t == "a\u{fffd}"));
}
