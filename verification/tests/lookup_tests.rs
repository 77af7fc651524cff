use principia_aves::orchestrator::start_outcome;
use principia_aves::config::{comma_names, parse_dotenv_line, unquote_dotenv_value, Dotenv, EnvMap, Settings};
use principia_aves::docker::{ContainerHealth, InspectedState};
use principia_aves::orchestrator::{
    derive_overall_status, failure_report, health_report, start_payload, stop_result,
};
use principia_aves::r2::{join_path, FetchStep, R2Layout};
use principia_aves::text::{format_decimal, parse_unsigned};
use principia_aves::types::{as_prefix_key, SlotState, SlotStatus};
use principia_aves::json::JsonValue;

fn settings_with(pairs: &[(&str, &str)]) -> Settings {
    let mut values = EnvMap::new();
    for (k, v) in pairs {
        values.insert(k.to_string(), v.to_string());
    }
    Settings::load(&Dotenv::new(values, EnvMap::new()))
}

#[test]
fn settings_have_defaults() {
    let s = settings_with(&[]);
    assert_eq!(s.port, 8001);
    assert_eq!(s.broker_host, "localhost");
    assert_eq!(s.broker_port, 1883);
    assert_eq!(s.bots_path, ".");
    assert_eq!(s.command_timeout(), 30);
    assert_eq!(s.heartbeat_timeout(), 30);
    assert!(!s.r2_enabled);
    assert_eq!(s.r2_prefix, "bots");
    assert_eq!(s.pool_bots, vec!["warmbot_1", "warmbot_2", "warmbot_3"]);
}

#[test]
fn settings_read_values_and_fall_back_on_bad_ones() {
    let s = settings_with(&[
        ("RS_ORCHESTRATOR_PORT", "9000"),
        ("BROKER_PORT", "not-a-port"),
        ("BROKER_USERNAME", ""),
        ("R2_ENABLED", "YES"),
        ("POOL_BOTS", " a , ,b "),
        ("COMMAND_TIMEOUT_SECS", "45"),
    ]);
    assert_eq!(s.port, 9000);
    assert_eq!(s.broker_port, 1883);
    assert_eq!(s.broker_username, None);
    assert!(s.r2_enabled);
    assert_eq!(s.pool_bots, vec!["a", "b"]);
    assert_eq!(s.command_timeout(), 45);
}

#[test]
fn environment_overrides_the_file() {
    let mut file = EnvMap::new();
    file.insert("BROKER_HOST".to_string(), "from-file".to_string());
    let mut env = EnvMap::new();
    env.insert("BROKER_HOST".to_string(), "from-env".to_string());
    let s = Settings::load(&Dotenv::new(file, env));
    assert_eq!(s.broker_host, "from-env");
}

#[test]
fn dotenv_lines_and_lists() {
    assert_eq!(parse_dotenv_line("  # comment"), None);
    assert_eq!(parse_dotenv_line("NOEQUALS"), None);
    assert_eq!(
        parse_dotenv_line("export KEY = 'v=1' "),
        Some(("KEY".to_string(), "v=1".to_string()))
    );
    assert_eq!(unquote_dotenv_value("\"x\""), "x");
    assert_eq!(unquote_dotenv_value("'x"), "'x");
    assert_eq!(comma_names("a,b, c ,"), vec!["a", "b", "c"]);
}

#[test]
fn numbers_are_written_and_read_in_decimal() {
    assert_eq!(format_decimal(0), "0");
    assert_eq!(format_decimal(1700000000123), "1700000000123");
    assert_eq!(parse_unsigned("8001", 65535), Some(8001));
    assert_eq!(parse_unsigned("+7", 65535), Some(7));
    assert_eq!(parse_unsigned("65536", 65535), None);
    assert_eq!(parse_unsigned("", 65535), None);
    assert_eq!(parse_unsigned("1x", 65535), None);
}

#[test]
fn keys_and_paths() {
    assert_eq!(as_prefix_key("bots/credentials/a"), "bots/credentials/a/");
    assert_eq!(as_prefix_key("bots/credentials/a/"), "bots/credentials/a/");
    assert_eq!(join_path("/app", "bots"), "/app/bots");
    assert_eq!(join_path("/app/", "bots"), "/app/bots");
    assert_eq!(join_path("/app", "/etc"), "/etc");
    assert_eq!(join_path("", "bots"), "bots");
}

#[test]
fn storage_layout_checks_keys() {
    let s = settings_with(&[
        ("R2_ENABLED", "true"),
        ("R2_BUCKET", "b"),
        ("R2_ENDPOINT_URL", "https://e"),
        ("R2_PREFIX", "/bots/"),
        ("BOTS_PATH", "/app"),
    ]);
    let layout = R2Layout::from_settings(&s).unwrap();
    assert_eq!(layout.relative_key("bots/conf/scripts/a.yml").unwrap(), "conf/scripts/a.yml");
    assert_eq!(
        layout.relative_key("other/a.yml").unwrap_err(),
        "R2 key other/a.yml does not start with prefix bots/"
    );
    assert_eq!(
        layout.relative_key("bots/../etc").unwrap_err(),
        "Unsafe R2 key path: bots/../etc"
    );
    assert_eq!(
        layout.local_path_for_key("bots/credentials/p/").unwrap(),
        "/app/bots/credentials/p"
    );
    let steps = layout.plan_hydration(&vec!["bots/credentials/p/".to_string(), "bots/conf/x.yml".to_string()]);
    assert!(matches!(&steps[0], FetchStep::Folder { key, listing } if key == "bots/credentials/p/" && listing == "bots/credentials/p"));
    assert!(matches!(&steps[1], FetchStep::Object { key } if key == "bots/conf/x.yml"));

    let broken = settings_with(&[("R2_ENABLED", "true")]);
    assert_eq!(
        R2Layout::from_settings(&broken).err().unwrap(),
        "R2 is enabled but R2_BUCKET or R2_ENDPOINT_URL is empty"
    );
    let off = R2Layout::from_settings(&settings_with(&[])).unwrap();
    assert!(off.plan_hydration(&vec!["bots/x".to_string()]).is_empty());
}

fn health(running: bool, exit_code: Option<i64>) -> ContainerHealth {
    ContainerHealth::from_inspection(Some(InspectedState {
        status: Some(if running { "running" } else { "exited" }.to_string()),
        running: Some(running),
        exit_code,
    }))
}

#[test]
fn overall_status_of_a_deployment() {
    let mut slot = SlotState::new_at("warmbot_1".to_string(), 0);
    slot.status = SlotStatus::Error;
    assert_eq!(derive_overall_status(&slot, &health(true, None)), "failed");
    slot.status = SlotStatus::Running;
    assert_eq!(derive_overall_status(&slot, &health(false, Some(1))), "running");
    slot.status = SlotStatus::Configuring;
    assert_eq!(derive_overall_status(&slot, &health(false, Some(137))), "failed");
    assert_eq!(derive_overall_status(&slot, &health(false, Some(0))), "deploying");
    assert_eq!(derive_overall_status(&slot, &health(true, Some(1))), "deploying");
}

#[test]
fn container_health_from_inspection() {
    let h = health(false, Some(2));
    assert!(h.found);
    assert!(!h.running);
    assert_eq!(h.status, "exited");
    assert!(h.error.is_some());
    assert!(h.wants_logs(false));
    let ok = health(true, Some(0));
    assert!(ok.error.is_none());
    assert!(!ok.wants_logs(false));
    assert!(ok.wants_logs(true));
    let gone = ContainerHealth::not_found("no such container".to_string());
    assert!(!gone.found);
    assert_eq!(gone.error.as_deref(), Some("no such container"));
    assert!(!ContainerHealth::unavailable().found);
}

#[test]
fn reports_and_payloads() {
    assert_eq!(
        failure_report("boom", "[]", "line"),
        "boom\n\nMQTT logs:\n[]\n\nContainer logs:\nline"
    );
    let start = start_payload("pmm.py", None);
    assert_eq!(start.get("script").and_then(|v| v.as_str()), Some("pmm.py"));
    assert!(start.get("v2_conf").is_none());
    assert_eq!(start.get("log_level").and_then(|v| v.as_str()), Some("INFO"));
    let start = start_payload("v2_with_controllers.py", Some("c.yml"));
    assert_eq!(start.get("v2_conf").and_then(|v| v.as_str()), Some("c.yml"));
    assert!(start.get("script").is_none());
    let health = health_report(true);
    assert_eq!(health.get("service").and_then(|v| v.as_str()), Some("principia-aves"));
    assert!(matches!(health.get("mqtt_connected"), Some(JsonValue::Bool(true))));
    let stopped = stop_result("warmbot_1");
    assert!(matches!(stopped.get("success"), Some(JsonValue::Bool(true))));
}

#[test]
fn start_outcome_times_out_without_running_status() {
    assert_eq!(start_outcome(true), Ok(()));
    assert_eq!(
        start_outcome(false),
        Err("timed out waiting for /status content to show running strategy".to_string())
    );
}
