use principia_aves::placement::{
    client_config_with_instance_id, credentials_dir, instance_conf_dir, profile_entry_copied,
    shared_conf_dir, v2_script_config,
};

#[test]
fn places_bot_configs_under_instances() {
    assert_eq!(instance_conf_dir("/app", "warmbot_1"), "/app/bots/instances/warmbot_1/conf");
    assert_eq!(instance_conf_dir("/app/", "warmbot_2"), "/app/bots/instances/warmbot_2/conf");
    assert_eq!(shared_conf_dir("."), "./bots/conf");
    assert_eq!(credentials_dir("/app", "master_account"), "/app/bots/credentials/master_account");
}

#[test]
fn keeps_back_profile_scripts_and_controllers() {
    assert!(!profile_entry_copied("scripts"));
    assert!(!profile_entry_copied("controllers"));
    assert!(profile_entry_copied("conf_client.yml"));
    assert!(profile_entry_copied("connectors"));
    assert!(profile_entry_copied("scripts.yml"));
}

#[test]
fn overrides_instance_id_in_client_config() {
    let text = "instance_id: abc123\nlog_level: INFO\n";
    assert_eq!(
        client_config_with_instance_id(text, "warmbot_1"),
        "instance_id: warmbot_1\nlog_level: INFO\n"
    );
}

#[test]
fn leaves_nested_instance_id_and_adds_top_level_one() {
    let text = "mqtt_bridge:\n  instance_id: nested\nlog_level: INFO";
    assert_eq!(
        client_config_with_instance_id(text, "warmbot_2"),
        "mqtt_bridge:\n  instance_id: nested\nlog_level: INFO\ninstance_id: warmbot_2\n"
    );
    assert_eq!(client_config_with_instance_id("", "warmbot_3"), "instance_id: warmbot_3\n");
    assert_eq!(
        client_config_with_instance_id("a: 1\n", "warmbot_3"),
        "a: 1\ninstance_id: warmbot_3\n"
    );
}

#[test]
fn writes_controller_runner_config() {
    let controllers = vec!["grid.yml".to_string(), "dca.yml".to_string()];
    assert_eq!(
        v2_script_config(&controllers, None, Some("100.0")),
        "candles_config: []\ncontrollers_config:\n- grid.yml\n- dca.yml\nmarkets: {}\n\
         max_global_drawdown_quote: 100.0\nscript_file_name: v2_with_controllers.py\n"
    );
    assert_eq!(
        v2_script_config(&Vec::new(), Some("5.5"), None),
        "candles_config: []\ncontrollers_config:\nmarkets: {}\n\
         max_controller_drawdown_quote: 5.5\nscript_file_name: v2_with_controllers.py\n"
    );
}
