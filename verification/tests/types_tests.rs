use principia_aves::types::OrchestrationR2Keys;

#[test]
fn orchestration_r2_keys_treat_profiles_and_runtime_as_prefixes() {
    let keys = OrchestrationR2Keys {
        credential_profile: "bots/credentials/master_account".to_string(),
        script_config: Some("bots/conf/scripts/run.yml".to_string()),
        controllers: vec!["bots/conf/controllers/controller.yml".to_string()],
        scripts_runtime: Some("bots/conf/scripts/runtime".to_string()),
        controllers_runtime: Some("bots/conf/controllers/runtime/".to_string()),
    };

    assert_eq!(
        keys.flatten(),
        vec![
            "bots/credentials/master_account/".to_string(),
            "bots/conf/scripts/run.yml".to_string(),
            "bots/conf/controllers/controller.yml".to_string(),
            "bots/conf/scripts/runtime/".to_string(),
            "bots/conf/controllers/runtime/".to_string(),
        ]
    );
}
