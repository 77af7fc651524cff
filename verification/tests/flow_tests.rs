use principia_aves::controller_flow::{ControllerAction, ControllerEvent, ControllerRun};
use principia_aves::json::JsonValue;
use principia_aves::log_store::LogStore;
use principia_aves::orchestrator::AppError;
use principia_aves::request_flow::{RequestAction, RequestEvent, RequestPhase, RequestRun};
use principia_aves::slot_store::SlotStore;
use principia_aves::stop_flow::{StopAction, StopEvent, StopRun};
use principia_aves::types::{
    DeploymentFiles, OrchestrationR2, OrchestrationR2Keys, OrchestrationRequest, SlotStatus,
    StopBotAction,
};

fn idle_pool(names: &[&str]) -> SlotStore {
    let mut store = SlotStore::new_at(names.iter().map(|n| n.to_string()).collect(), 1_000);
    for name in names {
        store.mark_status_at(name, SlotStatus::Idle, 1_000);
    }
    store
}

fn request() -> OrchestrationRequest {
    OrchestrationRequest {
        request_id: "req-1".to_string(),
        instance_name: "grid-bot".to_string(),
        strategy_type: "script".to_string(),
        strategy_name: "simple_pmm".to_string(),
        credentials_profile: "master_account".to_string(),
        script_config: Some("run.yml".to_string()),
        controllers_config: vec!["grid.yml".to_string()],
        r2: OrchestrationR2 {
            prefix: "bots".to_string(),
            keys: OrchestrationR2Keys {
                credential_profile: "bots/credentials/master_account".to_string(),
                script_config: Some("bots/conf/scripts/run.yml".to_string()),
                controllers: vec![],
                scripts_runtime: None,
                controllers_runtime: None,
            },
        },
        deployment_config: JsonValue::Null,
    }
}

fn status_of(action: &RequestAction) -> (String, Option<String>) {
    match action {
        RequestAction::Publish(message) => (
            message.get("status").and_then(|s| s.as_str()).unwrap().to_string(),
            message.get("error").and_then(|s| s.as_str()).map(str::to_string),
        ),
        _ => panic!("expected a report"),
    }
}

#[test]
fn request_runs_through_every_report_to_running() {
    let mut store = idle_pool(&["warmbot_1"]);
    let (mut run, action) = RequestRun::begin(&mut store, request(), 2_000);
    assert_eq!(status_of(&action).0, "reserved");
    assert_eq!(store.get("warmbot_1").unwrap().status, SlotStatus::Reserved);

    let action = run.step(&mut store, RequestEvent::Published(Ok(())), 2_001);
    assert_eq!(status_of(&action).0, "hydrating");
    let action = run.step(&mut store, RequestEvent::Published(Ok(())), 2_002);
    match &action {
        RequestAction::Hydrate(keys) => assert_eq!(
            keys,
            &vec![
                "bots/credentials/master_account/".to_string(),
                "bots/conf/scripts/run.yml".to_string()
            ]
        ),
        _ => panic!("expected hydration"),
    }
    let action = run.step(&mut store, RequestEvent::Hydrated(Ok(())), 2_003);
    match &action {
        RequestAction::Prepare { bot_name, script_config, controllers, credentials_profile } => {
            assert_eq!(bot_name, "warmbot_1");
            assert_eq!(script_config.as_deref(), Some("run.yml"));
            assert_eq!(controllers, &vec!["grid.yml".to_string()]);
            assert_eq!(credentials_profile, "master_account");
        }
        _ => panic!("expected preparation"),
    }
    let files = DeploymentFiles {
        script_config_name: "run.yml".to_string(),
        controllers: vec!["grid.yml".to_string()],
    };
    let action = run.step(&mut store, RequestEvent::Prepared(Ok(files)), 2_004);
    assert_eq!(status_of(&action).0, "configuring");
    let slot = store.get("warmbot_1").unwrap();
    assert_eq!(slot.status, SlotStatus::Configuring);
    assert_eq!(slot.assigned_instance_name.as_deref(), Some("grid-bot"));
    assert_eq!(slot.account_name.as_deref(), Some("master_account"));

    let action = run.step(&mut store, RequestEvent::Published(Ok(())), 2_005);
    match &action {
        RequestAction::Start { bot_name, script_file_name, script_config_name } => {
            assert_eq!(bot_name, "warmbot_1");
            assert_eq!(script_file_name, "simple_pmm.py");
            assert_eq!(script_config_name.as_deref(), Some("run.yml"));
        }
        _ => panic!("expected a start"),
    }
    let action = run.step(&mut store, RequestEvent::Started(Ok(())), 2_006);
    assert_eq!(status_of(&action).0, "running");
    let slot = store.get("warmbot_1").unwrap();
    assert_eq!(slot.status, SlotStatus::Running);
    assert_eq!(slot.current_controller_ids, vec!["grid.yml".to_string()]);
    assert_eq!(slot.updated_at, 2_006);

    let action = run.step(&mut store, RequestEvent::Published(Ok(())), 2_007);
    assert!(matches!(action, RequestAction::Finish));
    assert!(run.is_done());
    assert_eq!(run.phase(), RequestPhase::Done);
}

#[test]
fn request_without_idle_bot_reports_failure() {
    let mut store = SlotStore::new_at(vec!["warmbot_1".to_string()], 0);
    let (mut run, action) = RequestRun::begin(&mut store, request(), 10);
    let (status, error) = status_of(&action);
    assert_eq!(status, "failed");
    assert_eq!(error.as_deref(), Some("No idle warm-pool slots are available"));
    assert_eq!(store.get("warmbot_1").unwrap().status, SlotStatus::Offline);
    assert!(run.accepts(&RequestEvent::Published(Ok(()))));
    assert!(!run.accepts(&RequestEvent::Hydrated(Ok(()))));
    let action = run.step(&mut store, RequestEvent::Published(Ok(())), 11);
    assert!(matches!(action, RequestAction::Finish));
}

#[test]
fn failed_hydration_marks_bot_and_reports_failure() {
    let mut store = idle_pool(&["warmbot_1"]);
    let (mut run, _) = RequestRun::begin(&mut store, request(), 2_000);
    run.step(&mut store, RequestEvent::Published(Ok(())), 2_001);
    run.step(&mut store, RequestEvent::Published(Ok(())), 2_002);
    let action = run.step(&mut store, RequestEvent::Hydrated(Err("bucket gone".to_string())), 2_003);
    let (status, error) = status_of(&action);
    assert_eq!(status, "failed");
    assert_eq!(error.as_deref(), Some("bucket gone"));
    let slot = store.get("warmbot_1").unwrap();
    assert_eq!(slot.status, SlotStatus::Error);
    assert_eq!(slot.last_error.as_deref(), Some("bucket gone"));
    let action = run.step(&mut store, RequestEvent::Published(Ok(())), 2_004);
    assert!(matches!(action, RequestAction::Finish));
}

#[test]
fn controller_strategies_run_the_controller_script() {
    let mut req = request();
    req.strategy_type = "controller".to_string();
    assert_eq!(
        principia_aves::orchestrator::script_file_name_for_request(&req),
        "v2_with_controllers.py"
    );
    req.strategy_type = "script".to_string();
    req.strategy_name = "pmm.py".to_string();
    assert_eq!(principia_aves::orchestrator::script_file_name_for_request(&req), "pmm.py");
}

fn running_pool() -> SlotStore {
    let mut store = idle_pool(&["warmbot_1"]);
    store.assign_running_at(
        "warmbot_1",
        Some("grid-bot".to_string()),
        "master_account".to_string(),
        Some("run.yml".to_string()),
        vec!["grid.yml".to_string()],
        5_000,
    );
    store
}

fn stop_action() -> StopBotAction {
    StopBotAction {
        bot_name: "warmbot_1".to_string(),
        skip_order_cancellation: true,
        async_backend: false,
    }
}

#[test]
fn stop_of_unknown_bot_is_not_found() {
    let mut store = running_pool();
    let mut action = stop_action();
    action.bot_name = "warmbot_9".to_string();
    match StopRun::begin(&mut store, &action, 6_000) {
        Err(AppError::NotFound(m)) => assert_eq!(m, "Pool slot 'warmbot_9' not found"),
        _ => panic!("expected not found"),
    }
}

#[test]
fn stop_releases_bot_after_cleanup() {
    let mut store = running_pool();
    let mut logs: LogStore<u32> = LogStore::new();
    logs.record("warmbot_1".to_string(), 7);
    let (mut run, action) = StopRun::begin(&mut store, &stop_action(), 6_000).ok().unwrap();
    match &action {
        StopAction::SendStop { bot_name, payload } => {
            assert_eq!(bot_name, "warmbot_1");
            assert!(matches!(payload.get("skip_order_cancellation"), Some(JsonValue::Bool(true))));
            assert!(matches!(payload.get("async_backend"), Some(JsonValue::Bool(false))));
        }
        _ => panic!("expected the stop command"),
    }
    assert_eq!(store.get("warmbot_1").unwrap().status, SlotStatus::Stopping);
    let action = run.step(&mut store, &mut logs, StopEvent::StopSent(Ok(())), 6_001);
    assert!(matches!(action, StopAction::AwaitStopped { .. }));
    let action = run.step(&mut store, &mut logs, StopEvent::StopObserved(Ok(())), 6_002);
    match &action {
        StopAction::CleanUp { bot_name, config_name, controllers } => {
            assert_eq!(bot_name, "warmbot_1");
            assert_eq!(config_name, "run.yml");
            assert_eq!(controllers, &vec!["grid.yml".to_string()]);
        }
        _ => panic!("expected cleanup"),
    }
    assert_eq!(store.get("warmbot_1").unwrap().status, SlotStatus::Cleanup);
    let action = run.step(&mut store, &mut logs, StopEvent::CleanedUp(Ok(())), 6_003);
    match &action {
        StopAction::Finish(Ok(v)) => {
            assert_eq!(v.get("status").and_then(|s| s.as_str()), Some("idle"));
            assert_eq!(v.get("bot_name").and_then(|s| s.as_str()), Some("warmbot_1"));
        }
        _ => panic!("expected success"),
    }
    assert!(run.is_done());
    let slot = store.get("warmbot_1").unwrap();
    assert_eq!(slot.status, SlotStatus::Idle);
    assert_eq!(slot.assigned_instance_name, None);
    assert!(slot.current_controller_ids.is_empty());
    assert!(logs.recent("warmbot_1").is_none());
}

#[test]
fn stop_that_cannot_be_sent_is_unavailable() {
    let mut store = running_pool();
    let mut logs: LogStore<u32> = LogStore::new();
    let (mut run, _) = StopRun::begin(&mut store, &stop_action(), 6_000).ok().unwrap();
    let action = run.step(&mut store, &mut logs, StopEvent::StopSent(Err("broker down".to_string())), 6_001);
    match action {
        StopAction::Finish(Err(AppError::ServiceUnavailable(m))) => assert_eq!(m, "broker down"),
        _ => panic!("expected unavailable"),
    }
    assert_eq!(store.get("warmbot_1").unwrap().status, SlotStatus::Stopping);
}

#[test]
fn failed_cleanup_is_internal_error() {
    let mut store = running_pool();
    let mut logs: LogStore<u32> = LogStore::new();
    let (mut run, _) = StopRun::begin(&mut store, &stop_action(), 6_000).ok().unwrap();
    run.step(&mut store, &mut logs, StopEvent::StopSent(Ok(())), 6_001);
    run.step(&mut store, &mut logs, StopEvent::StopObserved(Ok(())), 6_002);
    let action = run.step(&mut store, &mut logs, StopEvent::CleanedUp(Err("disk full".to_string())), 6_003);
    match action {
        StopAction::Finish(Err(AppError::Internal(m))) => assert_eq!(m, "disk full"),
        _ => panic!("expected internal error"),
    }
}

#[test]
fn controller_deployment_without_controllers_is_bad_request() {
    let mut store = idle_pool(&["warmbot_1"]);
    match ControllerRun::begin_at(&mut store, "grid", "acct".to_string(), 0, "20240101-000000", 1) {
        Err(AppError::BadRequest(m)) => assert_eq!(m, "controllers_config must not be empty"),
        _ => panic!("expected bad request"),
    }
    assert_eq!(store.get("warmbot_1").unwrap().status, SlotStatus::Idle);
}

#[test]
fn controller_deployment_without_idle_bot_conflicts() {
    let mut store = SlotStore::new_at(vec!["warmbot_1".to_string()], 0);
    match ControllerRun::begin_at(&mut store, "grid", "acct".to_string(), 1, "20240101-000000", 1) {
        Err(AppError::Conflict(m)) => assert_eq!(m, "No idle warm-pool slots are available"),
        _ => panic!("expected conflict"),
    }
}

#[test]
fn controller_deployment_assigns_bot() {
    let mut store = idle_pool(&["warmbot_1", "warmbot_2"]);
    let (mut run, action) =
        ControllerRun::begin_at(&mut store, "grid", "acct".to_string(), 1, "20240101-120000", 7)
            .ok()
            .unwrap();
    match &action {
        ControllerAction::Prepare { bot_name, unique_instance_name, script_config_name } => {
            assert_eq!(bot_name, "warmbot_1");
            assert_eq!(unique_instance_name, "grid-20240101-120000");
            assert_eq!(script_config_name, "warmbot_1-20240101-120000.yml");
        }
        _ => panic!("expected preparation"),
    }
    let files = DeploymentFiles {
        script_config_name: "warmbot_1-20240101-120000.yml".to_string(),
        controllers: vec!["grid.yml".to_string()],
    };
    let action = run.step(&mut store, ControllerEvent::Prepared(Ok(files)), 8);
    match &action {
        ControllerAction::Start { script_file_name, script_config_name, .. } => {
            assert_eq!(script_file_name, "v2_with_controllers.py");
            assert_eq!(script_config_name, "warmbot_1-20240101-120000.yml");
        }
        _ => panic!("expected a start"),
    }
    assert_eq!(store.get("warmbot_1").unwrap().status, SlotStatus::Configuring);
    let action = run.step(&mut store, ControllerEvent::Started(Ok(())), 9);
    match action {
        ControllerAction::Finish(Ok(resp)) => {
            assert!(resp.success);
            assert_eq!(resp.message, "Assigned grid-20240101-120000 to warm pool slot warmbot_1.");
            assert_eq!(resp.controllers_deployed, vec!["grid.yml".to_string()]);
            assert_eq!(resp.script_config_generated, "warmbot_1-20240101-120000.yml");
        }
        _ => panic!("expected success"),
    }
    assert_eq!(store.get("warmbot_1").unwrap().status, SlotStatus::Running);
    assert_eq!(store.get("warmbot_2").unwrap().status, SlotStatus::Idle);
}

#[test]
fn failed_controller_start_reports_diagnostics() {
    let mut store = idle_pool(&["warmbot_1"]);
    let (mut run, _) =
        ControllerRun::begin_at(&mut store, "grid", "acct".to_string(), 1, "20240101-120000", 7)
            .ok()
            .unwrap();
    let files = DeploymentFiles { script_config_name: "c.yml".to_string(), controllers: vec![] };
    run.step(&mut store, ControllerEvent::Prepared(Ok(files)), 8);
    let action = run.step(&mut store, ControllerEvent::Started(Err("timeout".to_string())), 9);
    match &action {
        ControllerAction::Diagnose { bot_name, error } => {
            assert_eq!(bot_name, "warmbot_1");
            assert_eq!(error, "timeout");
        }
        _ => panic!("expected diagnosis"),
    }
    let action = run.step(&mut store, ControllerEvent::Diagnosed("timeout\n\nlogs".to_string()), 10);
    match action {
        ControllerAction::Finish(Err(AppError::ServiceUnavailable(m))) => assert_eq!(m, "timeout\n\nlogs"),
        _ => panic!("expected unavailable"),
    }
    let slot = store.get("warmbot_1").unwrap();
    assert_eq!(slot.status, SlotStatus::Error);
    assert_eq!(slot.last_error.as_deref(), Some("timeout\n\nlogs"));
}

#[test]
fn controller_deployment_is_stamped_with_the_current_time() {
    let mut store = idle_pool(&["warmbot_1"]);
    let (_, action) = ControllerRun::begin(&mut store, "grid", "acct".to_string(), 1).ok().unwrap();
    match action {
        ControllerAction::Prepare { unique_instance_name, script_config_name, .. } => {
            let stamp = &unique_instance_name["grid-".len()..];
            assert_eq!(stamp.len(), 15);
            assert_eq!(&stamp[8..9], "-");
            assert!(stamp[..8].chars().all(|c| c.is_ascii_digit()));
            assert!(stamp[9..].chars().all(|c| c.is_ascii_digit()));
            assert!(stamp.starts_with("20"));
            assert_eq!(script_config_name, format!("warmbot_1-{stamp}.yml"));
        }
        _ => panic!("expected preparation"),
    }
    let slot = store.get("warmbot_1").unwrap();
    assert_eq!(slot.status, SlotStatus::Reserved);
    assert!(slot.updated_at > 1_600_000_000_000_000_000);
}
