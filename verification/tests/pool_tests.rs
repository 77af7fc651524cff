use principia_aves::log_store::{LogStore, BOT_LOG_CAPACITY};
use principia_aves::slot_store::SlotStore;
use principia_aves::types::{SlotState, SlotStatus};

fn pool(names: &[&str]) -> SlotStore {
    SlotStore::new_at(names.iter().map(|n| n.to_string()).collect(), 100)
}

#[test]
fn new_pool_lists_offline_slots_in_name_order() {
    let store = pool(&["warmbot_2", "warmbot_1", "warmbot_3"]);
    let names: Vec<String> = store.list().into_iter().map(|s| s.bot_name).collect();
    assert_eq!(names, vec!["warmbot_1", "warmbot_2", "warmbot_3"]);
    for slot in store.list() {
        assert_eq!(slot.status, SlotStatus::Offline);
        assert_eq!(slot.updated_at, 100);
        assert_eq!(slot.last_heartbeat, None);
    }
}

#[test]
fn reservation_takes_first_idle_and_never_twice() {
    let mut store = pool(&["warmbot_1", "warmbot_2"]);
    store.mark_status_at("warmbot_1", SlotStatus::Idle, 200);
    store.mark_status_at("warmbot_2", SlotStatus::Idle, 200);
    let first = store.reserve_idle_at(300).unwrap();
    let second = store.reserve_idle_at(301).unwrap();
    assert_eq!(first.bot_name, "warmbot_1");
    assert_eq!(second.bot_name, "warmbot_2");
    assert!(store.reserve_idle_at(302).is_none());
    assert_eq!(store.get("warmbot_1").unwrap().updated_at, 300);
}

#[test]
fn release_undoes_an_assignment() {
    let mut store = pool(&["warmbot_1"]);
    store.mark_heartbeat_at("warmbot_1", 150);
    store.assign_running_at(
        "warmbot_1",
        Some("inst".to_string()),
        "acct".to_string(),
        Some("c.yml".to_string()),
        vec!["x.yml".to_string()],
        200,
    );
    store.mark_error_at("warmbot_1", "boom".to_string(), 250);
    assert_eq!(store.get("warmbot_1").unwrap().status, SlotStatus::Error);
    store.release_idle_at("warmbot_1", 300);
    let slot = store.get("warmbot_1").unwrap();
    assert_eq!(slot.status, SlotStatus::Idle);
    assert_eq!(slot.assigned_instance_name, None);
    assert_eq!(slot.account_name, None);
    assert_eq!(slot.current_config_name, None);
    assert!(slot.current_controller_ids.is_empty());
    assert_eq!(slot.last_error, None);
    assert_eq!(slot.last_heartbeat, Some(150));
    assert_eq!(slot.updated_at, 300);
}

#[test]
fn updates_of_unknown_bots_change_nothing() {
    let mut store = pool(&["warmbot_1"]);
    store.mark_status_at("ghost", SlotStatus::Running, 500);
    store.release_idle_at("ghost", 500);
    assert_eq!(store.list().len(), 1);
    assert!(store.get("ghost").is_none());
    assert_eq!(store.get("warmbot_1").unwrap().updated_at, 100);
}

#[test]
fn heartbeat_brings_bots_online_and_adds_new_ones() {
    let mut store = pool(&["warmbot_2"]);
    store.mark_heartbeat_at("warmbot_2", 1_000);
    assert_eq!(store.get("warmbot_2").unwrap().status, SlotStatus::Idle);
    store.mark_heartbeat_at("warmbot_1", 1_001);
    let slot = store.get("warmbot_1").unwrap();
    assert_eq!(slot.status, SlotStatus::Idle);
    assert_eq!(slot.last_heartbeat, Some(1_001));
    let names: Vec<String> = store.list().into_iter().map(|s| s.bot_name).collect();
    assert_eq!(names, vec!["warmbot_1", "warmbot_2"]);
}

#[test]
fn reaper_spares_fresh_and_busy_bots() {
    let sec: i64 = 1_000_000_000;
    let mut store = pool(&["a", "b", "c", "d", "e"]);
    store.mark_heartbeat_at("a", 10 * sec);
    store.mark_heartbeat_at("b", 40 * sec);
    store.mark_heartbeat_at("c", 10 * sec);
    store.mark_status_at("c", SlotStatus::Stopping, 10 * sec);
    store.mark_heartbeat_at("d", 11 * sec);
    store.mark_heartbeat_at("e", 11 * sec - 400_000);
    store.mark_stale_offline_at(30, 41 * sec);
    assert_eq!(store.get("a").unwrap().status, SlotStatus::Offline);
    assert_eq!(store.get("a").unwrap().updated_at, 41 * sec);
    assert_eq!(store.get("b").unwrap().status, SlotStatus::Idle);
    assert_eq!(store.get("c").unwrap().status, SlotStatus::Stopping);
    assert_eq!(store.get("d").unwrap().status, SlotStatus::Idle);
    // 30.0004 seconds of silence is more than 30 seconds.
    assert_eq!(store.get("e").unwrap().status, SlotStatus::Offline);
}

#[test]
fn finds_deployments_by_instance_name() {
    let mut store = pool(&["warmbot_1", "warmbot_2"]);
    store.assign_configuring_at("warmbot_2", Some("inst".to_string()), "acct".to_string(), None, vec![], 5);
    assert_eq!(store.find_by_instance("inst").unwrap().bot_name, "warmbot_2");
    assert!(store.find_by_instance("other").is_none());
    assert_eq!(store.get("warmbot_2").unwrap().status, SlotStatus::Configuring);
}

#[test]
fn slot_copies_keep_every_field() {
    let slot = SlotState::new_at("warmbot_1".to_string(), 9);
    let copy = slot.duplicate();
    assert_eq!(copy.bot_name, "warmbot_1");
    assert_eq!(copy.updated_at, 9);
    assert_eq!(copy.status, SlotStatus::Offline);
}

#[test]
fn new_slots_are_stamped_with_the_clock() {
    let before = chrono::Utc::now().timestamp_nanos_opt().unwrap();
    let slot = SlotState::new("warmbot_1".to_string());
    let after = chrono::Utc::now().timestamp_nanos_opt().unwrap();
    assert!(before <= slot.updated_at && slot.updated_at <= after);
}

#[test]
fn logs_keep_the_newest_lines() {
    let mut logs: LogStore<usize> = LogStore::new();
    for i in 0..(BOT_LOG_CAPACITY + 5) {
        logs.record("warmbot_1".to_string(), i);
    }
    let recent = logs.recent("warmbot_1").unwrap();
    assert_eq!(recent.len(), BOT_LOG_CAPACITY);
    assert_eq!(recent[0], 5);
    assert_eq!(*recent.last().unwrap(), BOT_LOG_CAPACITY + 4);
    assert!(logs.recent("warmbot_2").is_none());
    logs.clear("warmbot_1");
    assert!(logs.recent("warmbot_1").is_none());
}
