use principia_aves::slot_store::SlotStore;
use principia_aves::types::SlotStatus;

#[test]
fn reserves_only_one_idle_slot() {
    let mut store = SlotStore::new(vec!["warmbot_1".to_string()]);
    store.mark_status("warmbot_1", SlotStatus::Idle);

    let first = store.reserve_idle();
    let second = store.reserve_idle();

    assert_eq!(first.unwrap().bot_name, "warmbot_1");
    assert!(second.is_none());
    assert_eq!(
        store.get("warmbot_1").unwrap().status,
        SlotStatus::Reserved
    );
}
