use erps::registry::RoomRegistry;

#[test]
fn new_registry_is_empty() {
    let rooms = RoomRegistry::new(3);
    assert_eq!(rooms.len(), 0);
    assert!(rooms.get(&"0".to_string()).is_none());
}

#[test]
fn create_registers_single_member() {
    let mut rooms = RoomRegistry::new(3);
    rooms.create("5".to_string());
    assert_eq!(rooms.len(), 1);
    let rr = rooms.get(&"5".to_string()).expect("the room is filed under its id");
    assert_eq!(rr.id, "5");
    assert_eq!(rr.ids, vec!["5".to_string()]);
}

#[test]
fn record_join_appends_in_order_without_loss() {
    let mut rooms = RoomRegistry::new(3);
    rooms.create("0".to_string());
    rooms.record_join(&"0".to_string(), "1".to_string());
    rooms.record_join(&"0".to_string(), "2".to_string());
    let rr = rooms.get(&"0".to_string()).unwrap();
    assert_eq!(rr.ids, vec!["0".to_string(), "1".to_string(), "2".to_string()]);
}

#[test]
fn record_join_on_unknown_room_changes_nothing() {
    let mut rooms = RoomRegistry::new(3);
    rooms.create("0".to_string());
    rooms.record_join(&"9".to_string(), "1".to_string());
    assert_eq!(rooms.len(), 1);
    assert_eq!(rooms.get(&"0".to_string()).unwrap().ids.len(), 1);
}

#[test]
fn pick_joinable_offers_open_room_only() {
    let mut rooms = RoomRegistry::new(3);
    rooms.create("0".to_string());
    assert!(rooms.pick_joinable(0).is_some());
    rooms.record_join(&"0".to_string(), "1".to_string());
    assert!(rooms.pick_joinable(0).is_some());
    rooms.record_join(&"0".to_string(), "2".to_string());
    // Member count has reached the team size: the drawn position is refused.
    assert!(rooms.pick_joinable(0).is_none());
}

#[test]
fn full_room_stays_unjoinable_past_team_size() {
    let mut rooms = RoomRegistry::new(3);
    rooms.create("0".to_string());
    rooms.record_join(&"0".to_string(), "1".to_string());
    rooms.record_join(&"0".to_string(), "2".to_string());
    rooms.record_join(&"0".to_string(), "3".to_string());
    assert_eq!(rooms.get(&"0".to_string()).unwrap().ids.len(), 4);
    assert!(rooms.pick_joinable(0).is_none());
}

#[test]
fn create_resets_stale_room_in_place() {
    let mut rooms = RoomRegistry::new(3);
    rooms.create("0".to_string());
    rooms.create("1".to_string());
    rooms.record_join(&"0".to_string(), "2".to_string());
    rooms.create("0".to_string());
    assert_eq!(rooms.len(), 2);
    let rr = rooms.get(&"0".to_string()).unwrap();
    assert_eq!(rr.ids, vec!["0".to_string()]);
    // The other room is untouched.
    assert_eq!(rooms.get(&"1".to_string()).unwrap().ids, vec!["1".to_string()]);
}

#[test]
fn insertion_order_is_preserved() {
    let mut rooms = RoomRegistry::new(3);
    rooms.create("2".to_string());
    rooms.create("0".to_string());
    rooms.create("1".to_string());
    assert_eq!(rooms.pick_joinable(0).unwrap().id, "2");
    assert_eq!(rooms.pick_joinable(1).unwrap().id, "0");
    assert_eq!(rooms.pick_joinable(2).unwrap().id, "1");
}
