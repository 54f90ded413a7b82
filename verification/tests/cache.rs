use fractal_gtk::cache::{
    cache_data_from, poll_step, room_for_cache, rooms_for_cache, snapshot, AppState, Reply,
    Room, RoomList, CACHE_SIZE,
};

fn room(id: &str, n: u32, details: &str) -> Room<u32, String> {
    Room {
        id: id.to_string(),
        messages: (0..n).collect(),
        prev_batch: Some("token".to_string()),
        details: details.to_string(),
    }
}

#[test]
fn cache_keeps_latest_messages() {
    let r = room_for_cache(room("!a", 50, "A"));
    assert_eq!(r.messages.len(), CACHE_SIZE);
    assert_eq!(r.messages, (10..50).collect::<Vec<u32>>());
    assert_eq!(r.prev_batch, None);
    assert_eq!(r.id, "!a");
    assert_eq!(r.details, "A");
}

#[test]
fn cache_keeps_short_histories_whole() {
    let r = room_for_cache(room("!b", 3, "B"));
    assert_eq!(r.messages, vec![0, 1, 2]);
    assert_eq!(r.prev_batch, None);
    let r = room_for_cache(room("!c", 40, "C"));
    assert_eq!(r.messages, (0..40).collect::<Vec<u32>>());
    let r = room_for_cache(room("!d", 0, "D"));
    assert!(r.messages.is_empty());
}

#[test]
fn caching_twice_changes_nothing() {
    let once = room_for_cache(room("!a", 45, "A"));
    let twice = room_for_cache(Room {
        id: once.id.clone(),
        messages: once.messages.clone(),
        prev_batch: None,
        details: once.details.clone(),
    });
    assert_eq!(once.messages, twice.messages);
}

#[test]
fn rooms_for_cache_keeps_order() {
    let out = rooms_for_cache(vec![room("!a", 41, "A"), room("!b", 2, "B")]);
    assert_eq!(out.len(), 2);
    assert_eq!(out[0].id, "!a");
    assert_eq!(out[0].messages, (1..41).collect::<Vec<u32>>());
    assert_eq!(out[1].id, "!b");
    assert_eq!(out[1].messages, vec![0, 1]);
}

#[test]
fn snapshot_carries_session() {
    let s = snapshot(
        vec![room("!a", 1, "A")],
        Some("s1".to_string()),
        "alice".to_string(),
        "@alice:x.org".to_string(),
        "DEV".to_string(),
    );
    assert_eq!(s.state.since, Some("s1".to_string()));
    assert_eq!(s.state.username, "alice");
    assert_eq!(s.state.uid, "@alice:x.org");
    assert_eq!(s.state.device_id, "DEV");
    assert_eq!(s.rooms.len(), 1);
    assert_eq!(s.rooms[0].prev_batch, None);
}

#[test]
fn load_keys_rooms_by_id_last_wins() {
    let st = AppState {
        since: None,
        username: "bob".to_string(),
        uid: "@bob:x.org".to_string(),
        device_id: "D".to_string(),
    };
    let data = cache_data_from(st, vec![room("!a", 1, "first"), room("!b", 2, "B"), room("!a", 3, "second")]);
    assert_eq!(data.rooms.len(), 2);
    assert_eq!(data.rooms.get("!a").unwrap().details, "second");
    assert_eq!(data.rooms.get("!b").unwrap().messages, vec![0, 1]);
    assert!(data.rooms.get("!c").is_none());
    assert_eq!(data.username, "bob");
    assert_eq!(data.since, None);
}

#[test]
fn load_after_store() {
    let s = snapshot(
        vec![room("!a", 60, "A"), room("!b", 5, "B")],
        None,
        "u".to_string(),
        "@u:x".to_string(),
        "d".to_string(),
    );
    let data = cache_data_from(s.state, s.rooms);
    let a = data.rooms.get("!a").unwrap();
    assert_eq!(a.messages, (20..60).collect::<Vec<u32>>());
    assert_eq!(a.prev_batch, None);
    assert_eq!(data.rooms.get("!b").unwrap().messages.len(), 5);
}

#[test]
fn room_list_insert_and_get() {
    let mut list: RoomList<u32, String> = RoomList::new();
    assert_eq!(list.len(), 0);
    assert!(list.insert(room("!a", 1, "A")).is_none());
    assert!(list.insert(room("!b", 1, "B")).is_none());
    let prev = list.insert(room("!a", 2, "A2")).unwrap();
    assert_eq!(prev.details, "A");
    assert_eq!(list.len(), 2);
    assert_eq!(list.get("!a").unwrap().details, "A2");
    assert_eq!(list.get("!b").unwrap().details, "B");
    assert!(list.get("!A").is_none());
}

#[test]
fn poll_step_waits_only_while_empty() {
    let s = poll_step::<String>(Reply::Empty);
    assert!(s.keep_polling);
    assert!(s.handle.is_none());
    let s = poll_step::<String>(Reply::Disconnected);
    assert!(!s.keep_polling);
    assert!(s.handle.is_none());
    let s = poll_step(Reply::Ready("name".to_string()));
    assert!(!s.keep_polling);
    assert_eq!(s.handle, Some("name".to_string()));
}
