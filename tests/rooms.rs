use elementary::room::{
    key_less, partition_rooms, room_label, room_title, get_sender_details, sort_by_recent, RoomEntry, RoomMap,
};

fn named(name: &str) -> RoomEntry {
    RoomEntry::from_sdk(None, Some(name.to_string()), None, None, None)
}

#[test]
fn room_map_insert_find_remove() {
    let mut m = RoomMap::new();
    m.insert("!a".to_string(), named("A"));
    m.insert("!b".to_string(), named("B"));
    m.insert("!a".to_string(), named("A2"));
    assert_eq!(m.entries.len(), 2);
    assert_eq!(m.get(&"!a".to_string()).unwrap().name, "A2");
    assert_eq!(m.find(&"!b".to_string()), Some(1));
    m.remove(&"!a".to_string());
    assert_eq!(m.find(&"!a".to_string()), None);
    assert_eq!(m.find(&"!b".to_string()), Some(0));
    m.remove(&"!zzz".to_string());
    assert_eq!(m.entries.len(), 1);
}

#[test]
fn entry_index_adds_blank_room() {
    let mut m = RoomMap::new();
    let i = m.entry_index(&"!new".to_string());
    assert_eq!(i, 0);
    let e = m.get(&"!new".to_string()).unwrap();
    assert!(e.name.is_empty() && e.alias.is_none() && e.messages.messages.is_empty());
    assert_eq!(m.entry_index(&"!new".to_string()), 0);
    assert_eq!(m.entries.len(), 1);
}

#[test]
fn from_sdk_defaults_missing_name_and_topic() {
    let e = RoomEntry::from_sdk(Some("@bob:x".to_string()), None, None, Some("#a:x".to_string()), None);
    assert_eq!(e.name, "");
    assert_eq!(e.topic, "");
    assert_eq!(e.direct.as_deref(), Some("@bob:x"));
    assert_eq!(e.alias.as_deref(), Some("#a:x"));
}

#[test]
fn partition_splits_and_hides_upgraded_rooms() {
    let mut m = RoomMap::new();
    m.insert("!old".to_string(), named("Old"));
    m.insert("!dm".to_string(), RoomEntry::from_sdk(Some("@bob:x".to_string()), None, None, None, None));
    m.insert("!new".to_string(), named("New"));
    m.insert("!gone".to_string(), named("Gone"));
    // Rooms are held in the order of their ids.
    let ids: Vec<&str> = m.entries.iter().map(|(id, _)| id.as_str()).collect();
    assert_eq!(ids, vec!["!dm", "!gone", "!new", "!old"]);
    // `!old` was upgraded to `!new`, which we hold; `!gone` points to a room we do not hold.
    let replacements = vec![None, Some("!elsewhere".to_string()), None, Some("!new".to_string())];
    let (dms, groups) = partition_rooms(&m, &replacements);
    assert_eq!(dms, vec![0]);
    assert_eq!(groups, vec![1, 2]);
}

#[test]
fn sort_by_recent_puts_latest_first() {
    let mut m = RoomMap::new();
    for (id, t) in [("!a", 5u64), ("!b", 50), ("!c", 20), ("!d", 50)] {
        let mut e = named(id);
        e.messages.updated = t;
        m.insert(id.to_string(), e);
    }
    let mut list = vec![0, 1, 2, 3];
    sort_by_recent(&m, &mut list);
    assert_eq!(list, vec![1, 3, 2, 0]);
    let mut empty: Vec<usize> = Vec::new();
    sort_by_recent(&m, &mut empty);
    assert!(empty.is_empty());
}

#[test]
fn labels_and_titles() {
    assert_eq!(room_label(&named("")), "Empty Room");
    assert_eq!(room_label(&named("Lobby")), "Lobby");
    let dm = RoomEntry::from_sdk(Some("@bob:x".to_string()), Some("Bob".to_string()), None, Some("#b:x".to_string()), None);
    assert_eq!(room_title(&dm), "Bob (@bob:x)");
    let aliased = RoomEntry::from_sdk(None, Some("Lobby".to_string()), None, Some("#lobby:x".to_string()), None);
    assert_eq!(room_title(&aliased), "Lobby (#lobby:x)");
    assert_eq!(room_title(&named("Plain")), "Plain");
}

#[test]
fn sender_details_falls_back() {
    assert_eq!(get_sender_details(None), ("Unknown Sender".to_string(), None));
    let m = Some(("Alice".to_string(), Some("mxc://x/a".to_string())));
    assert_eq!(get_sender_details(m.clone()), m.unwrap());
}

#[test]
fn room_ids_compare_as_text() {
    let s = |x: &str| x.to_string();
    assert!(key_less(&s("!a:x"), &s("!b:x")));
    assert!(!key_less(&s("!b:x"), &s("!a:x")));
    assert!(key_less(&s("!a"), &s("!a:x")));
    assert!(!key_less(&s("!a:x"), &s("!a:x")));
    assert!(key_less(&s(""), &s("!")));
    assert!(key_less(&s("!Z"), &s("!a")));
}

#[test]
fn room_map_keeps_id_order() {
    let mut m = RoomMap::new();
    for id in ["!m", "!c", "!x", "!a", "!c"] {
        m.insert(id.to_string(), named(id));
    }
    let ids: Vec<&str> = m.entries.iter().map(|(id, _)| id.as_str()).collect();
    assert_eq!(ids, vec!["!a", "!c", "!m", "!x"]);
}
