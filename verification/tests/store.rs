use clawchat::json::normalise;
use clawchat::store::{
    DbError, DeliveryRow, KeyRow, MessageRow, RoomRow, SessionRow, Store, StoreError,
    SubscriptionRow, VoteRow,
};
use clawchat::store::startup::{add_column_sql, missing_column_sql};
use clawchat::time::Timestamp;

fn open() -> Store {
    Store::open_in_memory().unwrap()
}

fn at(secs: i64) -> Timestamp {
    Timestamp { secs, nanos: 0 }
}

fn names(texts: &[&str]) -> Vec<String> {
    texts.iter().map(|t| t.to_string()).collect()
}

#[test]
fn test_initialize_creates_lobby() {
    let store = Store::open_in_memory().unwrap();
    let room = store.get_room("lobby").unwrap();
    assert!(room.is_some());
    assert_eq!(room.unwrap().name, "lobby");
}

#[test]
fn test_create_and_get_room() {
    let mut store = Store::open_in_memory().unwrap();
    let room = store
        .create_room("test-room", "test-room", Some("A test"), None, Some("agent-1"))
        .unwrap();
    assert_eq!(room.name, "test-room");
    assert_eq!(room.description, Some("A test".into()));

    let fetched = store.get_room("test-room").unwrap().unwrap();
    assert_eq!(fetched.room_id, "test-room");
}

#[test]
fn test_duplicate_room_name() {
    let mut store = Store::open_in_memory().unwrap();
    store.create_room("r1", "same-name", None, None, None).unwrap();
    let result = store.create_room("r2", "same-name", None, None, None);
    assert!(matches!(result, Err(StoreError::RoomNameTaken(_))));
}

#[test]
fn test_insert_and_get_history() {
    let mut store = Store::open_in_memory().unwrap();
    store
        .insert_message("msg-1", "lobby", "agent-1", "Alice", "Hello", None, "{}")
        .unwrap();
    store
        .insert_message("msg-2", "lobby", "agent-2", "Bob", "Hi there", Some("msg-1"), "{}")
        .unwrap();

    let history = store.get_history("lobby", 50, None).unwrap();
    assert_eq!(history.len(), 2);
    assert_eq!(history[0].content, "Hello");
    assert_eq!(history[1].content, "Hi there");
    assert_eq!(history[1].reply_to_message, Some("msg-1".into()));
    assert_eq!(history[0].seq, 1);
    assert_eq!(history[1].seq, 2);
    assert_eq!(store.room_tip("lobby").unwrap(), 2);
}

#[test]
fn test_seq_is_per_room() {
    let mut store = Store::open_in_memory().unwrap();
    store.create_room("r1", "r1", None, None, None).unwrap();
    store.create_room("r2", "r2", None, None, None).unwrap();
    let m1 = store.insert_message("a", "r1", "ag", "A", "hi", None, "{}").unwrap();
    let m2 = store.insert_message("b", "r2", "ag", "A", "hi", None, "{}").unwrap();
    let m3 = store.insert_message("c", "r1", "ag", "A", "hi2", None, "{}").unwrap();
    assert_eq!((m1.seq, m2.seq, m3.seq), (1, 1, 2));
    assert_eq!(store.room_tip("r1").unwrap(), 2);
    assert_eq!(store.room_tip("r2").unwrap(), 1);
    assert_eq!(store.room_tip("nonexistent").unwrap(), 0);
}

#[test]
fn test_history_since_seq() {
    let mut store = Store::open_in_memory().unwrap();
    for i in 0..5 {
        store
            .insert_message(
                &format!("m{i}"),
                "lobby",
                "ag",
                "A",
                &format!("msg{i}"),
                None,
                "{}",
            )
            .unwrap();
    }
    let history = store.get_history_filtered("lobby", 50, None, None, Some(2)).unwrap();
    assert_eq!(history.len(), 3);
    assert_eq!(history[0].seq, 3);
    assert_eq!(history[2].seq, 5);
}

#[test]
fn test_list_rooms_with_parent() {
    let mut store = Store::open_in_memory().unwrap();
    store.create_room("parent", "parent-room", None, None, None).unwrap();
    store.create_room("child-1", "child-1", None, Some("parent"), None).unwrap();
    store.create_room("child-2", "child-2", None, Some("parent"), None).unwrap();

    let children = store.list_rooms(Some("parent")).unwrap();
    assert_eq!(children.len(), 2);

    let all = store.list_rooms(None).unwrap();
    assert!(all.len() >= 4); // lobby + parent + 2 children
}

#[test]
fn the_lobby_is_public_and_described() {
    let lobby = open().get_room("lobby").unwrap().unwrap();
    assert_eq!(lobby.visibility, "public");
    assert_eq!(lobby.description.as_deref(), Some("Default room for all agents"));
    assert!(!lobby.ephemeral);
    assert!(!lobby.encrypted);
    assert!(lobby.owner_key.is_none());
}

#[test]
fn opening_twice_is_opening_once() {
    let mut store = open();
    store.create_room("r", "r", None, None, None).unwrap();
    let rooms = store.rooms.len();
    store.initialize();
    assert_eq!(store.rooms.len(), rooms);
}

#[test]
fn a_private_lobby_becomes_public() {
    let mut store = open();
    store.rooms[0].visibility = "private".to_string();
    store.initialize();
    assert_eq!(store.get_room("lobby").unwrap().unwrap().visibility, "public");
}

#[test]
fn a_taken_lobby_name_is_left_alone() {
    let mut store = Store::empty();
    store.create_room("x", "lobby", None, None, None).unwrap();
    store.initialize();
    assert!(store.get_room("lobby").unwrap().is_none());
    assert_eq!(store.get_room_by_name("lobby").unwrap().unwrap().room_id, "x");
}

#[test]
fn old_messages_are_numbered_by_room() {
    let mut store = open();
    store.create_room("r", "r", None, None, None).unwrap();
    for (id, room) in [("a", "lobby"), ("b", "r"), ("c", "lobby"), ("d", "r"), ("e", "lobby")] {
        store.insert_message(id, room, "ag", "A", "x", None, "{}").unwrap();
    }
    for m in store.messages.iter_mut() {
        m.seq = 0;
    }
    store.initialize();
    let seqs: Vec<i64> = store.messages.iter().map(|m| m.seq).collect();
    assert_eq!(seqs, vec![1, 1, 2, 2, 3]);
    store.initialize();
    let again: Vec<i64> = store.messages.iter().map(|m| m.seq).collect();
    assert_eq!(again, seqs);
}

#[test]
fn rooms_that_the_tables_refuse() {
    let mut store = open();
    store.create_room("r", "r", None, None, None).unwrap();
    let own = store.create_room("q", "q", None, Some("q"), None).unwrap_err();
    assert!(matches!(own, StoreError::Db(DbError::OwnParent)));
    assert_eq!(own.text(), "database error: CHECK constraint failed: room_id != parent_id");
    let id = store.create_room("r", "other", None, None, None).unwrap_err();
    assert!(matches!(id, StoreError::Db(DbError::DuplicateRoom)));
    assert_eq!(id.text(), "database error: UNIQUE constraint failed: rooms.room_id");
    let parent = store.create_room("s", "s", None, Some("nowhere"), None).unwrap_err();
    assert!(matches!(parent, StoreError::Db(DbError::ForeignKey)));
    assert_eq!(parent.text(), "database error: FOREIGN KEY constraint failed");
    let name = store.create_room("t", "r", None, Some("nowhere"), None).unwrap_err();
    assert_eq!(name.text(), "room name already taken: r");
    assert_eq!(store.rooms.len(), 2);
}

#[test]
fn rooms_are_seen_by_their_keys() {
    let mut store = open();
    store
        .create_room_with_visibility("a", "zz", None, None, None, "private", Some("k1"), false)
        .unwrap();
    store
        .create_room_with_visibility("b", "mm", None, Some("a"), None, "public", Some("k2"), true)
        .unwrap();
    let seen = |key: Option<&str>, parent: Option<&str>| -> Vec<String> {
        store
            .list_rooms_for_key(key, parent)
            .unwrap()
            .into_iter()
            .map(|r| r.room_id)
            .collect()
    };
    assert_eq!(seen(None, None), vec!["lobby", "b"]);
    assert_eq!(seen(Some("k1"), None), vec!["lobby", "b", "a"]);
    assert_eq!(seen(Some("k2"), None), vec!["lobby", "b"]);
    assert_eq!(seen(None, Some("a")), vec!["b"]);
    assert_eq!(seen(Some("k1"), Some("lobby")), Vec::<String>::new());
    assert_eq!(store.count_rooms_for_key("k1").unwrap(), 1);
    assert_eq!(store.count_rooms_for_key("k3").unwrap(), 0);
    assert!(store.get_room("b").unwrap().unwrap().encrypted);
}

#[test]
fn deleting_a_room_takes_its_messages_along() {
    let mut store = open();
    store.create_room("p", "p", None, None, None).unwrap();
    store.create_room("c", "c", None, Some("p"), None).unwrap();
    store.insert_message("m1", "p", "ag", "A", "x", None, "{}").unwrap();
    store.insert_message("m2", "lobby", "ag", "A", "y", Some("m1"), "{}").unwrap();
    assert!(store.delete_room("p").unwrap());
    assert!(store.get_room("p").unwrap().is_none());
    assert!(store.get_message("m1").unwrap().is_none());
    assert_eq!(store.get_message("m2").unwrap().unwrap().reply_to_message, None);
    assert_eq!(store.get_room("c").unwrap().unwrap().parent_id, None);
    assert!(!store.delete_room("p").unwrap());
}

#[test]
fn messages_that_the_tables_refuse() {
    let mut store = open();
    store.insert_message("m", "lobby", "ag", "A", "x", None, "{}").unwrap();
    let id = store.insert_message("m", "lobby", "ag", "A", "x", None, "{}").unwrap_err();
    assert_eq!(id.text(), "database error: UNIQUE constraint failed: messages.message_id");
    let room = store.insert_message("n", "nowhere", "ag", "A", "x", None, "{}").unwrap_err();
    assert!(matches!(room, StoreError::Db(DbError::ForeignKey)));
    let reply = store.insert_message("n", "lobby", "ag", "A", "x", Some("q"), "{}").unwrap_err();
    assert!(matches!(reply, StoreError::Db(DbError::ForeignKey)));
    store.insert_message("n", "lobby", "ag", "A", "x", Some("n"), "{}").unwrap();
    assert_eq!(store.room_tip("lobby").unwrap(), 2);
}

#[test]
fn metadata_is_kept_and_read_as_json() {
    let mut store = open();
    let text = "{\"a\":[],\"b\":1}";
    let m = store.insert_message("m", "lobby", "ag", "A", "x", None, text).unwrap();
    assert_eq!(m.metadata, text);
    assert_eq!(store.messages[0].metadata, text);
    assert_eq!(store.get_message("m").unwrap().unwrap().metadata, text);
    let deep = format!("{}{}", "[".repeat(128), "]".repeat(128));
    let fraction = "5.699993338763803e-16";
    for (id, text) in [("d", deep.as_str()), ("f", fraction)] {
        let sent = store.insert_message(id, "lobby", "ag", "A", "x", None, text).unwrap();
        assert_eq!(sent.metadata, text);
    }
    assert_eq!(store.messages[1].metadata, deep);
    assert_eq!(store.messages[2].metadata, fraction);
    assert_eq!(store.get_message("d").unwrap().unwrap().metadata, "{}");
    store.messages[0].metadata = " { \"b\" : 1, \"a\": [ ] } ".to_string();
    assert_eq!(store.get_message("m").unwrap().unwrap().metadata, text);
    store.messages[0].metadata = "{broken".to_string();
    assert_eq!(store.get_message("m").unwrap().unwrap().metadata, "{}");
}

#[test]
fn histories_by_time_id_and_number() {
    let mut store = open();
    for (id, time) in [
        ("a", "2024-01-01T00:00:01.000Z"),
        ("b", "2024-01-01T00:00:03.000Z"),
        ("c", "2024-01-01T00:00:02.000Z"),
        ("d", "2024-01-01T00:00:04.000Z"),
    ] {
        store.insert_message_at(id, "lobby", "ag", "A", id, None, "{}", time).unwrap();
    }
    let ids = |before: Option<Timestamp>, since: Option<&str>, seq: Option<i64>, limit: u32| -> String {
        store
            .get_history_filtered("lobby", limit, before, since, seq)
            .unwrap()
            .into_iter()
            .map(|m| m.message_id)
            .collect::<Vec<String>>()
            .concat()
    };
    assert_eq!(ids(None, None, None, 50), "acbd");
    assert_eq!(ids(None, None, None, 2), "bd");
    assert_eq!(ids(Some(at(1704067203)), None, None, 50), "ac");
    assert_eq!(ids(Some(at(1704067203)), None, None, 1), "c");
    assert_eq!(ids(None, Some("a"), None, 50), "cbd");
    assert_eq!(ids(None, Some("b"), None, 50), "cd");
    assert_eq!(ids(None, Some("a"), None, 2), "cb");
    assert_eq!(ids(None, Some("nothing"), None, 50), "");
    assert_eq!(ids(Some(at(0)), Some("a"), Some(1), 50), "bcd");
    assert_eq!(ids(None, None, Some(1), 2), "bc");
    assert_eq!(ids(None, None, Some(4), 50), "");
    assert_eq!(ids(None, None, None, 0), "");
    assert_eq!(store.get_history("lobby", 1, None).unwrap()[0].timestamp, at(1704067204));
    assert_eq!(store.get_history_since("lobby", 9, None, Some("c")).unwrap().len(), 1);
}

#[test]
fn reading_on_by_number_loses_nothing() {
    let mut store = open();
    for i in 0..7 {
        store.insert_message(&format!("m{i}"), "lobby", "ag", "A", "x", None, "{}").unwrap();
    }
    let mut floor = 0;
    let mut read: Vec<String> = Vec::new();
    loop {
        let part = store.get_history_filtered("lobby", 3, None, None, Some(floor)).unwrap();
        match part.last() {
            Some(m) => floor = m.seq,
            None => break,
        }
        read.extend(part.into_iter().map(|m| m.message_id));
    }
    assert_eq!(read, names(&["m0", "m1", "m2", "m3", "m4", "m5", "m6"]));
}

#[test]
fn rows_can_be_appended_and_asked_for_by_time() {
    let mut store = open();
    let row = |id: &str, time: &str| MessageRow {
        message_id: id.to_string(),
        room_id: "lobby".to_string(),
        agent_id: "ag".to_string(),
        agent_name: "A".to_string(),
        content: "x".to_string(),
        reply_to_message: None,
        metadata: "{}".to_string(),
        created_at: time.to_string(),
        seq: 77,
    };
    assert_eq!(store.append_message(row("a", "1")).unwrap(), 1);
    assert_eq!(store.append_message(row("b", "3")).unwrap(), 2);
    assert!(store.append_message(row("b", "3")).is_err());
    assert_eq!(store.history_rows("lobby", 9, Some("3"), None, None).len(), 1);
    assert_eq!(store.history_rows("lobby", 9, Some("31"), None, None).len(), 2);
    let room = RoomRow {
        room_id: "r".to_string(),
        name: "r".to_string(),
        description: None,
        parent_id: None,
        created_by: None,
        created_at: "1".to_string(),
        visibility: "private".to_string(),
        owner_key: None,
        encrypted: false,
    };
    assert!(store.append_room(room.clone()).is_ok());
    assert!(matches!(store.append_room(room), Err(StoreError::RoomNameTaken(_))));
}

#[test]
fn votes_and_ballots() {
    let mut store = open();
    let options = names(&["yes", "no \"quoted\"", "späť"]);
    store
        .create_vote("v", "lobby", "Title", Some("D"), &options, "ag", Some(at(1704067200)), 3)
        .unwrap();
    let meta = store.get_vote_meta("v").unwrap().unwrap();
    assert_eq!(meta.options, options);
    assert_eq!(meta.status, "open");
    assert_eq!(meta.closes_at, Some(at(1704067200)));
    assert_eq!(meta.eligible_voters, 3);
    assert_eq!(meta.description.as_deref(), Some("D"));
    let dup = store.create_vote("v", "lobby", "T", None, &options, "ag", None, 3).unwrap_err();
    assert_eq!(dup.text(), "database error: UNIQUE constraint failed: votes.vote_id");
    store.cast_vote("v", "a1", "A", 1).unwrap();
    store.cast_vote("v", "a2", "B", 0).unwrap();
    let again = store.cast_vote("v", "a1", "A", 0).unwrap_err();
    assert!(matches!(again, StoreError::AlreadyVoted));
    assert_eq!(again.text(), "already voted");
    let none = store.cast_vote("w", "a1", "A", 0).unwrap_err();
    assert!(matches!(none, StoreError::VoteNotFound));
    assert_eq!(none.text(), "vote not found");
    assert_eq!(store.get_vote_ballot_count("v").unwrap(), 2);
    store.close_vote("v").unwrap();
    let late = store.cast_vote("v", "a3", "C", 0).unwrap_err();
    assert!(matches!(late, StoreError::VoteClosed));
    assert_eq!(late.text(), "vote is closed");
    assert_eq!(store.get_vote_meta("v").unwrap().unwrap().status, "closed");
    assert!(store.get_vote_meta("w").unwrap().is_none());
}

#[test]
fn ballots_come_in_the_order_of_casting() {
    let mut store = open();
    store.create_vote("v", "lobby", "T", None, &names(&["a", "b"]), "ag", None, 3).unwrap();
    store.cast_vote_at("v", "x", "X", 1, "2024-01-01T00:00:02.000Z").unwrap();
    store.cast_vote_at("v", "y", "Y", 0, "2024-01-01T00:00:01.000Z").unwrap();
    store.cast_vote_at("v", "z", "Z", 1, "2024-01-01T00:00:03.000Z").unwrap();
    let ballots = store.get_vote_ballots("v").unwrap();
    assert_eq!(
        ballots,
        vec![
            ("y".to_string(), "Y".to_string(), 0),
            ("x".to_string(), "X".to_string(), 1),
            ("z".to_string(), "Z".to_string(), 1),
        ]
    );
}

#[test]
fn votes_are_listed_latest_first() {
    let mut store = open();
    for (id, time) in [("a", "1"), ("b", "2"), ("c", "2"), ("d", "0")] {
        store
            .create_vote_at(id, "lobby", "T", None, &names(&["x", "y"]), "ag", None, 0, time)
            .unwrap();
    }
    let ids: Vec<String> =
        store.list_votes("lobby", 3).unwrap().into_iter().map(|v| v.vote_id).collect();
    assert_eq!(ids, names(&["c", "b", "a"]));
    let row = VoteRow { status: "open".to_string(), ..store.votes[0].clone() };
    assert!(store.append_vote(row).is_err());
    store.votes[0].options = "not json".to_string();
    assert!(store.get_vote_meta("a").unwrap().unwrap().options.is_empty());
}

#[test]
fn api_keys_and_tiers() {
    let mut store = open();
    store.create_api_key("k", Some("label")).unwrap();
    assert!(store.validate_api_key("k").unwrap());
    assert!(!store.validate_api_key("l").unwrap());
    assert_eq!(store.get_key_tier("k").unwrap(), "free");
    let none = store.get_key_tier("l").unwrap_err();
    assert_eq!(none.text(), "database error: Query returned no rows");
    let dup = store.create_api_key("k", None).unwrap_err();
    assert_eq!(dup.text(), "database error: UNIQUE constraint failed: api_keys.api_key");
    let row: &KeyRow = &store.keys[0];
    assert_eq!(row.label.as_deref(), Some("label"));
}

#[test]
fn sessions_start_and_end() {
    let mut store = open();
    store.record_session_start("s", "ag", "A", &names(&["chat"])).unwrap();
    let row: SessionRow = store.sessions[0].clone();
    assert_eq!(row.capabilities, "[\"chat\"]");
    assert!(row.disconnected_at.is_none());
    store.record_session_end_at("s", "later").unwrap();
    assert_eq!(store.sessions[0].disconnected_at.as_deref(), Some("later"));
    store.record_session_end("s").unwrap();
    assert_ne!(store.sessions[0].disconnected_at.as_deref(), Some("later"));
    store.record_session_end("unknown").unwrap();
    let dup = store.record_session_start("s", "ag", "A", &names(&[])).unwrap_err();
    assert_eq!(dup.text(), "database error: UNIQUE constraint failed: agent_sessions.session_id");
}

fn subscribe(store: &mut Store, id: &str, owner: &str, room: &str) {
    store
        .create_subscription(id, room, owner, "http://x", "sec", &names(&[]), None, None, false, 5)
        .unwrap();
}

#[test]
fn subscriptions_are_kept() {
    let mut store = open();
    let kinds = names(&["verdict", "fyi"]);
    let sub = store
        .create_subscription_at(
            "s",
            "lobby",
            "k",
            "http://x",
            "sec",
            &kinds,
            Some("a"),
            Some("b"),
            true,
            9,
            at(1704067200),
        )
        .unwrap();
    assert_eq!((sub.since_seq, sub.last_delivered_seq, sub.failure_count), (9, 9, 0));
    assert_eq!(sub.status, "active");
    let (read, owner, secret) = store.get_subscription("s").unwrap().unwrap();
    assert_eq!(read.kinds, kinds);
    assert_eq!(read.created_at, at(1704067200));
    assert_eq!(read.only_from.as_deref(), Some("a"));
    assert_eq!(read.not_from.as_deref(), Some("b"));
    assert!(read.exclude_thinking);
    assert_eq!((owner.as_str(), secret.as_str()), ("k", "sec"));
    let row: &SubscriptionRow = &store.subscriptions[0];
    assert_eq!(row.kinds.as_deref(), Some("[\"verdict\",\"fyi\"]"));
    let dup = store
        .create_subscription("s", "r", "k", "u", "s", &kinds, None, None, false, 0)
        .unwrap_err();
    assert_eq!(
        dup.text(),
        "database error: UNIQUE constraint failed: subscriptions.subscription_id"
    );
    assert!(store.get_subscription("t").unwrap().is_none());
    subscribe(&mut store, "t", "k", "lobby");
    assert!(store.subscriptions[1].kinds.is_none());
    assert!(store.get_subscription("t").unwrap().unwrap().0.kinds.is_empty());
}

#[test]
fn subscriptions_are_listed_and_removed() {
    let mut store = open();
    subscribe(&mut store, "s1", "k", "lobby");
    subscribe(&mut store, "s2", "k", "r");
    subscribe(&mut store, "s3", "l", "lobby");
    store.subscriptions[0].created_at = "2024-01-01T00:00:00.000Z".to_string();
    store.subscriptions[1].created_at = "2024-01-02T00:00:00.000Z".to_string();
    let ids = |store: &Store, owner: &str, room: Option<&str>| -> Vec<String> {
        store
            .list_subscriptions(owner, room)
            .unwrap()
            .into_iter()
            .map(|s| s.subscription_id)
            .collect()
    };
    assert_eq!(ids(&store, "k", None), names(&["s2", "s1"]));
    assert_eq!(ids(&store, "k", Some("lobby")), names(&["s1"]));
    assert_eq!(store.list_active_subscriptions_for_room("lobby").unwrap().len(), 2);
    store.set_subscription_status("s1", "failed", Some(4)).unwrap();
    assert_eq!(store.list_active_subscriptions_for_room("lobby").unwrap().len(), 1);
    assert_eq!(store.subscriptions[0].failure_count, 4);
    store.set_subscription_status("s1", "active", None).unwrap();
    assert_eq!(store.subscriptions[0].failure_count, 4);
    store.advance_subscription_cursor("s1", 3).unwrap();
    assert_eq!(store.subscriptions[0].last_delivered_seq, 5);
    assert_eq!(store.subscriptions[0].failure_count, 4);
    store.advance_subscription_cursor("s1", 8).unwrap();
    assert_eq!(store.subscriptions[0].last_delivered_seq, 8);
    assert_eq!(store.subscriptions[0].failure_count, 0);
    assert!(store.enqueue_delivery("d", "s1", 1, "m", at(0)).unwrap());
    assert!(!store.delete_subscription("s1", "l").unwrap());
    assert!(store.delete_subscription("s1", "k").unwrap());
    assert!(store.deliveries.is_empty());
    assert_eq!(ids(&store, "k", None), names(&["s2"]));
}

#[test]
fn deliveries_queue_once_and_come_due() {
    let mut store = open();
    subscribe(&mut store, "s", "k", "lobby");
    assert_eq!(store.earliest_pending_attempt().unwrap(), None);
    assert!(store.enqueue_delivery("d1", "s", 1, "m1", at(1704067203)).unwrap());
    assert!(store.enqueue_delivery("d2", "s", 2, "m2", at(1704067201)).unwrap());
    assert!(store.enqueue_delivery("d3", "s", 3, "m3", at(1704067202)).unwrap());
    assert!(!store.enqueue_delivery("d4", "s", 1, "m1", at(0)).unwrap());
    assert!(!store.enqueue_delivery("d1", "s", 9, "m9", at(0)).unwrap());
    assert!(!store.enqueue_delivery("d5", "nobody", 1, "m1", at(0)).unwrap());
    let due = |store: &Store, secs: i64, limit: usize| -> Vec<String> {
        store
            .load_due_deliveries(at(secs), limit)
            .unwrap()
            .into_iter()
            .map(|d| d.delivery_id)
            .collect()
    };
    assert_eq!(due(&store, 1704067202, 9), names(&["d2", "d3"]));
    assert_eq!(due(&store, 1704067209, 2), names(&["d2", "d3"]));
    assert_eq!(due(&store, 1704067200, 9), names(&[]));
    assert_eq!(store.earliest_pending_attempt().unwrap(), Some(at(1704067201)));
    store.reschedule_delivery("d2", at(1704067300), 4, "boom").unwrap();
    let row: &DeliveryRow = &store.deliveries[1];
    assert_eq!((row.attempts, row.last_error.as_deref()), (4, Some("boom")));
    assert_eq!(row.next_attempt_at, "2024-01-01T00:01:40.000Z");
    assert_eq!(due(&store, 1704067209, 9), names(&["d3", "d1"]));
    store.delete_delivery("d3").unwrap();
    assert_eq!(due(&store, 1704067209, 9), names(&["d1"]));
    assert_eq!(store.due_deliveries("2024-01-01T00:00:03.000Z", 9).len(), 1);
    store.put_off_delivery("d1", "not a time", 1, "x");
    assert_eq!(store.due_deliveries("2024-01-01T00:00:03.000Z", 9).len(), 0);
    store.delete_delivery("d2").unwrap();
    assert_eq!(store.earliest_pending_attempt().unwrap(), None);
}

#[test]
fn what_was_written_is_read_back() {
    let mut store = open();
    let t = Timestamp { secs: 1704067200, nanos: 678_912_345 };
    let start = Timestamp { secs: 1704067200, nanos: 678_000_000 };
    let room = store.create_room("r", "r", Some("d"), Some("lobby"), Some("me")).unwrap();
    let read = store.get_room("r").unwrap().unwrap();
    assert_eq!(format!("{:?}", room), format!("{:?}", read));
    let sent = store
        .insert_message("m", "r", "ag", "A", "text", None, "{\"kind\":\"fyi\",\"n\":[1,2.5]}")
        .unwrap();
    let read = store.get_message("m").unwrap().unwrap();
    assert_eq!(format!("{:?}", sent), format!("{:?}", read));
    for (i, metadata) in [
        "{\"b\": [1, -2, 18446744073709551615], \"a\": \"1.5e3 \\\\ \\\"\", \"b\": true}",
        " null ",
        "\"\\ud83d\\ude00 \\u0001 e1\"",
        "[[], {}, \"\", 0]",
        &format!("{}{}", "[".repeat(127), "]".repeat(127)),
    ]
    .iter()
    .enumerate()
    {
        let id = format!("whole{i}");
        let metadata = normalise(metadata);
        let sent = store.insert_message(&id, "r", "ag", "A", "text", None, &metadata).unwrap();
        let read = store.get_message(&id).unwrap().unwrap();
        assert_eq!(format!("{:?}", sent), format!("{:?}", read));
    }
    let options = names(&["", "[\"", "späť"]);
    store.create_vote("v", "r", "T", None, &options, "ag", Some(t), 2).unwrap();
    let vote = store.get_vote_meta("v").unwrap().unwrap();
    assert_eq!(vote.options, options);
    assert_eq!(vote.closes_at, Some(start));
    let sub = store
        .create_subscription_at("s", "r", "k", "u", "x", &options, None, None, false, 7, t)
        .unwrap();
    assert_eq!(sub.created_at, start);
    let (read, owner, secret) = store.get_subscription("s").unwrap().unwrap();
    assert_eq!(format!("{:?}", sub), format!("{:?}", read));
    assert_eq!((owner.as_str(), secret.as_str()), ("k", "x"));
    assert_eq!(read.kinds, options);
    let sub = store
        .create_subscription("s2", "r", "k", "u", "x", &vec![], None, None, false, 7)
        .unwrap();
    let (read, _, _) = store.get_subscription("s2").unwrap().unwrap();
    assert_eq!(format!("{:?}", sub), format!("{:?}", read));
    assert!(store.get_subscription("none").unwrap().is_none());
    assert!(store.enqueue_delivery("d", "s", 1, "m", t).unwrap());
    assert_eq!(store.earliest_pending_attempt().unwrap(), Some(start));
    let just_before = Timestamp { secs: 1704067200, nanos: 677_999_999 };
    assert!(store.load_due_deliveries(just_before, 9).unwrap().is_empty());
    assert_eq!(store.load_due_deliveries(start, 9).unwrap().len(), 1);
    let sooner = Timestamp { secs: 1704067199, nanos: 5_000_000 };
    assert!(store.enqueue_delivery("d2", "s", 2, "m", sooner).unwrap());
    assert_eq!(store.earliest_pending_attempt().unwrap(), Some(sooner));
    assert_eq!(store.load_due_deliveries(sooner, 1).unwrap()[0].delivery_id, "d2");
    let earlier = Timestamp { secs: 1704067199, nanos: 4_000_000 };
    assert!(store.load_due_deliveries(earlier, 9).unwrap().is_empty());
    let reply = store.insert_message("re", "lobby", "ag", "A", "y", Some("m"), "{}").unwrap();
    assert_eq!(reply.reply_to_message.as_deref(), Some("m"));
    assert!(store.delete_room("r").unwrap());
    let left = store.get_message("re").unwrap().unwrap();
    assert_eq!((left.content.as_str(), left.reply_to_message), ("y", None));
    assert!(store.get_message("m").unwrap().is_none());
}

#[test]
fn columns_are_added_where_they_are_missing() {
    assert_eq!(
        add_column_sql("rooms", "owner_key", "TEXT"),
        "ALTER TABLE rooms ADD COLUMN owner_key TEXT"
    );
    let columns = names(&["message_id", "SEQ"]);
    assert_eq!(missing_column_sql(&columns, "messages", "seq", "INTEGER"), None);
    assert_eq!(
        missing_column_sql(&columns, "messages", "room_id", "TEXT").as_deref(),
        Some("ALTER TABLE messages ADD COLUMN room_id TEXT")
    );
}
