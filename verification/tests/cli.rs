use clawchat::cli::events::{
    clock_part, decrypt_field, event_text, follow_event, peer_line, print_event, read_fields, sealed_content,
    shows_event, thought_line, EventKind, Followed,
};
use clawchat::cli::export::{
    export_cap, format_message, render_export, render_history, ExportFormat,
};
use clawchat::cli::paths::{
    choose_route, data_dir_in, default_data_dir, default_key_path, default_socket_path, join_path,
    load_key, resolve_room_secret, socket_path_in, Route,
};
use clawchat::cli::rooms::{resolve_by_id, resolve_by_name, ById, IdLookup};
use clawchat::cli::shell::{
    after_join, after_leave, greeting, leave_search_failed, print_shell_prompt, react, read_line,
    ShellAction, SHELL_HELP,
};
use clawchat::cli::tables::{
    last_sightings, render_agents, render_ballot_reply, render_created, render_presence,
    render_rooms, render_shell_agents, render_status, render_subscriptions, render_vote_created,
    render_vote_status, render_votes, AgentStatus,
};
use clawchat::cli::wait::{
    awakens, catch_up, effective_timeout, end_with, exit_code, heartbeat_text, idle_text, kind_metadata, passes,
    read_since, read_start, sent_kind, timeout_text, wait_step, wakes, Filters, Since, WaitEnd, WaitStep,
};
use clawchat::models::{ChatMessage, Room, VoteInfo, VoteStatus, VoteTally};
use clawchat::store::subscriptions::Subscription;
use clawchat::time::Timestamp;

const T: Timestamp = Timestamp { secs: 1704164645, nanos: 0 };

fn message(seq: i64, name: &str, content: &str, metadata: &str) -> ChatMessage {
    ChatMessage {
        message_id: format!("m{seq}"),
        room_id: "r".to_string(),
        agent_id: "id".to_string(),
        agent_name: name.to_string(),
        content: content.to_string(),
        reply_to_message: None,
        metadata: metadata.to_string(),
        timestamp: T,
        seq,
    }
}

fn talk() -> Vec<ChatMessage> {
    vec![
        message(1, "sys", "A joined", "{\"type\":\"system\"}"),
        message(2, "A", "hello", "{}"),
        message(3, "B", "hmm\n", "{\"type\":\"thinking\",\"kind\":\"fyi\"}"),
        message(4, "B", "done", "{\"kind\":\"verdict\"}"),
    ]
}

fn room(id: &str, name: &str) -> Room {
    Room {
        room_id: id.to_string(),
        name: name.to_string(),
        description: None,
        parent_id: None,
        ephemeral: false,
        created_at: T,
        created_by: None,
        visibility: "private".to_string(),
        owner_key: None,
        last_activity: None,
        member_count: None,
        encrypted: false,
    }
}

#[test]
fn messages_are_written_on_one_line() {
    let all = talk();
    assert_eq!(format_message(&all[0]), "[03:04:05] #1 * sys A joined *");
    assert_eq!(format_message(&all[1]), "[03:04:05] #2 A: hello");
    assert_eq!(
        render_history(&all[1..3].to_vec(), None),
        ("[03:04:05] #2 A: hello\n[03:04:05] #3 B: hmm\n".to_string(), 2)
    );
    assert_eq!(
        render_history(&all, Some("verdict")),
        ("[03:04:05] #4 B: done".to_string(), 1)
    );
    assert_eq!(render_history(&all, Some("none")), (String::new(), 0));
}

#[test]
fn exports_in_three_forms() {
    let all = talk();
    let lines: Vec<String> = (1..5).map(|i| format!("{{\"seq\":{i}}}")).collect();
    assert_eq!(
        render_export(&all, &lines, ExportFormat::Md, false, "dev"),
        "# Room: dev\n\n_2 entries from seq 2 to 4 (2024-01-02 03:04:05 UTC → 2024-01-02 03:04:05 UTC)_\n\n### A · seq 2 · 03:04:05\n\nhello\n\n### B · seq 4 · 03:04:05\n\ndone\n\n"
    );
    assert_eq!(
        render_export(&all[2..3].to_vec(), &lines, ExportFormat::Md, true, "dev"),
        "# Room: dev\n\n_1 entries from seq 3 to 3 (2024-01-02 03:04:05 UTC → 2024-01-02 03:04:05 UTC)_\n\n### 💭 B · seq 3 · 03:04:05\n\nhmm\n\n"
    );
    assert_eq!(render_export(&vec![], &vec![], ExportFormat::Md, true, "dev"), "# Room: dev\n\n");
    assert_eq!(
        render_export(&all, &lines, ExportFormat::Json, false, "dev"),
        "{\"seq\":2}\n{\"seq\":4}\n"
    );
    assert_eq!(
        render_export(&all, &lines, ExportFormat::Txt, true, "dev"),
        "[03:04:05] #2 A: hello\n\n[03:04:05] #3 (thinking) B: hmm\n\n\n[03:04:05] #4 B: done\n\n"
    );
    assert_eq!(export_cap(None), 1000);
    assert_eq!(export_cap(Some(7)), 7);
}

#[test]
fn events_are_shown() {
    let show = |kind: EventKind, payload: &str| print_event(&kind, payload, None);
    let p = "{\"room_id\":\"r\",\"agent_name\":\"A\",\"content\":\"hi\",\"agent\":{\"name\":\"N\"},\"agent_id\":\"i\",\"name\":\"dev\",\"ephemeral\":true,\"title\":\"T\",\"vote_id\":\"v\",\"leader_name\":\"L\",\"reason\":\"why\",\"status\":\"busy\",\"progress\":40,\"status_detail\":\"d\",\"current_turn_holder\":\"H\",\"tally\":[{\"option_text\":\"x\",\"count\":2},{}]}";
    assert_eq!(show(EventKind::MessageReceived, p), "[message] #r A: hi\n");
    assert_eq!(print_event(&EventKind::MessageReceived, p, Some("plain")), "[message] #r A: plain\n");
    assert_eq!(show(EventKind::MessageReceived, "{}"), "[message] #? ?: \n");
    assert_eq!(
        show(EventKind::Mention, "{\"room_id\":\"r\",\"message\":\"m\"}"),
        "[mention] from #r: Some(String(\"m\"))\n"
    );
    assert_eq!(show(EventKind::Mention, "{}"), "[mention] from #?: None\n");
    assert_eq!(show(EventKind::AgentJoined, p), "[join] N joined #r\n");
    assert_eq!(show(EventKind::AgentLeft, p), "[leave] i left #r\n");
    assert_eq!(show(EventKind::RoomCreated, p), "[room+] created #dev (ephemeral)\n");
    assert_eq!(show(EventKind::RoomCreated, "{\"name\":\"q\"}"), "[room+] created #q\n");
    assert_eq!(show(EventKind::RoomDestroyed, p), "[room-] destroyed #r\n");
    assert_eq!(show(EventKind::VoteCreated, p), "[vote] New vote in #r: \"T\" (v)\n");
    assert_eq!(
        show(EventKind::VoteResult, p),
        "[vote-result] #r \"T\":\n  x : 2 votes\n  ? : 0 votes\n"
    );
    assert_eq!(show(EventKind::VoteResult, "{\"tally\":{}}"), "[vote-result] #? \"?\":\n");
    assert_eq!(
        show(EventKind::ElectionStarted, p),
        "[election] Election started in #r (2s opt-out window)\n"
    );
    assert_eq!(show(EventKind::LeaderElected, p), "[leader] L elected leader of #r\n");
    assert_eq!(show(EventKind::LeaderCleared, p), "[leader-] Leadership cleared in #r: why\n");
    assert_eq!(show(EventKind::DecisionMade, p), "[decision] #r L decides: hi\n");
    assert_eq!(show(EventKind::PresenceUpdate, p), "[presence] A is now busy (40%): d\n");
    assert_eq!(show(EventKind::PresenceUpdate, "{}"), "[presence] ? is now ?\n");
    assert_eq!(show(EventKind::Thinking, p), "[thinking] #r A: hi\n");
    assert_eq!(show(EventKind::TurnChanged, p), "[turn] #r -> H (why)\n");
    assert_eq!(show(EventKind::TurnChanged, "{}"), "[turn] #? -> (none) (?)\n");
    assert_eq!(
        show(EventKind::Other("Pong".to_string()), "{\"a\":1}"),
        "[Pong] Object {\"a\": Number(1)}\n"
    );
    let fields = read_fields(p);
    assert_eq!(event_text(&EventKind::Thinking, &fields, Some("x")), "[thinking] #r A: x\n");
    assert_eq!(
        sealed_content(&EventKind::DecisionMade, &fields),
        Some(("r".to_string(), "hi".to_string()))
    );
    assert_eq!(sealed_content(&EventKind::AgentLeft, &fields), None);
    assert_eq!(decrypt_field(true, true, Some("plain"), "enc"), "plain");
    assert_eq!(decrypt_field(true, true, None, "enc"), "enc");
    assert_eq!(decrypt_field(true, false, Some("plain"), "enc"), "enc");
    assert_eq!(decrypt_field(false, true, Some("plain"), "enc"), "enc");
}

#[test]
fn events_while_waiting_and_following() {
    let p = read_fields("{\"room_id\":\"r\",\"agent_name\":\"A\",\"content\":\"hi\",\"agent\":{\"name\":\"N\"},\"agent_id\":\"i\",\"timestamp\":\"2024-01-02T03:04:05.678Z\"}");
    assert_eq!(
        peer_line(&EventKind::AgentJoined, &p, "r").as_deref(),
        Some("wait: peer N joined")
    );
    assert_eq!(peer_line(&EventKind::AgentLeft, &p, "r").as_deref(), Some("wait: peer i left"));
    assert_eq!(peer_line(&EventKind::AgentLeft, &p, "q"), None);
    assert_eq!(peer_line(&EventKind::Thinking, &p, "r"), None);
    assert_eq!(
        thought_line(&EventKind::Thinking, &p, "r", "me", None).as_deref(),
        Some("wait: thinking A: hi")
    );
    assert_eq!(thought_line(&EventKind::Thinking, &p, "r", "A", None), None);
    assert_eq!(thought_line(&EventKind::Thinking, &p, "q", "me", None), None);
    assert_eq!(thought_line(&EventKind::AgentLeft, &p, "r", "me", None), None);
    assert!(shows_event(&p, Some("r")));
    assert!(!shows_event(&p, Some("q")));
    assert!(shows_event(&p, None));
    assert!(shows_event(&read_fields("{}"), Some("q")));
    assert!(matches!(
        follow_event(&EventKind::MessageReceived, &p, "r", None),
        Followed::Line(line) if line == "[03:04:05] A: hi"
    ));
    assert!(matches!(follow_event(&EventKind::Thinking, &p, "r", None), Followed::Nothing));
    assert!(matches!(follow_event(&EventKind::MessageReceived, &p, "q", None), Followed::Nothing));
    let untimed = read_fields("{\"room_id\":\"r\"}");
    assert!(matches!(
        follow_event(&EventKind::MessageReceived, &untimed, "r", None),
        Followed::Untimed
    ));
    for at in ["", "0123456789", "01234567890", "0123456789012", "2024-01-02T03:04:05.678Z", "ää0123456789012345", "0123456789ä23456789"] {
        let cut = at.get(11..19.min(at.len())).map(String::from);
        assert_eq!(clock_part(at), cut, "{:?}", at);
    }
}

#[test]
fn waits_start_and_end() {
    assert_eq!(effective_timeout(0), 86400);
    assert_eq!(effective_timeout(5), 5);
    assert_eq!(read_since(None), Ok(Since::Anywhere));
    assert_eq!(read_since(Some("TIP")), Ok(Since::Tip));
    assert_eq!(read_since(Some("auto")), Ok(Since::Tip));
    assert_eq!(read_since(Some("-3")), Ok(Since::After(-3)));
    assert_eq!(
        read_since(Some("x")),
        Err("--since-seq must be an integer, 'tip', or 'auto': invalid digit found in string".to_string())
    );
    assert_eq!(read_start("Tip"), Ok(None));
    assert_eq!(read_start("12"), Ok(Some(12)));
    assert_eq!(
        read_start(""),
        Err("--since-seq must be an integer, 'tip', or 'auto': cannot parse integer from empty string".to_string())
    );
    assert_eq!(sent_kind(true, None).as_deref(), Some("conversation_end"));
    assert_eq!(sent_kind(false, Some("fyi")).as_deref(), Some("fyi"));
    assert_eq!(sent_kind(false, None), None);
    assert_eq!(kind_metadata("a\"b"), "{\"kind\":\"a\\\"b\"}");
    assert_eq!(exit_code(WaitEnd::Message), 0);
    assert_eq!(exit_code(WaitEnd::TimedOut), 1);
    assert_eq!(exit_code(WaitEnd::Idle), 2);
    assert_eq!(exit_code(WaitEnd::LastMessage), 3);
    assert_eq!(end_with(&message(1, "A", "x", "{\"kind\":\"conversation_end\"}")), WaitEnd::LastMessage);
    assert_eq!(end_with(&message(1, "A", "x", "{}")), WaitEnd::Message);
    assert_eq!(
        idle_text(9, "r", Some(4)),
        "No message for 9s — the turn may be stalled. Resume with: wait r --loop --since-seq 4"
    );
    assert!(idle_text(9, "r", None).ends_with(" tip"));
    assert!(idle_text(9, "r", Some(i64::MIN)).ends_with(" tip"));
    assert_eq!(timeout_text(60), "Timed out after 60s waiting for a message");
    assert_eq!(heartbeat_text(30, "r", Some(2), true), "wait: alive 30s room=r since_seq=2 mode=loop");
    assert_eq!(heartbeat_text(30, "r", None, false), "wait: alive 30s room=r since_seq=- mode=once");
}

#[test]
fn a_long_wait_ends_with_the_first_wanted_message() {
    let filters = Filters {
        only_from: None,
        not_from: Some("A".to_string()),
        only_kind: Some("verdict".to_string()),
    };
    let mut bookmark = None;
    let mut found = None;
    for m in talk() {
        match wait_step(&filters, true, Some(m)) {
            WaitStep::Found(m) => {
                found = Some(m.seq);
                break;
            }
            WaitStep::Again(seq) => bookmark = Some(seq),
            WaitStep::Nothing => break,
        }
    }
    assert_eq!(found, Some(4));
    assert_eq!(bookmark, Some(3));
    assert!(matches!(wait_step(&filters, false, Some(talk().remove(0))), WaitStep::Nothing));
    assert!(matches!(wait_step(&filters, true, None), WaitStep::Nothing));
    let only = Filters { only_from: Some("B".to_string()), not_from: None, only_kind: None };
    assert!(passes(&only, &talk()[3]));
    assert!(!passes(&only, &talk()[1]));
}

#[test]
fn only_chat_of_others_wakes_a_wait() {
    let all = talk();
    let woken: Vec<bool> = all.iter().map(|m| wakes("A", m)).collect();
    assert_eq!(woken, vec![false, false, false, true]);
    assert_eq!(catch_up("A", &all).map(|m| m.seq), Some(4));
    assert_eq!(catch_up("me", &all).map(|m| m.seq), Some(2));
    assert!(catch_up("A", &all[..3].to_vec()).is_none());
    assert!(awakens("me", "A", Some("other")));
    assert!(!awakens("me", "A", Some("thinking")));
    assert!(!awakens("me", "me", None));
}

#[test]
fn paths_keys_and_routes() {
    let bytes = |text: &str| text.as_bytes().to_vec();
    assert_eq!(join_path(&bytes("/home/x"), ".clawchat"), bytes("/home/x/.clawchat"));
    assert_eq!(join_path(&bytes("/"), "a"), bytes("/a"));
    assert_eq!(join_path(&bytes(""), "a"), bytes("a"));
    assert_eq!(data_dir_in(Some(bytes("/home/x"))), bytes("/home/x/.clawchat"));
    assert_eq!(data_dir_in(Some(vec![47, 255])), [&[47, 255][..], b"/.clawchat"].concat());
    assert_eq!(data_dir_in(None), bytes(".clawchat"));
    assert_eq!(socket_path_in(&bytes("/h/\u{e4}")), "/h/\u{e4}/clawchat.sock");
    assert_eq!(socket_path_in(&vec![47, 255]), "/\u{fffd}/clawchat.sock");
    assert!(default_data_dir().ends_with(b".clawchat"));
    assert_eq!(default_key_path(), [&default_data_dir()[..], b"/auth.key"].concat());
    assert_eq!(default_socket_path(), socket_path_in(&default_data_dir()));
    assert_eq!(load_key(Some("k"), Some("f")), Ok("k".to_string()));
    assert_eq!(load_key(None, Some(" f\n")), Ok("f".to_string()));
    assert_eq!(
        load_key(None, None),
        Err("No API key provided. Use --key or ensure ~/.clawchat/auth.key exists.".to_string())
    );
    assert_eq!(resolve_room_secret(Some("a"), Some("b")).as_deref(), Some("a"));
    assert_eq!(resolve_room_secret(None, Some("b")).as_deref(), Some("b"));
    assert_eq!(resolve_room_secret(Some(""), Some("b")), None);
    assert_eq!(resolve_room_secret(None, None), None);
    assert!(matches!(choose_route(Some("u"), Some("t"), bytes("s")), Route::WebSocket(u) if u == "u"));
    assert!(matches!(choose_route(None, Some("t"), bytes("s")), Route::Tcp(t) if t == "t"));
    assert!(matches!(choose_route(None, None, bytes("s")), Route::Unix(s) if s == bytes("s")));
}

#[test]
fn rooms_are_found_by_id_or_name() {
    assert!(matches!(resolve_by_id("r", &IdLookup::Known), ById::Room(id) if id == "r"));
    assert!(matches!(resolve_by_id("r", &IdLookup::Unknown), ById::TryName));
    assert!(matches!(resolve_by_id("r", &IdLookup::Failed("e".to_string())), ById::Failed(e) if e == "e"));
    let rooms = vec![room("1", "a"), room("2", "b"), room("3", "b")];
    assert_eq!(resolve_by_name("a", &rooms), Ok("1".to_string()));
    assert_eq!(
        resolve_by_name("c", &rooms),
        Err("Room 'c' not found (expected ID or exact name)".to_string())
    );
    assert_eq!(
        resolve_by_name("b", &rooms),
        Err("Room name 'b' is ambiguous; use the room ID".to_string())
    );
}

#[test]
fn the_shell_reads_and_reacts() {
    let print = |active: Option<&str>, line: &str| -> String {
        match react(active, read_line(line)) {
            ShellAction::Print(text) => text,
            other => panic!("no text: {:?}", other),
        }
    };
    assert!(matches!(react(None, read_line("   ")), ShellAction::Nothing));
    assert_eq!(print(None, "/help"), SHELL_HELP);
    assert!(SHELL_HELP.ends_with("Shortcut for /send <text>"));
    assert_eq!(print(None, "/join"), "Usage: /join <room-id-or-name>");
    assert!(matches!(react(None, read_line(" /join  my room ")), ShellAction::Join(r) if r == "my room"));
    assert_eq!(print(None, "/leave"), "No active room to leave.");
    assert!(matches!(react(Some("a"), read_line("/leave")), ShellAction::LeaveActive(r) if r == "a"));
    assert!(matches!(react(Some("a"), read_line("/leave b")), ShellAction::LeaveNamed(r) if r == "b"));
    assert_eq!(print(Some("a"), "/room"), "Active room: a");
    assert_eq!(print(None, "/room"), "No active room. Use /join <room> first.");
    assert!(matches!(react(None, read_line("/rooms")), ShellAction::ListRooms));
    assert!(matches!(react(Some("a"), read_line("/agents")), ShellAction::ListAgents(Some(r)) if r == "a"));
    assert!(matches!(react(Some("a"), read_line("/history")), ShellAction::History { limit: 20, .. }));
    assert!(matches!(react(Some("a"), read_line("/history 5")), ShellAction::History { limit: 5, .. }));
    assert_eq!(print(Some("a"), "/history x"), "Usage: /history [limit]");
    assert_eq!(print(None, "/history 5"), "No active room. Use /join <room> first.");
    assert_eq!(print(Some("a"), "/send"), "Usage: /send <message>");
    assert!(matches!(react(Some("a"), read_line("/send hi  you ")), ShellAction::Send { text, .. } if text == "hi  you"));
    assert!(matches!(react(Some("a"), read_line("hello")), ShellAction::Send { room_id, .. } if room_id == "a"));
    assert_eq!(print(None, "hello"), "No active room. Use /join <room> first.");
    assert!(matches!(react(None, read_line("/quit")), ShellAction::Quit));
    assert!(matches!(react(None, read_line("/exit")), ShellAction::Quit));
    assert_eq!(print(None, "/dance now"), "Unknown command: /dance (try /help)");
    assert_eq!(print_shell_prompt(None), "clawchat[no-room]> ");
    assert_eq!(print_shell_prompt(Some("a")), "clawchat[a]> ");
    assert_eq!(
        after_join(None, Ok("a".to_string())),
        ("Joined room: a".to_string(), Some("a".to_string()))
    );
    assert_eq!(
        after_join(Some("b"), Err("no".to_string())),
        ("Join failed: no".to_string(), Some("b".to_string()))
    );
    assert_eq!(after_leave(Some("a"), "a", None), ("Left room: a".to_string(), None));
    assert_eq!(
        after_leave(Some("b"), "a", None),
        ("Left room: a".to_string(), Some("b".to_string()))
    );
    assert_eq!(
        after_leave(Some("a"), "a", Some("no")),
        ("Leave failed: no".to_string(), Some("a".to_string()))
    );
    assert_eq!(leave_search_failed("x"), "Leave failed: x\nNo active room to leave.");
    assert_eq!(greeting("A", "i"), "Connected as 'A' (agent_id: i)");
}

#[test]
fn tables_of_rooms_and_agents() {
    assert_eq!(render_rooms(&vec![], true), "No rooms found.\n");
    let mut r = room("1", "a");
    r.description = Some("about".to_string());
    r.member_count = Some(3);
    r.last_activity = Some(T);
    let long = format!(
        "{:<38} {:<20} {:<10} {:<8} {:<20} DESCRIPTION\n{}\n{:<38} {:<20} {:<10} {:<8} {:<20} {}\n",
        "ID", "NAME", "TYPE", "MEMBERS", "LAST ACTIVITY", "-".repeat(130), "1", "a", "permanent", 3, "03:04:05", "about"
    );
    assert_eq!(render_rooms(&vec![r.clone()], true), long);
    r.ephemeral = true;
    r.name = "a name of more than twenty characters".to_string();
    let short = format!(
        "{:<38} {:<20} {:<10} DESCRIPTION\n{}\n{:<38} {:<20} {:<10} {}\n",
        "ID", "NAME", "TYPE", "-".repeat(80), "1", r.name, "ephemeral", "about"
    );
    assert_eq!(render_rooms(&vec![r.clone()], false), short);
    let agents = vec![AgentStatus {
        agent_id: "i".to_string(),
        name: "A".to_string(),
        status: Some("busy".to_string()),
        progress: Some(40),
        last_active: Some(T),
        status_detail: Some("d".to_string()),
    }];
    assert_eq!(render_agents(&vec![], None), "No agents connected; no recent activity in room.\n");
    let plain = format!(
        "{:<38} {:<16} {:<10} {:<8} {:<10} {}\n{}\n{:<38} {:<16} {:<10} {:<8} {:<10} {}\n",
        "AGENT ID", "NAME", "STATUS", "PROG", "ACTIVE", "DETAIL", "-".repeat(110), "i", "A", "busy", "40%", "03:04:05", "d"
    );
    assert_eq!(render_agents(&agents, None), plain);
    let seen = last_sightings(&talk());
    let order: Vec<(&str, i64)> = seen.iter().map(|s| (s.name.as_str(), s.seq)).collect();
    assert_eq!(order, vec![("B", 4), ("A", 2), ("sys", 1)]);
    let lively = format!(
        "{:<10} {:<38} {:<16} {:<10} {:<8} {:<10} {:<10} {}\n{}\n{:<10} {:<38} {:<16} {:<10} {:<8} {:<10} {:<10} {}\n{:<10} {:<38} {:<16} {:<10} {:<8} {:<10} {:<10} {}\n{:<10} {:<38} {:<16} {:<10} {:<8} {:<10} {:<10} {}\n",
        "STATE", "AGENT ID", "NAME", "STATUS", "PROG", "ACTIVE", "LAST_SEQ", "DETAIL", "-".repeat(130),
        "LIVE", "i", "A", "busy", "40%", "03:04:05", "#2", "d",
        "RECENT", "-", "B", "-", "", "03:04:05", "#4", "(last seen via history)",
        "RECENT", "-", "sys", "-", "", "03:04:05", "#1", "(last seen via history)"
    );
    assert_eq!(render_agents(&agents, Some(&seen)), lively);
    assert_eq!(render_shell_agents(&vec![]), "No agents connected.\n");
    let in_shell = format!(
        "{:<38} {:<16} {:<10} {:<10} {}\n{}\n{:<38} {:<16} {:<10} {:<10} {}\n",
        "AGENT ID", "NAME", "STATUS", "PROGRESS", "DETAIL", "-".repeat(100), "i", "A", "busy", "40%", "d"
    );
    assert_eq!(render_shell_agents(&agents), in_shell);
    assert_eq!(
        render_status(&agents, 2),
        "ClawChat Server Status\n  Connected agents: 1\n  Active rooms: 2\n\nAgents:\n  - A (i)\n"
    );
    assert_eq!(
        render_status(&vec![], 0),
        "ClawChat Server Status\n  Connected agents: 0\n  Active rooms: 0\n\n"
    );
    assert_eq!(render_presence("busy", Some(7), Some("x")), "Presence set to: busy (7%): x");
    assert_eq!(render_presence("idle", None, None), "Presence set to: idle");
}

#[test]
fn notices_of_rooms_subscriptions_and_votes() {
    let mut r = room("1", "a");
    assert_eq!(
        render_created(&r, false),
        "Created room: a (1)\n  Visibility: private (only your key)\n"
    );
    r.ephemeral = true;
    r.encrypted = true;
    r.visibility = "public".to_string();
    assert_eq!(
        render_created(&r, false),
        "Created room: a (1)\n  Type: ephemeral (auto-deleted when empty)\n  Visibility: public (any key can find & join)\n  End-to-end encrypted: members need a shared room key\n  Note: no room key set — pass --room-key or set $CLAWCHAT_ROOM_KEY to send/read here\n"
    );
    assert!(!render_created(&r, true).contains("Note"));
    assert_eq!(render_subscriptions(&vec![]), "No subscriptions.\n");
    let sub = Subscription {
        subscription_id: "s".to_string(),
        room_id: "r".to_string(),
        webhook_url: "http://x".to_string(),
        kinds: vec![],
        only_from: None,
        not_from: None,
        exclude_thinking: false,
        since_seq: 0,
        last_delivered_seq: 12,
        status: "active".to_string(),
        failure_count: 1,
        created_at: T,
    };
    let table = format!(
        "{:<38} {:<38} {:<10} {:<10} {:<12} URL\n{}\n{:<38} {:<38} {:<10} {:<10} #{:<11} {}\n",
        "ID", "ROOM", "STATUS", "FAILS", "LAST_DELIV", "-".repeat(140), "s", "r", "active", 1, 12, "http://x"
    );
    assert_eq!(render_subscriptions(&vec![sub]), table);
    let mut vote = VoteInfo {
        vote_id: "v".to_string(),
        room_id: "r".to_string(),
        title: "T".to_string(),
        description: None,
        options: vec!["x".to_string(), "y".to_string()],
        created_by: "a".to_string(),
        created_at: T,
        closes_at: None,
        status: VoteStatus::Open,
        votes_cast: 1,
        eligible_voters: 3,
    };
    assert_eq!(
        render_vote_created(&vote),
        "Vote created: T (v)\n  Room: r\n  Options:\n    [0] x\n    [1] y\n  Closes when all 3 members vote\n"
    );
    assert_eq!(
        render_vote_status(&vote, None),
        "Vote: T (v)\n  Status: Open\n  Votes cast: 1/3\n  Options:\n    [0] x\n    [1] y\n"
    );
    vote.closes_at = Some(T);
    vote.status = VoteStatus::Closed;
    assert!(render_vote_created(&vote).ends_with("  Closes at: 03:04:05\n"));
    let tally = vec![VoteTally { option_index: 0, option_text: "x".to_string(), count: 2 }];
    assert_eq!(
        render_vote_status(&vote, Some(&tally)),
        "Vote: T (v)\n  Status: Closed\n  Votes cast: 1/3\n  Closes at: 2024-01-02 03:04:05 UTC\n  Options:\n    [0] x\n    [1] y\n  Tally:\n    [0] x: 2\n"
    );
    assert_eq!(render_votes("r", &vec![]), "No votes found for room r\n");
    assert_eq!(render_votes("r", &vec![vote]), "Votes for room r:\n- T (v) Closed 1/3\n");
    assert_eq!(
        render_ballot_reply("{\"votes_cast\":1,\"eligible_voters\":3}"),
        "Ballot cast (1/3 votes in)"
    );
    assert_eq!(render_ballot_reply("{}"), "Ballot cast (0/0 votes in)");
}
