use clawchat::connection::{advance, step, AgentConnection, Input, LeftRoom, Line, Output, Phase};
use clawchat::ephemeral::EphemeralRoom;
use clawchat::handler::dispatch::{
    handle_frame, handle_frame_with, is_in_range, room_of, try_handle_frame, vote_of,
};
use clawchat::handler::votes::{
    after_counting_ballot, after_declining, after_opening_vote, after_starting_election,
};
use clawchat::handler::after_leaving;
use clawchat::models::{
    default_limit, AgentInfo, CastVotePayload, CreateRoomPayload, CreateVotePayload,
    DecisionPayload, DeclineElectionPayload, ElectLeaderPayload, GetHistoryPayload,
    GetVoteStatusPayload, JoinRoomPayload, LeaveRoomPayload, ListAgentsPayload, ListRoomsPayload,
    RegisterPayload, RoomInfoPayload, SendMessagePayload, VoteStatus,
};
use clawchat::protocol::{
    Action, ActiveVote, Command, ErrorCode, Event, Facts, NewVote, Outcome, Question, Reply,
    Verdict,
};
use clawchat::server::{ClawdChatServer, Listener, ServerConfig};
use clawchat::store::Store;
use clawchat::time::Timestamp;
use dashmap::DashMap;

const NOW: Timestamp = Timestamp { secs: 1704067200, nanos: 0 };

struct World {
    store: Store,
    rooms: DashMap<String, EphemeralRoom>,
    facts: Facts,
}

fn agent(id: &str, name: &str) -> AgentInfo {
    AgentInfo {
        agent_id: id.to_string(),
        name: name.to_string(),
        capabilities: vec![],
        connected_at: None,
    }
}

fn world() -> World {
    World {
        store: Store::open_in_memory().unwrap(),
        rooms: DashMap::new(),
        facts: Facts {
            in_room: true,
            leader: true,
            members: vec!["ag".to_string(), "gone".to_string(), "bo".to_string()],
            agents: vec![agent("bo", "Bo"), agent("ag", "A")],
            vote: None,
        },
    }
}

impl World {
    fn run(&mut self, command: Command) -> Outcome {
        self.run_with(command, "new-id")
    }

    fn run_with(&mut self, command: Command, id: &str) -> Outcome {
        let out = handle_frame_with(
            Some("req"),
            &command,
            "ag",
            "A",
            &self.facts,
            &mut self.store,
            &mut self.rooms,
            id,
            NOW,
        );
        assert_eq!(out.reply_to.as_deref(), Some("req"));
        out
    }
}

fn error_of(out: &Outcome) -> (ErrorCode, String) {
    assert!(out.actions.is_empty());
    match &out.verdict {
        Verdict::Answer { reply: Reply::Error { code, message } } => (*code, message.clone()),
        other => panic!("no error: {:?}", other),
    }
}

fn room_payload(name: &str, parent: Option<&str>, ephemeral: bool) -> CreateRoomPayload {
    CreateRoomPayload {
        name: name.to_string(),
        description: None,
        parent_id: parent.map(String::from),
        ephemeral,
    }
}

fn message_payload(room: &str) -> SendMessagePayload {
    SendMessagePayload {
        room_id: room.to_string(),
        content: "hi".to_string(),
        reply_to: None,
        metadata: "{\"n\":5.699993338763803e-16}".to_string(),
        mentions: vec!["bo".to_string()],
    }
}

#[test]
fn pings_and_nonsense_are_answered() {
    let mut w = world();
    let out = w.run(Command::Ping);
    assert!(matches!(out.verdict, Verdict::Answer { reply: Reply::Pong }));
    let bad = w.run(Command::Malformed("missing field".to_string()));
    assert_eq!(error_of(&bad), (ErrorCode::InvalidPayload, "missing field".to_string()));
    let unknown = w.run(Command::Unknown);
    assert_eq!(error_of(&unknown), (ErrorCode::InvalidPayload, "Unknown command".to_string()));
    assert_eq!(default_limit(), 50);
}

#[test]
fn permanent_rooms_are_created_and_announced() {
    let mut w = world();
    let out = w.run(Command::CreateRoom(room_payload("dev", None, false)));
    assert_eq!(out.actions.len(), 1);
    assert!(matches!(&out.actions[0], Action::SendAll { event: Event::RoomCreated { room } } if room.name == "dev"));
    assert!(matches!(&out.verdict, Verdict::Answer { reply: Reply::Room { room } } if room.room_id == "new-id" && !room.ephemeral && room.created_by.as_deref() == Some("ag")));
    assert!(w.store.get_room("new-id").unwrap().is_some());
    let again = w.run(Command::CreateRoom(room_payload("dev", None, false)));
    assert_eq!(
        error_of(&again),
        (ErrorCode::RoomNameTaken, "Room name 'dev' already taken".to_string())
    );
    let same_id = w.run(Command::CreateRoom(room_payload("other", None, false)));
    assert_eq!(
        error_of(&same_id),
        (
            ErrorCode::InternalError,
            "database error: UNIQUE constraint failed: rooms.room_id".to_string()
        )
    );
    let orphan = w.run(Command::CreateRoom(room_payload("x", Some("nowhere"), false)));
    assert_eq!(
        error_of(&orphan),
        (ErrorCode::RoomNotFound, "Parent room not found".to_string())
    );
}

#[test]
fn ephemeral_rooms_are_remembered_until_empty() {
    let mut w = world();
    let out = w.run(Command::CreateRoom(room_payload("tmp", None, true)));
    assert!(matches!(&out.verdict, Verdict::Answer { reply: Reply::Room { room } } if room.ephemeral && room.created_at == NOW));
    assert!(w.store.get_room("new-id").unwrap().is_none());
    assert!(w.rooms.contains_key("new-id"));
    let child = w.run_with(Command::CreateRoom(room_payload("child", Some("new-id"), false)), "child");
    assert_eq!(
        error_of(&child),
        (ErrorCode::InternalError, "database error: FOREIGN KEY constraint failed".to_string())
    );
    let sent = w.run(Command::SendMessage(message_payload("new-id")));
    assert!(matches!(&sent.verdict, Verdict::Answer { reply: Reply::Message { message } } if message.seq == 1 && message.timestamp == NOW && message.metadata == "{\"n\":5.699993338763803e-16}"));
    assert!(w.store.messages.is_empty());
    let next = w.run(Command::SendMessage(message_payload("new-id")));
    assert!(matches!(&next.verdict, Verdict::Answer { reply: Reply::Message { message } } if message.seq == 2));
    let stay = after_leaving(Some("req"), "new-id", false, &mut w.rooms);
    assert!(stay.actions.is_empty());
    let end = after_leaving(Some("req"), "new-id", true, &mut w.rooms);
    assert!(matches!(&end.actions[0], Action::RemoveRoom { room_id } if room_id == "new-id"));
    assert!(matches!(&end.actions[1], Action::SendAll { event: Event::RoomDestroyed { .. } }));
    assert!(w.rooms.is_empty());
    w.run(Command::CreateRoom(room_payload("tmp", None, true)));
    let anew = w.run(Command::SendMessage(message_payload("new-id")));
    assert!(matches!(&anew.verdict, Verdict::Answer { reply: Reply::Message { message } } if message.seq == 1));
    after_leaving(Some("req"), "new-id", true, &mut w.rooms);
    let permanent = after_leaving(Some("req"), "lobby", true, &mut w.rooms);
    assert!(permanent.actions.is_empty());
    assert!(matches!(permanent.verdict, Verdict::Answer { reply: Reply::RoomId { .. } }));
}

#[test]
fn joining_and_leaving() {
    let mut w = world();
    let join = |room: &str| Command::JoinRoom(JoinRoomPayload { room_id: room.to_string() });
    let leave = |room: &str| Command::LeaveRoom(LeaveRoomPayload { room_id: room.to_string() });
    let unknown = w.run(join("nowhere"));
    assert_eq!(error_of(&unknown), (ErrorCode::RoomNotFound, "Room not found".to_string()));
    let twice = w.run(join("lobby"));
    assert_eq!(error_of(&twice), (ErrorCode::AlreadyInRoom, "Already in this room".to_string()));
    let out = w.run(leave("lobby"));
    assert!(matches!(&out.actions[0], Action::Broadcast { sender, event: Event::AgentLeft { .. }, .. } if sender == "ag"));
    assert!(matches!(&out.verdict, Verdict::Ask { question: Question::LeaveRoom { room_id } } if room_id == "lobby"));
    w.facts.in_room = false;
    let out = w.run(join("lobby"));
    assert!(matches!(&out.actions[0], Action::JoinRoom { room_id } if room_id == "lobby"));
    assert!(matches!(&out.actions[1], Action::Broadcast { event: Event::AgentJoined { name, .. }, .. } if name == "A"));
    let out = w.run(leave("lobby"));
    assert_eq!(error_of(&out), (ErrorCode::NotInRoom, "Not in this room".to_string()));
}

#[test]
fn messages_are_stored_and_passed_on() {
    let mut w = world();
    let out = w.run(Command::SendMessage(message_payload("lobby")));
    assert_eq!(out.actions.len(), 2);
    assert!(matches!(&out.actions[0], Action::Broadcast { event: Event::MessageReceived { message }, .. } if message.seq == 1));
    assert!(matches!(&out.actions[1], Action::Mention { agents, .. } if agents.len() == 1));
    assert_eq!(w.store.room_tip("lobby").unwrap(), 1);
    let again = w.run(Command::SendMessage(message_payload("lobby")));
    assert_eq!(error_of(&again).0, ErrorCode::InternalError);
    w.facts.in_room = false;
    let outside = w.run(Command::SendMessage(message_payload("lobby")));
    assert_eq!(error_of(&outside), (ErrorCode::NotInRoom, "Not in this room".to_string()));
    let history = w.run(Command::GetHistory(GetHistoryPayload {
        room_id: "lobby".to_string(),
        limit: 10,
        before: None,
    }));
    assert!(matches!(&history.verdict, Verdict::Answer { reply: Reply::History { messages, .. } } if messages.len() == 1));
    let early = w.run(Command::GetHistory(GetHistoryPayload {
        room_id: "lobby".to_string(),
        limit: 10,
        before: Some(NOW),
    }));
    assert!(matches!(&early.verdict, Verdict::Answer { reply: Reply::History { messages, .. } } if messages.is_empty()));
}

#[test]
fn rooms_and_agents_are_listed() {
    let mut w = world();
    w.run(Command::CreateRoom(room_payload("tmp", Some("lobby"), true)));
    let all = w.run(Command::ListRooms(None));
    assert!(matches!(&all.verdict, Verdict::Answer { reply: Reply::RoomList { rooms } } if rooms.len() == 2 && rooms[0].name == "lobby" && rooms[1].name == "tmp"));
    let below = w.run(Command::ListRooms(Some(ListRoomsPayload { parent_id: Some("lobby".to_string()) })));
    assert!(matches!(&below.verdict, Verdict::Answer { reply: Reply::RoomList { rooms } } if rooms.len() == 1 && rooms[0].name == "tmp"));
    let agents = w.run(Command::ListAgents(Some(ListAgentsPayload { room_id: Some("lobby".to_string()) })));
    assert!(matches!(&agents.verdict, Verdict::Answer { reply: Reply::AgentList { agents } } if agents.len() == 2 && agents[0].name == "A"));
    let everybody = w.run(Command::ListAgents(None));
    assert!(matches!(&everybody.verdict, Verdict::Answer { reply: Reply::AgentList { agents } } if agents[0].name == "Bo"));
    let info = w.run(Command::RoomInfo(RoomInfoPayload { room_id: "lobby".to_string() }));
    assert!(matches!(&info.verdict, Verdict::Answer { reply: Reply::RoomInfo { room, agents, sub_rooms } } if room.name == "lobby" && agents.len() == 2 && sub_rooms.len() == 1));
    let short = w.run(Command::RoomInfo(RoomInfoPayload { room_id: "new-id".to_string() }));
    assert!(matches!(&short.verdict, Verdict::Answer { reply: Reply::RoomInfo { room, .. } } if room.ephemeral));
    let unknown = w.run(Command::RoomInfo(RoomInfoPayload { room_id: "x".to_string() }));
    assert_eq!(error_of(&unknown), (ErrorCode::RoomNotFound, "Room not found".to_string()));
}

fn vote_payload(options: &[&str]) -> CreateVotePayload {
    CreateVotePayload {
        room_id: "lobby".to_string(),
        title: "T".to_string(),
        description: None,
        options: options.iter().map(|o| o.to_string()).collect(),
        duration_secs: Some(60),
    }
}

fn active_vote(ephemeral: bool) -> ActiveVote {
    ActiveVote {
        vote_id: "new-id".to_string(),
        room_id: "lobby".to_string(),
        title: "T".to_string(),
        description: None,
        options: vec!["a".to_string(), "b".to_string()],
        created_by: "ag".to_string(),
        created_at: NOW,
        closes_at: None,
        votes_cast: 2,
        ephemeral,
    }
}

#[test]
fn votes_are_opened() {
    let mut w = world();
    let few = w.run(Command::CreateVote(vote_payload(&["a"])));
    assert_eq!(error_of(&few), (ErrorCode::InvalidPayload, "Need at least 2 options".to_string()));
    let out = w.run(Command::CreateVote(vote_payload(&["a", "b"])));
    assert!(matches!(&out.verdict, Verdict::Ask { question: Question::TrackVote { vote: NewVote { eligible_voters: 3, ephemeral: false, duration_secs: Some(60), .. } } }));
    let meta = w.store.get_vote_meta("new-id").unwrap().unwrap();
    assert_eq!(meta.closes_at, Some(Timestamp { secs: NOW.secs + 60, nanos: 0 }));
    assert_eq!(meta.eligible_voters, 3);
    let again = w.run(Command::CreateVote(vote_payload(&["a", "b"])));
    assert_eq!(
        error_of(&again),
        (
            ErrorCode::InternalError,
            "database error: UNIQUE constraint failed: votes.vote_id".to_string()
        )
    );
    w.facts.in_room = false;
    let outside = w.run(Command::CreateVote(vote_payload(&["a", "b"])));
    assert_eq!(
        error_of(&outside),
        (ErrorCode::NotInRoom, "Must be in room to create a vote".to_string())
    );
    let wish = match out.verdict {
        Verdict::Ask { question: Question::TrackVote { vote } } => vote,
        other => panic!("no vote: {:?}", other),
    };
    let closes = Timestamp { secs: NOW.secs + 60, nanos: 0 };
    let opened = after_opening_vote(Some("req"), &wish, NOW, Some(closes));
    assert_eq!(opened.reply_to.as_deref(), Some("req"));
    assert!(matches!(&opened.actions[0], Action::BroadcastAll { room_id, event: Event::VoteCreated { info } } if room_id == "lobby" && info.votes_cast == 0 && info.status == VoteStatus::Open));
    assert!(matches!(&opened.verdict, Verdict::Answer { reply: Reply::Vote { info } } if info.options.len() == 2 && info.eligible_voters == 3 && info.created_at == NOW && info.closes_at == Some(closes)));
}

#[test]
fn ballots_are_cast() {
    let mut w = world();
    let cast = |i: usize| Command::CastVote(CastVotePayload { vote_id: "new-id".to_string(), option_index: i });
    let none = w.run(cast(0));
    assert_eq!(error_of(&none), (ErrorCode::VoteNotFound, "vote not found".to_string()));
    w.run(Command::CreateVote(vote_payload(&["a", "b"])));
    w.facts.vote = Some(active_vote(false));
    let wrong = w.run(cast(2));
    assert_eq!(error_of(&wrong), (ErrorCode::InvalidOption, "Invalid option index".to_string()));
    let out = w.run(cast(1));
    assert!(matches!(&out.verdict, Verdict::Ask { question: Question::RecordBallot { option_index: 1, .. } }));
    let twice = w.run(cast(1));
    assert_eq!(error_of(&twice), (ErrorCode::AlreadyVoted, "already voted".to_string()));
    w.store.close_vote("new-id").unwrap();
    let closed = w.run(cast(1));
    assert_eq!(error_of(&closed), (ErrorCode::VoteClosed, "vote is closed".to_string()));
    w.facts.vote = Some(active_vote(true));
    let ballots = w.store.ballots.len();
    let passing = w.run(cast(0));
    assert!(matches!(passing.verdict, Verdict::Ask { .. }));
    assert_eq!(w.store.ballots.len(), ballots);
    let counted = after_counting_ballot(None, "new-id", Ok((1, 3)));
    assert!(matches!(counted.verdict, Verdict::Answer { reply: Reply::Ballot { votes_cast: 1, eligible_voters: 3, .. } }));
    let failed = after_counting_ballot(None, "new-id", Err(ErrorCode::VoteClosed));
    assert_eq!(error_of(&failed), (ErrorCode::VoteClosed, "VoteClosed".to_string()));
    let status = w.run(Command::GetVoteStatus(GetVoteStatusPayload { vote_id: "new-id".to_string() }));
    assert!(matches!(&status.verdict, Verdict::Answer { reply: Reply::Vote { info } } if info.votes_cast == 2 && info.eligible_voters == 3));
    w.facts.members.push("late".to_string());
    let later = w.run(Command::GetVoteStatus(GetVoteStatusPayload { vote_id: "new-id".to_string() }));
    assert!(matches!(&later.verdict, Verdict::Answer { reply: Reply::Vote { info } } if info.eligible_voters == 4));
    w.facts.vote = None;
    let unknown = w.run(Command::GetVoteStatus(GetVoteStatusPayload { vote_id: "x".to_string() }));
    assert_eq!(
        error_of(&unknown),
        (ErrorCode::VoteNotFound, "Vote not found or already closed".to_string())
    );
}

#[test]
fn ballots_tell_nobody_anything() {
    for option_index in 0..2 {
        let mut w = world();
        w.run(Command::CreateVote(vote_payload(&["a", "b"])));
        w.facts.vote = Some(active_vote(false));
        let cast = || Command::CastVote(CastVotePayload { vote_id: "new-id".to_string(), option_index });
        let out = w.run(cast());
        assert!(out.actions.is_empty());
        assert!(matches!(out.verdict, Verdict::Ask { question: Question::RecordBallot { .. } }));
        assert_eq!(
            error_of(&w.run(cast())),
            (ErrorCode::AlreadyVoted, "already voted".to_string())
        );
    }
}

#[test]
fn leaders_are_elected_and_decide() {
    let mut w = world();
    let elect = || Command::ElectLeader(ElectLeaderPayload { room_id: "lobby".to_string() });
    let out = w.run(elect());
    assert!(matches!(&out.verdict, Verdict::Ask { question: Question::StartElection { candidates, .. } } if candidates.len() == 3));
    let started = after_starting_election(None, "lobby", &vec!["ag".to_string()], "ag", Ok(()));
    assert!(matches!(&started.actions[0], Action::BroadcastAll { event: Event::ElectionStarted { opt_out_seconds: 2, .. }, .. }));
    assert!(matches!(&started.verdict, Verdict::Answer { reply: Reply::Election { message, .. } } if message == "Election started. Agents have 2 seconds to decline."));
    let refused = after_starting_election(None, "lobby", &vec![], "ag", Err(ErrorCode::NotInRoom));
    assert_eq!(error_of(&refused), (ErrorCode::NotInRoom, "NotInRoom".to_string()));
    w.facts.members.clear();
    let empty = w.run(elect());
    assert_eq!(error_of(&empty), (ErrorCode::InvalidPayload, "No candidates in room".to_string()));
    w.facts.in_room = false;
    let outside = w.run(elect());
    assert_eq!(
        error_of(&outside),
        (ErrorCode::NotInRoom, "Must be in room to start election".to_string())
    );
    let decline = w.run(Command::DeclineElection(DeclineElectionPayload { room_id: "lobby".to_string() }));
    assert!(matches!(decline.verdict, Verdict::Ask { question: Question::DeclineElection { .. } }));
    let declined = after_declining(None, "lobby", Ok(()));
    assert!(matches!(&declined.verdict, Verdict::Answer { reply: Reply::Declined { message, .. } } if message == "Declined election"));
    assert_eq!(error_of(&after_declining(None, "lobby", Err(ErrorCode::InternalError))).1, "InternalError");
    let decide = || {
        Command::Decision(DecisionPayload {
            room_id: "lobby".to_string(),
            content: "go".to_string(),
            metadata: "{\"x\":1}".to_string(),
        })
    };
    let out = w.run(decide());
    assert!(matches!(&out.actions[0], Action::BroadcastAll { event: Event::DecisionMade { metadata, .. }, .. } if metadata == "{\"x\":1}"));
    assert!(matches!(&out.verdict, Verdict::Answer { reply: Reply::Decision { message_id, .. } } if message_id == "new-id"));
    assert_eq!(w.store.messages[0].metadata, "{\"decided_by\":\"ag\",\"type\":\"decision\"}");
    assert_eq!(error_of(&w.run(decide())).0, ErrorCode::InternalError);
    w.facts.leader = false;
    assert_eq!(
        error_of(&w.run(decide())),
        (ErrorCode::NotLeader, "Only the room leader can issue decisions".to_string())
    );
}

#[test]
fn commands_out_of_range_are_told() {
    let mut w = world();
    let fits = |w: &World, c: &Command| is_in_range(c, &w.facts, &w.store, &w.rooms, NOW);
    let send = Command::SendMessage(message_payload("lobby"));
    assert!(fits(&w, &send));
    w.run(Command::SendMessage(message_payload("lobby")));
    w.store.messages[0].seq = i64::MAX;
    assert!(!fits(&w, &send));
    let decide = Command::Decision(DecisionPayload {
        room_id: "lobby".to_string(),
        content: "go".to_string(),
        metadata: "{}".to_string(),
    });
    assert!(!fits(&w, &decide));
    let mut long = vote_payload(&["a", "b"]);
    long.duration_secs = Some(8_210_266_876_799);
    let vote = Command::CreateVote(long);
    assert!(!fits(&w, &vote));
    assert!(fits(&w, &Command::CreateVote(vote_payload(&["a", "b"]))));
    assert!(fits(&w, &Command::Ping));
    w.facts.in_room = false;
    w.facts.leader = false;
    assert!(fits(&w, &send) && fits(&w, &decide) && fits(&w, &vote));
}

#[test]
fn what_a_command_creates_gets_a_fresh_id() {
    let mut w = world();
    let out = handle_frame(
        Some("req"),
        &Command::SendMessage(message_payload("lobby")),
        "ag",
        "A",
        &w.facts,
        &mut w.store,
        &mut w.rooms,
        NOW,
    );
    assert!(matches!(&out.verdict, Verdict::Answer { reply: Reply::Message { message } } if message.message_id.len() == 36));
    assert_eq!(out.reply_to.as_deref(), Some("req"));
    let mut long = vote_payload(&["a", "b"]);
    long.duration_secs = Some(8_210_266_876_799);
    let tried = |w: &mut World, p: CreateVotePayload| {
        try_handle_frame(
            None,
            &Command::CreateVote(p),
            "ag",
            "A",
            &w.facts,
            &mut w.store,
            &mut w.rooms,
            NOW,
        )
    };
    assert!(tried(&mut w, long).is_none());
    assert!(w.store.votes.is_empty());
    let out = tried(&mut w, vote_payload(&["a", "b"])).unwrap();
    assert_eq!(out.reply_to, None);
    assert_eq!(w.store.votes.len(), 1);
}

#[test]
fn commands_speak_of_rooms_and_votes() {
    let cast = Command::CastVote(CastVotePayload { vote_id: "v".to_string(), option_index: 0 });
    assert_eq!(vote_of(&cast).as_deref(), Some("v"));
    assert_eq!(room_of(&cast, &Some(active_vote(false))), None);
    let status = Command::GetVoteStatus(GetVoteStatusPayload { vote_id: "v".to_string() });
    assert_eq!(vote_of(&status).as_deref(), Some("v"));
    assert_eq!(room_of(&status, &Some(active_vote(false))).as_deref(), Some("lobby"));
    assert_eq!(room_of(&status, &None), None);
    let send = Command::SendMessage(message_payload("dev"));
    assert_eq!(vote_of(&send), None);
    assert_eq!(room_of(&send, &None).as_deref(), Some("dev"));
    assert_eq!(room_of(&Command::ListAgents(None), &None), None);
}

fn register(key: &str, agent_id: Option<&str>) -> Input {
    Input::Line {
        line: Line::Register {
            id: Some("reg".to_string()),
            payload: RegisterPayload {
                key: key.to_string(),
                agent_id: agent_id.map(String::from),
                name: "A".to_string(),
                capabilities: vec!["chat".to_string()],
            },
        },
    }
}

fn go(w: &mut World, phase: Phase, input: Input, no_auth: bool) -> (Phase, Vec<Output>) {
    step(phase, input, "server-key", no_auth, &mut w.store, &mut w.rooms, "fresh", NOW)
}

fn complaint(outputs: &[Output]) -> (ErrorCode, String) {
    match &outputs[0] {
        Output::Send { reply: Reply::Error { code, message }, .. } => (*code, message.clone()),
        other => panic!("no complaint: {:?}", other),
    }
}

fn answered(outputs: &[Output]) -> Option<&str> {
    match &outputs[0] {
        Output::Send { reply_to, .. } => reply_to.as_deref(),
        other => panic!("no answer: {:?}", other),
    }
}

fn id(text: &str) -> Option<String> {
    Some(text.to_string())
}

#[test]
fn a_connection_from_greeting_to_farewell() {
    let mut w = world();
    w.run(Command::CreateRoom(room_payload("tmp", None, true)));
    let (phase, out) = go(&mut w, Phase::Greeting, Input::Line { line: Line::Ping { id: id("1") } }, false);
    assert!(matches!(out[0], Output::Send { reply: Reply::Pong, .. }));
    assert_eq!(answered(&out), Some("1"));
    let (phase, out) = go(&mut w, phase, Input::Line { line: Line::Other { id: id("2") } }, false);
    assert_eq!(answered(&out), Some("2"));
    assert_eq!(complaint(&out), (ErrorCode::NotRegistered, "Must register first".to_string()));
    let (phase, out) = go(&mut w, phase, Input::Line { line: Line::Bad { why: "eof".to_string() } }, false);
    assert_eq!(complaint(&out), (ErrorCode::InvalidPayload, "eof".to_string()));
    assert_eq!(answered(&out), None);
    let bad = Line::BadRegister { id: id("3"), why: "no name".to_string() };
    let (phase, out) = go(&mut w, phase, Input::Line { line: bad }, false);
    assert_eq!(answered(&out), Some("3"));
    assert_eq!(complaint(&out), (ErrorCode::InvalidPayload, "no name".to_string()));
    let (phase, out) = go(&mut w, phase, register("server-key", None), false);
    assert!(matches!(&out[0], Output::CheckLimit { key, tier } if key == "server-key" && tier == "free"));
    let (phase, out) = go(&mut w, phase, Input::Limited { over: false }, false);
    assert!(matches!(&out[0], Output::CheckId { agent_id } if agent_id == "fresh"));
    let (phase, out) = go(&mut w, phase, Input::Taken { taken: false }, false);
    assert_eq!(out.len(), 3);
    assert!(matches!(&out[0], Output::Send { reply: Reply::Registered { name, .. }, reply_to } if name == "A" && reply_to.as_deref() == Some("reg")));
    assert!(matches!(&out[1], Output::Act { action: Action::AddAgent { key } } if key == "server-key"));
    assert!(matches!(&out[2], Output::Act { action: Action::Attach { info, .. } } if info.connected_at == Some(NOW)));
    assert_eq!(w.store.sessions.len(), 1);
    let (phase, out) = go(&mut w, phase, Input::Line { line: Line::Other { id: id("4") } }, false);
    assert!(matches!(&out[0], Output::Handle { req_id } if req_id.as_deref() == Some("4")));
    let (phase, out) = go(&mut w, phase, Input::Line { line: Line::Bad { why: "x".to_string() } }, false);
    assert_eq!(complaint(&out).1, "x");
    assert_eq!(answered(&out), None);
    let (phase, out) = go(&mut w, phase, Input::Ended, false);
    assert!(matches!(&out[0], Output::Act { action: Action::RemoveAgent { .. } }));
    assert!(matches!(&out[1], Output::LeaveAllRooms { agent_id } if agent_id == "fresh"));
    let left = vec![
        LeftRoom { room_id: "lobby".to_string(), empty: true },
        LeftRoom { room_id: "new-id".to_string(), empty: true },
    ];
    let (phase, out) = go(&mut w, phase, Input::Left { rooms: left }, false);
    assert!(matches!(phase, Phase::Closed));
    assert_eq!(out.len(), 7);
    assert!(matches!(&out[3], Output::Act { action: Action::SendAll { event: Event::RoomDestroyed { room_id } } } if room_id == "new-id"));
    assert!(matches!(&out[5], Output::Act { action: Action::Detach { .. } }));
    assert!(w.rooms.is_empty());
    assert!(w.store.sessions[0].disconnected_at.is_some());
}

#[test]
fn registrations_that_fail() {
    let mut w = world();
    let (phase, out) = go(&mut w, Phase::Greeting, register("wrong", None), false);
    assert!(matches!(phase, Phase::Closed));
    assert_eq!(complaint(&out), (ErrorCode::Unauthorized, "Invalid API key".to_string()));
    assert_eq!(answered(&out), Some("reg"));
    assert!(matches!(out[1], Output::Close));
    w.store.create_api_key("table-key", None).unwrap();
    let (phase, _) = go(&mut w, Phase::Greeting, register("table-key", Some("me")), false);
    let (phase, out) = go(&mut w, phase, Input::Limited { over: true }, false);
    assert!(matches!(phase, Phase::Closed));
    assert_eq!(
        complaint(&out),
        (ErrorCode::RateLimitAgents, "Agent limit exceeded for this API key".to_string())
    );
    let (phase, out) = go(&mut w, Phase::Greeting, register("", Some("me")), true);
    assert!(matches!(&out[0], Output::CheckId { agent_id } if agent_id == "me"));
    let (phase, out) = go(&mut w, phase, Input::Taken { taken: true }, true);
    assert!(matches!(phase, Phase::Greeting));
    assert_eq!(complaint(&out), (ErrorCode::AgentIdTaken, "Agent ID already in use".to_string()));
    assert_eq!(answered(&out), Some("reg"));
    let (phase, _) = go(&mut w, phase, register("", Some("me")), true);
    let (phase, out) = go(&mut w, phase, Input::Taken { taken: false }, true);
    assert_eq!(out.len(), 2);
    let (_, out) = go(&mut w, phase, Input::Ended, true);
    assert_eq!(out.len(), 1);
    let (phase, out) = go(&mut w, Phase::Greeting, Input::Ended, false);
    assert!(matches!(phase, Phase::Closed));
    assert!(matches!(out[0], Output::Close));
    let (phase, out) = go(&mut w, phase, Input::Limited { over: true }, false);
    assert!(matches!(phase, Phase::Closed));
    assert!(out.is_empty());
    let (_, out) = advance(
        Phase::Greeting,
        register("", None),
        "k",
        true,
        &mut w.store,
        &mut w.rooms,
    );
    assert!(matches!(&out[0], Output::CheckId { agent_id } if agent_id.len() == 36));
}

#[test]
fn a_connection_knows_its_rooms() {
    let mut c = AgentConnection::new(agent("a", "A"), "s".to_string());
    c.enter("r");
    c.enter("q");
    c.enter("r");
    assert_eq!(c.rooms, vec!["r".to_string(), "q".to_string()]);
    c.leave("r");
    c.leave("r");
    assert_eq!(c.rooms, vec!["q".to_string()]);
}

#[test]
fn a_server_listens_on_what_it_is_given() {
    let config = |tcp: Option<&str>, http: Option<&str>| ServerConfig {
        socket_path: "/tmp/s".to_string(),
        tcp_addr: tcp.map(String::from),
        http_addr: http.map(String::from),
        db_path: "db".to_string(),
        auth_key_path: "k".to_string(),
        no_auth: false,
    };
    let server = ClawdChatServer::new(
        config(Some("1:2"), Some("3:4")),
        Store::open_in_memory().unwrap(),
        "key".to_string(),
    );
    let all = server.listeners();
    assert_eq!(all.len(), 3);
    assert!(matches!(&all[0], Listener::Unix(path) if path == "/tmp/s"));
    assert!(matches!(&all[1], Listener::Tcp(addr) if addr == "1:2"));
    assert!(matches!(&all[2], Listener::Http(addr) if addr == "3:4"));
    assert_eq!(server.api_key(), "key");
    assert_eq!(server.socket_path(), "/tmp/s");
    assert_eq!(server.store().rooms.len(), 1);
    assert!(server.ephemeral_rooms.is_empty());
    let plain = ClawdChatServer::new(config(None, None), Store::empty(), String::new());
    assert_eq!(plain.listeners().len(), 1);
}
