//! What agents and server say to each other.

use vstd::prelude::*;
use crate::models::{
    AgentInfo, AgentInfoView, CastVotePayload, ChatMessage, ChatMessageView, CreateRoomPayload,
    CreateVotePayload, DecisionPayload, DeclineElectionPayload, ElectLeaderPayload,
    GetHistoryPayload, GetVoteStatusPayload, JoinRoomPayload, LeaveRoomPayload, ListAgentsPayload,
    ListRoomsPayload, Room, RoomInfoPayload, RoomView, SendMessagePayload, VoteInfo, VoteInfoView,
};
use crate::rows::views;
use crate::time::Timestamp;

verus! {

/// Why a request failed.
#[derive(Clone, Copy, Debug, PartialEq, Eq, Structural)]
pub enum ErrorCode {
    InvalidPayload,
    NotRegistered,
    Unauthorized,
    RateLimitAgents,
    AgentIdTaken,
    RoomNotFound,
    RoomNameTaken,
    AlreadyInRoom,
    NotInRoom,
    InvalidOption,
    VoteNotFound,
    VoteClosed,
    AlreadyVoted,
    NotLeader,
    InternalError,
}

impl ErrorCode {
    /// The name of the code.
    pub open spec fn named(self) -> Seq<char> {
        match self {
            ErrorCode::InvalidPayload => "InvalidPayload"@,
            ErrorCode::NotRegistered => "NotRegistered"@,
            ErrorCode::Unauthorized => "Unauthorized"@,
            ErrorCode::RateLimitAgents => "RateLimitAgents"@,
            ErrorCode::AgentIdTaken => "AgentIdTaken"@,
            ErrorCode::RoomNotFound => "RoomNotFound"@,
            ErrorCode::RoomNameTaken => "RoomNameTaken"@,
            ErrorCode::AlreadyInRoom => "AlreadyInRoom"@,
            ErrorCode::NotInRoom => "NotInRoom"@,
            ErrorCode::InvalidOption => "InvalidOption"@,
            ErrorCode::VoteNotFound => "VoteNotFound"@,
            ErrorCode::VoteClosed => "VoteClosed"@,
            ErrorCode::AlreadyVoted => "AlreadyVoted"@,
            ErrorCode::NotLeader => "NotLeader"@,
            ErrorCode::InternalError => "InternalError"@,
        }
    }

    /// The name of the code.
    pub fn name(&self) -> (r: &'static str)
        ensures
            r@ == self.named(),
    {
        match self {
            ErrorCode::InvalidPayload => "InvalidPayload",
            ErrorCode::NotRegistered => "NotRegistered",
            ErrorCode::Unauthorized => "Unauthorized",
            ErrorCode::RateLimitAgents => "RateLimitAgents",
            ErrorCode::AgentIdTaken => "AgentIdTaken",
            ErrorCode::RoomNotFound => "RoomNotFound",
            ErrorCode::RoomNameTaken => "RoomNameTaken",
            ErrorCode::AlreadyInRoom => "AlreadyInRoom",
            ErrorCode::NotInRoom => "NotInRoom",
            ErrorCode::InvalidOption => "InvalidOption",
            ErrorCode::VoteNotFound => "VoteNotFound",
            ErrorCode::VoteClosed => "VoteClosed",
            ErrorCode::AlreadyVoted => "AlreadyVoted",
            ErrorCode::NotLeader => "NotLeader",
            ErrorCode::InternalError => "InternalError",
        }
    }
}

/// A command of a registered agent. A command whose payload cannot be read is
/// `Malformed`; the two lists then go without their filter instead.
#[derive(Debug)]
pub enum Command {
    Ping,
    Malformed(String),
    CreateRoom(CreateRoomPayload),
    JoinRoom(JoinRoomPayload),
    LeaveRoom(LeaveRoomPayload),
    SendMessage(SendMessagePayload),
    GetHistory(GetHistoryPayload),
    ListRooms(Option<ListRoomsPayload>),
    ListAgents(Option<ListAgentsPayload>),
    RoomInfo(RoomInfoPayload),
    CreateVote(CreateVotePayload),
    CastVote(CastVotePayload),
    GetVoteStatus(GetVoteStatusPayload),
    ElectLeader(ElectLeaderPayload),
    DeclineElection(DeclineElectionPayload),
    Decision(DecisionPayload),
    Unknown,
}

/// What the server tells agents unasked.
#[derive(Debug)]
pub enum Event {
    RoomCreated { room: Room },
    RoomDestroyed { room_id: String },
    AgentJoined { room_id: String, agent_id: String, name: String },
    AgentLeft { room_id: String, agent_id: String },
    MessageReceived { message: ChatMessage },
    VoteCreated { info: VoteInfo },
    ElectionStarted {
        room_id: String,
        candidates: Vec<String>,
        started_by: String,
        opt_out_seconds: u32,
    },
    /// `metadata` is JSON text.
    DecisionMade {
        room_id: String,
        message_id: String,
        leader_id: String,
        leader_name: String,
        content: String,
        metadata: String,
        timestamp: Timestamp,
    },
}

/// What `Event` stands for.
#[verifier::ext_equal]
pub enum EventView {
    RoomCreated { room: RoomView },
    RoomDestroyed { room_id: Seq<char> },
    AgentJoined { room_id: Seq<char>, agent_id: Seq<char>, name: Seq<char> },
    AgentLeft { room_id: Seq<char>, agent_id: Seq<char> },
    MessageReceived { message: ChatMessageView },
    VoteCreated { info: VoteInfoView },
    ElectionStarted {
        room_id: Seq<char>,
        candidates: Seq<Seq<char>>,
        started_by: Seq<char>,
        opt_out_seconds: u32,
    },
    DecisionMade {
        room_id: Seq<char>,
        message_id: Seq<char>,
        leader_id: Seq<char>,
        leader_name: Seq<char>,
        content: Seq<char>,
        metadata: Seq<char>,
        timestamp: Timestamp,
    },
}

impl View for Event {
    type V = EventView;

    open spec fn view(&self) -> EventView {
        match self {
            Event::RoomCreated { room } => EventView::RoomCreated {
                room: room@,
            },
            Event::RoomDestroyed { room_id } => EventView::RoomDestroyed {
                room_id: room_id@,
            },
            Event::AgentJoined { room_id, agent_id, name } => EventView::AgentJoined {
                room_id: room_id@,
                agent_id: agent_id@,
                name: name@,
            },
            Event::AgentLeft { room_id, agent_id } => EventView::AgentLeft {
                room_id: room_id@,
                agent_id: agent_id@,
            },
            Event::MessageReceived { message } => EventView::MessageReceived {
                message: message@,
            },
            Event::VoteCreated { info } => EventView::VoteCreated {
                info: info@,
            },
            Event::ElectionStarted {
                room_id,
                candidates,
                started_by,
                opt_out_seconds,
            } => EventView::ElectionStarted {
                room_id: room_id@,
                candidates: candidates.deep_view(),
                started_by: started_by@,
                opt_out_seconds: *opt_out_seconds,
            },
            Event::DecisionMade {
                room_id,
                message_id,
                leader_id,
                leader_name,
                content,
                metadata,
                timestamp,
            } => EventView::DecisionMade {
                room_id: room_id@,
                message_id: message_id@,
                leader_id: leader_id@,
                leader_name: leader_name@,
                content: content@,
                metadata: metadata@,
                timestamp: *timestamp,
            },
        }
    }
}

/// The answer to a request.
#[derive(Debug)]
pub enum Reply {
    Pong,
    Error { code: ErrorCode, message: String },
    Registered { agent_id: String, name: String },
    Room { room: Room },
    RoomId { room_id: String },
    Message { message: ChatMessage },
    History { room_id: String, messages: Vec<ChatMessage> },
    RoomList { rooms: Vec<Room> },
    AgentList { agents: Vec<AgentInfo> },
    RoomInfo { room: Room, agents: Vec<AgentInfo>, sub_rooms: Vec<Room> },
    Vote { info: VoteInfo },
    Ballot { vote_id: String, votes_cast: usize, eligible_voters: usize },
    Election { room_id: String, candidates: Vec<String>, message: String },
    Declined { room_id: String, message: String },
    Decision { message_id: String, room_id: String },
}

/// What `Reply` stands for.
#[verifier::ext_equal]
pub enum ReplyView {
    Pong,
    Error { code: ErrorCode, message: Seq<char> },
    Registered { agent_id: Seq<char>, name: Seq<char> },
    Room { room: RoomView },
    RoomId { room_id: Seq<char> },
    Message { message: ChatMessageView },
    History { room_id: Seq<char>, messages: Seq<ChatMessageView> },
    RoomList { rooms: Seq<RoomView> },
    AgentList { agents: Seq<AgentInfoView> },
    RoomInfo { room: RoomView, agents: Seq<AgentInfoView>, sub_rooms: Seq<RoomView> },
    Vote { info: VoteInfoView },
    Ballot { vote_id: Seq<char>, votes_cast: usize, eligible_voters: usize },
    Election { room_id: Seq<char>, candidates: Seq<Seq<char>>, message: Seq<char> },
    Declined { room_id: Seq<char>, message: Seq<char> },
    Decision { message_id: Seq<char>, room_id: Seq<char> },
}

impl View for Reply {
    type V = ReplyView;

    open spec fn view(&self) -> ReplyView {
        match self {
            Reply::Pong => ReplyView::Pong,
            Reply::Error { code, message } => ReplyView::Error {
                code: *code,
                message: message@,
            },
            Reply::Registered { agent_id, name } => ReplyView::Registered {
                agent_id: agent_id@,
                name: name@,
            },
            Reply::Room { room } => ReplyView::Room {
                room: room@,
            },
            Reply::RoomId { room_id } => ReplyView::RoomId {
                room_id: room_id@,
            },
            Reply::Message { message } => ReplyView::Message {
                message: message@,
            },
            Reply::History { room_id, messages } => ReplyView::History {
                room_id: room_id@,
                messages: views(messages@),
            },
            Reply::RoomList { rooms } => ReplyView::RoomList {
                rooms: views(rooms@),
            },
            Reply::AgentList { agents } => ReplyView::AgentList {
                agents: views(agents@),
            },
            Reply::RoomInfo { room, agents, sub_rooms } => ReplyView::RoomInfo {
                room: room@,
                agents: views(agents@),
                sub_rooms: views(sub_rooms@),
            },
            Reply::Vote { info } => ReplyView::Vote {
                info: info@,
            },
            Reply::Ballot { vote_id, votes_cast, eligible_voters } => ReplyView::Ballot {
                vote_id: vote_id@,
                votes_cast: *votes_cast,
                eligible_voters: *eligible_voters,
            },
            Reply::Election { room_id, candidates, message } => ReplyView::Election {
                room_id: room_id@,
                candidates: candidates.deep_view(),
                message: message@,
            },
            Reply::Declined { room_id, message } => ReplyView::Declined {
                room_id: room_id@,
                message: message@,
            },
            Reply::Decision { message_id, room_id } => ReplyView::Decision {
                message_id: message_id@,
                room_id: room_id@,
            },
        }
    }
}

/// What is to be done for a request, besides the answer.
#[derive(Debug)]
pub enum Action {
    /// Send an event to every connected agent.
    SendAll { event: Event },
    /// Send an event to the members of a room but one.
    Broadcast { room_id: String, sender: String, event: Event },
    /// Send an event to all members of a room.
    BroadcastAll { room_id: String, event: Event },
    /// Tell agents that a message mentions them.
    Mention { agents: Vec<String>, message: ChatMessage, room_id: String },
    /// Make the agent a member of a room.
    JoinRoom { room_id: String },
    /// Forget the members of a room.
    RemoveRoom { room_id: String },
    /// Count an agent for a key.
    AddAgent { key: String },
    /// Stop counting an agent for a key.
    RemoveAgent { key: String },
    /// Take up a connection under the name of an agent.
    Attach { info: AgentInfo, session_id: String, key: String },
    /// Take the lead of every room from an agent.
    ClearLeader { agent_id: String },
    /// Forget the connection of an agent.
    Detach { agent_id: String },
}

/// What `Action` stands for.
#[verifier::ext_equal]
pub enum ActionView {
    SendAll { event: EventView },
    Broadcast { room_id: Seq<char>, sender: Seq<char>, event: EventView },
    BroadcastAll { room_id: Seq<char>, event: EventView },
    Mention { agents: Seq<Seq<char>>, message: ChatMessageView, room_id: Seq<char> },
    JoinRoom { room_id: Seq<char> },
    RemoveRoom { room_id: Seq<char> },
    AddAgent { key: Seq<char> },
    RemoveAgent { key: Seq<char> },
    Attach { info: AgentInfoView, session_id: Seq<char>, key: Seq<char> },
    ClearLeader { agent_id: Seq<char> },
    Detach { agent_id: Seq<char> },
}

impl View for Action {
    type V = ActionView;

    open spec fn view(&self) -> ActionView {
        match self {
            Action::SendAll { event } => ActionView::SendAll {
                event: event@,
            },
            Action::Broadcast { room_id, sender, event } => ActionView::Broadcast {
                room_id: room_id@,
                sender: sender@,
                event: event@,
            },
            Action::BroadcastAll { room_id, event } => ActionView::BroadcastAll {
                room_id: room_id@,
                event: event@,
            },
            Action::Mention { agents, message, room_id } => ActionView::Mention {
                agents: agents.deep_view(),
                message: message@,
                room_id: room_id@,
            },
            Action::JoinRoom { room_id } => ActionView::JoinRoom {
                room_id: room_id@,
            },
            Action::RemoveRoom { room_id } => ActionView::RemoveRoom {
                room_id: room_id@,
            },
            Action::AddAgent { key } => ActionView::AddAgent {
                key: key@,
            },
            Action::RemoveAgent { key } => ActionView::RemoveAgent {
                key: key@,
            },
            Action::Attach { info, session_id, key } => ActionView::Attach {
                info: info@,
                session_id: session_id@,
                key: key@,
            },
            Action::ClearLeader { agent_id } => ActionView::ClearLeader {
                agent_id: agent_id@,
            },
            Action::Detach { agent_id } => ActionView::Detach {
                agent_id: agent_id@,
            },
        }
    }
}

/// A vote that is to be opened.
#[derive(Debug)]
pub struct NewVote {
    pub vote_id: String,
    pub room_id: String,
    pub title: String,
    pub description: Option<String>,
    pub options: Vec<String>,
    pub created_by: String,
    pub duration_secs: Option<u64>,
    pub eligible_voters: usize,
    pub ephemeral: bool,
}

/// What a `NewVote` stands for.
#[verifier::ext_equal]
pub struct NewVoteView {
    pub vote_id: Seq<char>,
    pub room_id: Seq<char>,
    pub title: Seq<char>,
    pub description: Option<Seq<char>>,
    pub options: Seq<Seq<char>>,
    pub created_by: Seq<char>,
    pub duration_secs: Option<u64>,
    pub eligible_voters: usize,
    pub ephemeral: bool,
}

impl View for NewVote {
    type V = NewVoteView;

    open spec fn view(&self) -> NewVoteView {
        NewVoteView {
            vote_id: self.vote_id@,
            room_id: self.room_id@,
            title: self.title@,
            description: self.description.deep_view(),
            options: self.options.deep_view(),
            created_by: self.created_by@,
            duration_secs: self.duration_secs,
            eligible_voters: self.eligible_voters,
            ephemeral: self.ephemeral,
        }
    }
}

/// What has to be found out before a request can be answered.
#[derive(Debug)]
pub enum Question {
    /// Take the agent out of a room: is the room empty now?
    LeaveRoom { room_id: String },
    /// Open a vote: when was it created, and when does it close?
    TrackVote { vote: NewVote },
    /// Count a ballot: how many are there, of how many?
    RecordBallot { vote_id: String, option_index: usize },
    /// Start an election: is that possible?
    StartElection { room_id: String, candidates: Vec<String> },
    /// Withdraw from an election: is that possible?
    DeclineElection { room_id: String },
}

/// What `Question` stands for.
#[verifier::ext_equal]
pub enum QuestionView {
    LeaveRoom { room_id: Seq<char> },
    TrackVote { vote: NewVoteView },
    RecordBallot { vote_id: Seq<char>, option_index: usize },
    StartElection { room_id: Seq<char>, candidates: Seq<Seq<char>> },
    DeclineElection { room_id: Seq<char> },
}

impl View for Question {
    type V = QuestionView;

    open spec fn view(&self) -> QuestionView {
        match self {
            Question::LeaveRoom { room_id } => QuestionView::LeaveRoom {
                room_id: room_id@,
            },
            Question::TrackVote { vote } => QuestionView::TrackVote {
                vote: vote@,
            },
            Question::RecordBallot { vote_id, option_index } => QuestionView::RecordBallot {
                vote_id: vote_id@,
                option_index: *option_index,
            },
            Question::StartElection { room_id, candidates } => QuestionView::StartElection {
                room_id: room_id@,
                candidates: candidates.deep_view(),
            },
            Question::DeclineElection { room_id } => QuestionView::DeclineElection {
                room_id: room_id@,
            },
        }
    }
}

/// How it stands with a request.
#[derive(Debug)]
pub enum Verdict {
    Answer { reply: Reply },
    Ask { question: Question },
}

/// What `Verdict` stands for.
#[verifier::ext_equal]
pub enum VerdictView {
    Answer { reply: ReplyView },
    Ask { question: QuestionView },
}

impl View for Verdict {
    type V = VerdictView;

    open spec fn view(&self) -> VerdictView {
        match self {
            Verdict::Answer { reply } => VerdictView::Answer {
                reply: reply@,
            },
            Verdict::Ask { question } => VerdictView::Ask {
                question: question@,
            },
        }
    }
}

/// What a request leads to: actions in their order, then the answer or a
/// question. `reply_to` is the id of the request, which the answer carries.
#[derive(Debug)]
pub struct Outcome {
    pub reply_to: Option<String>,
    pub actions: Vec<Action>,
    pub verdict: Verdict,
}

/// What an `Outcome` stands for.
#[verifier::ext_equal]
pub struct OutcomeView {
    pub reply_to: Option<Seq<char>>,
    pub actions: Seq<ActionView>,
    pub verdict: VerdictView,
}

impl View for Outcome {
    type V = OutcomeView;

    open spec fn view(&self) -> OutcomeView {
        OutcomeView {
            reply_to: self.reply_to.deep_view(),
            actions: views(self.actions@),
            verdict: self.verdict@,
        }
    }
}

/// A vote that is being held, and what is known of it.
#[derive(Debug)]
pub struct ActiveVote {
    pub vote_id: String,
    pub room_id: String,
    pub title: String,
    pub description: Option<String>,
    pub options: Vec<String>,
    pub created_by: String,
    pub created_at: Timestamp,
    pub closes_at: Option<Timestamp>,
    pub votes_cast: usize,
    pub ephemeral: bool,
}

/// What is known of the agents and votes when a command arrives. `vote` is the
/// vote of the command; `in_room`, `leader` and `members` speak of its room, or
/// of the room of the vote where how a vote stands is asked.
#[derive(Debug)]
pub struct Facts {
    pub in_room: bool,
    pub leader: bool,
    pub members: Vec<String>,
    pub agents: Vec<AgentInfo>,
    pub vote: Option<ActiveVote>,
}

// --- What the calls do ---

/// Every code goes by its name.
pub proof fn codes_go_by_their_names(
    code: &ErrorCode,
    r: &'static str,
)
    requires
        call_ensures(ErrorCode::name, (code,), r),
    ensures
        code is InvalidPayload ==> r@ == "InvalidPayload"@,
        code is NotRegistered ==> r@ == "NotRegistered"@,
        code is Unauthorized ==> r@ == "Unauthorized"@,
        code is RateLimitAgents ==> r@ == "RateLimitAgents"@,
        code is AgentIdTaken ==> r@ == "AgentIdTaken"@,
        code is RoomNotFound ==> r@ == "RoomNotFound"@,
        code is RoomNameTaken ==> r@ == "RoomNameTaken"@,
        code is AlreadyInRoom ==> r@ == "AlreadyInRoom"@,
        code is NotInRoom ==> r@ == "NotInRoom"@,
        code is InvalidOption ==> r@ == "InvalidOption"@,
        code is VoteNotFound ==> r@ == "VoteNotFound"@,
        code is VoteClosed ==> r@ == "VoteClosed"@,
        code is AlreadyVoted ==> r@ == "AlreadyVoted"@,
        code is NotLeader ==> r@ == "NotLeader"@,
        code is InternalError ==> r@ == "InternalError"@,
{
}

} // verus!
