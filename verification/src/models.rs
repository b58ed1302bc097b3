//! The data that agents and server exchange.

use vstd::prelude::*;
use crate::rows::Row;
use crate::text::{copy_list, copy_text};
use crate::time::Timestamp;

verus! {

/// A connected agent.
#[derive(Debug)]
pub struct AgentInfo {
    pub agent_id: String,
    pub name: String,
    pub capabilities: Vec<String>,
    pub connected_at: Option<Timestamp>,
}

/// What a `AgentInfo` stands for.
pub struct AgentInfoView {
    pub agent_id: Seq<char>,
    pub name: Seq<char>,
    pub capabilities: Seq<Seq<char>>,
    pub connected_at: Option<Timestamp>,
}

impl View for AgentInfo {
    type V = AgentInfoView;

    open spec fn view(&self) -> AgentInfoView {
        AgentInfoView {
            agent_id: self.agent_id@,
            name: self.name@,
            capabilities: self.capabilities.deep_view(),
            connected_at: self.connected_at,
        }
    }
}

impl Row for AgentInfo {
    fn duplicate(&self) -> (r: AgentInfo) {
        AgentInfo {
            agent_id: self.agent_id.clone(),
            name: self.name.clone(),
            capabilities: copy_list(&self.capabilities),
            connected_at: self.connected_at,
        }
    }
}

impl Clone for AgentInfo {
    fn clone(&self) -> (r: AgentInfo)
        ensures
            r@ == self@,
    {
        self.duplicate()
    }
}

/// A room.
#[derive(Debug)]
pub struct Room {
    pub room_id: String,
    pub name: String,
    pub description: Option<String>,
    pub parent_id: Option<String>,
    pub ephemeral: bool,
    pub created_at: Timestamp,
    pub created_by: Option<String>,
    pub visibility: String,
    pub owner_key: Option<String>,
    pub last_activity: Option<Timestamp>,
    pub member_count: Option<usize>,
    pub encrypted: bool,
}

/// What a `Room` stands for.
pub struct RoomView {
    pub room_id: Seq<char>,
    pub name: Seq<char>,
    pub description: Option<Seq<char>>,
    pub parent_id: Option<Seq<char>>,
    pub ephemeral: bool,
    pub created_at: Timestamp,
    pub created_by: Option<Seq<char>>,
    pub visibility: Seq<char>,
    pub owner_key: Option<Seq<char>>,
    pub last_activity: Option<Timestamp>,
    pub member_count: Option<usize>,
    pub encrypted: bool,
}

impl View for Room {
    type V = RoomView;

    open spec fn view(&self) -> RoomView {
        RoomView {
            room_id: self.room_id@,
            name: self.name@,
            description: self.description.deep_view(),
            parent_id: self.parent_id.deep_view(),
            ephemeral: self.ephemeral,
            created_at: self.created_at,
            created_by: self.created_by.deep_view(),
            visibility: self.visibility@,
            owner_key: self.owner_key.deep_view(),
            last_activity: self.last_activity,
            member_count: self.member_count,
            encrypted: self.encrypted,
        }
    }
}

impl Row for Room {
    fn duplicate(&self) -> (r: Room) {
        Room {
            room_id: self.room_id.clone(),
            name: self.name.clone(),
            description: copy_text(&self.description),
            parent_id: copy_text(&self.parent_id),
            ephemeral: self.ephemeral,
            created_at: self.created_at,
            created_by: copy_text(&self.created_by),
            visibility: self.visibility.clone(),
            owner_key: copy_text(&self.owner_key),
            last_activity: self.last_activity,
            member_count: self.member_count,
            encrypted: self.encrypted,
        }
    }
}

impl Clone for Room {
    fn clone(&self) -> (r: Room)
        ensures
            r@ == self@,
    {
        self.duplicate()
    }
}

/// A message in a room. `metadata` is the JSON text of a value, as `serde_json`
/// writes it.
#[derive(Debug)]
pub struct ChatMessage {
    pub message_id: String,
    pub room_id: String,
    pub agent_id: String,
    pub agent_name: String,
    pub content: String,
    pub reply_to_message: Option<String>,
    pub metadata: String,
    pub timestamp: Timestamp,
    pub seq: i64,
}

/// What a `ChatMessage` stands for.
pub struct ChatMessageView {
    pub message_id: Seq<char>,
    pub room_id: Seq<char>,
    pub agent_id: Seq<char>,
    pub agent_name: Seq<char>,
    pub content: Seq<char>,
    pub reply_to_message: Option<Seq<char>>,
    pub metadata: Seq<char>,
    pub timestamp: Timestamp,
    pub seq: i64,
}

impl View for ChatMessage {
    type V = ChatMessageView;

    open spec fn view(&self) -> ChatMessageView {
        ChatMessageView {
            message_id: self.message_id@,
            room_id: self.room_id@,
            agent_id: self.agent_id@,
            agent_name: self.agent_name@,
            content: self.content@,
            reply_to_message: self.reply_to_message.deep_view(),
            metadata: self.metadata@,
            timestamp: self.timestamp,
            seq: self.seq,
        }
    }
}

impl Row for ChatMessage {
    fn duplicate(&self) -> (r: ChatMessage) {
        ChatMessage {
            message_id: self.message_id.clone(),
            room_id: self.room_id.clone(),
            agent_id: self.agent_id.clone(),
            agent_name: self.agent_name.clone(),
            content: self.content.clone(),
            reply_to_message: copy_text(&self.reply_to_message),
            metadata: self.metadata.clone(),
            timestamp: self.timestamp,
            seq: self.seq,
        }
    }
}

impl Clone for ChatMessage {
    fn clone(&self) -> (r: ChatMessage)
        ensures
            r@ == self@,
    {
        self.duplicate()
    }
}

// --- Commands of an agent ---

/// Asks to register on a connection.
#[derive(Debug)]
pub struct RegisterPayload {
    pub key: String,
    pub agent_id: Option<String>,
    pub name: String,
    pub capabilities: Vec<String>,
}

/// What a `RegisterPayload` stands for.
pub struct RegisterPayloadView {
    pub key: Seq<char>,
    pub agent_id: Option<Seq<char>>,
    pub name: Seq<char>,
    pub capabilities: Seq<Seq<char>>,
}

impl View for RegisterPayload {
    type V = RegisterPayloadView;

    open spec fn view(&self) -> RegisterPayloadView {
        RegisterPayloadView {
            key: self.key@,
            agent_id: self.agent_id.deep_view(),
            name: self.name@,
            capabilities: self.capabilities.deep_view(),
        }
    }
}

impl Row for RegisterPayload {
    fn duplicate(&self) -> (r: RegisterPayload) {
        RegisterPayload {
            key: self.key.clone(),
            agent_id: copy_text(&self.agent_id),
            name: self.name.clone(),
            capabilities: copy_list(&self.capabilities),
        }
    }
}

impl Clone for RegisterPayload {
    fn clone(&self) -> (r: RegisterPayload)
        ensures
            r@ == self@,
    {
        self.duplicate()
    }
}

/// Asks for a new room.
#[derive(Debug)]
pub struct CreateRoomPayload {
    pub name: String,
    pub description: Option<String>,
    pub parent_id: Option<String>,
    pub ephemeral: bool,
}

/// Asks to join a room.
#[derive(Debug)]
pub struct JoinRoomPayload {
    pub room_id: String,
}

/// Asks to leave a room.
#[derive(Debug)]
pub struct LeaveRoomPayload {
    pub room_id: String,
}

/// Sends a message to a room. `metadata` is JSON text.
#[derive(Debug)]
pub struct SendMessagePayload {
    pub room_id: String,
    pub content: String,
    pub reply_to: Option<String>,
    pub metadata: String,
    pub mentions: Vec<String>,
}

/// Asks for the latest messages of a room.
#[derive(Debug)]
pub struct GetHistoryPayload {
    pub room_id: String,
    pub limit: u32,
    pub before: Option<Timestamp>,
}

/// How many messages a history request returns where it names no limit.
pub fn default_limit() -> (r: u32)
    ensures
        r == 50,
{
    50
}

/// Asks for the rooms, or for the rooms below one.
#[derive(Debug)]
pub struct ListRoomsPayload {
    pub parent_id: Option<String>,
}

/// Asks for the agents, or for the members of a room.
#[derive(Debug)]
pub struct ListAgentsPayload {
    pub room_id: Option<String>,
}

/// Asks for everything about a room.
#[derive(Debug)]
pub struct RoomInfoPayload {
    pub room_id: String,
}

// --- Voting ---

/// Asks for a vote in a room.
#[derive(Debug)]
pub struct CreateVotePayload {
    pub room_id: String,
    pub title: String,
    pub description: Option<String>,
    pub options: Vec<String>,
    /// Deadline in seconds from now; without one the vote stays open until all members voted.
    pub duration_secs: Option<u64>,
}

/// Casts a ballot.
#[derive(Debug)]
pub struct CastVotePayload {
    pub vote_id: String,
    /// Position in the list of options, from zero.
    pub option_index: usize,
}

/// Asks for the state of a vote.
#[derive(Debug)]
pub struct GetVoteStatusPayload {
    pub vote_id: String,
}

/// Whether a vote still takes ballots.
#[derive(Clone, Copy, Debug, PartialEq, Eq, Structural)]
pub enum VoteStatus {
    Open,
    Closed,
}

/// Summary of a vote, told when it is created and whenever it is asked for. It
/// says how many voted, never who or what. The eligible voters are the members of
/// the room at the time it is told.
#[derive(Debug)]
pub struct VoteInfo {
    pub vote_id: String,
    pub room_id: String,
    pub title: String,
    pub description: Option<String>,
    pub options: Vec<String>,
    pub created_by: String,
    pub created_at: Timestamp,
    pub closes_at: Option<Timestamp>,
    pub status: VoteStatus,
    pub votes_cast: usize,
    pub eligible_voters: usize,
}

/// What a `VoteInfo` stands for.
pub struct VoteInfoView {
    pub vote_id: Seq<char>,
    pub room_id: Seq<char>,
    pub title: Seq<char>,
    pub description: Option<Seq<char>>,
    pub options: Seq<Seq<char>>,
    pub created_by: Seq<char>,
    pub created_at: Timestamp,
    pub closes_at: Option<Timestamp>,
    pub status: VoteStatus,
    pub votes_cast: usize,
    pub eligible_voters: usize,
}

impl View for VoteInfo {
    type V = VoteInfoView;

    open spec fn view(&self) -> VoteInfoView {
        VoteInfoView {
            vote_id: self.vote_id@,
            room_id: self.room_id@,
            title: self.title@,
            description: self.description.deep_view(),
            options: self.options.deep_view(),
            created_by: self.created_by@,
            created_at: self.created_at,
            closes_at: self.closes_at,
            status: self.status,
            votes_cast: self.votes_cast,
            eligible_voters: self.eligible_voters,
        }
    }
}

impl Row for VoteInfo {
    fn duplicate(&self) -> (r: VoteInfo) {
        VoteInfo {
            vote_id: self.vote_id.clone(),
            room_id: self.room_id.clone(),
            title: self.title.clone(),
            description: copy_text(&self.description),
            options: copy_list(&self.options),
            created_by: self.created_by.clone(),
            created_at: self.created_at,
            closes_at: self.closes_at,
            status: self.status,
            votes_cast: self.votes_cast,
            eligible_voters: self.eligible_voters,
        }
    }
}

impl Clone for VoteInfo {
    fn clone(&self) -> (r: VoteInfo)
        ensures
            r@ == self@,
    {
        self.duplicate()
    }
}

/// How many ballots an option got.
#[derive(Debug)]
pub struct VoteTally {
    pub option_index: usize,
    pub option_text: String,
    pub count: usize,
}

/// A revealed ballot.
#[derive(Debug)]
pub struct BallotEntry {
    pub agent_id: String,
    pub agent_name: String,
    pub option_index: usize,
}

/// Revealed results of a closed vote.
#[derive(Debug)]
pub struct VoteResultPayload {
    pub vote_id: String,
    pub room_id: String,
    pub title: String,
    pub options: Vec<String>,
    pub tally: Vec<VoteTally>,
    pub ballots: Vec<BallotEntry>,
    pub total_votes: usize,
    pub eligible_voters: usize,
}

// --- Elections ---

/// Asks for the election of a leader.
#[derive(Debug)]
pub struct ElectLeaderPayload {
    pub room_id: String,
}

/// Withdraws from an election.
#[derive(Debug)]
pub struct DeclineElectionPayload {
    pub room_id: String,
}

/// Issues a decision as leader. `metadata` is JSON text.
#[derive(Debug)]
pub struct DecisionPayload {
    pub room_id: String,
    pub content: String,
    pub metadata: String,
}

// --- What the calls do ---

/// A history that names no limit holds fifty messages at most.
pub proof fn a_history_without_a_limit_holds_fifty(
    r: u32,
)
    requires
        call_ensures(default_limit, (), r),
    ensures
        r == 50,
{
}

} // verus!
