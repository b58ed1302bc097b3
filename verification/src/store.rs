//! The tables of the chat server, and the rules for changing and querying them.

use vstd::prelude::*;
use vstd::string::*;
use crate::rows::{Row, views};
use crate::tasks::{TaskInfo, TaskView};
use crate::text::copy_text;

pub mod answers;
pub mod effects;
pub mod keys;
pub mod laws;
pub mod messages;
pub mod reading;
pub mod rooms;
pub mod startup;
pub mod subscriptions;
pub mod votes;

verus! {

/// A row of the rooms table.
#[derive(Debug)]
pub struct RoomRow {
    pub room_id: String,
    pub name: String,
    pub description: Option<String>,
    pub parent_id: Option<String>,
    pub created_by: Option<String>,
    pub created_at: String,
    pub visibility: String,
    pub owner_key: Option<String>,
    pub encrypted: bool,
}

/// What a `RoomRow` stands for.
pub struct RoomRowView {
    pub room_id: Seq<char>,
    pub name: Seq<char>,
    pub description: Option<Seq<char>>,
    pub parent_id: Option<Seq<char>>,
    pub created_by: Option<Seq<char>>,
    pub created_at: Seq<char>,
    pub visibility: Seq<char>,
    pub owner_key: Option<Seq<char>>,
    pub encrypted: bool,
}

impl View for RoomRow {
    type V = RoomRowView;

    open spec fn view(&self) -> RoomRowView {
        RoomRowView {
            room_id: self.room_id@,
            name: self.name@,
            description: self.description.deep_view(),
            parent_id: self.parent_id.deep_view(),
            created_by: self.created_by.deep_view(),
            created_at: self.created_at@,
            visibility: self.visibility@,
            owner_key: self.owner_key.deep_view(),
            encrypted: self.encrypted,
        }
    }
}

impl Row for RoomRow {
    fn duplicate(&self) -> (r: RoomRow) {
        RoomRow {
            room_id: self.room_id.clone(),
            name: self.name.clone(),
            description: copy_text(&self.description),
            parent_id: copy_text(&self.parent_id),
            created_by: copy_text(&self.created_by),
            created_at: self.created_at.clone(),
            visibility: self.visibility.clone(),
            owner_key: copy_text(&self.owner_key),
            encrypted: self.encrypted,
        }
    }
}

impl Clone for RoomRow {
    fn clone(&self) -> (r: RoomRow)
        ensures
            r@ == self@,
    {
        self.duplicate()
    }
}

/// A row of the messages table. `metadata` is JSON text.
#[derive(Debug)]
pub struct MessageRow {
    pub message_id: String,
    pub room_id: String,
    pub agent_id: String,
    pub agent_name: String,
    pub content: String,
    pub reply_to_message: Option<String>,
    pub metadata: String,
    pub created_at: String,
    pub seq: i64,
}

/// What a `MessageRow` stands for.
pub struct MessageRowView {
    pub message_id: Seq<char>,
    pub room_id: Seq<char>,
    pub agent_id: Seq<char>,
    pub agent_name: Seq<char>,
    pub content: Seq<char>,
    pub reply_to_message: Option<Seq<char>>,
    pub metadata: Seq<char>,
    pub created_at: Seq<char>,
    pub seq: i64,
}

impl View for MessageRow {
    type V = MessageRowView;

    open spec fn view(&self) -> MessageRowView {
        MessageRowView {
            message_id: self.message_id@,
            room_id: self.room_id@,
            agent_id: self.agent_id@,
            agent_name: self.agent_name@,
            content: self.content@,
            reply_to_message: self.reply_to_message.deep_view(),
            metadata: self.metadata@,
            created_at: self.created_at@,
            seq: self.seq,
        }
    }
}

impl Row for MessageRow {
    fn duplicate(&self) -> (r: MessageRow) {
        MessageRow {
            message_id: self.message_id.clone(),
            room_id: self.room_id.clone(),
            agent_id: self.agent_id.clone(),
            agent_name: self.agent_name.clone(),
            content: self.content.clone(),
            reply_to_message: copy_text(&self.reply_to_message),
            metadata: self.metadata.clone(),
            created_at: self.created_at.clone(),
            seq: self.seq,
        }
    }
}

impl Clone for MessageRow {
    fn clone(&self) -> (r: MessageRow)
        ensures
            r@ == self@,
    {
        self.duplicate()
    }
}

/// A row of the agent sessions table. `capabilities` is a JSON list.
#[derive(Debug)]
pub struct SessionRow {
    pub session_id: String,
    pub agent_id: String,
    pub agent_name: String,
    pub capabilities: String,
    pub connected_at: String,
    pub disconnected_at: Option<String>,
}

/// What a `SessionRow` stands for.
pub struct SessionRowView {
    pub session_id: Seq<char>,
    pub agent_id: Seq<char>,
    pub agent_name: Seq<char>,
    pub capabilities: Seq<char>,
    pub connected_at: Seq<char>,
    pub disconnected_at: Option<Seq<char>>,
}

impl View for SessionRow {
    type V = SessionRowView;

    open spec fn view(&self) -> SessionRowView {
        SessionRowView {
            session_id: self.session_id@,
            agent_id: self.agent_id@,
            agent_name: self.agent_name@,
            capabilities: self.capabilities@,
            connected_at: self.connected_at@,
            disconnected_at: self.disconnected_at.deep_view(),
        }
    }
}

impl Row for SessionRow {
    fn duplicate(&self) -> (r: SessionRow) {
        SessionRow {
            session_id: self.session_id.clone(),
            agent_id: self.agent_id.clone(),
            agent_name: self.agent_name.clone(),
            capabilities: self.capabilities.clone(),
            connected_at: self.connected_at.clone(),
            disconnected_at: copy_text(&self.disconnected_at),
        }
    }
}

impl Clone for SessionRow {
    fn clone(&self) -> (r: SessionRow)
        ensures
            r@ == self@,
    {
        self.duplicate()
    }
}

/// A row of the votes table. `options` is a JSON list.
#[derive(Debug)]
pub struct VoteRow {
    pub vote_id: String,
    pub room_id: String,
    pub title: String,
    pub description: Option<String>,
    pub options: String,
    pub created_by: String,
    pub created_at: String,
    pub closes_at: Option<String>,
    pub status: String,
    pub eligible_voters: usize,
}

/// What a `VoteRow` stands for.
pub struct VoteRowView {
    pub vote_id: Seq<char>,
    pub room_id: Seq<char>,
    pub title: Seq<char>,
    pub description: Option<Seq<char>>,
    pub options: Seq<char>,
    pub created_by: Seq<char>,
    pub created_at: Seq<char>,
    pub closes_at: Option<Seq<char>>,
    pub status: Seq<char>,
    pub eligible_voters: usize,
}

impl View for VoteRow {
    type V = VoteRowView;

    open spec fn view(&self) -> VoteRowView {
        VoteRowView {
            vote_id: self.vote_id@,
            room_id: self.room_id@,
            title: self.title@,
            description: self.description.deep_view(),
            options: self.options@,
            created_by: self.created_by@,
            created_at: self.created_at@,
            closes_at: self.closes_at.deep_view(),
            status: self.status@,
            eligible_voters: self.eligible_voters,
        }
    }
}

impl Row for VoteRow {
    fn duplicate(&self) -> (r: VoteRow) {
        VoteRow {
            vote_id: self.vote_id.clone(),
            room_id: self.room_id.clone(),
            title: self.title.clone(),
            description: copy_text(&self.description),
            options: self.options.clone(),
            created_by: self.created_by.clone(),
            created_at: self.created_at.clone(),
            closes_at: copy_text(&self.closes_at),
            status: self.status.clone(),
            eligible_voters: self.eligible_voters,
        }
    }
}

impl Clone for VoteRow {
    fn clone(&self) -> (r: VoteRow)
        ensures
            r@ == self@,
    {
        self.duplicate()
    }
}

/// A row of the vote ballots table.
#[derive(Debug)]
pub struct BallotRow {
    pub vote_id: String,
    pub agent_id: String,
    pub agent_name: String,
    pub option_index: usize,
    pub cast_at: String,
}

/// What a `BallotRow` stands for.
pub struct BallotRowView {
    pub vote_id: Seq<char>,
    pub agent_id: Seq<char>,
    pub agent_name: Seq<char>,
    pub option_index: usize,
    pub cast_at: Seq<char>,
}

impl View for BallotRow {
    type V = BallotRowView;

    open spec fn view(&self) -> BallotRowView {
        BallotRowView {
            vote_id: self.vote_id@,
            agent_id: self.agent_id@,
            agent_name: self.agent_name@,
            option_index: self.option_index,
            cast_at: self.cast_at@,
        }
    }
}

impl Row for BallotRow {
    fn duplicate(&self) -> (r: BallotRow) {
        BallotRow {
            vote_id: self.vote_id.clone(),
            agent_id: self.agent_id.clone(),
            agent_name: self.agent_name.clone(),
            option_index: self.option_index,
            cast_at: self.cast_at.clone(),
        }
    }
}

impl Clone for BallotRow {
    fn clone(&self) -> (r: BallotRow)
        ensures
            r@ == self@,
    {
        self.duplicate()
    }
}

/// A row of the API keys table.
#[derive(Debug)]
pub struct KeyRow {
    pub api_key: String,
    pub tier: String,
    pub label: Option<String>,
    pub created_at: String,
}

/// What a `KeyRow` stands for.
pub struct KeyRowView {
    pub api_key: Seq<char>,
    pub tier: Seq<char>,
    pub label: Option<Seq<char>>,
    pub created_at: Seq<char>,
}

impl View for KeyRow {
    type V = KeyRowView;

    open spec fn view(&self) -> KeyRowView {
        KeyRowView {
            api_key: self.api_key@,
            tier: self.tier@,
            label: self.label.deep_view(),
            created_at: self.created_at@,
        }
    }
}

impl Row for KeyRow {
    fn duplicate(&self) -> (r: KeyRow) {
        KeyRow {
            api_key: self.api_key.clone(),
            tier: self.tier.clone(),
            label: copy_text(&self.label),
            created_at: self.created_at.clone(),
        }
    }
}

impl Clone for KeyRow {
    fn clone(&self) -> (r: KeyRow)
        ensures
            r@ == self@,
    {
        self.duplicate()
    }
}

/// A row of the subscriptions table. `kinds` is a JSON list; without one every kind matches.
#[derive(Debug)]
pub struct SubscriptionRow {
    pub subscription_id: String,
    pub room_id: String,
    pub owner_key: String,
    pub webhook_url: String,
    pub secret: String,
    pub kinds: Option<String>,
    pub only_from: Option<String>,
    pub not_from: Option<String>,
    pub exclude_thinking: bool,
    pub since_seq: i64,
    pub last_delivered_seq: i64,
    pub status: String,
    pub failure_count: i64,
    pub created_at: String,
}

/// What a `SubscriptionRow` stands for.
pub struct SubscriptionRowView {
    pub subscription_id: Seq<char>,
    pub room_id: Seq<char>,
    pub owner_key: Seq<char>,
    pub webhook_url: Seq<char>,
    pub secret: Seq<char>,
    pub kinds: Option<Seq<char>>,
    pub only_from: Option<Seq<char>>,
    pub not_from: Option<Seq<char>>,
    pub exclude_thinking: bool,
    pub since_seq: i64,
    pub last_delivered_seq: i64,
    pub status: Seq<char>,
    pub failure_count: i64,
    pub created_at: Seq<char>,
}

impl View for SubscriptionRow {
    type V = SubscriptionRowView;

    open spec fn view(&self) -> SubscriptionRowView {
        SubscriptionRowView {
            subscription_id: self.subscription_id@,
            room_id: self.room_id@,
            owner_key: self.owner_key@,
            webhook_url: self.webhook_url@,
            secret: self.secret@,
            kinds: self.kinds.deep_view(),
            only_from: self.only_from.deep_view(),
            not_from: self.not_from.deep_view(),
            exclude_thinking: self.exclude_thinking,
            since_seq: self.since_seq,
            last_delivered_seq: self.last_delivered_seq,
            status: self.status@,
            failure_count: self.failure_count,
            created_at: self.created_at@,
        }
    }
}

impl Row for SubscriptionRow {
    fn duplicate(&self) -> (r: SubscriptionRow) {
        SubscriptionRow {
            subscription_id: self.subscription_id.clone(),
            room_id: self.room_id.clone(),
            owner_key: self.owner_key.clone(),
            webhook_url: self.webhook_url.clone(),
            secret: self.secret.clone(),
            kinds: copy_text(&self.kinds),
            only_from: copy_text(&self.only_from),
            not_from: copy_text(&self.not_from),
            exclude_thinking: self.exclude_thinking,
            since_seq: self.since_seq,
            last_delivered_seq: self.last_delivered_seq,
            status: self.status.clone(),
            failure_count: self.failure_count,
            created_at: self.created_at.clone(),
        }
    }
}

impl Clone for SubscriptionRow {
    fn clone(&self) -> (r: SubscriptionRow)
        ensures
            r@ == self@,
    {
        self.duplicate()
    }
}

/// A row of the subscription deliveries table.
#[derive(Debug)]
pub struct DeliveryRow {
    pub delivery_id: String,
    pub subscription_id: String,
    pub message_seq: i64,
    pub message_id: String,
    pub next_attempt_at: String,
    pub attempts: i64,
    pub last_error: Option<String>,
}

/// What a `DeliveryRow` stands for.
pub struct DeliveryRowView {
    pub delivery_id: Seq<char>,
    pub subscription_id: Seq<char>,
    pub message_seq: i64,
    pub message_id: Seq<char>,
    pub next_attempt_at: Seq<char>,
    pub attempts: i64,
    pub last_error: Option<Seq<char>>,
}

impl View for DeliveryRow {
    type V = DeliveryRowView;

    open spec fn view(&self) -> DeliveryRowView {
        DeliveryRowView {
            delivery_id: self.delivery_id@,
            subscription_id: self.subscription_id@,
            message_seq: self.message_seq,
            message_id: self.message_id@,
            next_attempt_at: self.next_attempt_at@,
            attempts: self.attempts,
            last_error: self.last_error.deep_view(),
        }
    }
}

impl Row for DeliveryRow {
    fn duplicate(&self) -> (r: DeliveryRow) {
        DeliveryRow {
            delivery_id: self.delivery_id.clone(),
            subscription_id: self.subscription_id.clone(),
            message_seq: self.message_seq,
            message_id: self.message_id.clone(),
            next_attempt_at: self.next_attempt_at.clone(),
            attempts: self.attempts,
            last_error: copy_text(&self.last_error),
        }
    }
}

impl Clone for DeliveryRow {
    fn clone(&self) -> (r: DeliveryRow)
        ensures
            r@ == self@,
    {
        self.duplicate()
    }
}

/// The tables. Rows stand in the order in which they were inserted.
pub struct Store {
    pub rooms: Vec<RoomRow>,
    pub messages: Vec<MessageRow>,
    pub sessions: Vec<SessionRow>,
    pub votes: Vec<VoteRow>,
    pub ballots: Vec<BallotRow>,
    pub keys: Vec<KeyRow>,
    pub subscriptions: Vec<SubscriptionRow>,
    pub deliveries: Vec<DeliveryRow>,
    pub tasks: Vec<TaskInfo>,
}

/// What the tables hold.
#[verifier::ext_equal]
pub struct StoreView {
    pub rooms: Seq<RoomRowView>,
    pub messages: Seq<MessageRowView>,
    pub sessions: Seq<SessionRowView>,
    pub votes: Seq<VoteRowView>,
    pub ballots: Seq<BallotRowView>,
    pub keys: Seq<KeyRowView>,
    pub subscriptions: Seq<SubscriptionRowView>,
    pub deliveries: Seq<DeliveryRowView>,
    pub tasks: Seq<TaskView>,
}

impl View for Store {
    type V = StoreView;

    open spec fn view(&self) -> StoreView {
        StoreView {
            rooms: views(self.rooms@),
            messages: views(self.messages@),
            sessions: views(self.sessions@),
            votes: views(self.votes@),
            ballots: views(self.ballots@),
            keys: views(self.keys@),
            subscriptions: views(self.subscriptions@),
            deliveries: views(self.deliveries@),
            tasks: views(self.tasks@),
        }
    }
}

/// A statement that the tables refuse.
#[derive(Clone, Copy, Debug, PartialEq, Eq, Structural)]
pub enum DbError {
    /// A room names itself as its parent.
    OwnParent,
    /// A second room with one `room_id`.
    DuplicateRoom,
    /// A second message with one `message_id`.
    DuplicateMessage,
    /// A second session with one `session_id`.
    DuplicateSession,
    /// A second vote with one `vote_id`.
    DuplicateVote,
    /// A second API key of the same text.
    DuplicateKey,
    /// A second subscription with one `subscription_id`.
    DuplicateSubscription,
    /// A row refers to one that is not there.
    ForeignKey,
    /// A query for one row found none.
    NoRows,
}

impl DbError {
    /// What the refusal says.
    pub open spec fn message(self) -> Seq<char> {
        match self {
            DbError::OwnParent => "CHECK constraint failed: room_id != parent_id"@,
            DbError::DuplicateRoom => "UNIQUE constraint failed: rooms.room_id"@,
            DbError::DuplicateMessage => "UNIQUE constraint failed: messages.message_id"@,
            DbError::DuplicateSession => "UNIQUE constraint failed: agent_sessions.session_id"@,
            DbError::DuplicateVote => "UNIQUE constraint failed: votes.vote_id"@,
            DbError::DuplicateKey => "UNIQUE constraint failed: api_keys.api_key"@,
            DbError::DuplicateSubscription =>
                "UNIQUE constraint failed: subscriptions.subscription_id"@,
            DbError::ForeignKey => "FOREIGN KEY constraint failed"@,
            DbError::NoRows => "Query returned no rows"@,
        }
    }

    /// What the refusal says.
    pub fn text(&self) -> (r: &'static str)
        ensures
            r@ == self.message(),
    {
        match self {
            DbError::OwnParent => "CHECK constraint failed: room_id != parent_id",
            DbError::DuplicateRoom => "UNIQUE constraint failed: rooms.room_id",
            DbError::DuplicateMessage => "UNIQUE constraint failed: messages.message_id",
            DbError::DuplicateSession => "UNIQUE constraint failed: agent_sessions.session_id",
            DbError::DuplicateVote => "UNIQUE constraint failed: votes.vote_id",
            DbError::DuplicateKey => "UNIQUE constraint failed: api_keys.api_key",
            DbError::DuplicateSubscription =>
                "UNIQUE constraint failed: subscriptions.subscription_id",
            DbError::ForeignKey => "FOREIGN KEY constraint failed",
            DbError::NoRows => "Query returned no rows",
        }
    }
}

/// Why an operation on the tables failed.
#[derive(Debug)]
pub enum StoreError {
    Db(DbError),
    RoomNameTaken(String),
    VoteNotFound,
    VoteClosed,
    AlreadyVoted,
}

/// What a `StoreError` stands for.
pub enum StoreErrorView {
    Db(DbError),
    RoomNameTaken(Seq<char>),
    VoteNotFound,
    VoteClosed,
    AlreadyVoted,
}

impl View for StoreError {
    type V = StoreErrorView;

    open spec fn view(&self) -> StoreErrorView {
        match self {
            StoreError::Db(e) => StoreErrorView::Db(*e),
            StoreError::RoomNameTaken(name) => StoreErrorView::RoomNameTaken(name@),
            StoreError::VoteNotFound => StoreErrorView::VoteNotFound,
            StoreError::VoteClosed => StoreErrorView::VoteClosed,
            StoreError::AlreadyVoted => StoreErrorView::AlreadyVoted,
        }
    }
}

impl StoreErrorView {
    /// What the error says.
    pub open spec fn message(self) -> Seq<char> {
        match self {
            StoreErrorView::Db(e) => "database error: "@ + e.message(),
            StoreErrorView::RoomNameTaken(name) => "room name already taken: "@ + name,
            StoreErrorView::VoteNotFound => "vote not found"@,
            StoreErrorView::VoteClosed => "vote is closed"@,
            StoreErrorView::AlreadyVoted => "already voted"@,
        }
    }
}

impl StoreError {
    /// What the error says.
    pub fn text(&self) -> (r: String)
        ensures
            r@ == self@.message(),
    {
        match self {
            StoreError::Db(e) => {
                let mut out = "database error: ".to_owned();
                out.append(e.text());
                out
            },
            StoreError::RoomNameTaken(name) => {
                let mut out = "room name already taken: ".to_owned();
                out.append(name.as_str());
                out
            },
            StoreError::VoteNotFound => "vote not found".to_owned(),
            StoreError::VoteClosed => "vote is closed".to_owned(),
            StoreError::AlreadyVoted => "already voted".to_owned(),
        }
    }
}

} // verus!
