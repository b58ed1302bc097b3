//! The life of a connection: registration, service, farewell.

use vstd::prelude::*;
use dashmap::DashMap;
use crate::ephemeral::{rooms_of, EphemeralRoom, EphemeralRoomView};
use crate::handler::{destroy_if_empty, room_destroyed};
use crate::ids::{new_id, ID_LENGTH};
use crate::json::texts_json;
use crate::models::{AgentInfo, AgentInfoView, RegisterPayload, RegisterPayloadView};
use crate::protocol::{
    Action, ActionView, ErrorCode, Event, EventView, Reply, ReplyView,
};
use crate::rows::{any, first_match, views};
use crate::store::keys::{with_key, with_session, with_session_ended, with_session_id};
use crate::store::{SessionRowView, Store, StoreView};
use crate::text::copy_list;
use crate::time::{in_calendar, now, show, shown, Timestamp, COLUMN_FORMAT};

pub mod effects;

verus! {

/// What a line from an agent holds. A frame may have an id.
#[derive(Debug)]
pub enum Line {
    /// No frame at all.
    Bad { why: String },
    Ping { id: Option<String> },
    Register { id: Option<String>, payload: RegisterPayload },
    /// A registration that cannot be read.
    BadRegister { id: Option<String>, why: String },
    /// Any other frame.
    Other { id: Option<String> },
}

/// What `Line` stands for.
#[verifier::ext_equal]
pub enum LineView {
    Bad { why: Seq<char> },
    Ping { id: Option<Seq<char>> },
    Register { id: Option<Seq<char>>, payload: RegisterPayloadView },
    BadRegister { id: Option<Seq<char>>, why: Seq<char> },
    Other { id: Option<Seq<char>> },
}

impl View for Line {
    type V = LineView;

    open spec fn view(&self) -> LineView {
        match self {
            Line::Bad { why } => LineView::Bad {
                why: why@,
            },
            Line::Ping { id } => LineView::Ping {
                id: id.deep_view(),
            },
            Line::Register { id, payload } => LineView::Register {
                id: id.deep_view(),
                payload: payload@,
            },
            Line::BadRegister { id, why } => LineView::BadRegister {
                id: id.deep_view(),
                why: why@,
            },
            Line::Other { id } => LineView::Other {
                id: id.deep_view(),
            },
        }
    }
}

impl LineView {
    /// The id of the frame; a line that holds none has none.
    pub open spec fn id(self) -> Option<Seq<char>> {
        match self {
            LineView::Bad { .. } => None,
            LineView::Ping { id } => id,
            LineView::Register { id, .. } => id,
            LineView::BadRegister { id, .. } => id,
            LineView::Other { id } => id,
        }
    }
}

/// A room that an agent left, and whether it is empty now.
#[derive(Debug)]
pub struct LeftRoom {
    pub room_id: String,
    pub empty: bool,
}

/// What a `LeftRoom` stands for.
pub struct LeftRoomView {
    pub room_id: Seq<char>,
    pub empty: bool,
}

impl View for LeftRoom {
    type V = LeftRoomView;

    open spec fn view(&self) -> LeftRoomView {
        LeftRoomView {
            room_id: self.room_id@,
            empty: self.empty,
        }
    }
}

/// What happens on a connection.
#[derive(Debug)]
pub enum Input {
    /// A line came in.
    Line { line: Line },
    /// The limiter says whether the key has too many agents.
    Limited { over: bool },
    /// The broker says whether the agent id is in use.
    Taken { taken: bool },
    /// The connection ended.
    Ended,
    /// The agent was taken out of its rooms.
    Left { rooms: Vec<LeftRoom> },
}

/// What `Input` stands for.
#[verifier::ext_equal]
pub enum InputView {
    Line { line: LineView },
    Limited { over: bool },
    Taken { taken: bool },
    Ended,
    Left { rooms: Seq<LeftRoomView> },
}

impl View for Input {
    type V = InputView;

    open spec fn view(&self) -> InputView {
        match self {
            Input::Line { line } => InputView::Line {
                line: line@,
            },
            Input::Limited { over } => InputView::Limited {
                over: *over,
            },
            Input::Taken { taken } => InputView::Taken {
                taken: *taken,
            },
            Input::Ended => InputView::Ended,
            Input::Left { rooms } => InputView::Left {
                rooms: views(rooms@),
            },
        }
    }
}

/// How far a connection is. `req_id` is the id of the registration that has not
/// been answered yet.
#[derive(Debug)]
pub enum Phase {
    /// It waits for a registration.
    Greeting,
    /// It waits for the limiter.
    Limiting { req_id: Option<String>, payload: RegisterPayload, key: String },
    /// It waits to hear whether the agent id is free.
    Naming {
        req_id: Option<String>,
        payload: RegisterPayload,
        key: String,
        agent_id: String,
    },
    /// An agent is registered on it.
    Serving { agent_id: String, session_id: String, key: String },
    /// Its agent is being taken out of its rooms.
    Leaving { agent_id: String, session_id: String },
    Closed,
}

/// What `Phase` stands for.
#[verifier::ext_equal]
pub enum PhaseView {
    Greeting,
    Limiting { req_id: Option<Seq<char>>, payload: RegisterPayloadView, key: Seq<char> },
    Naming {
        req_id: Option<Seq<char>>,
        payload: RegisterPayloadView,
        key: Seq<char>,
        agent_id: Seq<char>,
    },
    Serving { agent_id: Seq<char>, session_id: Seq<char>, key: Seq<char> },
    Leaving { agent_id: Seq<char>, session_id: Seq<char> },
    Closed,
}

impl View for Phase {
    type V = PhaseView;

    open spec fn view(&self) -> PhaseView {
        match self {
            Phase::Greeting => PhaseView::Greeting,
            Phase::Limiting { req_id, payload, key } => PhaseView::Limiting {
                req_id: req_id.deep_view(),
                payload: payload@,
                key: key@,
            },
            Phase::Naming { req_id, payload, key, agent_id } => PhaseView::Naming {
                req_id: req_id.deep_view(),
                payload: payload@,
                key: key@,
                agent_id: agent_id@,
            },
            Phase::Serving { agent_id, session_id, key } => PhaseView::Serving {
                agent_id: agent_id@,
                session_id: session_id@,
                key: key@,
            },
            Phase::Leaving { agent_id, session_id } => PhaseView::Leaving {
                agent_id: agent_id@,
                session_id: session_id@,
            },
            Phase::Closed => PhaseView::Closed,
        }
    }
}

/// What is to be done for a connection.
#[derive(Debug)]
pub enum Output {
    /// Send the agent an answer to a frame.
    Send { reply_to: Option<String>, reply: Reply },
    /// Ask the limiter for a key of a tier.
    CheckLimit { key: String, tier: String },
    /// Ask the broker for an agent id.
    CheckId { agent_id: String },
    /// Do something for the other agents.
    Act { action: Action },
    /// Handle the frame as a command, and answer it.
    Handle { req_id: Option<String> },
    /// Take an agent out of all rooms.
    LeaveAllRooms { agent_id: String },
    /// Close the connection.
    Close,
}

/// What `Output` stands for.
#[verifier::ext_equal]
pub enum OutputView {
    Send { reply_to: Option<Seq<char>>, reply: ReplyView },
    CheckLimit { key: Seq<char>, tier: Seq<char> },
    CheckId { agent_id: Seq<char> },
    Act { action: ActionView },
    Handle { req_id: Option<Seq<char>> },
    LeaveAllRooms { agent_id: Seq<char> },
    Close,
}

impl View for Output {
    type V = OutputView;

    open spec fn view(&self) -> OutputView {
        match self {
            Output::Send { reply_to, reply } => OutputView::Send {
                reply_to: reply_to.deep_view(),
                reply: reply@,
            },
            Output::CheckLimit { key, tier } => OutputView::CheckLimit {
                key: key@,
                tier: tier@,
            },
            Output::CheckId { agent_id } => OutputView::CheckId {
                agent_id: agent_id@,
            },
            Output::Act { action } => OutputView::Act {
                action: action@,
            },
            Output::Handle { req_id } => OutputView::Handle {
                req_id: req_id.deep_view(),
            },
            Output::LeaveAllRooms { agent_id } => OutputView::LeaveAllRooms {
                agent_id: agent_id@,
            },
            Output::Close => OutputView::Close,
        }
    }
}

/// A connected agent: who it is, its session and the rooms it is in, each once.
pub struct AgentConnection {
    pub info: AgentInfo,
    pub session_id: String,
    pub rooms: Vec<String>,
}

impl AgentConnection {
    /// Whether no room occurs twice.
    pub open spec fn well_formed(&self) -> bool {
        self.rooms.deep_view().no_duplicates()
    }

    /// A connection of an agent that is in no room yet.
    pub fn new(info: AgentInfo, session_id: String) -> (r: AgentConnection)
        ensures
            r.info == info,
            r.session_id == session_id,
            r.rooms@.len() == 0,
            r.well_formed(),
    {
        AgentConnection { info, session_id, rooms: Vec::new() }
    }

    /// The position of a room among those of the agent.
    fn position(&self, room_id: &str) -> (r: Option<usize>)
        ensures
            match r {
                Some(i) => i < self.rooms.len() && self.rooms.deep_view()[i as int] == room_id@,
                None => !self.rooms.deep_view().contains(room_id@),
            },
    {
        let mut i: usize = 0;
        while i < self.rooms.len()
            invariant
                i <= self.rooms.len(),
                forall|j: int| 0 <= j < i ==> self.rooms.deep_view()[j] != room_id@,
            decreases self.rooms.len() - i,
        {
            if *self.rooms[i].as_str() == *room_id {
                return Some(i);
            }
            i = i + 1;
        }
        None
    }

    /// Notes that the agent is in a room.
    pub fn enter(&mut self, room_id: &str)
        requires
            old(self).well_formed(),
        ensures
            final(self).well_formed(),
            final(self).info == old(self).info,
            final(self).session_id == old(self).session_id,
            final(self).rooms.deep_view() == if old(self).rooms.deep_view().contains(room_id@) {
                old(self).rooms.deep_view()
            } else {
                old(self).rooms.deep_view().push(room_id@)
            },
    {
        let ghost before = self.rooms.deep_view();
        match self.position(room_id) {
            Some(i) => {
                assert(before.contains(before[i as int]));
            },
            None => {
                self.rooms.push(room_id.to_owned());
                assert(self.rooms.deep_view() =~= before.push(room_id@));
            },
        }
    }

    /// Notes that the agent is no longer in a room.
    pub fn leave(&mut self, room_id: &str)
        requires
            old(self).well_formed(),
        ensures
            final(self).well_formed(),
            final(self).info == old(self).info,
            final(self).session_id == old(self).session_id,
            !final(self).rooms.deep_view().contains(room_id@),
            forall|r: Seq<char>|
                r != room_id@ ==> (#[trigger] final(self).rooms.deep_view().contains(r) == old(
                    self,
                ).rooms.deep_view().contains(r)),
    {
        let ghost before = self.rooms.deep_view();
        if let Some(i) = self.position(room_id) {
            let _ = self.rooms.remove(i);
            let ghost after = self.rooms.deep_view();
            proof {
                assert(after =~= before.remove(i as int));
                assert forall|r: Seq<char>| r != room_id@ && before.contains(
                    r,
                ) implies #[trigger] after.contains(r) by {
                    let k = choose|k: int| 0 <= k < before.len() && before[k] == r;
                    if k < i {
                        assert(after[k] == r);
                    } else {
                        assert(after[k - 1] == r);
                    }
                }
            }
        }
    }
}

// --- The steps ---

/// What a step leaves behind.
#[verifier::ext_equal]
pub struct StepView {
    pub phase: PhaseView,
    pub outputs: Seq<OutputView>,
    pub store: StoreView,
    pub rooms: Map<Seq<char>, EphemeralRoomView>,
}

/// Whether a key may register: any key where no authentication is asked for,
/// otherwise that of the server and those in the tables.
pub open spec fn authorized(
    key: Seq<char>,
    api_key: Seq<char>,
    no_auth: bool,
    s: StoreView,
) -> bool {
    no_auth || key == api_key || any(s.keys, with_key(key))
}

/// The tier of a key; one that the tables do not know is free.
pub open spec fn tier_of(key: Seq<char>, s: StoreView) -> Seq<char> {
    match first_match(s.keys, with_key(key)) {
        Some(row) => row.tier,
        None => "free"@,
    }
}

/// The id that an agent registers under: the one it asks for, or a fresh one.
pub open spec fn chosen_id(payload: RegisterPayloadView, id: Seq<char>) -> Seq<char> {
    match payload.agent_id {
        Some(a) => a,
        None => id,
    }
}

/// An error sent to the agent.
pub open spec fn complaint(
    reply_to: Option<Seq<char>>,
    code: ErrorCode,
    message: Seq<char>,
) -> OutputView {
    OutputView::Send { reply_to, reply: ReplyView::Error { code, message } }
}

/// An action for other agents.
pub open spec fn act(action: ActionView) -> OutputView {
    OutputView::Act { action }
}

/// The step that asks for the agent id.
pub open spec fn naming(
    req_id: Option<Seq<char>>,
    payload: RegisterPayloadView,
    key: Seq<char>,
    id: Seq<char>,
) -> (PhaseView, Seq<OutputView>) {
    let agent_id = chosen_id(payload, id);
    (PhaseView::Naming { req_id, payload, key, agent_id }, seq![OutputView::CheckId { agent_id }])
}

/// What a line before registration leads to.
pub open spec fn greeted(
    line: LineView,
    api_key: Seq<char>,
    no_auth: bool,
    s: StoreView,
    id: Seq<char>,
) -> (PhaseView, Seq<OutputView>) {
    match line {
        LineView::Bad { why } => (
            PhaseView::Greeting,
            seq![complaint(None, ErrorCode::InvalidPayload, why)],
        ),
        LineView::Ping { id: req_id } => (
            PhaseView::Greeting,
            seq![OutputView::Send { reply_to: req_id, reply: ReplyView::Pong }],
        ),
        LineView::BadRegister { id: req_id, why } => (
            PhaseView::Greeting,
            seq![complaint(req_id, ErrorCode::InvalidPayload, why)],
        ),
        LineView::Other { id: req_id } => (
            PhaseView::Greeting,
            seq![complaint(req_id, ErrorCode::NotRegistered, "Must register first"@)],
        ),
        LineView::Register { id: req_id, payload } => if !authorized(payload.key, api_key, no_auth, s) {
            (
                PhaseView::Closed,
                seq![
                    complaint(req_id, ErrorCode::Unauthorized, "Invalid API key"@),
                    OutputView::Close,
                ],
            )
        } else if !no_auth && payload.key.len() > 0 {
            (
                PhaseView::Limiting { req_id, payload, key: payload.key },
                seq![OutputView::CheckLimit { key: payload.key, tier: tier_of(payload.key, s) }],
            )
        } else {
            naming(req_id, payload, payload.key, id)
        },
    }
}

/// The tables with a session started; one whose id is not new changes nothing.
pub open spec fn session_recorded(s: StoreView, row: SessionRowView) -> StoreView {
    if any(s.sessions, with_session_id(row.session_id)) {
        s
    } else {
        with_session(s, row)
    }
}

/// What a free agent id leads to: the agent is registered.
pub open spec fn registered(
    req_id: Option<Seq<char>>,
    payload: RegisterPayloadView,
    key: Seq<char>,
    agent_id: Seq<char>,
    session_id: Seq<char>,
    now: Timestamp,
    s: StoreView,
    rooms: Map<Seq<char>, EphemeralRoomView>,
) -> StepView {
    let welcome = OutputView::Send {
        reply_to: req_id,
        reply: ReplyView::Registered { agent_id, name: payload.name },
    };
    let attach = act(
        ActionView::Attach {
            info: AgentInfoView {
                agent_id,
                name: payload.name,
                capabilities: payload.capabilities,
                connected_at: Some(now),
            },
            session_id,
            key,
        },
    );
    StepView {
        phase: PhaseView::Serving { agent_id, session_id, key },
        outputs: if key.len() > 0 {
            seq![welcome, act(ActionView::AddAgent { key }), attach]
        } else {
            seq![welcome, attach]
        },
        store: session_recorded(
            s,
            SessionRowView {
                session_id,
                agent_id,
                agent_name: payload.name,
                capabilities: texts_json(payload.capabilities),
                connected_at: shown(now, COLUMN_FORMAT@),
                disconnected_at: None,
            },
        ),
        rooms,
    }
}

/// What the rooms that an agent left lead to, one after the other: the members
/// are told, and an ephemeral room that is empty now ends.
pub open spec fn farewell(
    left: Seq<LeftRoomView>,
    agent_id: Seq<char>,
    rooms: Map<Seq<char>, EphemeralRoomView>,
) -> (Seq<OutputView>, Map<Seq<char>, EphemeralRoomView>)
    decreases left.len(),
{
    if left.len() == 0 {
        (Seq::empty(), rooms)
    } else {
        let (said, held) = farewell(left.drop_last(), agent_id, rooms);
        let room_id = left.last().room_id;
        let told = said.push(
            act(
                ActionView::BroadcastAll {
                    room_id,
                    event: EventView::AgentLeft { room_id, agent_id },
                },
            ),
        );
        if left.last().empty && held.contains_key(room_id) {
            (
                told + room_destroyed(room_id).map_values(|a: ActionView| act(a)),
                held.remove(room_id),
            )
        } else {
            (told, held)
        }
    }
}

/// What an input leads to in a phase. An input that does not belong to the phase
/// changes nothing.
pub open spec fn stepped(
    phase: PhaseView,
    input: InputView,
    api_key: Seq<char>,
    no_auth: bool,
    s: StoreView,
    rooms: Map<Seq<char>, EphemeralRoomView>,
    id: Seq<char>,
    now: Timestamp,
) -> StepView {
    match (phase, input) {
        (PhaseView::Greeting, InputView::Ended) => StepView {
            phase: PhaseView::Closed,
            outputs: seq![OutputView::Close],
            store: s,
            rooms,
        },
        (PhaseView::Greeting, InputView::Line { line }) => {
            let next = greeted(line, api_key, no_auth, s, id);
            StepView { phase: next.0, outputs: next.1, store: s, rooms }
        },
        (PhaseView::Limiting { req_id, payload, key }, InputView::Limited { over }) => if over {
            StepView {
                phase: PhaseView::Closed,
                outputs: seq![
                    complaint(
                        req_id,
                        ErrorCode::RateLimitAgents,
                        "Agent limit exceeded for this API key"@,
                    ),
                    OutputView::Close,
                ],
                store: s,
                rooms,
            }
        } else {
            let next = naming(req_id, payload, key, id);
            StepView { phase: next.0, outputs: next.1, store: s, rooms }
        },
        (
            PhaseView::Naming { req_id, payload, key, agent_id },
            InputView::Taken { taken },
        ) => if taken {
            StepView {
                phase: PhaseView::Greeting,
                outputs: seq![
                    complaint(req_id, ErrorCode::AgentIdTaken, "Agent ID already in use"@),
                ],
                store: s,
                rooms,
            }
        } else {
            registered(req_id, payload, key, agent_id, id, now, s, rooms)
        },
        (PhaseView::Serving { .. }, InputView::Line { line }) => StepView {
            phase,
            outputs: match line {
                LineView::Bad { why } => seq![complaint(None, ErrorCode::InvalidPayload, why)],
                _ => seq![OutputView::Handle { req_id: line.id() }],
            },
            store: s,
            rooms,
        },
        (PhaseView::Serving { agent_id, session_id, key }, InputView::Ended) => StepView {
            phase: PhaseView::Leaving { agent_id, session_id },
            outputs: if key.len() > 0 {
                seq![
                    act(ActionView::RemoveAgent { key }),
                    OutputView::LeaveAllRooms { agent_id },
                ]
            } else {
                seq![OutputView::LeaveAllRooms { agent_id }]
            },
            store: s,
            rooms,
        },
        (PhaseView::Leaving { agent_id, session_id }, InputView::Left { rooms: left }) => {
            let gone = farewell(left, agent_id, rooms);
            StepView {
                phase: PhaseView::Closed,
                outputs: gone.0 + seq![
                    act(ActionView::ClearLeader { agent_id }),
                    act(ActionView::Detach { agent_id }),
                    OutputView::Close,
                ],
                store: with_session_ended(s, session_id, shown(now, COLUMN_FORMAT@)),
                rooms: gone.1,
            }
        },
        _ => StepView { phase, outputs: Seq::empty(), store: s, rooms },
    }
}

fn say(reply_to: Option<String>, code: ErrorCode, message: &str) -> (r: Output)
    ensures
        r@ == complaint(reply_to.deep_view(), code, message@),
{
    Output::Send { reply_to, reply: Reply::Error { code, message: message.to_owned() } }
}

fn one(o: Output) -> (r: Vec<Output>)
    ensures
        views(r@) == seq![o@],
{
    let mut out: Vec<Output> = Vec::new();
    out.push(o);
    assert(views(out@) =~= seq![o@]);
    out
}

fn two(a: Output, b: Output) -> (r: Vec<Output>)
    ensures
        views(r@) == seq![a@, b@],
{
    let mut out: Vec<Output> = Vec::new();
    out.push(a);
    out.push(b);
    assert(views(out@) =~= seq![a@, b@]);
    out
}

fn name_agent(
    req_id: Option<String>,
    payload: RegisterPayload,
    key: String,
    id: &str,
) -> (r: (Phase, Vec<Output>))
    ensures
        (r.0@, views(r.1@)) == naming(req_id.deep_view(), payload@, key@, id@),
{
    let agent_id = match &payload.agent_id {
        Some(a) => a.clone(),
        None => id.to_owned(),
    };
    let outputs = one(Output::CheckId { agent_id: agent_id.clone() });
    (Phase::Naming { req_id, payload, key, agent_id }, outputs)
}

fn greet(line: Line, api_key: &str, no_auth: bool, store: &Store, id: &str) -> (r: (
    Phase,
    Vec<Output>,
))
    ensures
        (r.0@, views(r.1@)) == greeted(line@, api_key@, no_auth, store@, id@),
{
    match line {
        Line::Bad { why } => (
            Phase::Greeting,
            one(say(None, ErrorCode::InvalidPayload, why.as_str())),
        ),
        Line::Ping { id: req_id } => (
            Phase::Greeting,
            one(Output::Send { reply_to: req_id, reply: Reply::Pong }),
        ),
        Line::BadRegister { id: req_id, why } => (
            Phase::Greeting,
            one(say(req_id, ErrorCode::InvalidPayload, why.as_str())),
        ),
        Line::Other { id: req_id } => (
            Phase::Greeting,
            one(say(req_id, ErrorCode::NotRegistered, "Must register first")),
        ),
        Line::Register { id: req_id, payload } => {
            let key = payload.key.clone();
            let ok = no_auth || *key.as_str() == *api_key || match store.validate_api_key(
                key.as_str(),
            ) {
                Ok(known) => known,
                Err(_) => false,
            };
            if !ok {
                return (
                    Phase::Closed,
                    two(say(req_id, ErrorCode::Unauthorized, "Invalid API key"), Output::Close),
                );
            }
            proof {
                reveal_strlit("");
                assert(key@.len() == 0 ==> key@ =~= ""@);
            }
            if !no_auth && !(*key.as_str() == *"") {
                let tier = match store.get_key_tier(key.as_str()) {
                    Ok(tier) => tier,
                    Err(_) => "free".to_owned(),
                };
                let outputs = one(Output::CheckLimit { key: key.clone(), tier });
                (Phase::Limiting { req_id, payload, key }, outputs)
            } else {
                name_agent(req_id, payload, key, id)
            }
        },
    }
}

fn register(
    req_id: Option<String>,
    payload: RegisterPayload,
    key: String,
    agent_id: String,
    session_id: &str,
    now: Timestamp,
    store: &mut Store,
    Ghost(rooms): Ghost<Map<Seq<char>, EphemeralRoomView>>,
) -> (r: (Phase, Vec<Output>))
    ensures
        (StepView {
            phase: r.0@,
            outputs: views(r.1@),
            store: final(store)@,
            rooms,
        }) == registered(
            req_id.deep_view(),
            payload@,
            key@,
            agent_id@,
            session_id@,
            now,
            old(store)@,
            rooms,
        ),
{
    let ghost goal = registered(
        req_id.deep_view(),
        payload@,
        key@,
        agent_id@,
        session_id@,
        now,
        store@,
        rooms,
    );
    let connected_at = show(now, COLUMN_FORMAT);
    let _ = store.record_session_start_at(
        session_id,
        agent_id.as_str(),
        payload.name.as_str(),
        &payload.capabilities,
        connected_at.as_str(),
    );
    let mut outputs: Vec<Output> = Vec::new();
    outputs.push(
        Output::Send {
            reply_to: req_id,
            reply: Reply::Registered { agent_id: agent_id.clone(), name: payload.name.clone() },
        },
    );
    proof {
        reveal_strlit("");
        assert(key@.len() == 0 ==> key@ =~= ""@);
    }
    if !(*key.as_str() == *"") {
        outputs.push(Output::Act { action: Action::AddAgent { key: key.clone() } });
    }
    outputs.push(
        Output::Act {
            action: Action::Attach {
                info: AgentInfo {
                    agent_id: agent_id.clone(),
                    name: payload.name.clone(),
                    capabilities: copy_list(&payload.capabilities),
                    connected_at: Some(now),
                },
                session_id: session_id.to_owned(),
                key: key.clone(),
            },
        },
    );
    assert(views(outputs@) =~= goal.outputs);
    (Phase::Serving { agent_id, session_id: session_id.to_owned(), key }, outputs)
}

fn say_farewell(
    left: &Vec<LeftRoom>,
    agent_id: &str,
    rooms: &mut DashMap<String, EphemeralRoom>,
) -> (r: Vec<Output>)
    ensures
        (views(r@), rooms_of(*final(rooms))) == farewell(
            views(left@),
            agent_id@,
            rooms_of(*old(rooms)),
        ),
{
    let ghost all = views(left@);
    let ghost before = rooms_of(*rooms);
    let mut out: Vec<Output> = Vec::new();
    let mut i: usize = 0;
    assert(all.take(0) =~= Seq::empty());
    assert(views(out@) =~= farewell(all.take(0), agent_id@, before).0);
    while i < left.len()
        invariant
            i <= left.len(),
            all == views(left@),
            (views(out@), rooms_of(*rooms)) == farewell(all.take(i as int), agent_id@, before),
        decreases left.len() - i,
    {
        let ghost said = views(out@);
        let ghost held = rooms_of(*rooms);
        proof {
            assert(all.take(i + 1).drop_last() =~= all.take(i as int));
            assert(all.take(i + 1).last() == left@[i as int]@);
        }
        let room_id = left[i].room_id.as_str();
        out.push(
            Output::Act {
                action: Action::BroadcastAll {
                    room_id: room_id.to_owned(),
                    event: Event::AgentLeft {
                        room_id: room_id.to_owned(),
                        agent_id: agent_id.to_owned(),
                    },
                },
            },
        );
        let ghost told = views(out@);
        assert(told =~= farewell_told(said, room_id@, agent_id@));
        let actions = destroy_if_empty(room_id, left[i].empty, rooms);
        let ghost ending = views(actions@);
        let mut rest: Vec<Output> = wrap(actions);
        out.append(&mut rest);
        assert(views(out@) =~= told + ending.map_values(|a: ActionView| act(a)));
        i = i + 1;
        assert(views(out@) =~= farewell(all.take(i as int), agent_id@, before).0);
    }
    assert(all.take(i as int) =~= all);
    out
}

spec fn farewell_told(
    said: Seq<OutputView>,
    room_id: Seq<char>,
    agent_id: Seq<char>,
) -> Seq<OutputView> {
    said.push(
        act(
            ActionView::BroadcastAll {
                room_id,
                event: EventView::AgentLeft { room_id, agent_id },
            },
        ),
    )
}

fn wrap(actions: Vec<Action>) -> (r: Vec<Output>)
    ensures
        views(r@) == views(actions@).map_values(|a: ActionView| act(a)),
{
    let mut rest = actions;
    let mut reversed: Vec<Action> = Vec::new();
    while rest.len() > 0
        invariant
            rest@ + reversed@.reverse() == actions@,
        decreases rest.len(),
    {
        let ghost r0 = rest@;
        let ghost v0 = reversed@;
        let x = rest.pop().unwrap();
        reversed.push(x);
        assert(rest@ + reversed@.reverse() =~= r0 + v0.reverse());
    }
    assert(reversed@.reverse() =~= actions@);
    let mut out: Vec<Output> = Vec::new();
    while reversed.len() > 0
        invariant
            out.len() + reversed.len() == actions@.len(),
            reversed@ == actions@.skip(out.len() as int).reverse(),
            forall|j: int|
                0 <= j < out.len() ==> (#[trigger] out@[j])@ == act(actions@[j]@),
        decreases reversed.len(),
    {
        let ghost k = out.len() as int;
        let action = reversed.pop().unwrap();
        assert(action == actions@[k]);
        assert(reversed@ =~= actions@.skip(k + 1).reverse());
        out.push(Output::Act { action });
    }
    assert(views(out@) =~= views(actions@).map_values(|a: ActionView| act(a)));
    out
}

/// Goes one step further on a connection. `id` is used where a fresh identifier
/// is needed: for an agent that asks for none, or for the session.
pub fn step(
    phase: Phase,
    input: Input,
    api_key: &str,
    no_auth: bool,
    store: &mut Store,
    rooms: &mut DashMap<String, EphemeralRoom>,
    id: &str,
    now: Timestamp,
) -> (r: (Phase, Vec<Output>))
    ensures
        (StepView {
            phase: r.0@,
            outputs: views(r.1@),
            store: final(store)@,
            rooms: rooms_of(*final(rooms)),
        }) == stepped(
            phase@,
            input@,
            api_key@,
            no_auth,
            old(store)@,
            rooms_of(*old(rooms)),
            id@,
            now,
        ),
{
    match (phase, input) {
        (Phase::Greeting, Input::Ended) => (Phase::Closed, one(Output::Close)),
        (Phase::Greeting, Input::Line { line }) => greet(line, api_key, no_auth, store, id),
        (Phase::Limiting { req_id, payload, key }, Input::Limited { over }) => {
            if over {
                (
                    Phase::Closed,
                    two(
                        say(
                            req_id,
                            ErrorCode::RateLimitAgents,
                            "Agent limit exceeded for this API key",
                        ),
                        Output::Close,
                    ),
                )
            } else {
                name_agent(req_id, payload, key, id)
            }
        },
        (Phase::Naming { req_id, payload, key, agent_id }, Input::Taken { taken }) => {
            if taken {
                (
                    Phase::Greeting,
                    one(say(req_id, ErrorCode::AgentIdTaken, "Agent ID already in use")),
                )
            } else {
                let ghost held = rooms_of(*rooms);
                register(req_id, payload, key, agent_id, id, now, store, Ghost(held))
            }
        },
        (Phase::Serving { agent_id, session_id, key }, Input::Line { line }) => {
            let outputs = match line {
                Line::Bad { why } => one(say(None, ErrorCode::InvalidPayload, why.as_str())),
                Line::Ping { id: req_id } => one(Output::Handle { req_id }),
                Line::Register { id: req_id, .. } => one(Output::Handle { req_id }),
                Line::BadRegister { id: req_id, .. } => one(Output::Handle { req_id }),
                Line::Other { id: req_id } => one(Output::Handle { req_id }),
            };
            (Phase::Serving { agent_id, session_id, key }, outputs)
        },
        (Phase::Serving { agent_id, session_id, key }, Input::Ended) => {
            proof {
                reveal_strlit("");
                assert(key@.len() == 0 ==> key@ =~= ""@);
            }
            let leave = Output::LeaveAllRooms { agent_id: agent_id.clone() };
            let outputs = if !(*key.as_str() == *"") {
                two(Output::Act { action: Action::RemoveAgent { key } }, leave)
            } else {
                one(leave)
            };
            (Phase::Leaving { agent_id, session_id }, outputs)
        },
        (Phase::Leaving { agent_id, session_id }, Input::Left { rooms: left }) => {
            let mut outputs = say_farewell(&left, agent_id.as_str(), rooms);
            let ghost said = views(outputs@);
            let at = show(now, COLUMN_FORMAT);
            let _ = store.record_session_end_at(session_id.as_str(), at.as_str());
            outputs.push(
                Output::Act { action: Action::ClearLeader { agent_id: agent_id.clone() } },
            );
            outputs.push(Output::Act { action: Action::Detach { agent_id: agent_id.clone() } });
            outputs.push(Output::Close);
            assert(views(outputs@) =~= said + seq![
                act(ActionView::ClearLeader { agent_id: agent_id@ }),
                act(ActionView::Detach { agent_id: agent_id@ }),
                OutputView::Close,
            ]);
            (Phase::Closed, outputs)
        },
        (phase, _) => {
            let none: Vec<Output> = Vec::new();
            assert(views(none@) =~= Seq::empty());
            (phase, none)
        },
    }
}

/// Goes one step further on a connection, with a fresh identifier and the time
/// of the clock.
pub fn advance(
    phase: Phase,
    input: Input,
    api_key: &str,
    no_auth: bool,
    store: &mut Store,
    rooms: &mut DashMap<String, EphemeralRoom>,
) -> (r: (Phase, Vec<Output>))
    ensures
        exists|id: Seq<char>, at: Timestamp|
            id.len() == ID_LENGTH && in_calendar(at) && (StepView {
                phase: r.0@,
                outputs: views(r.1@),
                store: final(store)@,
                rooms: rooms_of(*final(rooms)),
            }) == #[trigger] stepped(
                phase@,
                input@,
                api_key@,
                no_auth,
                old(store)@,
                rooms_of(*old(rooms)),
                id,
                at,
            ),
{
    let id = new_id();
    let at = now();
    step(phase, input, api_key, no_auth, store, rooms, id.as_str(), at)
}

// --- What holds of every connection ---

/// Whether a connection that is past the greeting presented a key that may
/// register.
pub open spec fn key_checked(
    phase: PhaseView,
    api_key: Seq<char>,
    no_auth: bool,
    s: StoreView,
) -> bool {
    match phase {
        PhaseView::Limiting { payload, key, .. } => key == payload.key && authorized(
            key,
            api_key,
            no_auth,
            s,
        ),
        PhaseView::Naming { payload, key, .. } => key == payload.key && authorized(
            key,
            api_key,
            no_auth,
            s,
        ),
        PhaseView::Serving { key, .. } => authorized(key, api_key, no_auth, s),
        _ => true,
    }
}

/// No step serves an agent whose key may not register.
pub proof fn only_authorized_agents_are_served(
    phase: PhaseView,
    input: InputView,
    api_key: Seq<char>,
    no_auth: bool,
    s: StoreView,
    rooms: Map<Seq<char>, EphemeralRoomView>,
    id: Seq<char>,
    now: Timestamp,
)
    requires
        key_checked(phase, api_key, no_auth, s),
    ensures
        ({
            let next = stepped(phase, input, api_key, no_auth, s, rooms, id, now);
            key_checked(next.phase, api_key, no_auth, next.store)
        }),
{
}

/// The id of the frame that an input is about: of the line that came in, or of
/// the registration that is going on.
pub open spec fn asking(phase: PhaseView, input: InputView) -> Option<Seq<char>> {
    match (phase, input) {
        (_, InputView::Line { line }) => line.id(),
        (PhaseView::Limiting { req_id, .. }, _) => req_id,
        (PhaseView::Naming { req_id, .. }, _) => req_id,
        _ => None,
    }
}

/// Whether an output that answers, or has a command answered, does so under an
/// id.
pub open spec fn goes_to(o: OutputView, req_id: Option<Seq<char>>) -> bool {
    match o {
        OutputView::Send { reply_to, .. } => reply_to == req_id,
        OutputView::Handle { req_id: named } => named == req_id,
        _ => true,
    }
}

/// Every answer carries the id of the frame it is for, and none where the line
/// held no frame. A registration that is going on remembers its id.
pub proof fn answers_go_to_their_frames(
    phase: PhaseView,
    input: InputView,
    api_key: Seq<char>,
    no_auth: bool,
    s: StoreView,
    rooms: Map<Seq<char>, EphemeralRoomView>,
    id: Seq<char>,
    now: Timestamp,
)
    ensures
        ({
            let next = stepped(phase, input, api_key, no_auth, s, rooms, id, now);
            &&& forall|i: int|
                0 <= i < next.outputs.len() ==> goes_to(
                    #[trigger] next.outputs[i],
                    asking(phase, input),
                )
            &&& next.phase != phase ==> match next.phase {
                PhaseView::Limiting { req_id, .. } => req_id == asking(phase, input),
                PhaseView::Naming { req_id, .. } => req_id == asking(phase, input),
                _ => true,
            }
        }),
{
    if let (PhaseView::Leaving { agent_id, .. }, InputView::Left { rooms: left }) = (phase, input) {
        lemma_farewell_only_acts(left, agent_id, rooms);
    }
}

proof fn lemma_farewell_only_acts(
    left: Seq<LeftRoomView>,
    agent_id: Seq<char>,
    rooms: Map<Seq<char>, EphemeralRoomView>,
)
    ensures
        ({
            let said = farewell(left, agent_id, rooms).0;
            forall|i: int| 0 <= i < said.len() ==> (#[trigger] said[i]) is Act
        }),
    decreases left.len(),
{
    if left.len() > 0 {
        lemma_farewell_only_acts(left.drop_last(), agent_id, rooms);
    }
}

/// A line that comes before the registration is answered at once, unless it
/// registers: no agent is added, no session starts, and nothing is handed on.
pub proof fn nothing_happens_before_registration(
    line: LineView,
    api_key: Seq<char>,
    no_auth: bool,
    s: StoreView,
    rooms: Map<Seq<char>, EphemeralRoomView>,
    id: Seq<char>,
    now: Timestamp,
)
    requires
        !(line is Register),
    ensures
        ({
            let next = stepped(
                PhaseView::Greeting,
                InputView::Line { line },
                api_key,
                no_auth,
                s,
                rooms,
                id,
                now,
            );
            &&& next.phase is Greeting
            &&& next.store == s
            &&& next.rooms == rooms
            &&& next.outputs.len() == 1
            &&& next.outputs[0] matches OutputView::Send { reply_to, .. } && reply_to == line.id()
        }),
{
}

/// A registration with a key that may not register is answered that it is not
/// authorized and ends the connection; no other registration is.
pub proof fn only_unauthorized_agents_are_turned_away(
    req_id: Option<Seq<char>>,
    payload: RegisterPayloadView,
    api_key: Seq<char>,
    no_auth: bool,
    s: StoreView,
    rooms: Map<Seq<char>, EphemeralRoomView>,
    id: Seq<char>,
    now: Timestamp,
)
    ensures
        ({
            let next = stepped(
                PhaseView::Greeting,
                InputView::Line { line: LineView::Register { id: req_id, payload } },
                api_key,
                no_auth,
                s,
                rooms,
                id,
                now,
            );
            let refusal = complaint(req_id, ErrorCode::Unauthorized, "Invalid API key"@);
            &&& next.store == s
            &&& next.rooms == rooms
            &&& !authorized(payload.key, api_key, no_auth, s) ==> next.phase is Closed
                && next.outputs == seq![refusal, OutputView::Close]
            &&& authorized(payload.key, api_key, no_auth, s) ==> !(next.phase is Closed) && !any(
                next.outputs,
                |o: OutputView| o is Send,
            )
        }),
{
}

/// An agent that may register, within the limit of its key, is answered under
/// the id of its registration: that its agent id is in use, which changes nothing
/// and lets it try again, or that it is registered.
pub proof fn registrations_are_answered(
    req_id: Option<Seq<char>>,
    payload: RegisterPayloadView,
    taken: bool,
    api_key: Seq<char>,
    no_auth: bool,
    s: StoreView,
    rooms: Map<Seq<char>, EphemeralRoomView>,
    id: Seq<char>,
    now: Timestamp,
)
    requires
        authorized(payload.key, api_key, no_auth, s),
    ensures
        ({
            let line = LineView::Register { id: req_id, payload };
            let first = stepped(
                PhaseView::Greeting,
                InputView::Line { line },
                api_key,
                no_auth,
                s,
                rooms,
                id,
                now,
            );
            let named = if first.phase is Limiting {
                let over = false;
                let within = InputView::Limited { over };
                stepped(first.phase, within, api_key, no_auth, s, rooms, id, now)
            } else {
                first
            };
            let heard = InputView::Taken { taken };
            let last = stepped(named.phase, heard, api_key, no_auth, s, rooms, id, now);
            &&& first.store == s && named.store == s
            &&& named.outputs == seq![OutputView::CheckId { agent_id: chosen_id(payload, id) }]
            &&& taken ==> last == (StepView {
                phase: PhaseView::Greeting,
                outputs: seq![
                    complaint(req_id, ErrorCode::AgentIdTaken, "Agent ID already in use"@),
                ],
                store: s,
                rooms,
            })
            &&& !taken ==> last.phase is Serving && last.outputs[0] == (OutputView::Send {
                reply_to: req_id,
                reply: ReplyView::Registered {
                    agent_id: chosen_id(payload, id),
                    name: payload.name,
                },
            })
        }),
{
}

/// Whether an output adds an agent to the count of a key.
pub open spec fn counts(o: OutputView, key: Seq<char>) -> bool {
    o == act(ActionView::AddAgent { key })
}

/// Whether an output takes an agent from the count of a key.
pub open spec fn uncounts(o: OutputView, key: Seq<char>) -> bool {
    o == act(ActionView::RemoveAgent { key })
}

/// An agent that is registered under a key is counted for it, once it leaves it
/// is uncounted, and neither happens to an agent without a key.
pub proof fn agents_are_counted_and_uncounted(
    req_id: Option<Seq<char>>,
    payload: RegisterPayloadView,
    key: Seq<char>,
    agent_id: Seq<char>,
    session_id: Seq<char>,
    api_key: Seq<char>,
    no_auth: bool,
    s: StoreView,
    rooms: Map<Seq<char>, EphemeralRoomView>,
    id: Seq<char>,
    now: Timestamp,
)
    ensures
        ({
            let entered = stepped(
                PhaseView::Naming { req_id, payload, key, agent_id },
                InputView::Taken { taken: false },
                api_key,
                no_auth,
                s,
                rooms,
                id,
                now,
            );
            let left = stepped(
                PhaseView::Serving { agent_id, session_id, key },
                InputView::Ended,
                api_key,
                no_auth,
                s,
                rooms,
                id,
                now,
            );
            &&& entered.phase is Serving
            &&& left.phase is Leaving
            &&& any(entered.outputs, |o: OutputView| counts(o, key)) <==> key.len() > 0
            &&& any(left.outputs, |o: OutputView| uncounts(o, key)) <==> key.len() > 0
        }),
{
    let entered = stepped(
        PhaseView::Naming { req_id, payload, key, agent_id },
        InputView::Taken { taken: false },
        api_key,
        no_auth,
        s,
        rooms,
        id,
        now,
    );
    let left = stepped(
        PhaseView::Serving { agent_id, session_id, key },
        InputView::Ended,
        api_key,
        no_auth,
        s,
        rooms,
        id,
        now,
    );
    if key.len() > 0 {
        assert(counts(entered.outputs[1], key));
        assert(uncounts(left.outputs[0], key));
    } else {
        assert(entered.outputs.len() == 2);
        assert(!counts(entered.outputs[0], key));
        assert(!counts(entered.outputs[1], key));
        assert(left.outputs.len() == 1);
        assert(!uncounts(left.outputs[0], key));
    }
}

proof fn lemma_farewell_only_removes(
    left: Seq<LeftRoomView>,
    agent_id: Seq<char>,
    rooms: Map<Seq<char>, EphemeralRoomView>,
)
    ensures
        forall|k: Seq<char>| #[trigger]
            farewell(left, agent_id, rooms).1.contains_key(k) ==> rooms.contains_key(k)
                && farewell(left, agent_id, rooms).1[k] == rooms[k],
        forall|i: int|
            0 <= i < left.len() && (#[trigger] left[i]).empty ==> !farewell(
                left,
                agent_id,
                rooms,
            ).1.contains_key(left[i].room_id),
    decreases left.len(),
{
    if left.len() > 0 {
        let front = left.drop_last();
        lemma_farewell_only_removes(front, agent_id, rooms);
        let held = farewell(front, agent_id, rooms).1;
        let kept = farewell(left, agent_id, rooms).1;
        assert forall|k: Seq<char>| #[trigger] kept.contains_key(k) implies rooms.contains_key(k)
            && kept[k] == rooms[k] by {
            assert(held.contains_key(k));
        }
        assert forall|i: int| 0 <= i < left.len() && (#[trigger] left[i]).empty implies !farewell(
            left,
            agent_id,
            rooms,
        ).1.contains_key(left[i].room_id) by {
            if i < front.len() {
                assert(front[i] == left[i]);
            }
        }
    }
}

/// An ephemeral room ends when its last member disconnects, and no other
/// ephemeral room changes.
pub proof fn empty_ephemeral_rooms_end(
    left: Seq<LeftRoomView>,
    agent_id: Seq<char>,
    session_id: Seq<char>,
    api_key: Seq<char>,
    no_auth: bool,
    s: StoreView,
    rooms: Map<Seq<char>, EphemeralRoomView>,
    id: Seq<char>,
    now: Timestamp,
)
    ensures
        ({
            let after = stepped(
                PhaseView::Leaving { agent_id, session_id },
                InputView::Left { rooms: left },
                api_key,
                no_auth,
                s,
                rooms,
                id,
                now,
            ).rooms;
            &&& forall|i: int|
                0 <= i < left.len() && (#[trigger] left[i]).empty ==> !after.contains_key(
                    left[i].room_id,
                )
            &&& forall|k: Seq<char>| #[trigger]
                after.contains_key(k) ==> rooms.contains_key(k) && after[k] == rooms[k]
            &&& forall|k: Seq<char>| #[trigger]
                rooms.contains_key(k) && !after.contains_key(k) ==> exists|i: int|
                    0 <= i < left.len() && (#[trigger] left[i]).empty && left[i].room_id == k
        }),
{
    lemma_farewell_only_removes(left, agent_id, rooms);
    lemma_farewell_keeps_others(left, agent_id, rooms);
}

proof fn lemma_farewell_keeps_others(
    left: Seq<LeftRoomView>,
    agent_id: Seq<char>,
    rooms: Map<Seq<char>, EphemeralRoomView>,
)
    ensures
        forall|k: Seq<char>| #[trigger]
            rooms.contains_key(k) && !farewell(left, agent_id, rooms).1.contains_key(k)
                ==> exists|i: int|
                0 <= i < left.len() && (#[trigger] left[i]).empty && left[i].room_id == k,
    decreases left.len(),
{
    if left.len() > 0 {
        let front = left.drop_last();
        lemma_farewell_keeps_others(front, agent_id, rooms);
        assert forall|k: Seq<char>| #[trigger]
            rooms.contains_key(k) && !farewell(left, agent_id, rooms).1.contains_key(
                k,
            ) implies exists|i: int|
            0 <= i < left.len() && (#[trigger] left[i]).empty && left[i].room_id == k by {
            if farewell(front, agent_id, rooms).1.contains_key(k) {
                assert(left[left.len() - 1].empty && left[left.len() - 1].room_id == k);
            } else {
                let i = choose|i: int|
                    0 <= i < front.len() && (#[trigger] front[i]).empty && front[i].room_id == k;
                assert(left[i] == front[i]);
            }
        }
    }
}

} // verus!
