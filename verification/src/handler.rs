//! What the server does for each command of a registered agent.

use vstd::prelude::*;
use vstd::string::*;
use dashmap::DashMap;
use crate::ephemeral::{
    lists_rooms, lookup_room, put_room, rooms_below, rooms_of, take_room, EphemeralRoom,
    EphemeralRoomView,
};
use crate::models::{
    AgentInfo, AgentInfoView, CreateRoomPayload, JoinRoomPayload, LeaveRoomPayload,
    ListAgentsPayload, ListRoomsPayload, Room, RoomInfoPayload, RoomView,
};
use crate::protocol::{
    Action, ActionView, ErrorCode, Event, EventView, Facts, Outcome, OutcomeView, Question,
    QuestionView, Reply, ReplyView, Verdict, VerdictView,
};
use crate::rows::{any, find, first_match, ordered, views, Row};
use crate::store::rooms::{below, by_name, room_reads, room_refusal, with_room, with_room_id};
use crate::store::{RoomRowView, Store, StoreError, StoreErrorView, StoreView};
use crate::text::{copy_text, own};
use crate::time::{show, shown, Timestamp, COLUMN_FORMAT};

pub mod dispatch;
pub mod effects;
pub mod laws;
pub mod talk;
pub mod votes;

verus! {

// --- Answers ---

/// An answer without actions.
pub open spec fn plain(req_id: Option<Seq<char>>, reply: ReplyView) -> OutcomeView {
    OutcomeView { reply_to: req_id, actions: Seq::empty(), verdict: VerdictView::Answer { reply } }
}

/// A refusal.
pub open spec fn refused(
    req_id: Option<Seq<char>>,
    code: ErrorCode,
    message: Seq<char>,
) -> OutcomeView {
    plain(req_id, ReplyView::Error { code, message })
}

/// One action, then the answer.
pub open spec fn after_one(
    req_id: Option<Seq<char>>,
    action: ActionView,
    reply: ReplyView,
) -> OutcomeView {
    OutcomeView { reply_to: req_id, actions: seq![action], verdict: VerdictView::Answer { reply } }
}

/// A question without actions.
pub open spec fn asked(req_id: Option<Seq<char>>, question: QuestionView) -> OutcomeView {
    OutcomeView { reply_to: req_id, actions: Seq::empty(), verdict: VerdictView::Ask { question } }
}

pub(crate) fn answer(req_id: Option<&str>, reply: Reply) -> (r: Outcome)
    ensures
        r@ == plain(req_id.deep_view(), reply@),
{
    let r = Outcome {
        reply_to: own(req_id),
        actions: Vec::new(),
        verdict: Verdict::Answer { reply },
    };
    assert(r@ =~= plain(req_id.deep_view(), reply@));
    r
}

pub(crate) fn refuse(req_id: Option<&str>, code: ErrorCode, message: &str) -> (r: Outcome)
    ensures
        r@ == refused(req_id.deep_view(), code, message@),
{
    answer(req_id, Reply::Error { code, message: message.to_owned() })
}

pub(crate) fn act_and_answer(req_id: Option<&str>, action: Action, reply: Reply) -> (r: Outcome)
    ensures
        r@ == after_one(req_id.deep_view(), action@, reply@),
{
    let mut actions: Vec<Action> = Vec::new();
    actions.push(action);
    let r = Outcome { reply_to: own(req_id), actions, verdict: Verdict::Answer { reply } };
    assert(r@ =~= after_one(req_id.deep_view(), action@, reply@));
    r
}

pub(crate) fn ask(req_id: Option<&str>, question: Question) -> (r: Outcome)
    ensures
        r@ == asked(req_id.deep_view(), question@),
{
    let r = Outcome {
        reply_to: own(req_id),
        actions: Vec::new(),
        verdict: Verdict::Ask { question },
    };
    assert(r@ =~= asked(req_id.deep_view(), question@));
    r
}

/// Whether a room is known, permanent or ephemeral.
pub open spec fn room_known(
    s: StoreView,
    rooms: Map<Seq<char>, EphemeralRoomView>,
    room_id: Seq<char>,
) -> bool {
    any(s.rooms, with_room_id(room_id)) || rooms.contains_key(room_id)
}

fn knows_room(store: &Store, rooms: &DashMap<String, EphemeralRoom>, room_id: &str) -> (r: bool)
    ensures
        r == room_known(store@, rooms_of(*rooms), room_id@),
{
    store.has_room(room_id) || lookup_room(rooms, room_id).is_some()
}

// --- Rooms ---

/// An ephemeral room as it is created.
pub open spec fn ephemeral_room(
    p: CreateRoomPayload,
    agent_id: Seq<char>,
    room_id: Seq<char>,
    now: Timestamp,
) -> RoomView {
    RoomView {
        room_id,
        name: p.name@,
        description: p.description.deep_view(),
        parent_id: p.parent_id.deep_view(),
        ephemeral: true,
        created_at: now,
        created_by: Some(agent_id),
        visibility: "private"@,
        owner_key: None,
        last_activity: None,
        member_count: None,
        encrypted: false,
    }
}

/// The row of a permanent room as it is created.
pub open spec fn permanent_room(
    p: CreateRoomPayload,
    agent_id: Seq<char>,
    room_id: Seq<char>,
    now: Timestamp,
) -> RoomRowView {
    RoomRowView {
        room_id,
        name: p.name@,
        description: p.description.deep_view(),
        parent_id: p.parent_id.deep_view(),
        created_by: Some(agent_id),
        created_at: shown(now, COLUMN_FORMAT@),
        visibility: "private"@,
        owner_key: None,
        encrypted: false,
    }
}

/// The outcome of a room that was created: everybody is told.
pub open spec fn room_announced(req_id: Option<Seq<char>>, room: RoomView) -> OutcomeView {
    after_one(
        req_id,
        ActionView::SendAll { event: EventView::RoomCreated { room } },
        ReplyView::Room { room },
    )
}

/// What a room that the tables refuse is answered.
pub open spec fn room_refused(req_id: Option<Seq<char>>, e: StoreErrorView) -> OutcomeView {
    match e {
        StoreErrorView::RoomNameTaken(name) => refused(
            req_id,
            ErrorCode::RoomNameTaken,
            "Room name '"@ + name + "' already taken"@,
        ),
        other => refused(req_id, ErrorCode::InternalError, other.message()),
    }
}

/// What creating a room does. An ephemeral room is only remembered; a permanent
/// one needs a parent that is known, and goes into the tables.
pub open spec fn creates_room(
    req_id: Option<Seq<char>>,
    p: CreateRoomPayload,
    agent_id: Seq<char>,
    room_id: Seq<char>,
    now: Timestamp,
    before: (StoreView, Map<Seq<char>, EphemeralRoomView>),
    after: (StoreView, Map<Seq<char>, EphemeralRoomView>),
    out: OutcomeView,
) -> bool {
    let row = permanent_room(p, agent_id, room_id, now);
    if p.ephemeral {
        let room = ephemeral_room(p, agent_id, room_id, now);
        after == (before.0, before.1.insert(room_id, EphemeralRoomView { room, tip: 0 })) && out
            == room_announced(req_id, room)
    } else if row.parent_id matches Some(parent) && !room_known(before.0, before.1, parent) {
        after == before && out == refused(req_id, ErrorCode::RoomNotFound, "Parent room not found"@)
    } else {
        match room_refusal(before.0.rooms, row) {
            None => after == (with_room(before.0, row), before.1) && exists|room: RoomView|
                room_reads(row, room) && out == #[trigger] room_announced(req_id, room),
            Some(e) => after == before && out == room_refused(req_id, e),
        }
    }
}

/// Creates a room under the given id.
pub fn handle_create_room(
    req_id: Option<&str>,
    p: &CreateRoomPayload,
    agent_id: &str,
    store: &mut Store,
    rooms: &mut DashMap<String, EphemeralRoom>,
    room_id: &str,
    now: Timestamp,
) -> (out: Outcome)
    ensures
        creates_room(
            req_id.deep_view(),
            *p,
            agent_id@,
            room_id@,
            now,
            (old(store)@, rooms_of(*old(rooms))),
            (final(store)@, rooms_of(*final(rooms))),
            out@,
        ),
{
    if p.ephemeral {
        let room = Room {
            room_id: room_id.to_owned(),
            name: p.name.clone(),
            description: copy_text(&p.description),
            parent_id: copy_text(&p.parent_id),
            ephemeral: true,
            created_at: now,
            created_by: Some(agent_id.to_owned()),
            visibility: "private".to_owned(),
            owner_key: None,
            last_activity: None,
            member_count: None,
            encrypted: false,
        };
        put_room(rooms, room_id.to_owned(), EphemeralRoom { room: room.duplicate(), tip: 0 });
        return announce(req_id, room);
    }
    if let Some(parent) = &p.parent_id {
        if !knows_room(store, rooms, parent.as_str()) {
            return refuse(req_id, ErrorCode::RoomNotFound, "Parent room not found");
        }
    }
    let created_at = show(now, COLUMN_FORMAT);
    let description: Option<&str> = match &p.description {
        Some(d) => Some(d.as_str()),
        None => None,
    };
    let parent_id: Option<&str> = match &p.parent_id {
        Some(d) => Some(d.as_str()),
        None => None,
    };
    let made = store.create_room_at(
        room_id,
        p.name.as_str(),
        description,
        parent_id,
        Some(agent_id),
        "private",
        None,
        false,
        created_at.as_str(),
    );
    match made {
        Ok(room) => announce(req_id, room),
        Err(StoreError::RoomNameTaken(name)) => {
            let mut message = "Room name '".to_owned();
            message.append(name.as_str());
            message.append("' already taken");
            refuse(req_id, ErrorCode::RoomNameTaken, message.as_str())
        },
        Err(e) => {
            let text = e.text();
            refuse(req_id, ErrorCode::InternalError, text.as_str())
        },
    }
}

fn announce(req_id: Option<&str>, room: Room) -> (out: Outcome)
    ensures
        out@ == room_announced(req_id.deep_view(), room@),
{
    act_and_answer(
        req_id,
        Action::SendAll { event: Event::RoomCreated { room: room.duplicate() } },
        Reply::Room { room },
    )
}

/// What joining a room leads to: the room must be known, and the agent must not
/// be in it. The other members are told.
pub open spec fn room_joined(
    req_id: Option<Seq<char>>,
    room_id: Seq<char>,
    agent_id: Seq<char>,
    agent_name: Seq<char>,
    known: bool,
    in_room: bool,
) -> OutcomeView {
    if !known {
        refused(req_id, ErrorCode::RoomNotFound, "Room not found"@)
    } else if in_room {
        refused(req_id, ErrorCode::AlreadyInRoom, "Already in this room"@)
    } else {
        OutcomeView {
            reply_to: req_id,
            actions: seq![
                ActionView::JoinRoom { room_id },
                ActionView::Broadcast {
                    room_id,
                    sender: agent_id,
                    event: EventView::AgentJoined { room_id, agent_id, name: agent_name },
                },
            ],
            verdict: VerdictView::Answer { reply: ReplyView::RoomId { room_id } },
        }
    }
}

/// Lets an agent join a room.
pub fn handle_join_room(
    req_id: Option<&str>,
    p: &JoinRoomPayload,
    agent_id: &str,
    agent_name: &str,
    facts: &Facts,
    store: &Store,
    rooms: &DashMap<String, EphemeralRoom>,
) -> (out: Outcome)
    ensures
        out@ == room_joined(
            req_id.deep_view(),
            p.room_id@,
            agent_id@,
            agent_name@,
            room_known(store@, rooms_of(*rooms), p.room_id@),
            facts.in_room,
        ),
{
    if !knows_room(store, rooms, p.room_id.as_str()) {
        return refuse(req_id, ErrorCode::RoomNotFound, "Room not found");
    }
    if facts.in_room {
        return refuse(req_id, ErrorCode::AlreadyInRoom, "Already in this room");
    }
    let mut actions: Vec<Action> = Vec::new();
    actions.push(Action::JoinRoom { room_id: p.room_id.clone() });
    actions.push(
        Action::Broadcast {
            room_id: p.room_id.clone(),
            sender: agent_id.to_owned(),
            event: Event::AgentJoined {
                room_id: p.room_id.clone(),
                agent_id: agent_id.to_owned(),
                name: agent_name.to_owned(),
            },
        },
    );
    let out = Outcome {
        reply_to: own(req_id),
        actions,
        verdict: Verdict::Answer { reply: Reply::RoomId { room_id: p.room_id.clone() } },
    };
    assert(out@ =~= room_joined(
        req_id.deep_view(),
        p.room_id@,
        agent_id@,
        agent_name@,
        true,
        false,
    ));
    out
}

/// What the wish to leave a room leads to: the other members are told, and then
/// the agent leaves.
pub open spec fn room_leaving(
    req_id: Option<Seq<char>>,
    room_id: Seq<char>,
    agent_id: Seq<char>,
    in_room: bool,
) -> OutcomeView {
    if !in_room {
        refused(req_id, ErrorCode::NotInRoom, "Not in this room"@)
    } else {
        OutcomeView {
            reply_to: req_id,
            actions: seq![
                ActionView::Broadcast {
                    room_id,
                    sender: agent_id,
                    event: EventView::AgentLeft { room_id, agent_id },
                },
            ],
            verdict: VerdictView::Ask { question: QuestionView::LeaveRoom { room_id } },
        }
    }
}

/// Lets an agent leave a room.
pub fn handle_leave_room(
    req_id: Option<&str>,
    p: &LeaveRoomPayload,
    agent_id: &str,
    facts: &Facts,
) -> (out: Outcome)
    ensures
        out@ == room_leaving(req_id.deep_view(), p.room_id@, agent_id@, facts.in_room),
{
    if !facts.in_room {
        return refuse(req_id, ErrorCode::NotInRoom, "Not in this room");
    }
    let mut actions: Vec<Action> = Vec::new();
    actions.push(
        Action::Broadcast {
            room_id: p.room_id.clone(),
            sender: agent_id.to_owned(),
            event: Event::AgentLeft {
                room_id: p.room_id.clone(),
                agent_id: agent_id.to_owned(),
            },
        },
    );
    let out = Outcome {
        reply_to: own(req_id),
        actions,
        verdict: Verdict::Ask { question: Question::LeaveRoom { room_id: p.room_id.clone() } },
    };
    assert(out@ =~= room_leaving(req_id.deep_view(), p.room_id@, agent_id@, true));
    out
}

/// The end of a room: its members are forgotten and everybody is told.
pub open spec fn room_destroyed(room_id: Seq<char>) -> Seq<ActionView> {
    seq![
        ActionView::RemoveRoom { room_id },
        ActionView::SendAll { event: EventView::RoomDestroyed { room_id } },
    ]
}

/// Ends an ephemeral room that nobody is in any more; leaves any other as it is.
pub fn destroy_if_empty(
    room_id: &str,
    emptied: bool,
    rooms: &mut DashMap<String, EphemeralRoom>,
) -> (actions: Vec<Action>)
    ensures
        emptied && rooms_of(*old(rooms)).contains_key(room_id@) ==> rooms_of(*final(rooms))
            == rooms_of(*old(rooms)).remove(room_id@) && views(actions@) == room_destroyed(
            room_id@,
        ),
        !(emptied && rooms_of(*old(rooms)).contains_key(room_id@)) ==> rooms_of(*final(rooms))
            == rooms_of(*old(rooms)) && actions@.len() == 0,
{
    let mut actions: Vec<Action> = Vec::new();
    if emptied {
        let ghost held = rooms_of(*rooms);
        if take_room(rooms, room_id) {
            actions.push(Action::RemoveRoom { room_id: room_id.to_owned() });
            actions.push(
                Action::SendAll { event: Event::RoomDestroyed { room_id: room_id.to_owned() } },
            );
            assert(views(actions@) =~= room_destroyed(room_id@));
        } else {
            assert(held.remove(room_id@) =~= held);
        }
    }
    actions
}

/// What having left a room leads to: an ephemeral room that is empty now ends.
pub open spec fn room_left(
    req_id: Option<Seq<char>>,
    room_id: Seq<char>,
    ends: bool,
) -> OutcomeView {
    OutcomeView {
        reply_to: req_id,
        actions: if ends {
            room_destroyed(room_id)
        } else {
            Seq::empty()
        },
        verdict: VerdictView::Answer { reply: ReplyView::RoomId { room_id } },
    }
}

/// Goes on once an agent has left a room.
pub fn after_leaving(
    req_id: Option<&str>,
    room_id: &str,
    emptied: bool,
    rooms: &mut DashMap<String, EphemeralRoom>,
) -> (out: Outcome)
    ensures
        ({
            let ends = emptied && rooms_of(*old(rooms)).contains_key(room_id@);
            out@ == room_left(
                req_id.deep_view(),
                room_id@,
                ends,
            ) && rooms_of(*final(rooms)) == if ends {
                rooms_of(*old(rooms)).remove(room_id@)
            } else {
                rooms_of(*old(rooms))
            }
        }),
{
    let ghost ends = emptied && rooms_of(*rooms).contains_key(room_id@);
    let actions = destroy_if_empty(room_id, emptied, rooms);
    let out = Outcome {
        reply_to: own(req_id),
        actions,
        verdict: Verdict::Answer { reply: Reply::RoomId { room_id: room_id.to_owned() } },
    };
    assert(out@ =~= room_left(req_id.deep_view(), room_id@, ends));
    out
}

/// Whether rooms show rows, one by one.
pub open spec fn rooms_shown(rows: Seq<RoomRowView>, rooms: Seq<RoomView>) -> bool {
    &&& rooms.len() == rows.len()
    &&& forall|i: int| 0 <= i < rows.len() ==> room_reads(rows[i], #[trigger] rooms[i])
}

/// Whether a list holds the permanent rooms below a room, by name, and behind
/// them the ephemeral ones.
pub open spec fn lists_all_rooms(
    s: StoreView,
    rooms: Map<Seq<char>, EphemeralRoomView>,
    parent_id: Option<Seq<char>>,
    list: Seq<RoomView>,
) -> bool {
    exists|n: int|
        0 <= n <= list.len() && rooms_shown(
            ordered(s.rooms.filter(below(parent_id)), by_name()),
            #[trigger] list.take(n),
        ) && lists_rooms(list.skip(n), rooms, parent_id)
}

fn all_rooms_below(
    store: &Store,
    rooms: &DashMap<String, EphemeralRoom>,
    parent_id: Option<&str>,
) -> (r: Result<Vec<Room>, StoreError>)
    ensures
        r matches Ok(list) && lists_all_rooms(
            store@,
            rooms_of(*rooms),
            parent_id.deep_view(),
            views(list@),
        ),
{
    let mut list = match store.list_rooms(parent_id) {
        Ok(list) => list,
        Err(e) => {
            return Err(e);
        },
    };
    let ghost stored = list@;
    let mut extra = rooms_below(rooms, parent_id);
    let ghost added = extra@;
    list.append(&mut extra);
    proof {
        let all = views(list@);
        let n = stored.len() as int;
        assert(all.take(n) =~= views(stored));
        assert(all.skip(n) =~= views(added));
        assert(rooms_shown(
            ordered(store@.rooms.filter(below(parent_id.deep_view())), by_name()),
            all.take(n),
        ));
    }
    Ok(list)
}

/// Lists the rooms, or those below a room.
pub fn handle_list_rooms(
    req_id: Option<&str>,
    p: Option<&ListRoomsPayload>,
    store: &Store,
    rooms: &DashMap<String, EphemeralRoom>,
) -> (out: Outcome)
    ensures
        exists|list: Seq<RoomView>|
            lists_all_rooms(store@, rooms_of(*rooms), list_parent(p), list) && out@
                == #[trigger] plain(req_id.deep_view(), ReplyView::RoomList { rooms: list }),
{
    let parent_id: Option<&str> = match p {
        Some(p) => match &p.parent_id {
            Some(id) => Some(id.as_str()),
            None => None,
        },
        None => None,
    };
    match all_rooms_below(store, rooms, parent_id) {
        Ok(list) => answer(req_id, Reply::RoomList { rooms: list }),
        Err(e) => {
            let text = e.text();
            refuse(req_id, ErrorCode::InternalError, text.as_str())
        },
    }
}

/// The room that a list is asked for; none without a payload.
pub open spec fn list_parent(p: Option<&ListRoomsPayload>) -> Option<Seq<char>> {
    match p {
        Some(p) => p.parent_id.deep_view(),
        None => None,
    }
}

/// The agents with an id.
pub open spec fn with_agent_id(agent_id: Seq<char>) -> spec_fn(AgentInfoView) -> bool {
    |a: AgentInfoView| a.agent_id == agent_id
}

/// What is known of the members of a room, in their order. A member that is not
/// connected is left out.
pub open spec fn infos_of(members: Seq<Seq<char>>, agents: Seq<AgentInfoView>) -> Seq<AgentInfoView>
    decreases members.len(),
{
    if members.len() == 0 {
        Seq::empty()
    } else {
        let front = infos_of(members.drop_last(), agents);
        match first_match(agents, with_agent_id(members.last())) {
            Some(a) => front.push(a),
            None => front,
        }
    }
}

fn member_infos(facts: &Facts) -> (r: Vec<AgentInfo>)
    ensures
        views(r@) == infos_of(facts.members.deep_view(), views(facts.agents@)),
{
    let ghost members = facts.members.deep_view();
    let ghost agents = views(facts.agents@);
    let mut out: Vec<AgentInfo> = Vec::new();
    let mut i: usize = 0;
    assert(members.take(0) =~= Seq::empty());
    assert(views(out@) =~= infos_of(members.take(0), agents));
    while i < facts.members.len()
        invariant
            i <= facts.members.len(),
            members == facts.members.deep_view(),
            agents == views(facts.agents@),
            views(out@) == infos_of(members.take(i as int), agents),
        decreases facts.members.len() - i,
    {
        let id = facts.members[i].as_str();
        let at = find(
            &facts.agents,
            |a: &AgentInfo| -> (b: bool)
                ensures
                    b == (a@.agent_id == id@)
                { *a.agent_id.as_str() == *id },
            Ghost(with_agent_id(id@)),
        );
        let ghost so_far = views(out@);
        proof {
            assert(members.take(i + 1).drop_last() =~= members.take(i as int));
            assert(members.take(i + 1).last() == id@);
        }
        if let Some(k) = at {
            out.push(facts.agents[k].duplicate());
            assert(views(out@) =~= so_far.push(facts.agents@[k as int]@));
        }
        i = i + 1;
    }
    assert(members.take(i as int) =~= members);
    out
}

fn all_infos(facts: &Facts) -> (r: Vec<AgentInfo>)
    ensures
        views(r@) == views(facts.agents@),
{
    let mut out: Vec<AgentInfo> = Vec::new();
    let mut i: usize = 0;
    while i < facts.agents.len()
        invariant
            i <= facts.agents.len(),
            out.len() == i,
            forall|j: int| 0 <= j < i ==> (#[trigger] out@[j])@ == facts.agents@[j]@,
        decreases facts.agents.len() - i,
    {
        out.push(facts.agents[i].duplicate());
        i = i + 1;
    }
    assert(views(out@) =~= views(facts.agents@));
    out
}

/// The agents that a list holds: the members of a room, or all.
pub open spec fn listed_agents(p: Option<&ListAgentsPayload>, facts: Facts) -> Seq<AgentInfoView> {
    if p matches Some(p) && p.room_id is Some {
        infos_of(facts.members.deep_view(), views(facts.agents@))
    } else {
        views(facts.agents@)
    }
}

/// Lists the agents, or the members of a room.
pub fn handle_list_agents(
    req_id: Option<&str>,
    p: Option<&ListAgentsPayload>,
    facts: &Facts,
) -> (out: Outcome)
    ensures
        out@ == plain(
            req_id.deep_view(),
            ReplyView::AgentList { agents: listed_agents(p, *facts) },
        ),
{
    let in_one_room = match p {
        Some(p) => p.room_id.is_some(),
        None => false,
    };
    let agents = if in_one_room {
        member_infos(facts)
    } else {
        all_infos(facts)
    };
    answer(req_id, Reply::AgentList { agents })
}

/// Whether a room is what its id leads to: the permanent one first, then the
/// ephemeral one.
pub open spec fn leads_to_room(
    s: StoreView,
    rooms: Map<Seq<char>, EphemeralRoomView>,
    room_id: Seq<char>,
    room: RoomView,
) -> bool {
    match first_match(s.rooms, with_room_id(room_id)) {
        Some(row) => room_reads(row, room),
        None => rooms.contains_key(room_id) && room == rooms[room_id].room,
    }
}

/// What asking for a room leads to: the room, its members and the rooms below
/// it; a room that is not known is refused.
pub open spec fn tells_room(
    req_id: Option<Seq<char>>,
    s: StoreView,
    rooms: Map<Seq<char>, EphemeralRoomView>,
    room_id: Seq<char>,
    facts: Facts,
    out: OutcomeView,
) -> bool {
    if !room_known(s, rooms, room_id) {
        out == refused(req_id, ErrorCode::RoomNotFound, "Room not found"@)
    } else {
        exists|room: RoomView, sub_rooms: Seq<RoomView>|
            leads_to_room(s, rooms, room_id, room) && lists_all_rooms(
                s,
                rooms,
                Some(room_id),
                sub_rooms,
            ) && out == #[trigger] room_told(
                req_id,
                room,
                infos_of(facts.members.deep_view(), views(facts.agents@)),
                sub_rooms,
            )
    }
}

/// The answer that tells of a room.
pub open spec fn room_told(
    req_id: Option<Seq<char>>,
    room: RoomView,
    agents: Seq<AgentInfoView>,
    sub_rooms: Seq<RoomView>,
) -> OutcomeView {
    plain(req_id, ReplyView::RoomInfo { room, agents, sub_rooms })
}

/// Tells everything about a room.
pub fn handle_room_info(
    req_id: Option<&str>,
    p: &RoomInfoPayload,
    facts: &Facts,
    store: &Store,
    rooms: &DashMap<String, EphemeralRoom>,
) -> (out: Outcome)
    ensures
        tells_room(req_id.deep_view(), store@, rooms_of(*rooms), p.room_id@, *facts, out@),
{
    let room_id = p.room_id.as_str();
    proof {
        crate::rows::lemma_first_match(store@.rooms, with_room_id(room_id@));
    }
    let stored = match store.get_room(room_id) {
        Ok(found) => found,
        Err(_) => None,
    };
    let found = match stored {
        Some(room) => Some(room),
        None => match lookup_room(rooms, room_id) {
            Some(held) => Some(held.room),
            None => None,
        },
    };
    let room = match found {
        Some(room) => room,
        None => {
            return refuse(req_id, ErrorCode::RoomNotFound, "Room not found");
        },
    };
    let agents = member_infos(facts);
    let sub_rooms = match all_rooms_below(store, rooms, Some(room_id)) {
        Ok(list) => list,
        Err(_) => Vec::new(),
    };
    let out = answer(req_id, Reply::RoomInfo { room, agents, sub_rooms });
    assert(out@ == room_told(req_id.deep_view(), room@, views(agents@), views(sub_rooms@)));
    out
}

} // verus!
