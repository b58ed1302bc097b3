//! What every step of a connection does: what is answered, what is told whom, and
//! what is recorded.

use vstd::prelude::*;
use dashmap::DashMap;
use crate::connection::{
    advance, farewell, step, stepped, AgentConnection, Input, InputView, LeftRoomView, LineView,
    Output, OutputView, Phase, PhaseView, StepView,
};
use crate::ephemeral::{rooms_of, EphemeralRoom, EphemeralRoomView};
use crate::json::texts_json;
use crate::models::{AgentInfo, AgentInfoView, RegisterPayloadView};
use crate::protocol::{ActionView, ErrorCode, EventView, ReplyView};
use crate::rows::{lemma_first_match, views};
use crate::store::answers::lemma_found_at;
use crate::store::keys::with_key;
use crate::store::{Store, StoreView};
use crate::time::{shown, Timestamp, COLUMN_FORMAT};

verus! {

/// Whether an output tells of a room that an agent left: that the agent left it,
/// or, where it was ephemeral and is empty now, that it ended.
pub open spec fn said_of(
    o: OutputView,
    left: LeftRoomView,
    agent_id: Seq<char>,
    rooms: Map<Seq<char>, EphemeralRoomView>,
) -> bool {
    ||| o == (OutputView::Act {
        action: ActionView::BroadcastAll {
            room_id: left.room_id,
            event: EventView::AgentLeft { room_id: left.room_id, agent_id },
        },
    })
    ||| left.empty && rooms.contains_key(left.room_id) && o == (OutputView::Act {
        action: ActionView::RemoveRoom { room_id: left.room_id },
    })
    ||| left.empty && rooms.contains_key(left.room_id) && o == (OutputView::Act {
        action: ActionView::SendAll { event: EventView::RoomDestroyed { room_id: left.room_id } },
    })
}

/// Whether an output tells of one of the rooms that an agent left.
pub open spec fn said_of_some(
    o: OutputView,
    left: Seq<LeftRoomView>,
    agent_id: Seq<char>,
    rooms: Map<Seq<char>, EphemeralRoomView>,
) -> bool {
    exists|k: int| 0 <= k < left.len() && said_of(o, #[trigger] left[k], agent_id, rooms)
}

/// Whether the members of a room are told that an agent left it.
pub open spec fn told_left(said: Seq<OutputView>, room_id: Seq<char>, agent_id: Seq<char>) -> bool {
    exists|j: int|
        0 <= j < said.len() && #[trigger] said[j] == (OutputView::Act {
            action: ActionView::BroadcastAll {
                room_id,
                event: EventView::AgentLeft { room_id, agent_id },
            },
        })
}

/// Whether a room is forgotten, and everybody is told then.
pub open spec fn told_end(said: Seq<OutputView>, room_id: Seq<char>) -> bool {
    exists|j: int|
        0 <= j < said.len() - 1 && #[trigger] said[j] == (OutputView::Act {
            action: ActionView::RemoveRoom { room_id },
        }) && said[j + 1] == (OutputView::Act {
            action: ActionView::SendAll { event: EventView::RoomDestroyed { room_id } },
        })
}

/// What is told of one more room.
spec fn told_of(
    last: LeftRoomView,
    agent_id: Seq<char>,
    held: Map<Seq<char>, EphemeralRoomView>,
) -> Seq<OutputView> {
    let bye = OutputView::Act {
        action: ActionView::BroadcastAll {
            room_id: last.room_id,
            event: EventView::AgentLeft { room_id: last.room_id, agent_id },
        },
    };
    if last.empty && held.contains_key(last.room_id) {
        seq![
            bye,
            OutputView::Act { action: ActionView::RemoveRoom { room_id: last.room_id } },
            OutputView::Act {
                action: ActionView::SendAll {
                    event: EventView::RoomDestroyed { room_id: last.room_id },
                },
            },
        ]
    } else {
        seq![bye]
    }
}

proof fn lemma_farewell_step(
    left: Seq<LeftRoomView>,
    agent_id: Seq<char>,
    rooms: Map<Seq<char>, EphemeralRoomView>,
)
    requires
        left.len() > 0,
    ensures
        ({
            let (said, held) = farewell(left.drop_last(), agent_id, rooms);
            farewell(left, agent_id, rooms).0 == said + told_of(left.last(), agent_id, held)
        }),
{
    let (said, held) = farewell(left.drop_last(), agent_id, rooms);
    assert(farewell(left, agent_id, rooms).0 =~= said + told_of(left.last(), agent_id, held));
}

proof fn lemma_told_left_grows(
    a: Seq<OutputView>,
    b: Seq<OutputView>,
    room_id: Seq<char>,
    agent_id: Seq<char>,
)
    requires
        told_left(a, room_id, agent_id),
    ensures
        told_left(a + b, room_id, agent_id),
{
    let j = choose|j: int|
        0 <= j < a.len() && #[trigger] a[j] == (OutputView::Act {
            action: ActionView::BroadcastAll {
                room_id,
                event: EventView::AgentLeft { room_id, agent_id },
            },
        });
    assert((a + b)[j] == a[j]);
}

proof fn lemma_told_end_grows(a: Seq<OutputView>, b: Seq<OutputView>, room_id: Seq<char>)
    requires
        told_end(a, room_id),
    ensures
        told_end(a + b, room_id),
{
    let j = choose|j: int|
        0 <= j < a.len() - 1 && #[trigger] a[j] == (OutputView::Act {
            action: ActionView::RemoveRoom { room_id },
        }) && a[j + 1] == (OutputView::Act {
            action: ActionView::SendAll { event: EventView::RoomDestroyed { room_id } },
        });
    assert((a + b)[j] == a[j]);
    assert((a + b)[j + 1] == a[j + 1]);
}

proof fn lemma_each_is_told(
    left: Seq<LeftRoomView>,
    agent_id: Seq<char>,
    rooms: Map<Seq<char>, EphemeralRoomView>,
)
    ensures
        farewell(left, agent_id, rooms).0.len() >= left.len(),
        forall|k: int|
            0 <= k < left.len() ==> told_left(
                farewell(left, agent_id, rooms).0,
                (#[trigger] left[k]).room_id,
                agent_id,
            ),
    decreases left.len(),
{
    if left.len() > 0 {
        let front = left.drop_last();
        lemma_each_is_told(front, agent_id, rooms);
        lemma_farewell_step(left, agent_id, rooms);
        let (said, held) = farewell(front, agent_id, rooms);
        let more = told_of(left.last(), agent_id, held);
        assert forall|k: int| 0 <= k < left.len() implies told_left(
            said + more,
            (#[trigger] left[k]).room_id,
            agent_id,
        ) by {
            if k < front.len() {
                assert(front[k] == left[k]);
                lemma_told_left_grows(said, more, front[k].room_id, agent_id);
            } else {
                assert((said + more)[said.len() as int] == more[0]);
            }
        }
    }
}

proof fn lemma_ends_are_told(
    left: Seq<LeftRoomView>,
    agent_id: Seq<char>,
    rooms: Map<Seq<char>, EphemeralRoomView>,
)
    ensures
        forall|k: int|
            0 <= k < left.len() && (#[trigger] left[k]).empty && rooms.contains_key(left[k].room_id)
                ==> told_end(farewell(left, agent_id, rooms).0, left[k].room_id),
        forall|key: Seq<char>| #[trigger]
            rooms.contains_key(key) && !farewell(left, agent_id, rooms).1.contains_key(key)
                ==> told_end(farewell(left, agent_id, rooms).0, key),
    decreases left.len(),
{
    if left.len() > 0 {
        let front = left.drop_last();
        lemma_ends_are_told(front, agent_id, rooms);
        lemma_farewell_step(left, agent_id, rooms);
        let (said, held) = farewell(front, agent_id, rooms);
        let last = left.last();
        let more = told_of(last, agent_id, held);
        let kept = farewell(left, agent_id, rooms).1;
        if last.empty && held.contains_key(last.room_id) {
            let n = said.len() as int;
            assert((said + more)[n + 1] == more[1]);
            assert((said + more)[n + 1 + 1] == more[2]);
            assert(told_end(said + more, last.room_id));
        }
        assert forall|key: Seq<char>| #[trigger]
            rooms.contains_key(key) && !kept.contains_key(key) implies told_end(
            said + more,
            key,
        ) by {
            if !held.contains_key(key) {
                lemma_told_end_grows(said, more, key);
            }
        }
        assert forall|k: int|
            0 <= k < left.len() && (#[trigger] left[k]).empty && rooms.contains_key(
                left[k].room_id,
            ) implies told_end(said + more, left[k].room_id) by {
            if k < front.len() {
                assert(front[k] == left[k]);
                lemma_told_end_grows(said, more, front[k].room_id);
            } else if !held.contains_key(last.room_id) {
                lemma_told_end_grows(said, more, last.room_id);
            }
        }
    }
}

proof fn lemma_nothing_else_is_told(
    left: Seq<LeftRoomView>,
    agent_id: Seq<char>,
    rooms: Map<Seq<char>, EphemeralRoomView>,
)
    ensures
        forall|j: int|
            0 <= j < farewell(left, agent_id, rooms).0.len() ==> said_of_some(
                #[trigger] farewell(left, agent_id, rooms).0[j],
                left,
                agent_id,
                rooms,
            ),
        forall|key: Seq<char>| #[trigger]
            farewell(left, agent_id, rooms).1.contains_key(key) ==> rooms.contains_key(key),
    decreases left.len(),
{
    if left.len() > 0 {
        let front = left.drop_last();
        lemma_nothing_else_is_told(front, agent_id, rooms);
        lemma_farewell_step(left, agent_id, rooms);
        let (said, held) = farewell(front, agent_id, rooms);
        let last = left.last();
        let more = told_of(last, agent_id, held);
        let all = said + more;
        assert forall|j: int| 0 <= j < all.len() implies said_of_some(
            #[trigger] all[j],
            left,
            agent_id,
            rooms,
        ) by {
            if j < said.len() {
                assert(all[j] == said[j]);
                let k = choose|k: int|
                    0 <= k < front.len() && said_of(said[j], #[trigger] front[k], agent_id, rooms);
                assert(left[k] == front[k]);
            } else {
                assert(all[j] == more[j - said.len()]);
                assert(said_of(all[j], left[left.len() - 1], agent_id, rooms));
            }
        }
    }
}

/// Before the registration every line is answered at once, under its id: a ping, a line
/// that cannot be read with the reason, and anything else but a registration that it
/// must register first. Nothing else happens.
pub proof fn lines_before_registration_are_answered(
    line: LineView,
    api_key: Seq<char>,
    no_auth: bool,
    s: StoreView,
    rooms: Map<Seq<char>, EphemeralRoomView>,
    id: Seq<char>,
    now: Timestamp,
    next: StepView,
)
    requires
        next == stepped(
            PhaseView::Greeting,
            InputView::Line { line },
            api_key,
            no_auth,
            s,
            rooms,
            id,
            now,
        ),
    ensures
        line matches LineView::Bad { why } ==> next.outputs == seq![
            OutputView::Send {
                reply_to: None,
                reply: ReplyView::Error { code: ErrorCode::InvalidPayload, message: why },
            },
        ],
        line matches LineView::Ping { id: req_id } ==> next.outputs == seq![
            OutputView::Send { reply_to: req_id, reply: ReplyView::Pong },
        ],
        line matches LineView::BadRegister { id: req_id, why } ==> next.outputs == seq![
            OutputView::Send {
                reply_to: req_id,
                reply: ReplyView::Error { code: ErrorCode::InvalidPayload, message: why },
            },
        ],
        line matches LineView::Other { id: req_id } ==> next.outputs == seq![
            OutputView::Send {
                reply_to: req_id,
                reply: ReplyView::Error {
                    code: ErrorCode::NotRegistered,
                    message: "Must register first"@,
                },
            },
        ],
        !(line is Register) ==> next.phase is Greeting,
        next.store == s,
        next.rooms == rooms,
{
}

/// A key registers where no authentication is asked for, where it is that of the server,
/// and where it is in the tables; any other is turned away.
pub proof fn a_key_registers_where_it_is_known(
    req_id: Option<Seq<char>>,
    payload: RegisterPayloadView,
    api_key: Seq<char>,
    no_auth: bool,
    s: StoreView,
    rooms: Map<Seq<char>, EphemeralRoomView>,
    id: Seq<char>,
    now: Timestamp,
    next: StepView,
)
    requires
        next == stepped(
            PhaseView::Greeting,
            InputView::Line { line: LineView::Register { id: req_id, payload } },
            api_key,
            no_auth,
            s,
            rooms,
            id,
            now,
        ),
    ensures
        next.phase is Closed <==> !(no_auth || payload.key == api_key || exists|i: int|
            0 <= i < s.keys.len() && (#[trigger] s.keys[i]).api_key == payload.key),
        next.phase is Closed ==> next.outputs == seq![
            OutputView::Send {
                reply_to: req_id,
                reply: ReplyView::Error {
                    code: ErrorCode::Unauthorized,
                    message: "Invalid API key"@,
                },
            },
            OutputView::Close,
        ],
        next.store == s,
        next.rooms == rooms,
{
}

/// A key that registers is held against the limit of its tier, where keys are asked for: the
/// tier of its row, and the free one where it has none. The registration goes on with
/// what was sent.
pub proof fn a_key_is_held_against_its_tier(
    req_id: Option<Seq<char>>,
    payload: RegisterPayloadView,
    i: int,
    api_key: Seq<char>,
    no_auth: bool,
    s: StoreView,
    rooms: Map<Seq<char>, EphemeralRoomView>,
    id: Seq<char>,
    now: Timestamp,
    next: StepView,
)
    requires
        next == stepped(
            PhaseView::Greeting,
            InputView::Line { line: LineView::Register { id: req_id, payload } },
            api_key,
            no_auth,
            s,
            rooms,
            id,
            now,
        ),
    ensures
        !(next.phase is Closed) && !no_auth && payload.key.len() > 0 ==> {
            &&& next.phase == (PhaseView::Limiting { req_id, payload, key: payload.key })
            &&& next.outputs.len() == 1
            &&& next.outputs[0] matches OutputView::CheckLimit { key, tier } && key == payload.key
                && (0 <= i < s.keys.len() && s.keys[i].api_key == payload.key && (forall|j: int|
                0 <= j < i ==> (#[trigger] s.keys[j]).api_key != payload.key) ==> tier
                == s.keys[i].tier) && ((forall|j: int|
                0 <= j < s.keys.len() ==> (#[trigger] s.keys[j]).api_key != payload.key) ==> tier
                == "free"@)
        },
        !(next.phase is Closed) && (no_auth || payload.key.len() == 0) ==> {
            &&& next.phase matches PhaseView::Naming { req_id: r, payload: p, key, agent_id } && r
                == req_id && p == payload && key == payload.key && (payload.agent_id matches Some(a)
                ==> agent_id == a) && (payload.agent_id is None ==> agent_id == id) && next.outputs
                == seq![OutputView::CheckId { agent_id }]
        },
{
    let wanted = with_key(payload.key);
    lemma_first_match(s.keys, wanted);
    if 0 <= i < s.keys.len() && s.keys[i].api_key == payload.key && (forall|j: int|
        0 <= j < i ==> (#[trigger] s.keys[j]).api_key != payload.key) {
        lemma_found_at(s.keys, wanted, i);
    }
}

/// A key over its limit is turned away; within it, the agent goes on under the id it asked
/// for, or under a new one where it asked for none.
pub proof fn a_key_over_its_limit_is_turned_away(
    req_id: Option<Seq<char>>,
    payload: RegisterPayloadView,
    key: Seq<char>,
    over: bool,
    api_key: Seq<char>,
    no_auth: bool,
    s: StoreView,
    rooms: Map<Seq<char>, EphemeralRoomView>,
    id: Seq<char>,
    now: Timestamp,
    next: StepView,
)
    requires
        next == stepped(
            PhaseView::Limiting { req_id, payload, key },
            InputView::Limited { over },
            api_key,
            no_auth,
            s,
            rooms,
            id,
            now,
        ),
    ensures
        over ==> next.phase is Closed && next.outputs == seq![
            OutputView::Send {
                reply_to: req_id,
                reply: ReplyView::Error {
                    code: ErrorCode::RateLimitAgents,
                    message: "Agent limit exceeded for this API key"@,
                },
            },
            OutputView::Close,
        ],
        !over ==> (next.phase matches PhaseView::Naming { req_id: r, payload: p, key: k, agent_id }
            && r == req_id && p == payload && k == key && (payload.agent_id matches Some(a)
            ==> agent_id == a) && (payload.agent_id is None ==> agent_id == id) && next.outputs
            == seq![OutputView::CheckId { agent_id }]),
        next.store == s,
        next.rooms == rooms,
{
}

/// An agent id that is in use is refused, and the agent may try again.
pub proof fn an_agent_id_in_use_is_refused(
    req_id: Option<Seq<char>>,
    payload: RegisterPayloadView,
    key: Seq<char>,
    agent_id: Seq<char>,
    api_key: Seq<char>,
    no_auth: bool,
    s: StoreView,
    rooms: Map<Seq<char>, EphemeralRoomView>,
    id: Seq<char>,
    now: Timestamp,
    next: StepView,
)
    requires
        next == stepped(
            PhaseView::Naming { req_id, payload, key, agent_id },
            InputView::Taken { taken: true },
            api_key,
            no_auth,
            s,
            rooms,
            id,
            now,
        ),
    ensures
        next.phase is Greeting,
        next.outputs == seq![
            OutputView::Send {
                reply_to: req_id,
                reply: ReplyView::Error {
                    code: ErrorCode::AgentIdTaken,
                    message: "Agent ID already in use"@,
                },
            },
        ],
        next.store == s,
        next.rooms == rooms,
{
}

/// An agent is registered as it presented itself: it is answered with its id and its name,
/// counted for its key where it has one, and taken up with its name, its capabilities,
/// its session and its key.
pub proof fn an_agent_is_registered_as_it_presented_itself(
    req_id: Option<Seq<char>>,
    payload: RegisterPayloadView,
    key: Seq<char>,
    agent_id: Seq<char>,
    api_key: Seq<char>,
    no_auth: bool,
    s: StoreView,
    rooms: Map<Seq<char>, EphemeralRoomView>,
    id: Seq<char>,
    now: Timestamp,
    next: StepView,
)
    requires
        next == stepped(
            PhaseView::Naming { req_id, payload, key, agent_id },
            InputView::Taken { taken: false },
            api_key,
            no_auth,
            s,
            rooms,
            id,
            now,
        ),
    ensures
        next.phase == (PhaseView::Serving { agent_id, session_id: id, key }),
        next.outputs[0] == (OutputView::Send {
            reply_to: req_id,
            reply: ReplyView::Registered { agent_id, name: payload.name },
        }),
        next.outputs.last() == (OutputView::Act {
            action: ActionView::Attach {
                info: AgentInfoView {
                    agent_id,
                    name: payload.name,
                    capabilities: payload.capabilities,
                    connected_at: Some(now),
                },
                session_id: id,
                key,
            },
        }),
        key.len() > 0 ==> next.outputs.len() == 3 && next.outputs[1] == (OutputView::Act {
            action: ActionView::AddAgent { key },
        }),
        key.len() == 0 ==> next.outputs.len() == 2,
        next.rooms == rooms,
{
}

/// The session of an agent that is registered is recorded as it is, once; nothing else in
/// the tables changes.
pub proof fn a_session_is_recorded_with_its_agent(
    req_id: Option<Seq<char>>,
    payload: RegisterPayloadView,
    key: Seq<char>,
    agent_id: Seq<char>,
    api_key: Seq<char>,
    no_auth: bool,
    s: StoreView,
    rooms: Map<Seq<char>, EphemeralRoomView>,
    id: Seq<char>,
    now: Timestamp,
    next: StepView,
)
    requires
        next == stepped(
            PhaseView::Naming { req_id, payload, key, agent_id },
            InputView::Taken { taken: false },
            api_key,
            no_auth,
            s,
            rooms,
            id,
            now,
        ),
    ensures
        (forall|i: int|
            0 <= i < s.sessions.len() ==> (#[trigger] s.sessions[i]).session_id != id) ==> {
            &&& next.store.sessions.len() == s.sessions.len() + 1
            &&& next.store.sessions.drop_last() == s.sessions
            &&& next.store.sessions.last().session_id == id
            &&& next.store.sessions.last().agent_id == agent_id
            &&& next.store.sessions.last().agent_name == payload.name
            &&& next.store.sessions.last().capabilities == texts_json(payload.capabilities)
            &&& next.store.sessions.last().connected_at == shown(now, COLUMN_FORMAT@)
            &&& next.store.sessions.last().disconnected_at is None
        },
        (exists|i: int|
            0 <= i < s.sessions.len() && (#[trigger] s.sessions[i]).session_id == id)
            ==> next.store.sessions == s.sessions,
        next.store.rooms == s.rooms,
        next.store.messages == s.messages,
        next.store.votes == s.votes,
        next.store.ballots == s.ballots,
        next.store.keys == s.keys,
        next.store.subscriptions == s.subscriptions,
        next.store.deliveries == s.deliveries,
        next.store.tasks == s.tasks,
{
    assert(s.sessions.push(next.store.sessions.last()).drop_last() =~= s.sessions);
}

/// A registered agent is served: every frame is handled under its id, and a line that holds
/// none is answered with the reason. Nothing else happens.
pub proof fn every_frame_of_an_agent_is_handled(
    agent_id: Seq<char>,
    session_id: Seq<char>,
    key: Seq<char>,
    line: LineView,
    api_key: Seq<char>,
    no_auth: bool,
    s: StoreView,
    rooms: Map<Seq<char>, EphemeralRoomView>,
    id: Seq<char>,
    now: Timestamp,
    next: StepView,
)
    requires
        next == stepped(
            PhaseView::Serving { agent_id, session_id, key },
            InputView::Line { line },
            api_key,
            no_auth,
            s,
            rooms,
            id,
            now,
        ),
    ensures
        next.phase == (PhaseView::Serving { agent_id, session_id, key }),
        next.outputs.len() == 1,
        line matches LineView::Bad { why } ==> next.outputs[0] == (OutputView::Send {
            reply_to: None,
            reply: ReplyView::Error { code: ErrorCode::InvalidPayload, message: why },
        }),
        line matches LineView::Ping { id: r }
            ==> next.outputs[0] == (OutputView::Handle { req_id: r }),
        line matches LineView::Register { id: r, .. } ==> next.outputs[0] == (OutputView::Handle {
            req_id: r,
        }),
        line matches LineView::BadRegister { id: r, .. } ==> next.outputs[0] == (
        OutputView::Handle { req_id: r }),
        line matches LineView::Other { id: r } ==> next.outputs[0] == (OutputView::Handle {
            req_id: r,
        }),
        next.store == s,
        next.rooms == rooms,
{
}

/// When a connection ends, its agent is no longer counted for its key, where it has one, and
/// is to be taken out of all rooms. Nothing else happens yet.
pub proof fn an_agent_that_goes_leaves_its_rooms(
    agent_id: Seq<char>,
    session_id: Seq<char>,
    key: Seq<char>,
    api_key: Seq<char>,
    no_auth: bool,
    s: StoreView,
    rooms: Map<Seq<char>, EphemeralRoomView>,
    id: Seq<char>,
    now: Timestamp,
    next: StepView,
)
    requires
        next == stepped(
            PhaseView::Serving { agent_id, session_id, key },
            InputView::Ended,
            api_key,
            no_auth,
            s,
            rooms,
            id,
            now,
        ),
    ensures
        next.phase == (PhaseView::Leaving { agent_id, session_id }),
        next.outputs.last() == (OutputView::LeaveAllRooms { agent_id }),
        key.len() > 0 ==> next.outputs.len() == 2 && next.outputs[0] == (OutputView::Act {
            action: ActionView::RemoveAgent { key },
        }),
        key.len() == 0 ==> next.outputs.len() == 1,
        next.store == s,
        next.rooms == rooms,
{
}

/// A connection that ends before its agent registered is closed, and nothing else happens.
pub proof fn a_connection_without_an_agent_is_closed(
    api_key: Seq<char>,
    no_auth: bool,
    s: StoreView,
    rooms: Map<Seq<char>, EphemeralRoomView>,
    id: Seq<char>,
    now: Timestamp,
    next: StepView,
)
    requires
        next == stepped(
            PhaseView::Greeting,
            InputView::Ended,
            api_key,
            no_auth,
            s,
            rooms,
            id,
            now,
        ),
    ensures
        next.phase is Closed,
        next.outputs == seq![OutputView::Close],
        next.store == s,
        next.rooms == rooms,
{
}

/// When an agent has left its rooms, the members of each are told, an ephemeral room that is
/// empty then is forgotten and everybody is told, and nothing else is told of rooms. At
/// the end the agent leads no room any more, its connection is forgotten and closed.
pub proof fn everybody_is_told_who_left(
    agent_id: Seq<char>,
    session_id: Seq<char>,
    left: Seq<LeftRoomView>,
    api_key: Seq<char>,
    no_auth: bool,
    s: StoreView,
    rooms: Map<Seq<char>, EphemeralRoomView>,
    id: Seq<char>,
    now: Timestamp,
    next: StepView,
)
    requires
        next == stepped(
            PhaseView::Leaving { agent_id, session_id },
            InputView::Left { rooms: left },
            api_key,
            no_auth,
            s,
            rooms,
            id,
            now,
        ),
    ensures
        next.phase is Closed,
        next.outputs.len() >= left.len() + 3,
        next.outputs.last() is Close,
        next.outputs[next.outputs.len() - 2] == (OutputView::Act {
            action: ActionView::Detach { agent_id },
        }),
        next.outputs[next.outputs.len() - 3] == (OutputView::Act {
            action: ActionView::ClearLeader { agent_id },
        }),
        ({
            let said = next.outputs.take(next.outputs.len() - 3);
            &&& forall|k: int|
                0 <= k < left.len() ==> told_left(said, (#[trigger] left[k]).room_id, agent_id)
            &&& forall|k: int|
                0 <= k < left.len() && (#[trigger] left[k]).empty && rooms.contains_key(
                    left[k].room_id,
                ) ==> told_end(said, left[k].room_id)
            &&& forall|j: int|
                0 <= j < said.len() ==> said_of_some(#[trigger] said[j], left, agent_id, rooms)
        }),
{
    let said = farewell(left, agent_id, rooms).0;
    assert(next.outputs.take(next.outputs.len() - 3) =~= said);
    lemma_each_is_told(left, agent_id, rooms);
    lemma_ends_are_told(left, agent_id, rooms);
    lemma_nothing_else_is_told(left, agent_id, rooms);
}

/// The end of a session is noted on that session alone, and nothing else in the tables
/// changes.
pub proof fn the_end_of_a_session_is_noted(
    agent_id: Seq<char>,
    session_id: Seq<char>,
    left: Seq<LeftRoomView>,
    api_key: Seq<char>,
    no_auth: bool,
    s: StoreView,
    rooms: Map<Seq<char>, EphemeralRoomView>,
    id: Seq<char>,
    now: Timestamp,
    next: StepView,
)
    requires
        next == stepped(
            PhaseView::Leaving { agent_id, session_id },
            InputView::Left { rooms: left },
            api_key,
            no_auth,
            s,
            rooms,
            id,
            now,
        ),
    ensures
        next.store.sessions.len() == s.sessions.len(),
        forall|i: int|
            0 <= i < s.sessions.len() && s.sessions[i].session_id != session_id
                ==> #[trigger] next.store.sessions[i] == s.sessions[i],
        forall|i: int|
            0 <= i < s.sessions.len() && s.sessions[i].session_id == session_id ==> ({
                let was = s.sessions[i];
                let is = #[trigger] next.store.sessions[i];
                &&& is.session_id == was.session_id
                &&& is.agent_id == was.agent_id
                &&& is.agent_name == was.agent_name
                &&& is.capabilities == was.capabilities
                &&& is.connected_at == was.connected_at
                &&& is.disconnected_at == Some(shown(now, COLUMN_FORMAT@))
            }),
        next.store.rooms == s.rooms,
        next.store.messages == s.messages,
        next.store.votes == s.votes,
        next.store.ballots == s.ballots,
        next.store.keys == s.keys,
        next.store.subscriptions == s.subscriptions,
        next.store.deliveries == s.deliveries,
        next.store.tasks == s.tasks,
{
}

/// What does not belong to the phase of a connection changes nothing.
pub proof fn what_does_not_belong_changes_nothing(
    phase: PhaseView,
    input: InputView,
    api_key: Seq<char>,
    no_auth: bool,
    s: StoreView,
    rooms: Map<Seq<char>, EphemeralRoomView>,
    id: Seq<char>,
    now: Timestamp,
    next: StepView,
)
    requires
        next == stepped(
            phase,
            input,
            api_key,
            no_auth,
            s,
            rooms,
            id,
            now,
        ),
        phase is Greeting ==> !(input is Line) && !(input is Ended),
        phase is Limiting ==> !(input is Limited),
        phase is Naming ==> !(input is Taken),
        phase is Serving ==> !(input is Line) && !(input is Ended),
        phase is Leaving ==> !(input is Left),
    ensures
        next.phase == phase,
        next.outputs.len() == 0,
        next.store == s,
        next.rooms == rooms,
{
}

/// A step on a connection is the step of its phase, on the tables and the rooms there are.
pub proof fn a_step_is_that_of_its_phase(
    phase: Phase,
    input: Input,
    api_key: &str,
    no_auth: bool,
    store: &mut Store,
    rooms: &mut DashMap<String, EphemeralRoom>,
    id: &str,
    now: Timestamp,
    r: (Phase, Vec<Output>),
)
    requires
        call_ensures(step, (phase, input, api_key, no_auth, store, rooms, id, now), r),
    ensures
        (StepView {
            phase: r.0@,
            outputs: views(r.1@),
            store: final(store)@,
            rooms: rooms_of(*final(rooms)),
        }) == stepped(
            phase@,
            input@,
            api_key@,
            no_auth,
            old(store)@,
            rooms_of(*old(rooms)),
            id@,
            now,
        ),
{
}

/// A step by the clock is the step of its phase, under a new id.
pub proof fn a_step_by_the_clock_is_that_of_its_phase(
    phase: Phase,
    input: Input,
    api_key: &str,
    no_auth: bool,
    store: &mut Store,
    rooms: &mut DashMap<String, EphemeralRoom>,
    r: (Phase, Vec<Output>),
)
    requires
        call_ensures(advance, (phase, input, api_key, no_auth, store, rooms), r),
    ensures
        exists|id: Seq<char>, now: Timestamp| #[trigger]
            stepped(
                phase@,
                input@,
                api_key@,
                no_auth,
                old(store)@,
                rooms_of(*old(rooms)),
                id,
                now,
            ) == (StepView {
                phase: r.0@,
                outputs: views(r.1@),
                store: final(store)@,
                rooms: rooms_of(*final(rooms)),
            }) && id.len() == 36,
{
}

/// An agent that enters a room is in that room then, and in every other room it was in; its
/// name and its session stay. No room is listed twice.
pub proof fn entering_a_room_adds_that_room(
    c: &mut AgentConnection,
    room_id: &str,
)
    requires
        call_ensures(AgentConnection::enter, (c, room_id), ()),
    ensures
        final(c).rooms.deep_view().contains(room_id@),
        forall|k: Seq<char>|
            k != room_id@ ==> (#[trigger] final(c).rooms.deep_view().contains(k) <==> old(
                c,
            ).rooms.deep_view().contains(k)),
        final(c).rooms.deep_view().no_duplicates(),
        final(c).info == old(c).info,
        final(c).session_id == old(c).session_id,
{
    let was = old(c).rooms.deep_view();
    let is = final(c).rooms.deep_view();
    if !was.contains(room_id@) {
        assert(is == was.push(room_id@));
        assert(is[is.len() - 1] == room_id@);
        assert forall|k: Seq<char>| k != room_id@ implies (#[trigger] is.contains(k)
            <==> was.contains(k)) by {
            if was.contains(k) {
                let i = choose|i: int| 0 <= i < was.len() && was[i] == k;
                assert(is[i] == k);
            }
            if is.contains(k) {
                let i = choose|i: int| 0 <= i < is.len() && is[i] == k;
                assert(i < was.len());
                assert(was[i] == k);
            }
        }
    }
}

/// An agent that leaves a room is no longer in that room, and still in every other room it
/// was in; its name and its session stay.
pub proof fn leaving_a_room_removes_that_room(
    c: &mut AgentConnection,
    room_id: &str,
)
    requires
        call_ensures(AgentConnection::leave, (c, room_id), ()),
    ensures
        !final(c).rooms.deep_view().contains(room_id@),
        forall|k: Seq<char>|
            k != room_id@ ==> (#[trigger] final(c).rooms.deep_view().contains(k) <==> old(
                c,
            ).rooms.deep_view().contains(k)),
        final(c).rooms.deep_view().no_duplicates(),
        final(c).info == old(c).info,
        final(c).session_id == old(c).session_id,
{
}

/// A new connection is that of its agent and its session, in no room.
pub proof fn a_new_connection_is_in_no_room(
    info: AgentInfo,
    session_id: String,
    c: AgentConnection,
)
    requires
        call_ensures(AgentConnection::new, (info, session_id), c),
    ensures
        c.info@ == info@,
        c.session_id@ == session_id@,
        c.rooms@.len() == 0,
{
}

} // verus!
