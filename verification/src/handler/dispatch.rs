//! Which handler a command goes to.

use vstd::prelude::*;
use dashmap::DashMap;
use crate::ephemeral::{lookup_room, rooms_of, EphemeralRoom, EphemeralRoomView};
use crate::handler::talk::{
    decides, handle_decision, handle_get_history, handle_send_message, has_number, history_told,
    messages_shown, sends_message,
};
use crate::handler::votes::{
    casts_ballot, creates_vote, election_wished, handle_cast_vote, handle_create_vote,
    handle_decline_election, handle_elect_leader, handle_get_vote_status, has_deadline, vote_told,
};
use crate::handler::{
    answer, asked, creates_room, handle_create_room, handle_join_room, handle_leave_room,
    handle_list_agents, handle_list_rooms, handle_room_info, list_parent, listed_agents,
    lists_all_rooms, plain, refuse, refused, room_joined, room_known, room_leaving, tells_room,
};
use crate::ids::{new_id, ID_LENGTH};
use crate::models::{ChatMessageView, RoomView};
use crate::protocol::{
    ActiveVote, Command, ErrorCode, Facts, Outcome, OutcomeView, QuestionView, Reply, ReplyView,
};
use crate::store::messages::{history, tip};
use crate::store::{Store, StoreView};
use crate::text::copy_text;
use crate::time::{column_time, later_exists, Timestamp};

verus! {

/// Whether a command can be handled now: sequence numbers do not run out, and
/// the deadline of a vote is in the calendar.
pub open spec fn can_handle(
    command: Command,
    facts: Facts,
    now: Timestamp,
    before: (StoreView, Map<Seq<char>, EphemeralRoomView>),
) -> bool {
    match command {
        Command::SendMessage(p) => has_number(p.room_id@, facts.in_room, before),
        Command::Decision(p) => before.1.contains_key(p.room_id@) || has_number(
            p.room_id@,
            facts.leader,
            before,
        ),
        Command::CreateVote(p) => has_deadline(p, facts, before.1, now),
        _ => true,
    }
}

/// Decides whether a command can be handled.
pub fn is_in_range(
    command: &Command,
    facts: &Facts,
    store: &Store,
    rooms: &DashMap<String, EphemeralRoom>,
    now: Timestamp,
) -> (r: bool)
    ensures
        r == can_handle(*command, *facts, now, (store@, rooms_of(*rooms))),
{
    match command {
        Command::SendMessage(p) => !facts.in_room || match lookup_room(rooms, p.room_id.as_str()) {
            Some(held) => held.tip < i64::MAX,
            None => has_next(store, p.room_id.as_str()),
        },
        Command::Decision(p) => !facts.leader || lookup_room(rooms, p.room_id.as_str()).is_some()
            || has_next(store, p.room_id.as_str()),
        Command::CreateVote(p) => match p.duration_secs {
            Some(secs) => !facts.in_room || p.options.len() < 2 || lookup_room(
                rooms,
                p.room_id.as_str(),
            ).is_some() || later_exists(now, secs),
            None => true,
        },
        _ => true,
    }
}

fn has_next(store: &Store, room_id: &str) -> (r: bool)
    ensures
        r == (tip(store@.messages, room_id@) < i64::MAX),
{
    match store.room_tip(room_id) {
        Ok(latest) => latest < i64::MAX,
        Err(_) => false,
    }
}

/// What handling a command does, to the tables, to the ephemeral rooms and
/// otherwise. `id` is the identifier of what the command creates.
pub open spec fn handles(
    req_id: Option<Seq<char>>,
    command: Command,
    agent_id: Seq<char>,
    agent_name: Seq<char>,
    facts: Facts,
    id: Seq<char>,
    now: Timestamp,
    before: (StoreView, Map<Seq<char>, EphemeralRoomView>),
    after: (StoreView, Map<Seq<char>, EphemeralRoomView>),
    out: OutcomeView,
) -> bool {
    match command {
        Command::CreateRoom(p) => creates_room(req_id, p, agent_id, id, now, before, after, out),
        Command::SendMessage(p) => sends_message(
            req_id,
            p,
            agent_id,
            agent_name,
            facts.in_room,
            id,
            now,
            before,
            after,
            out,
        ),
        Command::Decision(p) => after.1 == before.1 && decides(
            req_id,
            p,
            agent_id,
            agent_name,
            facts.leader,
            before.1,
            id,
            now,
            before.0,
            after.0,
            out,
        ),
        Command::CreateVote(p) => after.1 == before.1 && creates_vote(
            req_id,
            p,
            agent_id,
            facts,
            before.1,
            id,
            now,
            before.0,
            after.0,
            out,
        ),
        Command::CastVote(p) => after.1 == before.1 && casts_ballot(
            req_id,
            p,
            agent_id,
            agent_name,
            facts.vote,
            now,
            before.0,
            after.0,
            out,
        ),
        _ => after == before && tells(req_id, command, agent_id, agent_name, facts, before, out),
    }
}

/// What a command that changes nothing is answered.
pub open spec fn tells(
    req_id: Option<Seq<char>>,
    command: Command,
    agent_id: Seq<char>,
    agent_name: Seq<char>,
    facts: Facts,
    state: (StoreView, Map<Seq<char>, EphemeralRoomView>),
    out: OutcomeView,
) -> bool {
    match command {
        Command::Ping => out == plain(req_id, ReplyView::Pong),
        Command::Malformed(why) => out == refused(req_id, ErrorCode::InvalidPayload, why@),
        Command::JoinRoom(p) => out == room_joined(
            req_id,
            p.room_id@,
            agent_id,
            agent_name,
            room_known(state.0, state.1, p.room_id@),
            facts.in_room,
        ),
        Command::LeaveRoom(p) => out == room_leaving(req_id, p.room_id@, agent_id, facts.in_room),
        Command::GetHistory(p) => exists|messages: Seq<ChatMessageView>|
            messages_shown(
                history(
                    state.0.messages,
                    p.room_id@,
                    p.limit as int,
                    column_time(p.before),
                    None,
                    None,
                ),
                messages,
            ) && out == #[trigger] history_told(req_id, p.room_id@, messages),
        Command::ListRooms(p) => exists|list: Seq<RoomView>|
            lists_all_rooms(state.0, state.1, list_parent(given(p)), list) && out
                == #[trigger] plain(req_id, ReplyView::RoomList { rooms: list }),
        Command::ListAgents(p) => out == plain(
            req_id,
            ReplyView::AgentList { agents: listed_agents(given(p), facts) },
        ),
        Command::RoomInfo(p) => tells_room(req_id, state.0, state.1, p.room_id@, facts, out),
        Command::GetVoteStatus(_) => out == vote_told(
            req_id,
            facts.vote,
            facts.members.len(),
        ),
        Command::ElectLeader(p) => out == election_wished(req_id, p.room_id@, facts),
        Command::DeclineElection(p) => out == asked(
            req_id,
            QuestionView::DeclineElection { room_id: p.room_id@ },
        ),
        _ => out == refused(req_id, ErrorCode::InvalidPayload, "Unknown command"@),
    }
}

/// A payload by reference, where there is one.
pub open spec fn given<'a, P>(p: Option<P>) -> Option<&'a P> {
    match p {
        Some(p) => Some(&p),
        None => None,
    }
}

/// Handles a command, with the identifier for what it creates.
pub fn handle_frame_with(
    req_id: Option<&str>,
    command: &Command,
    agent_id: &str,
    agent_name: &str,
    facts: &Facts,
    store: &mut Store,
    rooms: &mut DashMap<String, EphemeralRoom>,
    id: &str,
    now: Timestamp,
) -> (out: Outcome)
    requires
        can_handle(*command, *facts, now, (old(store)@, rooms_of(*old(rooms)))),
    ensures
        handles(
            req_id.deep_view(),
            *command,
            agent_id@,
            agent_name@,
            *facts,
            id@,
            now,
            (old(store)@, rooms_of(*old(rooms))),
            (final(store)@, rooms_of(*final(rooms))),
            out@,
        ),
{
    match command {
        Command::Ping => answer(req_id, Reply::Pong),
        Command::Malformed(why) => refuse(req_id, ErrorCode::InvalidPayload, why.as_str()),
        Command::CreateRoom(p) => handle_create_room(req_id, p, agent_id, store, rooms, id, now),
        Command::JoinRoom(p) => handle_join_room(
            req_id,
            p,
            agent_id,
            agent_name,
            facts,
            store,
            rooms,
        ),
        Command::LeaveRoom(p) => handle_leave_room(req_id, p, agent_id, facts),
        Command::SendMessage(p) => handle_send_message(
            req_id,
            p,
            agent_id,
            agent_name,
            facts,
            store,
            rooms,
            id,
            now,
        ),
        Command::GetHistory(p) => handle_get_history(req_id, p, store),
        Command::ListRooms(p) => handle_list_rooms(req_id, p.as_ref(), store, rooms),
        Command::ListAgents(p) => handle_list_agents(req_id, p.as_ref(), facts),
        Command::RoomInfo(p) => handle_room_info(req_id, p, facts, store, rooms),
        Command::CreateVote(p) => handle_create_vote(
            req_id,
            p,
            agent_id,
            facts,
            store,
            rooms,
            id,
            now,
        ),
        Command::CastVote(p) => handle_cast_vote(
            req_id,
            p,
            agent_id,
            agent_name,
            facts,
            store,
            now,
        ),
        Command::GetVoteStatus(_) => handle_get_vote_status(req_id, facts),
        Command::ElectLeader(p) => handle_elect_leader(req_id, p, facts),
        Command::DeclineElection(p) => handle_decline_election(req_id, p),
        Command::Decision(p) => handle_decision(
            req_id,
            p,
            agent_id,
            agent_name,
            facts,
            store,
            rooms,
            id,
            now,
        ),
        Command::Unknown => refuse(req_id, ErrorCode::InvalidPayload, "Unknown command"),
    }
}

/// Handles a command. What it creates gets a fresh identifier.
pub fn handle_frame(
    req_id: Option<&str>,
    command: &Command,
    agent_id: &str,
    agent_name: &str,
    facts: &Facts,
    store: &mut Store,
    rooms: &mut DashMap<String, EphemeralRoom>,
    now: Timestamp,
) -> (out: Outcome)
    requires
        can_handle(*command, *facts, now, (old(store)@, rooms_of(*old(rooms)))),
    ensures
        exists|id: Seq<char>|
            id.len() == ID_LENGTH && #[trigger] handles(
                req_id.deep_view(),
                *command,
                agent_id@,
                agent_name@,
                *facts,
                id,
                now,
                (old(store)@, rooms_of(*old(rooms))),
                (final(store)@, rooms_of(*final(rooms))),
                out@,
            ),
{
    let id = new_id();
    handle_frame_with(req_id, command, agent_id, agent_name, facts, store, rooms, id.as_str(), now)
}

/// Handles a command if it is in range; otherwise nothing happens.
pub fn try_handle_frame(
    req_id: Option<&str>,
    command: &Command,
    agent_id: &str,
    agent_name: &str,
    facts: &Facts,
    store: &mut Store,
    rooms: &mut DashMap<String, EphemeralRoom>,
    now: Timestamp,
) -> (r: Option<Outcome>)
    ensures
        r is Some <==> can_handle(*command, *facts, now, (old(store)@, rooms_of(*old(rooms)))),
        r matches Some(out) ==> exists|id: Seq<char>|
            id.len() == ID_LENGTH && #[trigger] handles(
                req_id.deep_view(),
                *command,
                agent_id@,
                agent_name@,
                *facts,
                id,
                now,
                (old(store)@, rooms_of(*old(rooms))),
                (final(store)@, rooms_of(*final(rooms))),
                out@,
            ),
        r is None ==> *final(store) == *old(store) && *final(rooms) == *old(rooms),
{
    if !is_in_range(command, facts, store, rooms, now) {
        return None;
    }
    Some(handle_frame(req_id, command, agent_id, agent_name, facts, store, rooms, now))
}

// --- What a command speaks of ---

/// The vote that a command speaks of.
pub open spec fn vote_meant(command: Command) -> Option<Seq<char>> {
    match command {
        Command::CastVote(p) => Some(p.vote_id@),
        Command::GetVoteStatus(p) => Some(p.vote_id@),
        _ => None,
    }
}

/// Finds the vote that a command speaks of.
pub fn vote_of(command: &Command) -> (r: Option<String>)
    ensures
        r.deep_view() == vote_meant(*command),
{
    match command {
        Command::CastVote(p) => Some(p.vote_id.clone()),
        Command::GetVoteStatus(p) => Some(p.vote_id.clone()),
        _ => None,
    }
}

/// The room that a command speaks of. Whoever asks how a vote stands speaks of
/// the room where it is held.
pub open spec fn room_meant(command: Command, vote: Option<ActiveVote>) -> Option<Seq<char>> {
    match command {
        Command::JoinRoom(p) => Some(p.room_id@),
        Command::LeaveRoom(p) => Some(p.room_id@),
        Command::SendMessage(p) => Some(p.room_id@),
        Command::ListAgents(Some(p)) => p.room_id.deep_view(),
        Command::RoomInfo(p) => Some(p.room_id@),
        Command::CreateVote(p) => Some(p.room_id@),
        Command::GetVoteStatus(_) => match vote {
            Some(v) => Some(v.room_id@),
            None => None,
        },
        Command::ElectLeader(p) => Some(p.room_id@),
        Command::DeclineElection(p) => Some(p.room_id@),
        Command::Decision(p) => Some(p.room_id@),
        _ => None,
    }
}

/// Finds the room that a command speaks of, given the vote that it speaks of.
pub fn room_of(command: &Command, vote: &Option<ActiveVote>) -> (r: Option<String>)
    ensures
        r.deep_view() == room_meant(*command, *vote),
{
    match command {
        Command::JoinRoom(p) => Some(p.room_id.clone()),
        Command::LeaveRoom(p) => Some(p.room_id.clone()),
        Command::SendMessage(p) => Some(p.room_id.clone()),
        Command::ListAgents(Some(p)) => copy_text(&p.room_id),
        Command::RoomInfo(p) => Some(p.room_id.clone()),
        Command::CreateVote(p) => Some(p.room_id.clone()),
        Command::GetVoteStatus(_) => match vote {
            Some(v) => Some(v.room_id.clone()),
            None => None,
        },
        Command::ElectLeader(p) => Some(p.room_id.clone()),
        Command::DeclineElection(p) => Some(p.room_id.clone()),
        Command::Decision(p) => Some(p.room_id.clone()),
        _ => None,
    }
}

} // verus!
