//! What holds of every command.

use vstd::prelude::*;
use crate::ephemeral::EphemeralRoomView;
use crate::handler::dispatch::{can_handle, handles};
use crate::handler::talk::{decision_row, lasting_message};
use crate::handler::votes::{
    ballot_counted, election_declined, election_started, new_vote, vote_opened,
};
use crate::handler::{permanent_room, room_left};
use crate::models::{
    CastVotePayload, CreateRoomPayload, GetVoteStatusPayload, SendMessagePayload,
};
use crate::protocol::{
    Command, ErrorCode, Facts, NewVoteView, OutcomeView, QuestionView, ReplyView, VerdictView,
};
use crate::store::laws::{
    casting_a_ballot_keeps_well_formed, creating_a_room_keeps_well_formed,
    creating_a_vote_keeps_well_formed, inserting_a_message_keeps_well_formed, well_formed,
};
use crate::store::{BallotRowView, StoreView};
use crate::time::{shown, Timestamp, COLUMN_FORMAT};

verus! {

/// Every command leaves the tables well formed.
pub proof fn commands_keep_the_tables_well_formed(
    req_id: Option<Seq<char>>,
    command: Command,
    agent_id: Seq<char>,
    agent_name: Seq<char>,
    facts: Facts,
    id: Seq<char>,
    now: Timestamp,
    before: (StoreView, Map<Seq<char>, EphemeralRoomView>),
    after: (StoreView, Map<Seq<char>, EphemeralRoomView>),
    out: OutcomeView,
)
    requires
        well_formed(before.0),
        can_handle(command, facts, now, before),
        handles(req_id, command, agent_id, agent_name, facts, id, now, before, after, out),
    ensures
        well_formed(after.0),
{
    if after.0 != before.0 {
        match command {
            Command::CreateRoom(p) => {
                creating_a_room_keeps_well_formed(
                    before.0,
                    permanent_room(p, agent_id, id, now),
                );
            },
            Command::SendMessage(p) => {
                inserting_a_message_keeps_well_formed(
                    before.0,
                    lasting_message(before.0.messages, p, agent_id, agent_name, id, now),
                );
            },
            Command::Decision(p) => {
                inserting_a_message_keeps_well_formed(
                    before.0,
                    decision_row(before.0.messages, p, agent_id, agent_name, id, now),
                );
            },
            Command::CreateVote(p) => {
                creating_a_vote_keeps_well_formed(
                    before.0,
                    new_vote(p, agent_id, facts.members.len(), id, now),
                );
            },
            Command::CastVote(p) => {
                casting_a_ballot_keeps_well_formed(
                    before.0,
                    BallotRowView {
                        vote_id: p.vote_id@,
                        agent_id,
                        agent_name,
                        option_index: p.option_index,
                        cast_at: shown(now, COLUMN_FORMAT@),
                    },
                );
            },
            _ => {},
        }
    }
}

/// Every outcome carries the id of its request, whatever the command and however
/// it goes.
pub proof fn answers_carry_the_id_of_their_request(
    req_id: Option<Seq<char>>,
    command: Command,
    agent_id: Seq<char>,
    agent_name: Seq<char>,
    facts: Facts,
    id: Seq<char>,
    now: Timestamp,
    before: (StoreView, Map<Seq<char>, EphemeralRoomView>),
    after: (StoreView, Map<Seq<char>, EphemeralRoomView>),
    out: OutcomeView,
)
    requires
        handles(req_id, command, agent_id, agent_name, facts, id, now, before, after, out),
    ensures
        out.reply_to == req_id,
{
}

/// An answer that had to wait for a question still carries the id of its request.
pub proof fn late_answers_carry_the_id_of_their_request(
    req_id: Option<Seq<char>>,
    room_id: Seq<char>,
    ends: bool,
    vote: NewVoteView,
    created_at: Timestamp,
    closes_at: Option<Timestamp>,
    vote_id: Seq<char>,
    counted: Result<(usize, usize), ErrorCode>,
    candidates: Seq<Seq<char>>,
    agent_id: Seq<char>,
    done: Result<(), ErrorCode>,
)
    ensures
        room_left(req_id, room_id, ends).reply_to == req_id,
        vote_opened(req_id, vote, created_at, closes_at).reply_to == req_id,
        ballot_counted(req_id, vote_id, counted).reply_to == req_id,
        election_started(req_id, room_id, candidates, agent_id, done).reply_to == req_id,
        election_declined(req_id, room_id, done).reply_to == req_id,
{
}

/// How a vote stands is told with the number of agents that are in its room when
/// it is asked, however many there were when it was opened.
pub proof fn whoever_is_in_the_room_may_vote(
    req_id: Option<Seq<char>>,
    p: GetVoteStatusPayload,
    agent_id: Seq<char>,
    agent_name: Seq<char>,
    facts: Facts,
    id: Seq<char>,
    now: Timestamp,
    before: (StoreView, Map<Seq<char>, EphemeralRoomView>),
    after: (StoreView, Map<Seq<char>, EphemeralRoomView>),
    out: OutcomeView,
)
    requires
        facts.vote is Some,
        handles(
            req_id,
            Command::GetVoteStatus(p),
            agent_id,
            agent_name,
            facts,
            id,
            now,
            before,
            after,
            out,
        ),
    ensures
        out.verdict matches VerdictView::Answer { reply } && (reply matches ReplyView::Vote {
            info,
        } && info.eligible_voters == facts.members.len()),
{
}

/// Whether an outcome is a refusal.
pub open spec fn is_refusal(out: OutcomeView) -> bool {
    out.verdict matches VerdictView::Answer { reply } && reply is Error
}

/// A command that is refused changes nothing and tells nobody.
pub proof fn a_refused_command_changes_nothing(
    req_id: Option<Seq<char>>,
    command: Command,
    agent_id: Seq<char>,
    agent_name: Seq<char>,
    facts: Facts,
    id: Seq<char>,
    now: Timestamp,
    before: (StoreView, Map<Seq<char>, EphemeralRoomView>),
    after: (StoreView, Map<Seq<char>, EphemeralRoomView>),
    out: OutcomeView,
)
    requires
        handles(req_id, command, agent_id, agent_name, facts, id, now, before, after, out),
        is_refusal(out),
    ensures
        after == before,
        out.actions.len() == 0,
{
}

/// Ballots are sealed: casting one tells nobody anything, and whether it is
/// refused, and how, does not depend on which option of the vote it is for.
pub proof fn ballots_are_sealed(
    req_id: Option<Seq<char>>,
    p: CastVotePayload,
    q: CastVotePayload,
    agent_id: Seq<char>,
    agent_name: Seq<char>,
    facts: Facts,
    id: Seq<char>,
    now: Timestamp,
    before: (StoreView, Map<Seq<char>, EphemeralRoomView>),
    after_p: (StoreView, Map<Seq<char>, EphemeralRoomView>),
    after_q: (StoreView, Map<Seq<char>, EphemeralRoomView>),
    out_p: OutcomeView,
    out_q: OutcomeView,
)
    requires
        p.vote_id@ == q.vote_id@,
        facts.vote matches Some(v) ==> p.option_index < v.options.len() && q.option_index
            < v.options.len(),
        handles(
            req_id,
            Command::CastVote(p),
            agent_id,
            agent_name,
            facts,
            id,
            now,
            before,
            after_p,
            out_p,
        ),
        handles(
            req_id,
            Command::CastVote(q),
            agent_id,
            agent_name,
            facts,
            id,
            now,
            before,
            after_q,
            out_q,
        ),
    ensures
        out_p.actions.len() == 0,
        is_refusal(out_p) <==> is_refusal(out_q),
        is_refusal(out_p) ==> out_p == out_q,
        !is_refusal(out_p) ==> out_p.verdict == (VerdictView::Ask {
            question: QuestionView::RecordBallot {
                vote_id: p.vote_id@,
                option_index: p.option_index,
            },
        }),
{
}

/// An ephemeral room is created without a trace in the tables, and counts its
/// messages from one.
pub proof fn a_new_ephemeral_room_counts_from_one(
    req_id: Option<Seq<char>>,
    p: CreateRoomPayload,
    agent_id: Seq<char>,
    agent_name: Seq<char>,
    facts: Facts,
    id: Seq<char>,
    now: Timestamp,
    before: (StoreView, Map<Seq<char>, EphemeralRoomView>),
    after: (StoreView, Map<Seq<char>, EphemeralRoomView>),
    out: OutcomeView,
)
    requires
        p.ephemeral,
        handles(
            req_id,
            Command::CreateRoom(p),
            agent_id,
            agent_name,
            facts,
            id,
            now,
            before,
            after,
            out,
        ),
    ensures
        after.0 == before.0,
        after.1.contains_key(id),
        after.1[id].tip == 0,
{
}

/// What is said in an ephemeral room leaves no trace in the tables. Its number
/// is the next one of the room; no other ephemeral room changes.
pub proof fn ephemeral_rooms_leave_no_trace(
    req_id: Option<Seq<char>>,
    p: SendMessagePayload,
    agent_id: Seq<char>,
    agent_name: Seq<char>,
    facts: Facts,
    id: Seq<char>,
    now: Timestamp,
    before: (StoreView, Map<Seq<char>, EphemeralRoomView>),
    after: (StoreView, Map<Seq<char>, EphemeralRoomView>),
    out: OutcomeView,
)
    requires
        before.1.contains_key(p.room_id@),
        handles(
            req_id,
            Command::SendMessage(p),
            agent_id,
            agent_name,
            facts,
            id,
            now,
            before,
            after,
            out,
        ),
        facts.in_room,
        before.1[p.room_id@].tip < i64::MAX,
    ensures
        after.0 == before.0,
        after.1.dom() == before.1.dom(),
        after.1[p.room_id@].tip == before.1[p.room_id@].tip + 1,
        after.1[p.room_id@].room == before.1[p.room_id@].room,
        out.verdict matches VerdictView::Answer { reply } && (reply matches ReplyView::Message {
            message,
        } && message.seq == after.1[p.room_id@].tip),
        forall|k: Seq<char>|
            k != p.room_id@ && before.1.contains_key(k) ==> #[trigger] after.1[k] == before.1[k],
{
    assert(after.1.dom() =~= before.1.dom());
}

} // verus!
