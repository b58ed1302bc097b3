//! Votes and elections.

use vstd::prelude::*;
use dashmap::DashMap;
use crate::ephemeral::{lookup_room, rooms_of, EphemeralRoom, EphemeralRoomView};
use crate::handler::{act_and_answer, after_one, answer, ask, asked, plain, refuse, refused};
use crate::json::texts_json;
use crate::models::{
    CastVotePayload, CreateVotePayload, DeclineElectionPayload, ElectLeaderPayload, VoteInfo,
    VoteInfoView, VoteStatus,
};
use crate::protocol::{
    Action, ActionView, ActiveVote, ErrorCode, Event, EventView, Facts, NewVote, NewVoteView,
    Outcome, OutcomeView, Question, QuestionView, Reply, ReplyView,
};
use crate::rows::{any, Row};
use crate::store::votes::{ballot_refusal, with_ballot, with_vote, with_vote_id};
use crate::store::{
    BallotRowView, DbError, Store, StoreError, StoreErrorView, StoreView, VoteRowView,
};
use crate::text::{copy_list, copy_text};
use crate::time::{column_time, has_later, later, show, shown, Timestamp, COLUMN_FORMAT};

verus! {

/// How long an agent may withdraw from an election, in seconds.
pub const OPT_OUT_SECONDS: u32 = 2;

/// When a vote of a duration closes that starts now.
pub open spec fn deadline(now: Timestamp, duration_secs: Option<u64>) -> Option<Timestamp> {
    match duration_secs {
        Some(s) => Some(Timestamp { secs: (now.secs + (s as i64)) as i64, nanos: now.nanos }),
        None => None,
    }
}

/// The row of a vote as it is created.
pub open spec fn new_vote(
    p: CreateVotePayload,
    agent_id: Seq<char>,
    eligible: usize,
    vote_id: Seq<char>,
    now: Timestamp,
) -> VoteRowView {
    VoteRowView {
        vote_id,
        room_id: p.room_id@,
        title: p.title@,
        description: p.description.deep_view(),
        options: texts_json(p.options.deep_view()),
        created_by: agent_id,
        created_at: shown(now, COLUMN_FORMAT@),
        closes_at: column_time(deadline(now, p.duration_secs)),
        status: "open"@,
        eligible_voters: eligible,
    }
}

/// What creating a vote does before it is opened. The agent must be in the room
/// and name two options. In a permanent room the vote goes into the tables.
pub open spec fn creates_vote(
    req_id: Option<Seq<char>>,
    p: CreateVotePayload,
    agent_id: Seq<char>,
    facts: Facts,
    rooms: Map<Seq<char>, EphemeralRoomView>,
    vote_id: Seq<char>,
    now: Timestamp,
    before: StoreView,
    after: StoreView,
    out: OutcomeView,
) -> bool {
    let ephemeral = rooms.contains_key(p.room_id@);
    let opening = asked(
        req_id,
        QuestionView::TrackVote {
            vote: NewVoteView {
                vote_id,
                room_id: p.room_id@,
                title: p.title@,
                description: p.description.deep_view(),
                options: p.options.deep_view(),
                created_by: agent_id,
                duration_secs: p.duration_secs,
                eligible_voters: facts.members.len(),
                ephemeral,
            },
        },
    );
    if !facts.in_room {
        after == before && out == refused(
            req_id,
            ErrorCode::NotInRoom,
            "Must be in room to create a vote"@,
        )
    } else if p.options.len() < 2 {
        after == before && out == refused(
            req_id,
            ErrorCode::InvalidPayload,
            "Need at least 2 options"@,
        )
    } else if ephemeral {
        after == before && out == opening
    } else if any(before.votes, with_vote_id(vote_id)) {
        after == before && out == refused(
            req_id,
            ErrorCode::InternalError,
            StoreErrorView::Db(DbError::DuplicateVote).message(),
        )
    } else {
        after == with_vote(before, new_vote(p, agent_id, facts.members.len(), vote_id, now)) && out
            == opening
    }
}

/// Whether the calendar holds the deadline of a vote that goes into the tables.
pub open spec fn has_deadline(
    p: CreateVotePayload,
    facts: Facts,
    rooms: Map<Seq<char>, EphemeralRoomView>,
    now: Timestamp,
) -> bool {
    facts.in_room && p.options.len() >= 2 && !rooms.contains_key(p.room_id@)
        ==> (p.duration_secs matches Some(s) ==> has_later(now, s))
}

/// Creates a vote under the given id.
pub fn handle_create_vote(
    req_id: Option<&str>,
    p: &CreateVotePayload,
    agent_id: &str,
    facts: &Facts,
    store: &mut Store,
    rooms: &DashMap<String, EphemeralRoom>,
    vote_id: &str,
    now: Timestamp,
) -> (out: Outcome)
    requires
        has_deadline(*p, *facts, rooms_of(*rooms), now),
    ensures
        creates_vote(
            req_id.deep_view(),
            *p,
            agent_id@,
            *facts,
            rooms_of(*rooms),
            vote_id@,
            now,
            old(store)@,
            final(store)@,
            out@,
        ),
{
    if !facts.in_room {
        return refuse(req_id, ErrorCode::NotInRoom, "Must be in room to create a vote");
    }
    if p.options.len() < 2 {
        return refuse(req_id, ErrorCode::InvalidPayload, "Need at least 2 options");
    }
    let ephemeral = lookup_room(rooms, p.room_id.as_str()).is_some();
    let eligible: usize = facts.members.len();
    if !ephemeral {
        let closes_at: Option<Timestamp> = match p.duration_secs {
            Some(s) => Some(later(now, s)),
            None => None,
        };
        let description: Option<&str> = match &p.description {
            Some(d) => Some(d.as_str()),
            None => None,
        };
        let created_at = show(now, COLUMN_FORMAT);
        let stored = store.create_vote_at(
            vote_id,
            p.room_id.as_str(),
            p.title.as_str(),
            description,
            &p.options,
            agent_id,
            closes_at,
            eligible,
            created_at.as_str(),
        );
        if let Err(e) = stored {
            let text = e.text();
            return refuse(req_id, ErrorCode::InternalError, text.as_str());
        }
    }
    ask(
        req_id,
        Question::TrackVote {
            vote: NewVote {
                vote_id: vote_id.to_owned(),
                room_id: p.room_id.clone(),
                title: p.title.clone(),
                description: copy_text(&p.description),
                options: copy_list(&p.options),
                created_by: agent_id.to_owned(),
                duration_secs: p.duration_secs,
                eligible_voters: eligible,
                ephemeral,
            },
        },
    )
}

/// What is told of a vote that was just opened: no ballot has been cast.
pub open spec fn first_info(
    vote: NewVoteView,
    created_at: Timestamp,
    closes_at: Option<Timestamp>,
) -> VoteInfoView {
    VoteInfoView {
        vote_id: vote.vote_id,
        room_id: vote.room_id,
        title: vote.title,
        description: vote.description,
        options: vote.options,
        created_by: vote.created_by,
        created_at,
        closes_at,
        status: VoteStatus::Open,
        votes_cast: 0,
        eligible_voters: vote.eligible_voters,
    }
}

/// What a vote that was just opened leads to: all members of its room are told
/// of it.
pub open spec fn vote_opened(
    req_id: Option<Seq<char>>,
    vote: NewVoteView,
    created_at: Timestamp,
    closes_at: Option<Timestamp>,
) -> OutcomeView {
    let info = first_info(vote, created_at, closes_at);
    after_one(
        req_id,
        ActionView::BroadcastAll {
            room_id: vote.room_id,
            event: EventView::VoteCreated { info },
        },
        ReplyView::Vote { info },
    )
}

/// Goes on once a vote has been opened. What is told of it is what was asked
/// for; only its times come with the opening.
pub fn after_opening_vote(
    req_id: Option<&str>,
    vote: &NewVote,
    created_at: Timestamp,
    closes_at: Option<Timestamp>,
) -> (out: Outcome)
    ensures
        out@ == vote_opened(req_id.deep_view(), vote@, created_at, closes_at),
{
    let info = VoteInfo {
        vote_id: vote.vote_id.clone(),
        room_id: vote.room_id.clone(),
        title: vote.title.clone(),
        description: copy_text(&vote.description),
        options: copy_list(&vote.options),
        created_by: vote.created_by.clone(),
        created_at,
        closes_at,
        status: VoteStatus::Open,
        votes_cast: 0,
        eligible_voters: vote.eligible_voters,
    };
    act_and_answer(
        req_id,
        Action::BroadcastAll {
            room_id: vote.room_id.clone(),
            event: Event::VoteCreated { info: info.duplicate() },
        },
        Reply::Vote { info },
    )
}

/// The code for a ballot that the tables refuse.
pub open spec fn ballot_code(e: StoreErrorView) -> ErrorCode {
    match e {
        StoreErrorView::VoteNotFound => ErrorCode::VoteNotFound,
        StoreErrorView::VoteClosed => ErrorCode::VoteClosed,
        StoreErrorView::AlreadyVoted => ErrorCode::AlreadyVoted,
        _ => ErrorCode::InternalError,
    }
}

/// What casting a ballot does before it is counted. The option must exist where
/// the vote is being held. Unless the vote is ephemeral, the ballot goes into
/// the tables.
pub open spec fn casts_ballot(
    req_id: Option<Seq<char>>,
    p: CastVotePayload,
    agent_id: Seq<char>,
    agent_name: Seq<char>,
    vote: Option<ActiveVote>,
    now: Timestamp,
    before: StoreView,
    after: StoreView,
    out: OutcomeView,
) -> bool {
    let counting = asked(
        req_id,
        QuestionView::RecordBallot { vote_id: p.vote_id@, option_index: p.option_index },
    );
    let row = BallotRowView {
        vote_id: p.vote_id@,
        agent_id,
        agent_name,
        option_index: p.option_index,
        cast_at: shown(now, COLUMN_FORMAT@),
    };
    if vote matches Some(v) && p.option_index >= v.options.len() {
        after == before && out == refused(req_id, ErrorCode::InvalidOption, "Invalid option index"@)
    } else if vote matches Some(v) && v.ephemeral {
        after == before && out == counting
    } else {
        match ballot_refusal(before, row) {
            None => after == with_ballot(before, row) && out == counting,
            Some(e) => after == before && out == refused(req_id, ballot_code(e), e.message()),
        }
    }
}

/// Casts a ballot.
pub fn handle_cast_vote(
    req_id: Option<&str>,
    p: &CastVotePayload,
    agent_id: &str,
    agent_name: &str,
    facts: &Facts,
    store: &mut Store,
    now: Timestamp,
) -> (out: Outcome)
    ensures
        casts_ballot(
            req_id.deep_view(),
            *p,
            agent_id@,
            agent_name@,
            facts.vote,
            now,
            old(store)@,
            final(store)@,
            out@,
        ),
{
    let ephemeral = match &facts.vote {
        Some(v) => {
            if p.option_index >= v.options.len() {
                return refuse(req_id, ErrorCode::InvalidOption, "Invalid option index");
            }
            v.ephemeral
        },
        None => false,
    };
    if !ephemeral {
        let cast_at = show(now, COLUMN_FORMAT);
        let stored = store.cast_vote_at(
            p.vote_id.as_str(),
            agent_id,
            agent_name,
            p.option_index,
            cast_at.as_str(),
        );
        if let Err(e) = stored {
            let code = match &e {
                StoreError::VoteNotFound => ErrorCode::VoteNotFound,
                StoreError::VoteClosed => ErrorCode::VoteClosed,
                StoreError::AlreadyVoted => ErrorCode::AlreadyVoted,
                _ => ErrorCode::InternalError,
            };
            let text = e.text();
            return refuse(req_id, code, text.as_str());
        }
    }
    ask(req_id, Question::RecordBallot { vote_id: p.vote_id.clone(), option_index: p.option_index })
}

/// What a counted ballot is answered: how many there are, of how many; or why it
/// was not counted.
pub open spec fn ballot_counted(
    req_id: Option<Seq<char>>,
    vote_id: Seq<char>,
    counted: Result<(usize, usize), ErrorCode>,
) -> OutcomeView {
    match counted {
        Ok(n) => plain(
            req_id,
            ReplyView::Ballot { vote_id, votes_cast: n.0, eligible_voters: n.1 },
        ),
        Err(code) => refused(req_id, code, code.named()),
    }
}

/// Goes on once a ballot has been counted.
pub fn after_counting_ballot(
    req_id: Option<&str>,
    vote_id: &str,
    counted: Result<(usize, usize), ErrorCode>,
) -> (out: Outcome)
    ensures
        out@ == ballot_counted(req_id.deep_view(), vote_id@, counted),
{
    match counted {
        Ok((votes_cast, eligible_voters)) => answer(
            req_id,
            Reply::Ballot { vote_id: vote_id.to_owned(), votes_cast, eligible_voters },
        ),
        Err(code) => refuse(req_id, code, code.name()),
    }
}

/// What is told of an open vote: whoever is in its room now may vote.
pub open spec fn open_info(vote: ActiveVote, members: usize) -> VoteInfoView {
    VoteInfoView {
        vote_id: vote.vote_id@,
        room_id: vote.room_id@,
        title: vote.title@,
        description: vote.description.deep_view(),
        options: vote.options.deep_view(),
        created_by: vote.created_by@,
        created_at: vote.created_at,
        closes_at: vote.closes_at,
        status: VoteStatus::Open,
        votes_cast: vote.votes_cast,
        eligible_voters: members,
    }
}

/// What asking for a vote is answered: what is told of it while it is open.
/// `members` is how many agents are in its room now.
pub open spec fn vote_told(
    req_id: Option<Seq<char>>,
    vote: Option<ActiveVote>,
    members: usize,
) -> OutcomeView {
    match vote {
        Some(v) => plain(req_id, ReplyView::Vote { info: open_info(v, members) }),
        None => refused(req_id, ErrorCode::VoteNotFound, "Vote not found or already closed"@),
    }
}

/// Tells how a vote stands.
pub fn handle_get_vote_status(req_id: Option<&str>, facts: &Facts) -> (out: Outcome)
    ensures
        out@ == vote_told(req_id.deep_view(), facts.vote, facts.members.len()),
{
    match &facts.vote {
        Some(vote) => answer(
            req_id,
            Reply::Vote {
                info: VoteInfo {
                    vote_id: vote.vote_id.clone(),
                    room_id: vote.room_id.clone(),
                    title: vote.title.clone(),
                    description: copy_text(&vote.description),
                    options: copy_list(&vote.options),
                    created_by: vote.created_by.clone(),
                    created_at: vote.created_at,
                    closes_at: vote.closes_at,
                    status: VoteStatus::Open,
                    votes_cast: vote.votes_cast,
                    eligible_voters: facts.members.len(),
                },
            },
        ),
        None => refuse(req_id, ErrorCode::VoteNotFound, "Vote not found or already closed"),
    }
}

/// What the wish for an election leads to: the agent must be in the room, and
/// its members are the candidates.
pub open spec fn election_wished(
    req_id: Option<Seq<char>>,
    room_id: Seq<char>,
    facts: Facts,
) -> OutcomeView {
    if !facts.in_room {
        refused(req_id, ErrorCode::NotInRoom, "Must be in room to start election"@)
    } else if facts.members.len() == 0 {
        refused(req_id, ErrorCode::InvalidPayload, "No candidates in room"@)
    } else {
        asked(
            req_id,
            QuestionView::StartElection { room_id, candidates: facts.members.deep_view() },
        )
    }
}

/// Asks for the election of a leader.
pub fn handle_elect_leader(
    req_id: Option<&str>,
    p: &ElectLeaderPayload,
    facts: &Facts,
) -> (out: Outcome)
    ensures
        out@ == election_wished(req_id.deep_view(), p.room_id@, *facts),
{
    if !facts.in_room {
        return refuse(req_id, ErrorCode::NotInRoom, "Must be in room to start election");
    }
    if facts.members.len() == 0 {
        return refuse(req_id, ErrorCode::InvalidPayload, "No candidates in room");
    }
    ask(
        req_id,
        Question::StartElection {
            room_id: p.room_id.clone(),
            candidates: copy_list(&facts.members),
        },
    )
}

/// What the start of an election leads to: all members are told; or why there is
/// none.
pub open spec fn election_started(
    req_id: Option<Seq<char>>,
    room_id: Seq<char>,
    candidates: Seq<Seq<char>>,
    agent_id: Seq<char>,
    started: Result<(), ErrorCode>,
) -> OutcomeView {
    match started {
        Ok(_) => after_one(
            req_id,
            ActionView::BroadcastAll {
                room_id,
                event: EventView::ElectionStarted {
                    room_id,
                    candidates,
                    started_by: agent_id,
                    opt_out_seconds: OPT_OUT_SECONDS,
                },
            },
            ReplyView::Election {
                room_id,
                candidates,
                message: "Election started. Agents have 2 seconds to decline."@,
            },
        ),
        Err(code) => refused(req_id, code, code.named()),
    }
}

/// Goes on once an election has started, or not.
pub fn after_starting_election(
    req_id: Option<&str>,
    room_id: &str,
    candidates: &Vec<String>,
    agent_id: &str,
    started: Result<(), ErrorCode>,
) -> (out: Outcome)
    ensures
        out@ == election_started(
            req_id.deep_view(),
            room_id@,
            candidates.deep_view(),
            agent_id@,
            started,
        ),
{
    match started {
        Ok(_) => act_and_answer(
            req_id,
            Action::BroadcastAll {
                room_id: room_id.to_owned(),
                event: Event::ElectionStarted {
                    room_id: room_id.to_owned(),
                    candidates: copy_list(candidates),
                    started_by: agent_id.to_owned(),
                    opt_out_seconds: OPT_OUT_SECONDS,
                },
            },
            Reply::Election {
                room_id: room_id.to_owned(),
                candidates: copy_list(candidates),
                message: "Election started. Agents have 2 seconds to decline.".to_owned(),
            },
        ),
        Err(code) => refuse(req_id, code, code.name()),
    }
}

/// Asks to withdraw from an election.
pub fn handle_decline_election(req_id: Option<&str>, p: &DeclineElectionPayload) -> (out: Outcome)
    ensures
        out@ == asked(req_id.deep_view(), QuestionView::DeclineElection { room_id: p.room_id@ }),
{
    ask(req_id, Question::DeclineElection { room_id: p.room_id.clone() })
}

/// What a withdrawal is answered.
pub open spec fn election_declined(
    req_id: Option<Seq<char>>,
    room_id: Seq<char>,
    declined: Result<(), ErrorCode>,
) -> OutcomeView {
    match declined {
        Ok(_) => plain(req_id, ReplyView::Declined { room_id, message: "Declined election"@ }),
        Err(code) => refused(req_id, code, code.named()),
    }
}

/// Goes on once an agent has withdrawn from an election, or not.
pub fn after_declining(
    req_id: Option<&str>,
    room_id: &str,
    declined: Result<(), ErrorCode>,
) -> (out: Outcome)
    ensures
        out@ == election_declined(req_id.deep_view(), room_id@, declined),
{
    match declined {
        Ok(_) => answer(
            req_id,
            Reply::Declined {
                room_id: room_id.to_owned(),
                message: "Declined election".to_owned(),
            },
        ),
        Err(code) => refuse(req_id, code, code.name()),
    }
}

} // verus!
