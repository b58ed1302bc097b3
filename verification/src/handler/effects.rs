//! What every command does, field by field: what it stores, what it tells whom,
//! and what it leaves alone.

use vstd::prelude::*;
use dashmap::DashMap;
use crate::ephemeral::{
    is_below, lists_rooms, lists_rooms_by, rooms_of, EphemeralRoom, EphemeralRoomView,
};
use crate::handler::dispatch::{
    given, handle_frame, handle_frame_with, handles, is_in_range, room_of, try_handle_frame,
    vote_of,
};
use crate::handler::laws::is_refusal;
use crate::handler::talk::{
    handle_decision, handle_get_history, handle_send_message, history_told, messages_shown,
};
use crate::handler::votes::{
    after_counting_ballot, after_declining, after_opening_vote, after_starting_election,
    handle_cast_vote, handle_create_vote, handle_decline_election, handle_elect_leader,
    handle_get_vote_status,
};
use crate::handler::{
    after_leaving, destroy_if_empty, handle_create_room, handle_join_room, handle_leave_room,
    handle_list_agents, handle_list_rooms, handle_room_info, infos_of, leads_to_room, list_parent,
    lists_all_rooms, plain, room_known, room_told, rooms_shown, with_agent_id,
};
use crate::json::{text_json, texts_json};
use crate::models::{
    AgentInfoView, CastVotePayload, ChatMessageView, CreateRoomPayload, CreateVotePayload,
    DecisionPayload, DeclineElectionPayload, ElectLeaderPayload, GetHistoryPayload,
    GetVoteStatusPayload, JoinRoomPayload, LeaveRoomPayload, ListAgentsPayload, ListRoomsPayload,
    RoomInfoPayload, RoomView, SendMessagePayload, VoteStatus,
};
use crate::protocol::{
    Action, ActionView, ActiveVote, Command, ErrorCode, EventView, Facts, NewVote, Outcome,
    OutcomeView, QuestionView, ReplyView, VerdictView,
};
use crate::rows::{first_match, last_n, lemma_first_match, ordered, views};
use crate::store::answers::{
    lemma_back, lemma_whole, lists, lists_last, shows_message, shows_room,
};
use crate::store::effects::lemma_highest_seq;
use crate::store::laws::lemma_text_order_is_strict;
use crate::store::messages::{before_time, by_time, history};
use crate::store::rooms::{below, by_name, with_room_id};
use crate::store::votes::with_vote_id;
use crate::store::{MessageRowView, RoomRowView, Store, StoreView};
use crate::text::lex_lt;
use crate::time::{
    column_instant, column_time, has_later, shown, Timestamp, COLUMN_FORMAT,
};

verus! {

/// Whether an outcome is the refusal with a code and a text, and nothing else.
pub open spec fn refuses(out: OutcomeView, code: ErrorCode, message: Seq<char>) -> bool {
    &&& out.actions.len() == 0
    &&& out.verdict == (VerdictView::Answer { reply: ReplyView::Error { code, message } })
}

/// Whether messages tell rows, one by one.
pub open spec fn tells_messages(rows: Seq<MessageRowView>, messages: Seq<ChatMessageView>) -> bool {
    &&& messages.len() == rows.len()
    &&& forall|k: int| 0 <= k < rows.len() ==> shows_message(rows[k], #[trigger] messages[k])
}

/// Whether a list holds the connected members of a room, in their order: each
/// entry is that of a connected agent, of some member, and later entries are of
/// later members; every connected member has one.
pub open spec fn lists_members(facts: Facts, list: Seq<AgentInfoView>) -> bool {
    exists|at: Seq<int>| #[trigger] lists_members_at(facts, facts.members@.len() as int, at, list)
}

/// Whether a list holds the connected ones of the first `n` members of a room,
/// the entry at `k` being of the member at `at[k]`.
pub open spec fn lists_members_at(
    facts: Facts,
    n: int,
    at: Seq<int>,
    list: Seq<AgentInfoView>,
) -> bool {
    &&& at.len() == list.len()
    &&& forall|k: int|
        0 <= k < at.len() ==> 0 <= #[trigger] at[k] < n && list[k].agent_id
            == facts.members@[at[k]]@
    &&& forall|k: int|
        0 <= k < list.len() ==> exists|j: int|
            0 <= j < facts.agents@.len() && (#[trigger] facts.agents@[j])@ == #[trigger] list[k]
    &&& forall|k: int, l: int| 0 <= k < l < at.len() ==> #[trigger] at[k] < #[trigger] at[l]
    &&& forall|m: int, j: int|
        0 <= m < n && 0 <= j < facts.agents@.len() && (#[trigger] facts.agents@[j])@.agent_id == (
        #[trigger] facts.members@[m])@ ==> at.contains(m)
}

proof fn lemma_lists_members(facts: Facts, n: int)
    requires
        0 <= n <= facts.members@.len(),
    ensures
        exists|at: Seq<int>| #[trigger]
            lists_members_at(
                facts,
                n,
                at,
                infos_of(facts.members.deep_view().take(n), views(facts.agents@)),
            ),
    decreases n,
{
    let members = facts.members.deep_view();
    let agents = views(facts.agents@);
    let list = infos_of(members.take(n), agents);
    if n == 0 {
        let at: Seq<int> = Seq::empty();
        assert(lists_members_at(facts, 0, at, list));
    } else {
        lemma_lists_members(facts, n - 1);
        let front = infos_of(members.take(n - 1), agents);
        let at = choose|at: Seq<int>| #[trigger] lists_members_at(facts, n - 1, at, front);
        assert(members.take(n).drop_last() =~= members.take(n - 1));
        assert(members.take(n).last() == facts.members@[n - 1]@);
        let wanted = with_agent_id(facts.members@[n - 1]@);
        lemma_first_match(agents, wanted);
        match first_match(agents, wanted) {
            Some(a) => {
                let now_at = at.push(n - 1);
                assert(list == front.push(a));
                let j = choose|j: int| 0 <= j < agents.len() && agents[j] == a;
                assert(facts.agents@[j]@ == list[list.len() - 1]);
                assert forall|k: int| 0 <= k < list.len() implies exists|j: int|
                    0 <= j < facts.agents@.len() && (#[trigger] facts.agents@[j])@
                        == #[trigger] list[k] by {
                    if k < front.len() {
                        assert(list[k] == front[k]);
                    }
                }
                assert forall|m: int, j: int|
                    0 <= m < n && 0 <= j < facts.agents@.len() && (
                    #[trigger] facts.agents@[j])@.agent_id == (
                    #[trigger] facts.members@[m])@ implies now_at.contains(m) by {
                    if m < n - 1 {
                        assert(at.contains(m));
                        let k = choose|k: int| 0 <= k < at.len() && at[k] == m;
                        assert(now_at[k] == m);
                    } else {
                        assert(now_at[now_at.len() - 1] == m);
                    }
                }
                assert forall|k: int| 0 <= k < now_at.len() implies 0 <= #[trigger] now_at[k] < n
                    && list[k].agent_id == facts.members@[now_at[k]]@ by {
                    if k < at.len() {
                        assert(now_at[k] == at[k]);
                        assert(list[k] == front[k]);
                    }
                }
                assert forall|k: int, l: int| 0 <= k < l < now_at.len() implies #[trigger] now_at[k]
                    < #[trigger] now_at[l] by {
                    assert(now_at[k] == at[k]);
                    if l < at.len() {
                        assert(now_at[l] == at[l]);
                    }
                }
                assert(lists_members_at(facts, n, now_at, list));
            },
            None => {
                assert forall|m: int, j: int|
                    0 <= m < n && 0 <= j < facts.agents@.len() && (
                    #[trigger] facts.agents@[j])@.agent_id == (
                    #[trigger] facts.members@[m])@ implies at.contains(m) by {
                    if m == n - 1 {
                        assert(wanted(agents[j]));
                    }
                }
                assert(lists_members_at(facts, n, at, list));
            },
        }
    }
}

/// Whether a list tells rooms: first those of the tables in the order of their
/// names, then the ephemeral ones, each once; exactly those below the parent, where
/// one is given.
pub open spec fn tells_rooms(
    s: StoreView,
    ephemeral: Map<Seq<char>, EphemeralRoomView>,
    parent_id: Option<Seq<char>>,
    list: Seq<RoomView>,
) -> bool {
    exists|rows: Seq<RoomRowView>, keys: Seq<Seq<char>>| #[trigger]
        tells_rooms_of(s, ephemeral, parent_id, rows, keys, list)
}

/// Whether a list tells these rows, and behind them the ephemeral rooms under
/// these keys.
pub open spec fn tells_rooms_of(
    s: StoreView,
    ephemeral: Map<Seq<char>, EphemeralRoomView>,
    parent_id: Option<Seq<char>>,
    rows: Seq<RoomRowView>,
    keys: Seq<Seq<char>>,
    list: Seq<RoomView>,
) -> bool {
    &&& list.len() == rows.len() + keys.len()
    &&& lists(
        s.rooms,
        |t: RoomRowView| parent_id is Some ==> t.parent_id == parent_id,
        |a: RoomRowView, b: RoomRowView| lex_lt(a.name, b.name),
        rows,
    )
    &&& forall|k: int| 0 <= k < rows.len() ==> shows_room(#[trigger] rows[k], list[k])
    &&& keys.no_duplicates()
    &&& forall|k: int|
        0 <= k < keys.len() ==> ephemeral.contains_key(#[trigger] keys[k]) && list[rows.len() + k]
            == ephemeral[keys[k]].room && (parent_id is Some
            ==> ephemeral[keys[k]].room.parent_id == parent_id)
    &&& forall|key: Seq<char>| #[trigger]
        ephemeral.contains_key(key) && (parent_id is Some ==> ephemeral[key].room.parent_id
            == parent_id) ==> keys.contains(key)
}

proof fn lemma_tells_rooms(
    s: StoreView,
    ephemeral: Map<Seq<char>, EphemeralRoomView>,
    parent_id: Option<Seq<char>>,
    list: Seq<RoomView>,
)
    requires
        lists_all_rooms(s, ephemeral, parent_id, list),
    ensures
        tells_rooms(s, ephemeral, parent_id, list),
{
    let wanted = |t: RoomRowView| parent_id is Some ==> t.parent_id == parent_id;
    let earlier = |a: RoomRowView, b: RoomRowView| lex_lt(a.name, b.name);
    assert(wanted =~= below(parent_id));
    assert(earlier =~= by_name());
    lemma_text_order_is_strict(by_name(), |r: RoomRowView| r.name);
    lemma_whole(s.rooms, wanted, earlier);
    let rows = ordered(s.rooms.filter(wanted), earlier);
    let n = choose|n: int|
        0 <= n <= list.len() && rooms_shown(rows, #[trigger] list.take(n)) && lists_rooms(
            list.skip(n),
            ephemeral,
            parent_id,
        );
    let rest = list.skip(n);
    let keys = choose|keys: Seq<Seq<char>>| #[trigger]
        lists_rooms_by(keys, rest, ephemeral, parent_id);
    assert forall|k: int| 0 <= k < rows.len() implies shows_room(#[trigger] rows[k], list[k]) by {
        assert(list.take(n)[k] == list[k]);
    }
    assert forall|k: int| 0 <= k < keys.len() implies ephemeral.contains_key(#[trigger] keys[k])
        && list[rows.len() + k] == ephemeral[keys[k]].room && (parent_id is Some
        ==> ephemeral[keys[k]].room.parent_id == parent_id) by {
        assert(rest[k] == list[n + k]);
    }
    assert forall|key: Seq<char>| #[trigger]
        ephemeral.contains_key(key) && (parent_id is Some ==> ephemeral[key].room.parent_id
            == parent_id) implies keys.contains(key) by {
        assert(is_below(ephemeral[key].room, parent_id));
    }
    assert(tells_rooms_of(s, ephemeral, parent_id, rows, keys, list));
}

/// Whether messages tell the latest `limit` messages of a room from before the
/// cutoff, where one is given.
pub open spec fn tells_latest(
    table: Seq<MessageRowView>,
    room_id: Seq<char>,
    cutoff: Option<Timestamp>,
    limit: int,
    messages: Seq<ChatMessageView>,
) -> bool {
    exists|rows: Seq<MessageRowView>| #[trigger]
        tells_messages(rows, messages) && lists_last(
            table,
            |t: MessageRowView|
                t.room_id == room_id && (cutoff matches Some(c) ==> lex_lt(
                    t.created_at,
                    shown(c, COLUMN_FORMAT@),
                )),
            |a: MessageRowView, b: MessageRowView| lex_lt(a.created_at, b.created_at),
            limit,
            rows,
        )
}

proof fn lemma_latest(
    table: Seq<MessageRowView>,
    room_id: Seq<char>,
    cutoff: Option<Timestamp>,
    limit: int,
    messages: Seq<ChatMessageView>,
)
    requires
        0 <= limit,
        messages_shown(
            history(table, room_id, limit, column_time(cutoff), None, None),
            messages,
        ),
    ensures
        tells_latest(table, room_id, cutoff, limit, messages),
{
    let wanted = |t: MessageRowView|
        t.room_id == room_id && (cutoff matches Some(c) ==> lex_lt(
            t.created_at,
            shown(c, COLUMN_FORMAT@),
        ));
    let earlier = |a: MessageRowView, b: MessageRowView| lex_lt(a.created_at, b.created_at);
    assert(wanted =~= before_time(room_id, column_time(cutoff)));
    assert(earlier =~= by_time());
    lemma_text_order_is_strict(by_time(), |t: MessageRowView| t.created_at);
    lemma_back(table, wanted, earlier, limit);
    let rows = last_n(ordered(table.filter(wanted), earlier), limit);
    assert(tells_messages(rows, messages));
}

/// A ballot goes into the tables as it was cast: after a ballot that is not refused, in a
/// vote that is not ephemeral, there is exactly one ballot more, and vote, agent, name
/// and option are those of the request and of its sender. Then it is to be counted, for
/// the same vote and the same option. Nobody is told.
pub proof fn a_ballot_is_stored_as_it_was_cast(
    req_id: Option<Seq<char>>,
    p: CastVotePayload,
    agent_id: Seq<char>,
    agent_name: Seq<char>,
    facts: Facts,
    id: Seq<char>,
    now: Timestamp,
    before: (StoreView, Map<Seq<char>, EphemeralRoomView>),
    after: (StoreView, Map<Seq<char>, EphemeralRoomView>),
    out: OutcomeView,
)
    requires
        handles(
            req_id,
            Command::CastVote(p),
            agent_id,
            agent_name,
            facts,
            id,
            now,
            before,
            after,
            out,
        ),
        !is_refusal(out),
        facts.vote matches Some(v) ==> !v.ephemeral,
    ensures
        after.0.ballots.len() == before.0.ballots.len() + 1,
        after.0.ballots.drop_last() == before.0.ballots,
        after.0.ballots.last().vote_id == p.vote_id@,
        after.0.ballots.last().agent_id == agent_id,
        after.0.ballots.last().agent_name == agent_name,
        after.0.ballots.last().option_index == p.option_index,
        after.0.ballots.last().cast_at == shown(now, COLUMN_FORMAT@),
        after.0.rooms == before.0.rooms,
        after.0.messages == before.0.messages,
        after.0.sessions == before.0.sessions,
        after.0.votes == before.0.votes,
        after.0.keys == before.0.keys,
        after.0.subscriptions == before.0.subscriptions,
        after.0.deliveries == before.0.deliveries,
        after.0.tasks == before.0.tasks,
        after.1 == before.1,
        out.actions.len() == 0,
        out.verdict matches VerdictView::Ask { question }
            && (question matches QuestionView::RecordBallot {
            vote_id,
            option_index,
        } && vote_id == p.vote_id@ && option_index == p.option_index),
{
    assert(after.0.ballots.drop_last() =~= before.0.ballots);
}

/// A ballot in an ephemeral vote leaves no trace in the tables; it is to be counted as it
/// was cast, where its option is one of the vote.
pub proof fn a_ballot_in_an_ephemeral_vote_is_only_counted(
    req_id: Option<Seq<char>>,
    p: CastVotePayload,
    agent_id: Seq<char>,
    agent_name: Seq<char>,
    facts: Facts,
    id: Seq<char>,
    now: Timestamp,
    before: (StoreView, Map<Seq<char>, EphemeralRoomView>),
    after: (StoreView, Map<Seq<char>, EphemeralRoomView>),
    out: OutcomeView,
)
    requires
        handles(
            req_id,
            Command::CastVote(p),
            agent_id,
            agent_name,
            facts,
            id,
            now,
            before,
            after,
            out,
        ),
        facts.vote matches Some(v) && v.ephemeral,
    ensures
        after == before,
        out.actions.len() == 0,
        is_refusal(out) <==> (facts.vote matches Some(v) && p.option_index >= v.options.len()),
        !is_refusal(out) ==> (out.verdict matches VerdictView::Ask { question } && (
        question matches QuestionView::RecordBallot { vote_id, option_index } && vote_id
            == p.vote_id@ && option_index == p.option_index)),
{
}

/// A ballot is refused for a reason: its option is none of the vote; or, unless the vote
/// is ephemeral, the vote is not in the tables, it is not open, or the agent has voted in
/// it. Otherwise it is taken.
pub proof fn a_ballot_is_refused_for_a_reason(
    req_id: Option<Seq<char>>,
    p: CastVotePayload,
    agent_id: Seq<char>,
    agent_name: Seq<char>,
    facts: Facts,
    id: Seq<char>,
    now: Timestamp,
    before: (StoreView, Map<Seq<char>, EphemeralRoomView>),
    after: (StoreView, Map<Seq<char>, EphemeralRoomView>),
    out: OutcomeView,
)
    requires
        handles(
            req_id,
            Command::CastVote(p),
            agent_id,
            agent_name,
            facts,
            id,
            now,
            before,
            after,
            out,
        ),
    ensures
        refuses(out, ErrorCode::InvalidOption, "Invalid option index"@) <==> (
        facts.vote matches Some(v) && p.option_index >= v.options.len()),
        (out.verdict matches VerdictView::Answer { reply } && (reply matches ReplyView::Error {
            code,
            ..
        } && code == ErrorCode::VoteNotFound)) <==> (facts.vote matches Some(v) ==> !v.ephemeral
            && p.option_index < v.options.len()) && forall|i: int|
            0 <= i < before.0.votes.len() ==> (#[trigger] before.0.votes[i]).vote_id != p.vote_id@,
        (out.verdict matches VerdictView::Answer { reply } && (reply matches ReplyView::Error {
            code,
            ..
        } && code == ErrorCode::VoteClosed)) ==> exists|i: int|
            0 <= i < before.0.votes.len() && (#[trigger] before.0.votes[i]).vote_id == p.vote_id@
                && before.0.votes[i].status != "open"@,
        (out.verdict matches VerdictView::Answer { reply } && (reply matches ReplyView::Error {
            code,
            ..
        } && code == ErrorCode::AlreadyVoted)) ==> exists|i: int|
            0 <= i < before.0.ballots.len() && (#[trigger] before.0.ballots[i]).vote_id
                == p.vote_id@
                && before.0.ballots[i].agent_id == agent_id,
        (forall|i: int|
            0 <= i < before.0.votes.len() && (#[trigger] before.0.votes[i]).vote_id == p.vote_id@
                ==> before.0.votes[i].status == "open"@) && (exists|i: int|
            0 <= i < before.0.votes.len() && (#[trigger] before.0.votes[i]).vote_id == p.vote_id@)
            && (forall|i: int|
            0 <= i < before.0.ballots.len() && (#[trigger] before.0.ballots[i]).vote_id
                == p.vote_id@
                ==> before.0.ballots[i].agent_id != agent_id) && (facts.vote matches Some(v)
            ==> p.option_index < v.options.len()) ==> !is_refusal(out),
        is_refusal(out) ==> refuses(out, ErrorCode::InvalidOption, "Invalid option index"@) ||
            refuses(
            out,
            ErrorCode::VoteNotFound,
            "vote not found"@,
        ) || refuses(out, ErrorCode::VoteClosed, "vote is closed"@) || refuses(
            out,
            ErrorCode::AlreadyVoted,
            "already voted"@,
        ),
        after != before ==> !is_refusal(out),
{
    lemma_first_match(before.0.votes, with_vote_id(p.vote_id@));
}

/// A message is passed on as it was sent: in the answer, in what the other members get
/// and in what those it mentions get, room, content, metadata and what it answers are
/// those of the request, and id and name those of the sender.
pub proof fn a_message_is_passed_on_as_it_was_sent(
    req_id: Option<Seq<char>>,
    p: SendMessagePayload,
    agent_id: Seq<char>,
    agent_name: Seq<char>,
    facts: Facts,
    id: Seq<char>,
    now: Timestamp,
    before: (StoreView, Map<Seq<char>, EphemeralRoomView>),
    after: (StoreView, Map<Seq<char>, EphemeralRoomView>),
    out: OutcomeView,
)
    requires
        handles(
            req_id,
            Command::SendMessage(p),
            agent_id,
            agent_name,
            facts,
            id,
            now,
            before,
            after,
            out,
        ),
        !is_refusal(out),
    ensures
        (out.verdict matches VerdictView::Answer { reply }
            && (reply matches ReplyView::Message { message } && {
            &&& message.message_id == id
            &&& message.room_id == p.room_id@
            &&& message.agent_id == agent_id
            &&& message.agent_name == agent_name
            &&& message.content == p.content@
            &&& message.reply_to_message == p.reply_to.deep_view()
            &&& message.metadata == p.metadata@
            &&& out.actions[0] == (ActionView::Broadcast {
                room_id: p.room_id@,
                sender: agent_id,
                event: EventView::MessageReceived { message },
            })
            &&& !before.1.contains_key(p.room_id@) ==> (column_instant(
                shown(now, COLUMN_FORMAT@),
            ) matches Some(t) ==> message.timestamp == t)
            &&& p.mentions@.len() == 0 ==> out.actions.len() == 1
            &&& p.mentions@.len() > 0 ==> out.actions.len() == 2 && out.actions[1] == (
            ActionView::Mention { agents: p.mentions.deep_view(), message, room_id: p.room_id@ })
        })),
{
}

/// In a permanent room a message goes into the tables as it was sent, as the only new
/// row, under the number that the answer tells. Nothing else changes.
pub proof fn a_message_is_stored_as_it_was_sent(
    req_id: Option<Seq<char>>,
    p: SendMessagePayload,
    agent_id: Seq<char>,
    agent_name: Seq<char>,
    facts: Facts,
    id: Seq<char>,
    now: Timestamp,
    before: (StoreView, Map<Seq<char>, EphemeralRoomView>),
    after: (StoreView, Map<Seq<char>, EphemeralRoomView>),
    out: OutcomeView,
)
    requires
        handles(
            req_id,
            Command::SendMessage(p),
            agent_id,
            agent_name,
            facts,
            id,
            now,
            before,
            after,
            out,
        ),
        !is_refusal(out),
        !before.1.contains_key(p.room_id@),
        forall|i: int|
            0 <= i < before.0.messages.len() && (#[trigger] before.0.messages[i]).room_id
                == p.room_id@
                ==> before.0.messages[i].seq < i64::MAX,
    ensures
        after.0.messages.len() == before.0.messages.len() + 1,
        after.0.messages.drop_last() == before.0.messages,
        after.0.messages.last().message_id == id,
        after.0.messages.last().room_id == p.room_id@,
        after.0.messages.last().agent_id == agent_id,
        after.0.messages.last().agent_name == agent_name,
        after.0.messages.last().content == p.content@,
        after.0.messages.last().reply_to_message == p.reply_to.deep_view(),
        after.0.messages.last().metadata == p.metadata@,
        after.0.messages.last().created_at == shown(now, COLUMN_FORMAT@),
        out.verdict matches VerdictView::Answer { reply } && (reply matches ReplyView::Message {
            message,
        } && message.seq == after.0.messages.last().seq),
        forall|i: int|
            0 <= i < before.0.messages.len() && (#[trigger] before.0.messages[i]).room_id
                == p.room_id@
                ==> before.0.messages[i].seq < after.0.messages.last().seq,
        (exists|i: int|
            0 <= i < before.0.messages.len() && (#[trigger] before.0.messages[i]).room_id
                == p.room_id@
                && before.0.messages[i].seq + 1 == after.0.messages.last().seq) || (
        after.0.messages.last().seq == 1 && forall|i: int|
            0 <= i < before.0.messages.len() ==> (#[trigger] before.0.messages[i]).room_id
                != p.room_id@),
        after.1 == before.1,
        after.0.rooms == before.0.rooms,
        after.0.sessions == before.0.sessions,
        after.0.votes == before.0.votes,
        after.0.ballots == before.0.ballots,
        after.0.keys == before.0.keys,
        after.0.subscriptions == before.0.subscriptions,
        after.0.deliveries == before.0.deliveries,
        after.0.tasks == before.0.tasks,
{
    lemma_highest_seq(before.0.messages, p.room_id@);
    assert(after.0.messages.drop_last() =~= before.0.messages);
}

/// In an ephemeral room a message gets the time of sending and the next number of the
/// room, and nothing but that number is remembered.
pub proof fn a_message_in_an_ephemeral_room_is_only_counted(
    req_id: Option<Seq<char>>,
    p: SendMessagePayload,
    agent_id: Seq<char>,
    agent_name: Seq<char>,
    facts: Facts,
    id: Seq<char>,
    now: Timestamp,
    before: (StoreView, Map<Seq<char>, EphemeralRoomView>),
    after: (StoreView, Map<Seq<char>, EphemeralRoomView>),
    out: OutcomeView,
)
    requires
        handles(
            req_id,
            Command::SendMessage(p),
            agent_id,
            agent_name,
            facts,
            id,
            now,
            before,
            after,
            out,
        ),
        facts.in_room,
        before.1.contains_key(p.room_id@),
        before.1[p.room_id@].tip < i64::MAX,
    ensures
        !is_refusal(out),
        after.0 == before.0,
        after.1[p.room_id@].tip == before.1[p.room_id@].tip + 1,
        after.1[p.room_id@].room == before.1[p.room_id@].room,
        forall|k: Seq<char>| #[trigger]
            after.1.contains_key(k) <==> before.1.contains_key(k),
        forall|k: Seq<char>|
            k != p.room_id@ && before.1.contains_key(k) ==> #[trigger] after.1[k] == before.1[k],
        out.verdict matches VerdictView::Answer { reply } && (reply matches ReplyView::Message {
            message,
        } && message.timestamp == now && message.seq == before.1[p.room_id@].tip + 1),
{
}

/// Only who is in a room can send a message to it; whoever is in an ephemeral room, or in
/// a permanent one that is in the tables and answers nothing or a message that is there,
/// can, under a new id.
pub proof fn whoever_is_in_a_room_can_speak(
    req_id: Option<Seq<char>>,
    p: SendMessagePayload,
    agent_id: Seq<char>,
    agent_name: Seq<char>,
    facts: Facts,
    id: Seq<char>,
    now: Timestamp,
    before: (StoreView, Map<Seq<char>, EphemeralRoomView>),
    after: (StoreView, Map<Seq<char>, EphemeralRoomView>),
    out: OutcomeView,
)
    requires
        handles(
            req_id,
            Command::SendMessage(p),
            agent_id,
            agent_name,
            facts,
            id,
            now,
            before,
            after,
            out,
        ),
    ensures
        !facts.in_room <==> refuses(out, ErrorCode::NotInRoom, "Not in this room"@),
        facts.in_room && !before.1.contains_key(p.room_id@) && (exists|i: int|
            0 <= i < before.0.rooms.len() && (#[trigger] before.0.rooms[i]).room_id == p.room_id@)
            && (forall|i: int|
            0 <= i < before.0.messages.len() ==> (#[trigger] before.0.messages[i]).message_id != id)
            && (p.reply_to matches Some(t) ==> exists|i: int|
            0 <= i < before.0.messages.len() && (#[trigger] before.0.messages[i]).message_id == t@)
            ==> !is_refusal(out),
        facts.in_room && is_refusal(out) ==> refuses(
            out,
            ErrorCode::InternalError,
            "database error: "@ + "UNIQUE constraint failed: messages.message_id"@,
        ) || refuses(
            out,
            ErrorCode::InternalError,
            "database error: "@ + "FOREIGN KEY constraint failed"@,
        ),
        is_refusal(out) ==> after == before && out.actions.len() == 0,
{
}

/// A decision is told to all members as it was made: content and metadata are those of the
/// request, and the leader is the sender.
pub proof fn a_decision_is_told_as_it_was_made(
    req_id: Option<Seq<char>>,
    p: DecisionPayload,
    agent_id: Seq<char>,
    agent_name: Seq<char>,
    facts: Facts,
    id: Seq<char>,
    now: Timestamp,
    before: (StoreView, Map<Seq<char>, EphemeralRoomView>),
    after: (StoreView, Map<Seq<char>, EphemeralRoomView>),
    out: OutcomeView,
)
    requires
        handles(
            req_id,
            Command::Decision(p),
            agent_id,
            agent_name,
            facts,
            id,
            now,
            before,
            after,
            out,
        ),
        !is_refusal(out),
    ensures
        out.actions.len() == 1,
        out.actions[0] matches ActionView::BroadcastAll { room_id, event } && room_id == p.room_id@
            && event == (EventView::DecisionMade {
            room_id: p.room_id@,
            message_id: id,
            leader_id: agent_id,
            leader_name: agent_name,
            content: p.content@,
            metadata: p.metadata@,
            timestamp: now,
        }),
        out.verdict matches VerdictView::Answer { reply } && (reply matches ReplyView::Decision {
            message_id,
            room_id,
        } && message_id == id && room_id == p.room_id@),
        facts.leader,
        after.1 == before.1,
        before.1.contains_key(p.room_id@) ==> after.0 == before.0,
{
}

/// In a permanent room a decision goes into the tables as a message of the leader, marked
/// as a decision, and nothing else changes.
pub proof fn a_decision_is_stored_as_a_message(
    req_id: Option<Seq<char>>,
    p: DecisionPayload,
    agent_id: Seq<char>,
    agent_name: Seq<char>,
    facts: Facts,
    id: Seq<char>,
    now: Timestamp,
    before: (StoreView, Map<Seq<char>, EphemeralRoomView>),
    after: (StoreView, Map<Seq<char>, EphemeralRoomView>),
    out: OutcomeView,
)
    requires
        handles(
            req_id,
            Command::Decision(p),
            agent_id,
            agent_name,
            facts,
            id,
            now,
            before,
            after,
            out,
        ),
        !is_refusal(out),
        !before.1.contains_key(p.room_id@),
        forall|i: int|
            0 <= i < before.0.messages.len() && (#[trigger] before.0.messages[i]).room_id
                == p.room_id@
                ==> before.0.messages[i].seq < i64::MAX,
    ensures
        after.0.messages.len() == before.0.messages.len() + 1,
        after.0.messages.drop_last() == before.0.messages,
        after.0.messages.last().message_id == id,
        after.0.messages.last().room_id == p.room_id@,
        after.0.messages.last().agent_id == agent_id,
        after.0.messages.last().agent_name == agent_name,
        after.0.messages.last().content == p.content@,
        after.0.messages.last().reply_to_message == None::<Seq<char>>,
        after.0.messages.last().metadata == "{\"decided_by\":"@ + text_json(agent_id)
            + ",\"type\":\"decision\"}"@,
        after.0.messages.last().created_at == shown(now, COLUMN_FORMAT@),
        forall|i: int|
            0 <= i < before.0.messages.len() && (#[trigger] before.0.messages[i]).room_id
                == p.room_id@
                ==> before.0.messages[i].seq < after.0.messages.last().seq,
        (exists|i: int|
            0 <= i < before.0.messages.len() && (#[trigger] before.0.messages[i]).room_id
                == p.room_id@
                && before.0.messages[i].seq + 1 == after.0.messages.last().seq) || (
        after.0.messages.last().seq == 1 && forall|i: int|
            0 <= i < before.0.messages.len() ==> (#[trigger] before.0.messages[i]).room_id
                != p.room_id@),
        after.0.rooms == before.0.rooms,
        after.0.sessions == before.0.sessions,
        after.0.votes == before.0.votes,
        after.0.ballots == before.0.ballots,
        after.0.keys == before.0.keys,
        after.0.subscriptions == before.0.subscriptions,
        after.0.deliveries == before.0.deliveries,
        after.0.tasks == before.0.tasks,
{
    lemma_highest_seq(before.0.messages, p.room_id@);
    assert(after.0.messages.drop_last() =~= before.0.messages);
}

/// Only the leader of a room decides; the leader of an ephemeral room, or of a permanent
/// one that is in the tables, does, under a new id.
pub proof fn only_the_leader_decides(
    req_id: Option<Seq<char>>,
    p: DecisionPayload,
    agent_id: Seq<char>,
    agent_name: Seq<char>,
    facts: Facts,
    id: Seq<char>,
    now: Timestamp,
    before: (StoreView, Map<Seq<char>, EphemeralRoomView>),
    after: (StoreView, Map<Seq<char>, EphemeralRoomView>),
    out: OutcomeView,
)
    requires
        handles(
            req_id,
            Command::Decision(p),
            agent_id,
            agent_name,
            facts,
            id,
            now,
            before,
            after,
            out,
        ),
    ensures
        !facts.leader <==> refuses(
            out,
            ErrorCode::NotLeader,
            "Only the room leader can issue decisions"@,
        ),
        facts.leader && before.1.contains_key(p.room_id@) ==> !is_refusal(out),
        facts.leader && (exists|i: int|
            0 <= i < before.0.rooms.len() && (#[trigger] before.0.rooms[i]).room_id == p.room_id@)
            && (forall|i: int|
            0 <= i < before.0.messages.len() ==> (#[trigger] before.0.messages[i]).message_id != id)
            ==> !is_refusal(out),
        facts.leader && is_refusal(out) ==> refuses(
            out,
            ErrorCode::InternalError,
            "database error: "@ + "UNIQUE constraint failed: messages.message_id"@,
        ) || refuses(
            out,
            ErrorCode::InternalError,
            "database error: "@ + "FOREIGN KEY constraint failed"@,
        ),
        is_refusal(out) ==> after == before && out.actions.len() == 0,
{
}

/// A vote is opened as it was asked for: what is to be tracked has the room, the title,
/// the description, the options and the duration of the request, its sender as creator,
/// and as many eligible voters as the room has members.
pub proof fn a_vote_is_opened_as_asked(
    req_id: Option<Seq<char>>,
    p: CreateVotePayload,
    agent_id: Seq<char>,
    agent_name: Seq<char>,
    facts: Facts,
    id: Seq<char>,
    now: Timestamp,
    before: (StoreView, Map<Seq<char>, EphemeralRoomView>),
    after: (StoreView, Map<Seq<char>, EphemeralRoomView>),
    out: OutcomeView,
)
    requires
        handles(
            req_id,
            Command::CreateVote(p),
            agent_id,
            agent_name,
            facts,
            id,
            now,
            before,
            after,
            out,
        ),
        !is_refusal(out),
    ensures
        out.actions.len() == 0,
        out.verdict matches VerdictView::Ask { question }
            && (question matches QuestionView::TrackVote {
            vote,
        } && {
            &&& vote.vote_id == id
            &&& vote.room_id == p.room_id@
            &&& vote.title == p.title@
            &&& vote.description == p.description.deep_view()
            &&& vote.options == p.options.deep_view()
            &&& vote.created_by == agent_id
            &&& vote.duration_secs == p.duration_secs
            &&& vote.eligible_voters == facts.members@.len()
            &&& vote.ephemeral <==> before.1.contains_key(p.room_id@)
        }),
        facts.in_room,
        p.options@.len() >= 2,
        after.1 == before.1,
        before.1.contains_key(p.room_id@) ==> after.0 == before.0,
{
}

/// In a permanent room a vote goes into the tables as it was asked for, open, and with its
/// deadline as many seconds ahead as it lasts. Nothing else changes.
pub proof fn a_vote_is_stored_as_asked(
    req_id: Option<Seq<char>>,
    p: CreateVotePayload,
    agent_id: Seq<char>,
    agent_name: Seq<char>,
    facts: Facts,
    id: Seq<char>,
    now: Timestamp,
    before: (StoreView, Map<Seq<char>, EphemeralRoomView>),
    after: (StoreView, Map<Seq<char>, EphemeralRoomView>),
    out: OutcomeView,
)
    requires
        handles(
            req_id,
            Command::CreateVote(p),
            agent_id,
            agent_name,
            facts,
            id,
            now,
            before,
            after,
            out,
        ),
        !is_refusal(out),
        !before.1.contains_key(p.room_id@),
        p.duration_secs matches Some(s) ==> now.secs + s <= i64::MAX && s <= i64::MAX,
    ensures
        after.0.votes.len() == before.0.votes.len() + 1,
        after.0.votes.drop_last() == before.0.votes,
        after.0.votes.last().vote_id == id,
        after.0.votes.last().room_id == p.room_id@,
        after.0.votes.last().title == p.title@,
        after.0.votes.last().description == p.description.deep_view(),
        after.0.votes.last().options == texts_json(p.options.deep_view()),
        after.0.votes.last().created_by == agent_id,
        after.0.votes.last().created_at == shown(now, COLUMN_FORMAT@),
        after.0.votes.last().status == "open"@,
        after.0.votes.last().eligible_voters == facts.members@.len(),
        p.duration_secs is None ==> after.0.votes.last().closes_at is None,
        p.duration_secs matches Some(s) ==> after.0.votes.last().closes_at == Some(
            shown(Timestamp { secs: (now.secs + s) as i64, nanos: now.nanos }, COLUMN_FORMAT@),
        ),
        after.0.rooms == before.0.rooms,
        after.0.messages == before.0.messages,
        after.0.sessions == before.0.sessions,
        after.0.ballots == before.0.ballots,
        after.0.keys == before.0.keys,
        after.0.subscriptions == before.0.subscriptions,
        after.0.deliveries == before.0.deliveries,
        after.0.tasks == before.0.tasks,
{
    assert(after.0.votes.drop_last() =~= before.0.votes);
}

/// A vote needs an agent that is in the room, and two options; with both it is opened,
/// under a new id.
pub proof fn a_vote_needs_a_member_and_two_options(
    req_id: Option<Seq<char>>,
    p: CreateVotePayload,
    agent_id: Seq<char>,
    agent_name: Seq<char>,
    facts: Facts,
    id: Seq<char>,
    now: Timestamp,
    before: (StoreView, Map<Seq<char>, EphemeralRoomView>),
    after: (StoreView, Map<Seq<char>, EphemeralRoomView>),
    out: OutcomeView,
)
    requires
        handles(
            req_id,
            Command::CreateVote(p),
            agent_id,
            agent_name,
            facts,
            id,
            now,
            before,
            after,
            out,
        ),
    ensures
        !facts.in_room <==> refuses(
            out,
            ErrorCode::NotInRoom,
            "Must be in room to create a vote"@,
        ),
        facts.in_room && p.options@.len() < 2 <==> refuses(
            out,
            ErrorCode::InvalidPayload,
            "Need at least 2 options"@,
        ),
        facts.in_room && p.options@.len() >= 2 && (forall|i: int|
            0 <= i < before.0.votes.len() ==> (#[trigger] before.0.votes[i]).vote_id != id)
            ==> !is_refusal(out),
        facts.in_room && p.options@.len() >= 2 && before.1.contains_key(p.room_id@) ==> !is_refusal(
            out,
        ),
        facts.in_room && p.options@.len() >= 2 && is_refusal(out) ==> refuses(
            out,
            ErrorCode::InternalError,
            "database error: "@ + "UNIQUE constraint failed: votes.vote_id"@,
        ),
        is_refusal(out) ==> after == before && out.actions.len() == 0,
{
}

/// A room is announced as it was asked for, to everybody and in the answer: name,
/// description and parent are those of the request, the sender created it, and it is
/// private.
pub proof fn a_room_is_announced_as_asked(
    req_id: Option<Seq<char>>,
    p: CreateRoomPayload,
    agent_id: Seq<char>,
    agent_name: Seq<char>,
    facts: Facts,
    id: Seq<char>,
    now: Timestamp,
    before: (StoreView, Map<Seq<char>, EphemeralRoomView>),
    after: (StoreView, Map<Seq<char>, EphemeralRoomView>),
    out: OutcomeView,
)
    requires
        handles(
            req_id,
            Command::CreateRoom(p),
            agent_id,
            agent_name,
            facts,
            id,
            now,
            before,
            after,
            out,
        ),
        !is_refusal(out),
    ensures
        out.actions.len() == 1,
        (out.verdict matches VerdictView::Answer { reply }
            && (reply matches ReplyView::Room { room } && {
            &&& room.room_id == id
            &&& room.name == p.name@
            &&& room.description == p.description.deep_view()
            &&& room.parent_id == p.parent_id.deep_view()
            &&& room.created_by == Some(agent_id)
            &&& room.visibility == "private"@
            &&& room.owner_key == None::<Seq<char>>
            &&& room.encrypted == false
            &&& room.ephemeral == p.ephemeral
            &&& room.last_activity is None
            &&& room.member_count is None
            &&& p.ephemeral ==> room.created_at == now
            &&& out.actions[0] == (ActionView::SendAll { event: EventView::RoomCreated { room } })
            &&& p.ephemeral ==> after.1[id].room == room
            &&& !p.ephemeral ==> (column_instant(shown(now, COLUMN_FORMAT@)) matches Some(t)
                ==> room.created_at == t)
        })),
{
}

/// A permanent room goes into the tables as it was asked for, and nothing else changes.
pub proof fn a_permanent_room_is_stored_as_asked(
    req_id: Option<Seq<char>>,
    p: CreateRoomPayload,
    agent_id: Seq<char>,
    agent_name: Seq<char>,
    facts: Facts,
    id: Seq<char>,
    now: Timestamp,
    before: (StoreView, Map<Seq<char>, EphemeralRoomView>),
    after: (StoreView, Map<Seq<char>, EphemeralRoomView>),
    out: OutcomeView,
)
    requires
        handles(
            req_id,
            Command::CreateRoom(p),
            agent_id,
            agent_name,
            facts,
            id,
            now,
            before,
            after,
            out,
        ),
        !is_refusal(out),
        !p.ephemeral,
    ensures
        after.0.rooms.len() == before.0.rooms.len() + 1,
        after.0.rooms.drop_last() == before.0.rooms,
        after.0.rooms.last().room_id == id,
        after.0.rooms.last().name == p.name@,
        after.0.rooms.last().description == p.description.deep_view(),
        after.0.rooms.last().parent_id == p.parent_id.deep_view(),
        after.0.rooms.last().created_by == Some(agent_id),
        after.0.rooms.last().visibility == "private"@,
        after.0.rooms.last().owner_key == None::<Seq<char>>,
        after.0.rooms.last().encrypted == false,
        after.0.rooms.last().created_at == shown(now, COLUMN_FORMAT@),
        after.1 == before.1,
        after.0.messages == before.0.messages,
        after.0.sessions == before.0.sessions,
        after.0.votes == before.0.votes,
        after.0.ballots == before.0.ballots,
        after.0.keys == before.0.keys,
        after.0.subscriptions == before.0.subscriptions,
        after.0.deliveries == before.0.deliveries,
        after.0.tasks == before.0.tasks,
{
    assert(after.0.rooms.drop_last() =~= before.0.rooms);
}

/// An ephemeral room is always created, and leaves no trace in the tables; no other
/// ephemeral room changes.
pub proof fn an_ephemeral_room_is_only_remembered(
    req_id: Option<Seq<char>>,
    p: CreateRoomPayload,
    agent_id: Seq<char>,
    agent_name: Seq<char>,
    facts: Facts,
    id: Seq<char>,
    now: Timestamp,
    before: (StoreView, Map<Seq<char>, EphemeralRoomView>),
    after: (StoreView, Map<Seq<char>, EphemeralRoomView>),
    out: OutcomeView,
)
    requires
        handles(
            req_id,
            Command::CreateRoom(p),
            agent_id,
            agent_name,
            facts,
            id,
            now,
            before,
            after,
            out,
        ),
        p.ephemeral,
    ensures
        !is_refusal(out),
        after.0 == before.0,
        after.1.contains_key(id),
        after.1[id].tip == 0,
        forall|k: Seq<char>|
            k != id ==> (#[trigger] after.1.contains_key(k) <==> before.1.contains_key(k)),
        forall|k: Seq<char>|
            k != id && before.1.contains_key(k) ==> #[trigger] after.1[k] == before.1[k],
{
}

/// A permanent room needs a parent that is known, where it has one, and a name that is not
/// taken; a room without a parent, and with a new id and a new name, is created.
pub proof fn a_permanent_room_needs_its_parent_and_a_new_name(
    req_id: Option<Seq<char>>,
    p: CreateRoomPayload,
    agent_id: Seq<char>,
    agent_name: Seq<char>,
    facts: Facts,
    id: Seq<char>,
    now: Timestamp,
    before: (StoreView, Map<Seq<char>, EphemeralRoomView>),
    after: (StoreView, Map<Seq<char>, EphemeralRoomView>),
    out: OutcomeView,
)
    requires
        handles(
            req_id,
            Command::CreateRoom(p),
            agent_id,
            agent_name,
            facts,
            id,
            now,
            before,
            after,
            out,
        ),
        !p.ephemeral,
    ensures
        refuses(out, ErrorCode::RoomNotFound, "Parent room not found"@) <==> (
        p.parent_id matches Some(parent) && !before.1.contains_key(parent@) && forall|i: int|
            0 <= i < before.0.rooms.len() ==> (#[trigger] before.0.rooms[i]).room_id != parent@),
        p.parent_id is None && (forall|i: int|
            0 <= i < before.0.rooms.len() ==> (#[trigger] before.0.rooms[i]).room_id != id
                && before.0.rooms[i].name != p.name@) ==> !is_refusal(out),
        p.parent_id is None && (exists|i: int|
            0 <= i < before.0.rooms.len() && (#[trigger] before.0.rooms[i]).name == p.name@)
            ==> refuses(out, ErrorCode::RoomNameTaken, "Room name '"@ + p.name@
                + "' already taken"@),
        is_refusal(out) ==> refuses(out, ErrorCode::RoomNotFound, "Parent room not found"@) ||
            refuses(
            out,
            ErrorCode::RoomNameTaken,
            "Room name '"@ + p.name@ + "' already taken"@,
        ) || refuses(
            out,
            ErrorCode::InternalError,
            "database error: "@ + "UNIQUE constraint failed: rooms.room_id"@,
        ) || refuses(
            out,
            ErrorCode::InternalError,
            "database error: "@ + "FOREIGN KEY constraint failed"@,
        ) || refuses(
            out,
            ErrorCode::InternalError,
            "database error: "@ + "CHECK constraint failed: room_id != parent_id"@,
        ),
        is_refusal(out) ==> after == before && out.actions.len() == 0,
{
}

/// Whoever joins a room becomes a member of that room, and the other members are told who
/// it is. The room must be known, and the agent must not be in it.
pub proof fn joining_is_told_to_the_room(
    req_id: Option<Seq<char>>,
    p: JoinRoomPayload,
    agent_id: Seq<char>,
    agent_name: Seq<char>,
    facts: Facts,
    id: Seq<char>,
    now: Timestamp,
    before: (StoreView, Map<Seq<char>, EphemeralRoomView>),
    after: (StoreView, Map<Seq<char>, EphemeralRoomView>),
    out: OutcomeView,
)
    requires
        handles(
            req_id,
            Command::JoinRoom(p),
            agent_id,
            agent_name,
            facts,
            id,
            now,
            before,
            after,
            out,
        ),
    ensures
        after == before,
        refuses(out, ErrorCode::RoomNotFound, "Room not found"@) <==> !before.1.contains_key(
            p.room_id@,
        ) && forall|i: int|
            0 <= i < before.0.rooms.len() ==> (#[trigger] before.0.rooms[i]).room_id != p.room_id@,
        refuses(out, ErrorCode::AlreadyInRoom, "Already in this room"@) <==> facts.in_room && (
        before.1.contains_key(p.room_id@) || exists|i: int|
            0 <= i < before.0.rooms.len() && (#[trigger] before.0.rooms[i]).room_id == p.room_id@),
        !facts.in_room && (before.1.contains_key(p.room_id@) || exists|i: int|
            0 <= i < before.0.rooms.len() && (#[trigger] before.0.rooms[i]).room_id == p.room_id@)
            ==> !is_refusal(out),
        !is_refusal(out) ==> {
            &&& out.actions.len() == 2
            &&& out.actions[0] == (ActionView::JoinRoom { room_id: p.room_id@ })
            &&& out.actions[1] == (ActionView::Broadcast {
                room_id: p.room_id@,
                sender: agent_id,
                event: EventView::AgentJoined {
                    room_id: p.room_id@,
                    agent_id,
                    name: agent_name,
                },
            })
            &&& out.verdict matches VerdictView::Answer { reply } && reply == (ReplyView::RoomId {
                room_id: p.room_id@,
            })
        },
{
}

/// Whoever leaves a room is told off to the other members, and is then to be taken out of
/// that room. Only who is in a room can leave it.
pub proof fn leaving_is_told_to_the_room(
    req_id: Option<Seq<char>>,
    p: LeaveRoomPayload,
    agent_id: Seq<char>,
    agent_name: Seq<char>,
    facts: Facts,
    id: Seq<char>,
    now: Timestamp,
    before: (StoreView, Map<Seq<char>, EphemeralRoomView>),
    after: (StoreView, Map<Seq<char>, EphemeralRoomView>),
    out: OutcomeView,
)
    requires
        handles(
            req_id,
            Command::LeaveRoom(p),
            agent_id,
            agent_name,
            facts,
            id,
            now,
            before,
            after,
            out,
        ),
    ensures
        after == before,
        !facts.in_room <==> refuses(out, ErrorCode::NotInRoom, "Not in this room"@),
        facts.in_room ==> {
            &&& out.actions.len() == 1
            &&& out.actions[0] == (ActionView::Broadcast {
                room_id: p.room_id@,
                sender: agent_id,
                event: EventView::AgentLeft { room_id: p.room_id@, agent_id },
            })
            &&& out.verdict matches VerdictView::Ask { question } && question == (
            QuestionView::LeaveRoom { room_id: p.room_id@ })
        },
{
}

/// A history holds the latest messages of the room from before the cutoff, where one is
/// given, in the order of time, as many as asked for; each as its row is.
pub proof fn a_history_is_told_from_the_tables(
    req_id: Option<Seq<char>>,
    p: GetHistoryPayload,
    agent_id: Seq<char>,
    agent_name: Seq<char>,
    facts: Facts,
    id: Seq<char>,
    now: Timestamp,
    before: (StoreView, Map<Seq<char>, EphemeralRoomView>),
    after: (StoreView, Map<Seq<char>, EphemeralRoomView>),
    out: OutcomeView,
)
    requires
        handles(
            req_id,
            Command::GetHistory(p),
            agent_id,
            agent_name,
            facts,
            id,
            now,
            before,
            after,
            out,
        ),
    ensures
        after == before,
        out.actions.len() == 0,
        out.verdict matches VerdictView::Answer { reply } && (reply matches ReplyView::History {
            room_id,
            messages,
        } && room_id == p.room_id@ && tells_latest(
            before.0.messages,
            p.room_id@,
            p.before,
            p.limit as int,
            messages,
        )),
{
    let rows = history(
        before.0.messages,
        p.room_id@,
        p.limit as int,
        column_time(p.before),
        None,
        None,
    );
    let messages = choose|messages: Seq<ChatMessageView>|
        messages_shown(rows, messages) && out == #[trigger] history_told(
            req_id,
            p.room_id@,
            messages,
        );
    lemma_latest(before.0.messages, p.room_id@, p.before, p.limit as int, messages);
}

/// How a vote stands is told as it is: every field is that of the vote that is being held,
/// it is open, and whoever is in the room now may vote.
pub proof fn a_vote_is_told_as_it_stands(
    req_id: Option<Seq<char>>,
    p: GetVoteStatusPayload,
    agent_id: Seq<char>,
    agent_name: Seq<char>,
    facts: Facts,
    id: Seq<char>,
    now: Timestamp,
    before: (StoreView, Map<Seq<char>, EphemeralRoomView>),
    after: (StoreView, Map<Seq<char>, EphemeralRoomView>),
    out: OutcomeView,
)
    requires
        handles(
            req_id,
            Command::GetVoteStatus(p),
            agent_id,
            agent_name,
            facts,
            id,
            now,
            before,
            after,
            out,
        ),
    ensures
        after == before,
        out.actions.len() == 0,
        facts.vote is None <==> refuses(
            out,
            ErrorCode::VoteNotFound,
            "Vote not found or already closed"@,
        ),
        facts.vote matches Some(v) ==> (out.verdict matches VerdictView::Answer { reply } && (
        reply matches ReplyView::Vote { info } && {
            &&& info.vote_id == v.vote_id@
            &&& info.room_id == v.room_id@
            &&& info.title == v.title@
            &&& info.description == v.description.deep_view()
            &&& info.options == v.options.deep_view()
            &&& info.created_by == v.created_by@
            &&& info.created_at == v.created_at
            &&& info.closes_at == v.closes_at
            &&& info.status == VoteStatus::Open
            &&& info.votes_cast == v.votes_cast
            &&& info.eligible_voters == facts.members@.len()
        })),
{
}

/// An election is started for the room, with all of its members as candidates. It needs an
/// agent that is in the room, and a member.
pub proof fn the_members_of_a_room_are_the_candidates(
    req_id: Option<Seq<char>>,
    p: ElectLeaderPayload,
    agent_id: Seq<char>,
    agent_name: Seq<char>,
    facts: Facts,
    id: Seq<char>,
    now: Timestamp,
    before: (StoreView, Map<Seq<char>, EphemeralRoomView>),
    after: (StoreView, Map<Seq<char>, EphemeralRoomView>),
    out: OutcomeView,
)
    requires
        handles(
            req_id,
            Command::ElectLeader(p),
            agent_id,
            agent_name,
            facts,
            id,
            now,
            before,
            after,
            out,
        ),
    ensures
        after == before,
        out.actions.len() == 0,
        !facts.in_room <==> refuses(
            out,
            ErrorCode::NotInRoom,
            "Must be in room to start election"@,
        ),
        facts.in_room && facts.members@.len() == 0 <==> refuses(
            out,
            ErrorCode::InvalidPayload,
            "No candidates in room"@,
        ),
        facts.in_room && facts.members@.len() > 0 ==> (out.verdict matches VerdictView::Ask {
            question,
        } && question == (QuestionView::StartElection {
            room_id: p.room_id@,
            candidates: facts.members.deep_view(),
        })),
{
    reveal_strlit("Must be in room to start election");
    reveal_strlit("No candidates in room");
}

/// A withdrawal is asked for the room of the request.
pub proof fn a_withdrawal_is_asked_for_its_room(
    req_id: Option<Seq<char>>,
    p: DeclineElectionPayload,
    agent_id: Seq<char>,
    agent_name: Seq<char>,
    facts: Facts,
    id: Seq<char>,
    now: Timestamp,
    before: (StoreView, Map<Seq<char>, EphemeralRoomView>),
    after: (StoreView, Map<Seq<char>, EphemeralRoomView>),
    out: OutcomeView,
)
    requires
        handles(
            req_id,
            Command::DeclineElection(p),
            agent_id,
            agent_name,
            facts,
            id,
            now,
            before,
            after,
            out,
        ),
    ensures
        after == before,
        out.actions.len() == 0,
        out.verdict matches VerdictView::Ask { question } && question == (
        QuestionView::DeclineElection { room_id: p.room_id@ }),
{
}

/// A ping is answered, a frame that cannot be read is refused with the reason, and so is
/// one that nobody knows; nothing changes.
pub proof fn other_frames_are_answered(
    req_id: Option<Seq<char>>,
    why: String,
    agent_id: Seq<char>,
    agent_name: Seq<char>,
    facts: Facts,
    id: Seq<char>,
    now: Timestamp,
    before: (StoreView, Map<Seq<char>, EphemeralRoomView>),
    after: (StoreView, Map<Seq<char>, EphemeralRoomView>),
    ping: OutcomeView,
    malformed: OutcomeView,
    unknown: OutcomeView,
)
    requires
        handles(
            req_id,
            Command::Ping,
            agent_id,
            agent_name,
            facts,
            id,
            now,
            before,
            after,
            ping,
        ),
        handles(
            req_id,
            Command::Malformed(why),
            agent_id,
            agent_name,
            facts,
            id,
            now,
            before,
            after,
            malformed,
        ),
        handles(
            req_id,
            Command::Unknown,
            agent_id,
            agent_name,
            facts,
            id,
            now,
            before,
            after,
            unknown,
        ),
    ensures
        after == before,
        ping.actions.len() == 0,
        ping.verdict == (VerdictView::Answer { reply: ReplyView::Pong }),
        refuses(malformed, ErrorCode::InvalidPayload, why@),
        refuses(unknown, ErrorCode::InvalidPayload, "Unknown command"@),
{
}

/// Without a room, all agents are listed, each as it is.
pub proof fn all_agents_are_listed(
    req_id: Option<Seq<char>>,
    p: Option<ListAgentsPayload>,
    agent_id: Seq<char>,
    agent_name: Seq<char>,
    facts: Facts,
    id: Seq<char>,
    now: Timestamp,
    before: (StoreView, Map<Seq<char>, EphemeralRoomView>),
    after: (StoreView, Map<Seq<char>, EphemeralRoomView>),
    out: OutcomeView,
)
    requires
        handles(
            req_id,
            Command::ListAgents(p),
            agent_id,
            agent_name,
            facts,
            id,
            now,
            before,
            after,
            out,
        ),
        p matches Some(q) ==> q.room_id is None,
    ensures
        after == before,
        out.actions.len() == 0,
        out.verdict matches VerdictView::Answer { reply } && (reply matches ReplyView::AgentList {
            agents,
        } && agents.len() == facts.agents@.len() && forall|k: int|
            0 <= k < agents.len() ==> #[trigger] agents[k] == facts.agents@[k]@),
{
}

/// In a room, its members are listed in their order, each as it is; a member that is not
/// connected is left out, and nobody else is listed.
pub proof fn the_members_of_a_room_are_listed(
    req_id: Option<Seq<char>>,
    p: Option<ListAgentsPayload>,
    agent_id: Seq<char>,
    agent_name: Seq<char>,
    facts: Facts,
    id: Seq<char>,
    now: Timestamp,
    before: (StoreView, Map<Seq<char>, EphemeralRoomView>),
    after: (StoreView, Map<Seq<char>, EphemeralRoomView>),
    out: OutcomeView,
)
    requires
        handles(
            req_id,
            Command::ListAgents(p),
            agent_id,
            agent_name,
            facts,
            id,
            now,
            before,
            after,
            out,
        ),
        p matches Some(q) && q.room_id is Some,
    ensures
        after == before,
        out.actions.len() == 0,
        out.verdict matches VerdictView::Answer { reply } && (reply matches ReplyView::AgentList {
            agents,
        } && lists_members(facts, agents)),
{
    lemma_lists_members(facts, facts.members@.len() as int);
    assert(facts.members.deep_view().take(facts.members@.len() as int)
        =~= facts.members.deep_view());
}

/// The rooms are listed from the tables, in the order of their names, and behind them from
/// the ephemeral ones: exactly those below the parent, where one is given.
pub proof fn rooms_are_listed_from_both_sources(
    req_id: Option<Seq<char>>,
    p: Option<ListRoomsPayload>,
    agent_id: Seq<char>,
    agent_name: Seq<char>,
    facts: Facts,
    id: Seq<char>,
    now: Timestamp,
    before: (StoreView, Map<Seq<char>, EphemeralRoomView>),
    after: (StoreView, Map<Seq<char>, EphemeralRoomView>),
    out: OutcomeView,
)
    requires
        handles(
            req_id,
            Command::ListRooms(p),
            agent_id,
            agent_name,
            facts,
            id,
            now,
            before,
            after,
            out,
        ),
    ensures
        after == before,
        out.actions.len() == 0,
        out.verdict matches VerdictView::Answer { reply } && (reply matches ReplyView::RoomList {
            rooms,
        } && tells_rooms(
            before.0,
            before.1,
            match p {
                Some(q) => q.parent_id.deep_view(),
                None => None,
            },
            rooms,
        )),
{
    let parent = list_parent(given(p));
    let list = choose|list: Seq<RoomView>|
        lists_all_rooms(before.0, before.1, parent, list) && out == #[trigger] plain(
            req_id,
            ReplyView::RoomList { rooms: list },
        );
    lemma_tells_rooms(before.0, before.1, parent, list);
}

/// A room is told as it is, with the members that are connected and the rooms below it. A
/// room of the tables comes before an ephemeral one; a room that is not known is refused.
pub proof fn a_room_is_told_with_members_and_rooms(
    req_id: Option<Seq<char>>,
    p: RoomInfoPayload,
    agent_id: Seq<char>,
    agent_name: Seq<char>,
    facts: Facts,
    id: Seq<char>,
    now: Timestamp,
    before: (StoreView, Map<Seq<char>, EphemeralRoomView>),
    after: (StoreView, Map<Seq<char>, EphemeralRoomView>),
    out: OutcomeView,
)
    requires
        handles(
            req_id,
            Command::RoomInfo(p),
            agent_id,
            agent_name,
            facts,
            id,
            now,
            before,
            after,
            out,
        ),
    ensures
        after == before,
        out.actions.len() == 0,
        refuses(out, ErrorCode::RoomNotFound, "Room not found"@) <==> !before.1.contains_key(
            p.room_id@,
        ) && forall|i: int|
            0 <= i < before.0.rooms.len() ==> (#[trigger] before.0.rooms[i]).room_id != p.room_id@,
        !is_refusal(out) ==> (out.verdict matches VerdictView::Answer { reply } && (
        reply matches ReplyView::RoomInfo { room, agents, sub_rooms } && {
            &&& (exists|i: int|
                0 <= i < before.0.rooms.len() && (#[trigger] before.0.rooms[i]).room_id
                    == p.room_id@
                    && shows_room(before.0.rooms[i], room)) || ((forall|i: int|
                0 <= i < before.0.rooms.len() ==> (#[trigger] before.0.rooms[i]).room_id
                    != p.room_id@) && before.1.contains_key(p.room_id@) && room
                == before.1[p.room_id@].room)
            &&& lists_members(facts, agents)
            &&& tells_rooms(before.0, before.1, Some(p.room_id@), sub_rooms)
        })),
        is_refusal(out) ==> refuses(out, ErrorCode::RoomNotFound, "Room not found"@),
{
    lemma_first_match(before.0.rooms, with_room_id(p.room_id@));
    if room_known(before.0, before.1, p.room_id@) {
        let (room, sub_rooms) = choose|room: RoomView, sub_rooms: Seq<RoomView>|
            leads_to_room(before.0, before.1, p.room_id@, room) && lists_all_rooms(
                before.0,
                before.1,
                Some(p.room_id@),
                sub_rooms,
            ) && out == #[trigger] room_told(
                req_id,
                room,
                infos_of(facts.members.deep_view(), views(facts.agents@)),
                sub_rooms,
            );
        lemma_lists_members(facts, facts.members@.len() as int);
        assert(facts.members.deep_view().take(facts.members@.len() as int)
            =~= facts.members.deep_view());
        lemma_tells_rooms(before.0, before.1, Some(p.room_id@), sub_rooms);
        if let Some(row) = first_match(before.0.rooms, with_room_id(p.room_id@)) {
            let i = choose|i: int| 0 <= i < before.0.rooms.len() && before.0.rooms[i] == row;
            assert(shows_room(before.0.rooms[i], room));
        }
    }
}

/// An ephemeral room ends when the last member leaves it: it is forgotten, and everybody
/// is told. Any other room goes on. Whoever left is answered with the room.
pub proof fn an_empty_ephemeral_room_ends(
    req_id: Option<&str>,
    room_id: &str,
    emptied: bool,
    rooms: &mut DashMap<String, EphemeralRoom>,
    out: Outcome,
)
    requires
        call_ensures(after_leaving, (req_id, room_id, emptied, rooms), out),
    ensures
        out@.reply_to == req_id.deep_view(),
        out@.verdict == (VerdictView::Answer { reply: ReplyView::RoomId { room_id: room_id@ } }),
        emptied && rooms_of(*old(rooms)).contains_key(room_id@) ==> {
            &&& !rooms_of(*final(rooms)).contains_key(room_id@)
            &&& out@.actions.len() == 2
            &&& out@.actions[0] == (ActionView::RemoveRoom { room_id: room_id@ })
            &&& out@.actions[1] == (ActionView::SendAll {
                event: EventView::RoomDestroyed { room_id: room_id@ },
            })
        },
        !(emptied && rooms_of(*old(rooms)).contains_key(room_id@)) ==> out@.actions.len() == 0
            && rooms_of(*final(rooms)) == rooms_of(*old(rooms)),
        forall|k: Seq<char>|
            k != room_id@ ==> (#[trigger] rooms_of(*final(rooms)).contains_key(k) <==> rooms_of(
                *old(rooms),
            ).contains_key(k)) && (rooms_of(*old(rooms)).contains_key(k) ==> rooms_of(
                *final(rooms),
            )[k] == rooms_of(*old(rooms))[k]),
{
}

/// An ephemeral room that nobody is in any more ends, and no other.
pub proof fn only_an_empty_ephemeral_room_ends(
    room_id: &str,
    emptied: bool,
    rooms: &mut DashMap<String, EphemeralRoom>,
    actions: Vec<Action>,
)
    requires
        call_ensures(destroy_if_empty, (room_id, emptied, rooms), actions),
    ensures
        emptied && rooms_of(*old(rooms)).contains_key(room_id@) ==> {
            &&& !rooms_of(*final(rooms)).contains_key(room_id@)
            &&& actions@.len() == 2
            &&& actions@[0]@ == (ActionView::RemoveRoom { room_id: room_id@ })
            &&& actions@[1]@ == (ActionView::SendAll {
                event: EventView::RoomDestroyed { room_id: room_id@ },
            })
        },
        !(emptied && rooms_of(*old(rooms)).contains_key(room_id@)) ==> actions@.len() == 0
            && rooms_of(*final(rooms)) == rooms_of(*old(rooms)),
        forall|k: Seq<char>|
            k != room_id@ ==> (#[trigger] rooms_of(*final(rooms)).contains_key(k) <==> rooms_of(
                *old(rooms),
            ).contains_key(k)) && (rooms_of(*old(rooms)).contains_key(k) ==> rooms_of(
                *final(rooms),
            )[k] == rooms_of(*old(rooms))[k]),
{
    if emptied && rooms_of(*old(rooms)).contains_key(room_id@) {
        let told = views(actions@);
        assert(told.len() == actions@.len());
        assert(told[0] == actions@[0]@);
        assert(told[1] == actions@[1]@);
    }
}

/// A vote that was opened is told as it was asked for, with its times, open and without
/// ballots; to all members of its room and in the answer.
pub proof fn an_opened_vote_is_told_as_asked(
    req_id: Option<&str>,
    vote: &NewVote,
    created_at: Timestamp,
    closes_at: Option<Timestamp>,
    out: Outcome,
)
    requires
        call_ensures(after_opening_vote, (req_id, vote, created_at, closes_at), out),
    ensures
        out@.reply_to == req_id.deep_view(),
        out@.actions.len() == 1,
        out@.verdict matches VerdictView::Answer { reply } && (reply matches ReplyView::Vote {
            info,
        } && {
            &&& info.vote_id == vote@.vote_id
            &&& info.room_id == vote@.room_id
            &&& info.title == vote@.title
            &&& info.description == vote@.description
            &&& info.options == vote@.options
            &&& info.created_by == vote@.created_by
            &&& info.created_at == created_at
            &&& info.closes_at == closes_at
            &&& info.status == VoteStatus::Open
            &&& info.votes_cast == 0
            &&& info.eligible_voters == vote@.eligible_voters
            &&& out@.actions[0] == (ActionView::BroadcastAll {
                room_id: vote@.room_id,
                event: EventView::VoteCreated { info },
            })
        }),
{
}

/// A ballot that was counted is answered with the counts as they are; one that was not is
/// refused with the reason.
pub proof fn a_counted_ballot_is_answered_with_the_counts(
    req_id: Option<&str>,
    vote_id: &str,
    counted: Result<(usize, usize), ErrorCode>,
    out: Outcome,
)
    requires
        call_ensures(after_counting_ballot, (req_id, vote_id, counted), out),
    ensures
        out@.reply_to == req_id.deep_view(),
        out@.actions.len() == 0,
        counted matches Ok(n) ==> out@.verdict == (VerdictView::Answer {
            reply: ReplyView::Ballot { vote_id: vote_id@, votes_cast: n.0, eligible_voters: n.1 },
        }),
        counted matches Err(code) ==> refuses(out@, code, code.named()),
{
}

/// An election that has started is told to all members, with its candidates and who asked
/// for it, and answered; one that has not is refused with the reason.
pub proof fn a_started_election_is_told_to_the_room(
    req_id: Option<&str>,
    room_id: &str,
    candidates: &Vec<String>,
    agent_id: &str,
    started: Result<(), ErrorCode>,
    out: Outcome,
)
    requires
        call_ensures(
            after_starting_election,
            (req_id, room_id, candidates, agent_id, started),
            out,
        ),
    ensures
        out@.reply_to == req_id.deep_view(),
        started is Ok ==> {
            &&& out@.actions.len() == 1
            &&& out@.actions[0] == (ActionView::BroadcastAll {
                room_id: room_id@,
                event: EventView::ElectionStarted {
                    room_id: room_id@,
                    candidates: candidates.deep_view(),
                    started_by: agent_id@,
                    opt_out_seconds: 2,
                },
            })
            &&& out@.verdict == (VerdictView::Answer {
                reply: ReplyView::Election {
                    room_id: room_id@,
                    candidates: candidates.deep_view(),
                    message: "Election started. Agents have 2 seconds to decline."@,
                },
            })
        },
        started matches Err(code) ==> refuses(out@, code, code.named()) && out@.actions.len() == 0,
{
}

/// A withdrawal that was accepted is answered with its room; one that was not is refused
/// with the reason.
pub proof fn a_withdrawal_is_answered(
    req_id: Option<&str>,
    room_id: &str,
    declined: Result<(), ErrorCode>,
    out: Outcome,
)
    requires
        call_ensures(after_declining, (req_id, room_id, declined), out),
    ensures
        out@.reply_to == req_id.deep_view(),
        out@.actions.len() == 0,
        declined is Ok ==> out@.verdict == (VerdictView::Answer {
            reply: ReplyView::Declined { room_id: room_id@, message: "Declined election"@ },
        }),
        declined matches Err(code) ==> refuses(out@, code, code.named()),
{
}

/// A command speaks of the room, and of the vote, that its payload names; whoever asks how
/// a vote stands speaks of the room where it is held.
pub proof fn a_command_speaks_of_what_it_names(
    command: &Command,
    vote: &Option<ActiveVote>,
    room: Option<String>,
    meant: Option<String>,
)
    requires
        call_ensures(room_of, (command, vote), room),
        call_ensures(vote_of, (command,), meant),
    ensures
        command matches Command::JoinRoom(p) ==> room.deep_view() == Some(p.room_id@),
        command matches Command::LeaveRoom(p) ==> room.deep_view() == Some(p.room_id@),
        command matches Command::SendMessage(p) ==> room.deep_view() == Some(p.room_id@),
        command matches Command::ListAgents(Some(p)) ==> room.deep_view() == p.room_id.deep_view(),
        command matches Command::RoomInfo(p) ==> room.deep_view() == Some(p.room_id@),
        command matches Command::CreateVote(p) ==> room.deep_view() == Some(p.room_id@),
        command matches Command::ElectLeader(p) ==> room.deep_view() == Some(p.room_id@),
        command matches Command::DeclineElection(p) ==> room.deep_view() == Some(p.room_id@),
        command matches Command::Decision(p) ==> room.deep_view() == Some(p.room_id@),
        command is GetVoteStatus
            ==> (vote matches Some(v) ==> room.deep_view() == Some(v.room_id@)),
        command is GetVoteStatus && vote is None ==> room is None,
        command is Ping || command is Malformed || command is CreateRoom || command is GetHistory
            || command is ListRooms || command is CastVote || command is Unknown ==> room is None,
        command matches Command::CastVote(p) ==> meant.deep_view() == Some(p.vote_id@),
        command matches Command::GetVoteStatus(p) ==> meant.deep_view() == Some(p.vote_id@),
        !(command is CastVote) && !(command is GetVoteStatus) ==> meant is None,
{
}

/// A command is in range unless it runs out of numbers or of time: a message or a decision
/// needs a number after the highest of its room, and the deadline of a vote must be in
/// the calendar. Otherwise nothing happens.
pub proof fn a_command_is_in_range_unless_numbers_run_out(
    command: &Command,
    facts: &Facts,
    store: &Store,
    rooms: &DashMap<String, EphemeralRoom>,
    now: Timestamp,
    r: bool,
)
    requires
        call_ensures(is_in_range, (command, facts, store, rooms, now), r),
    ensures
        !(command is SendMessage) && !(command is Decision) && !(command is CreateVote) ==> r,
        command matches Command::SendMessage(p) ==> (r <==> facts.in_room ==> (if rooms_of(
            *rooms,
        ).contains_key(p.room_id@) {
            rooms_of(*rooms)[p.room_id@].tip < i64::MAX
        } else {
            forall|i: int|
                0 <= i < store@.messages.len() && (#[trigger] store@.messages[i]).room_id
                    == p.room_id@ ==> store@.messages[i].seq < i64::MAX
        })),
        command matches Command::Decision(p) ==> (r <==> facts.leader ==> (rooms_of(
            *rooms,
        ).contains_key(p.room_id@) || forall|i: int|
            0 <= i < store@.messages.len() && (#[trigger] store@.messages[i]).room_id == p.room_id@
                ==> store@.messages[i].seq < i64::MAX)),
        command matches Command::CreateVote(p) ==> (r <==> facts.in_room && p.options@.len() >= 2
            && !rooms_of(*rooms).contains_key(p.room_id@) ==> (p.duration_secs matches Some(s)
            ==> has_later(now, s))),
{
    if let Command::SendMessage(p) = command {
        lemma_highest_seq(store@.messages, p.room_id@);
    }
    if let Command::Decision(p) = command {
        lemma_highest_seq(store@.messages, p.room_id@);
    }
}

/// A frame is handled as its command says, for the agent that sent it, under the id that is
/// given.
pub proof fn a_frame_is_handled_as_its_command_says(
    req_id: Option<&str>,
    command: &Command,
    agent_id: &str,
    agent_name: &str,
    facts: &Facts,
    store: &mut Store,
    rooms: &mut DashMap<String, EphemeralRoom>,
    id: &str,
    now: Timestamp,
    out: Outcome,
)
    requires
        call_ensures(
            handle_frame_with,
            (req_id, command, agent_id, agent_name, facts, store, rooms, id, now),
            out,
        ),
    ensures
        handles(
            req_id.deep_view(),
            *command,
            agent_id@,
            agent_name@,
            *facts,
            id@,
            now,
            (old(store)@, rooms_of(*old(rooms))),
            (final(store)@, rooms_of(*final(rooms))),
            out@,
        ),
{
}

/// A frame is handled as its command says, under a new id.
pub proof fn a_frame_is_handled_under_a_new_id(
    req_id: Option<&str>,
    command: &Command,
    agent_id: &str,
    agent_name: &str,
    facts: &Facts,
    store: &mut Store,
    rooms: &mut DashMap<String, EphemeralRoom>,
    now: Timestamp,
    out: Outcome,
)
    requires
        call_ensures(
            handle_frame,
            (req_id, command, agent_id, agent_name, facts, store, rooms, now),
            out,
        ),
    ensures
        exists|id: Seq<char>| #[trigger]
            handles(
                req_id.deep_view(),
                *command,
                agent_id@,
                agent_name@,
                *facts,
                id,
                now,
                (old(store)@, rooms_of(*old(rooms))),
                (final(store)@, rooms_of(*final(rooms))),
                out@,
            ) && id.len() == 36,
{
}

/// A frame is handled as its command says where the command is in range, and otherwise
/// nothing happens.
pub proof fn a_frame_out_of_range_changes_nothing(
    req_id: Option<&str>,
    command: &Command,
    agent_id: &str,
    agent_name: &str,
    facts: &Facts,
    store: &mut Store,
    rooms: &mut DashMap<String, EphemeralRoom>,
    now: Timestamp,
    r: Option<Outcome>,
    in_range: bool,
)
    requires
        call_ensures(
            try_handle_frame,
            (req_id, command, agent_id, agent_name, facts, store, rooms, now),
            r,
        ),
        forall|s: &Store, m: &DashMap<String, EphemeralRoom>|
            *s == *old(store) && *m == *old(rooms) ==> #[trigger] call_ensures(
                is_in_range,
                (command, facts, s, m, now),
                in_range,
            ),
    ensures
        r is Some <==> in_range,
        r is None ==> final(store)@ == old(store)@ && rooms_of(*final(rooms))
            == rooms_of(*old(rooms)),
        r matches Some(out) ==> exists|id: Seq<char>| #[trigger]
            handles(
                req_id.deep_view(),
                *command,
                agent_id@,
                agent_name@,
                *facts,
                id,
                now,
                (old(store)@, rooms_of(*old(rooms))),
                (final(store)@, rooms_of(*final(rooms))),
                out@,
            ) && id.len() == 36,
{
    let s = &*old(store);
    let m = &*old(rooms);
    assert(call_ensures(is_in_range, (command, facts, s, m, now), in_range));
}

/// Whoever calls `handle_create_room` gets what the command does.
pub proof fn handle_create_room_is_the_command(
    req_id: Option<&str>,
    p: &CreateRoomPayload,
    agent_id: &str,
    store: &mut Store,
    rooms: &mut DashMap<String, EphemeralRoom>,
    id: &str,
    now: Timestamp,
    agent_name: &str,
    facts: &Facts,
    out: Outcome,
)
    requires
        call_ensures(handle_create_room, (req_id, p, agent_id, store, rooms, id, now), out),
    ensures
        handles(
            req_id.deep_view(),
            Command::CreateRoom(*p),
            agent_id@,
            agent_name@,
            *facts,
            id@,
            now,
            (old(store)@, rooms_of(*old(rooms))),
            (final(store)@, rooms_of(*final(rooms))),
            out@,
        ),
{
}

/// Whoever calls `handle_join_room` gets what the command does.
pub proof fn handle_join_room_is_the_command(
    req_id: Option<&str>,
    p: &JoinRoomPayload,
    agent_id: &str,
    agent_name: &str,
    facts: &Facts,
    store: &Store,
    rooms: &DashMap<String, EphemeralRoom>,
    id: &str,
    now: Timestamp,
    out: Outcome,
)
    requires
        call_ensures(handle_join_room, (req_id, p, agent_id, agent_name, facts, store, rooms), out),
    ensures
        handles(
            req_id.deep_view(),
            Command::JoinRoom(*p),
            agent_id@,
            agent_name@,
            *facts,
            id@,
            now,
            (store@, rooms_of(*rooms)),
            (store@, rooms_of(*rooms)),
            out@,
        ),
{
}

/// Whoever calls `handle_leave_room` gets what the command does.
pub proof fn handle_leave_room_is_the_command(
    req_id: Option<&str>,
    p: &LeaveRoomPayload,
    agent_id: &str,
    facts: &Facts,
    agent_name: &str,
    id: &str,
    now: Timestamp,
    tables: StoreView,
    ephemeral: Map<Seq<char>, EphemeralRoomView>,
    out: Outcome,
)
    requires
        call_ensures(handle_leave_room, (req_id, p, agent_id, facts), out),
    ensures
        handles(
            req_id.deep_view(),
            Command::LeaveRoom(*p),
            agent_id@,
            agent_name@,
            *facts,
            id@,
            now,
            (tables, ephemeral),
            (tables, ephemeral),
            out@,
        ),
{
}

/// Whoever calls `handle_send_message` gets what the command does.
pub proof fn handle_send_message_is_the_command(
    req_id: Option<&str>,
    p: &SendMessagePayload,
    agent_id: &str,
    agent_name: &str,
    facts: &Facts,
    store: &mut Store,
    rooms: &mut DashMap<String, EphemeralRoom>,
    id: &str,
    now: Timestamp,
    out: Outcome,
)
    requires
        call_ensures(handle_send_message,
            (req_id, p, agent_id, agent_name, facts, store, rooms, id, now), out),
    ensures
        handles(
            req_id.deep_view(),
            Command::SendMessage(*p),
            agent_id@,
            agent_name@,
            *facts,
            id@,
            now,
            (old(store)@, rooms_of(*old(rooms))),
            (final(store)@, rooms_of(*final(rooms))),
            out@,
        ),
{
}

/// Whoever calls `handle_get_history` gets what the command does.
pub proof fn handle_get_history_is_the_command(
    req_id: Option<&str>,
    p: &GetHistoryPayload,
    store: &Store,
    agent_id: &str,
    agent_name: &str,
    facts: &Facts,
    id: &str,
    now: Timestamp,
    ephemeral: Map<Seq<char>, EphemeralRoomView>,
    out: Outcome,
)
    requires
        call_ensures(handle_get_history, (req_id, p, store), out),
    ensures
        handles(
            req_id.deep_view(),
            Command::GetHistory(*p),
            agent_id@,
            agent_name@,
            *facts,
            id@,
            now,
            (store@, ephemeral),
            (store@, ephemeral),
            out@,
        ),
{
}

/// Whoever calls `handle_list_rooms` gets what the command does.
pub proof fn handle_list_rooms_is_the_command(
    req_id: Option<&str>,
    p: Option<&ListRoomsPayload>,
    q: Option<ListRoomsPayload>,
    store: &Store,
    rooms: &DashMap<String, EphemeralRoom>,
    agent_id: &str,
    agent_name: &str,
    facts: &Facts,
    id: &str,
    now: Timestamp,
    out: Outcome,
)
    requires
        call_ensures(handle_list_rooms, (req_id, p, store, rooms), out),
        p is Some <==> q is Some,
        p matches Some(a) ==> q == Some(*a),
    ensures
        handles(
            req_id.deep_view(),
            Command::ListRooms(q),
            agent_id@,
            agent_name@,
            *facts,
            id@,
            now,
            (store@, rooms_of(*rooms)),
            (store@, rooms_of(*rooms)),
            out@,
        ),
{
    assert(given(q) == p);
}

/// Whoever calls `handle_list_agents` gets what the command does.
pub proof fn handle_list_agents_is_the_command(
    req_id: Option<&str>,
    p: Option<&ListAgentsPayload>,
    q: Option<ListAgentsPayload>,
    facts: &Facts,
    agent_id: &str,
    agent_name: &str,
    id: &str,
    now: Timestamp,
    tables: StoreView,
    ephemeral: Map<Seq<char>, EphemeralRoomView>,
    out: Outcome,
)
    requires
        call_ensures(handle_list_agents, (req_id, p, facts), out),
        p is Some <==> q is Some,
        p matches Some(a) ==> q == Some(*a),
    ensures
        handles(
            req_id.deep_view(),
            Command::ListAgents(q),
            agent_id@,
            agent_name@,
            *facts,
            id@,
            now,
            (tables, ephemeral),
            (tables, ephemeral),
            out@,
        ),
{
    assert(given(q) == p);
}

/// Whoever calls `handle_room_info` gets what the command does.
pub proof fn handle_room_info_is_the_command(
    req_id: Option<&str>,
    p: &RoomInfoPayload,
    facts: &Facts,
    store: &Store,
    rooms: &DashMap<String, EphemeralRoom>,
    agent_id: &str,
    agent_name: &str,
    id: &str,
    now: Timestamp,
    out: Outcome,
)
    requires
        call_ensures(handle_room_info, (req_id, p, facts, store, rooms), out),
    ensures
        handles(
            req_id.deep_view(),
            Command::RoomInfo(*p),
            agent_id@,
            agent_name@,
            *facts,
            id@,
            now,
            (store@, rooms_of(*rooms)),
            (store@, rooms_of(*rooms)),
            out@,
        ),
{
}

/// Whoever calls `handle_create_vote` gets what the command does.
pub proof fn handle_create_vote_is_the_command(
    req_id: Option<&str>,
    p: &CreateVotePayload,
    agent_id: &str,
    facts: &Facts,
    store: &mut Store,
    rooms: &DashMap<String, EphemeralRoom>,
    id: &str,
    now: Timestamp,
    agent_name: &str,
    out: Outcome,
)
    requires
        call_ensures(handle_create_vote, (req_id, p, agent_id, facts, store, rooms, id, now), out),
    ensures
        handles(
            req_id.deep_view(),
            Command::CreateVote(*p),
            agent_id@,
            agent_name@,
            *facts,
            id@,
            now,
            (old(store)@, rooms_of(*rooms)),
            (final(store)@, rooms_of(*rooms)),
            out@,
        ),
{
}

/// Whoever calls `handle_cast_vote` gets what the command does.
pub proof fn handle_cast_vote_is_the_command(
    req_id: Option<&str>,
    p: &CastVotePayload,
    agent_id: &str,
    agent_name: &str,
    facts: &Facts,
    store: &mut Store,
    now: Timestamp,
    id: &str,
    ephemeral: Map<Seq<char>, EphemeralRoomView>,
    out: Outcome,
)
    requires
        call_ensures(handle_cast_vote, (req_id, p, agent_id, agent_name, facts, store, now), out),
    ensures
        handles(
            req_id.deep_view(),
            Command::CastVote(*p),
            agent_id@,
            agent_name@,
            *facts,
            id@,
            now,
            (old(store)@, ephemeral),
            (final(store)@, ephemeral),
            out@,
        ),
{
}

/// Whoever calls `handle_elect_leader` gets what the command does.
pub proof fn handle_elect_leader_is_the_command(
    req_id: Option<&str>,
    p: &ElectLeaderPayload,
    facts: &Facts,
    agent_id: &str,
    agent_name: &str,
    id: &str,
    now: Timestamp,
    tables: StoreView,
    ephemeral: Map<Seq<char>, EphemeralRoomView>,
    out: Outcome,
)
    requires
        call_ensures(handle_elect_leader, (req_id, p, facts), out),
    ensures
        handles(
            req_id.deep_view(),
            Command::ElectLeader(*p),
            agent_id@,
            agent_name@,
            *facts,
            id@,
            now,
            (tables, ephemeral),
            (tables, ephemeral),
            out@,
        ),
{
}

/// Whoever calls `handle_decline_election` gets what the command does.
pub proof fn handle_decline_election_is_the_command(
    req_id: Option<&str>,
    p: &DeclineElectionPayload,
    agent_id: &str,
    agent_name: &str,
    facts: &Facts,
    id: &str,
    now: Timestamp,
    tables: StoreView,
    ephemeral: Map<Seq<char>, EphemeralRoomView>,
    out: Outcome,
)
    requires
        call_ensures(handle_decline_election, (req_id, p), out),
    ensures
        handles(
            req_id.deep_view(),
            Command::DeclineElection(*p),
            agent_id@,
            agent_name@,
            *facts,
            id@,
            now,
            (tables, ephemeral),
            (tables, ephemeral),
            out@,
        ),
{
}

/// Whoever calls `handle_decision` gets what the command does.
pub proof fn handle_decision_is_the_command(
    req_id: Option<&str>,
    p: &DecisionPayload,
    agent_id: &str,
    agent_name: &str,
    facts: &Facts,
    store: &mut Store,
    rooms: &DashMap<String, EphemeralRoom>,
    id: &str,
    now: Timestamp,
    out: Outcome,
)
    requires
        call_ensures(handle_decision,
            (req_id, p, agent_id, agent_name, facts, store, rooms, id, now), out),
    ensures
        handles(
            req_id.deep_view(),
            Command::Decision(*p),
            agent_id@,
            agent_name@,
            *facts,
            id@,
            now,
            (old(store)@, rooms_of(*rooms)),
            (final(store)@, rooms_of(*rooms)),
            out@,
        ),
{
}

/// Whoever calls `handle_get_vote_status` gets what the command does.
pub proof fn handle_get_vote_status_is_the_command(
    req_id: Option<&str>,
    p: GetVoteStatusPayload,
    facts: &Facts,
    agent_id: &str,
    agent_name: &str,
    id: &str,
    now: Timestamp,
    tables: StoreView,
    ephemeral: Map<Seq<char>, EphemeralRoomView>,
    out: Outcome,
)
    requires
        call_ensures(handle_get_vote_status, (req_id, facts), out),
    ensures
        handles(
            req_id.deep_view(),
            Command::GetVoteStatus(p),
            agent_id@,
            agent_name@,
            *facts,
            id@,
            now,
            (tables, ephemeral),
            (tables, ephemeral),
            out@,
        ),
{
}

} // verus!
