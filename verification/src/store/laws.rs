//! What holds of the tables, whatever is done to them.

use vstd::prelude::*;
use crate::rows::{
    all, any, first_match, first_n, in_order, is_strict_order, last_n, lemma_filter_pairwise,
    lemma_filter_rows, lemma_first_match, lemma_first_match_pushed,
    lemma_first_match_unchanged, lemma_map_pairwise,
    lemma_ordered_in_order, lemma_ordered_in_place, lemma_ordered_same_rows, lemma_push_pairwise,
    ordered, pairwise,
};
use crate::store::keys::{
    ended_where, with_api_key, with_key, with_session, with_session_ended, with_session_id,
};
use crate::store::messages::{
    after_seq, before_time, behind, by_seq, by_time, highest_seq, history, in_room, message_refusal,
    numbered, tip, unnumbered, with_message,
};
use crate::store::rooms::{
    by_name, detached, orphaned, outside, room_refusal, visible_below, visible_to, with_message_id,
    with_room, with_room_id, with_room_name, without_room,
};
use crate::store::startup::{empty_tables, lobby, lobby_public, opened, with_lobby};
use crate::store::subscriptions::{
    accepts_delivery, advanced_where, by_attempt, delivery_of, due_at, owned_subscription,
    rescheduled_where, status_where, with_delivery, with_delivery_id, with_subscription, with_subscription_id,
    without_subscription,
};
use crate::store::votes::{
    ballot_by, ballot_refusal, closed_where, with_ballot, with_vote, with_vote_id,
};
use crate::store::{
    BallotRowView, DeliveryRowView, KeyRowView, MessageRowView, RoomRowView, SessionRowView,
    StoreErrorView, StoreView, SubscriptionRowView, VoteRowView,
};
use crate::tasks::{replaced_by, with_task_id, with_task_saved, TaskView};
use crate::text::{lemma_lex_irreflexive, lemma_lex_total, lemma_lex_transitive, lex_lt};

verus! {

// --- What the tables keep ---

/// Two rooms differ in id and in name.
pub open spec fn rooms_differ() -> spec_fn(RoomRowView, RoomRowView) -> bool {
    |a: RoomRowView, b: RoomRowView| a.room_id != b.room_id && a.name != b.name
}

/// Ids and names of rooms are unique, and a parent is another room of the table.
pub open spec fn rooms_ok(rooms: Seq<RoomRowView>) -> bool {
    &&& pairwise(rooms, rooms_differ())
    &&& all(
        rooms,
        |r: RoomRowView|
            r.parent_id matches Some(p) ==> p != r.room_id && any(rooms, with_room_id(p)),
    )
}

/// Two messages differ in id; of two in one room the later one has the higher
/// sequence number.
pub open spec fn messages_advance() -> spec_fn(MessageRowView, MessageRowView) -> bool {
    |a: MessageRowView, b: MessageRowView|
        a.message_id != b.message_id && (a.room_id == b.room_id ==> a.seq < b.seq)
}

/// Ids of messages are unique, sequence numbers start at one and rise in every
/// room, and a message refers to a room and a message of the tables.
pub open spec fn messages_ok(rooms: Seq<RoomRowView>, messages: Seq<MessageRowView>) -> bool {
    &&& pairwise(messages, messages_advance())
    &&& all(
        messages,
        |m: MessageRowView|
            m.seq >= 1 && any(rooms, with_room_id(m.room_id)) && (m.reply_to_message matches Some(
                id,
            ) ==> any(messages, with_message_id(id))),
    )
}

/// Ids of votes are unique.
pub open spec fn votes_differ() -> spec_fn(VoteRowView, VoteRowView) -> bool {
    |a: VoteRowView, b: VoteRowView| a.vote_id != b.vote_id
}

/// No agent has two ballots in one vote.
pub open spec fn ballots_differ() -> spec_fn(BallotRowView, BallotRowView) -> bool {
    |a: BallotRowView, b: BallotRowView| !(a.vote_id == b.vote_id && a.agent_id == b.agent_id)
}

/// Votes are unique, an agent votes at most once in each, and a ballot belongs
/// to a vote of the table.
pub open spec fn votes_ok(votes: Seq<VoteRowView>, ballots: Seq<BallotRowView>) -> bool {
    &&& pairwise(votes, votes_differ())
    &&& pairwise(ballots, ballots_differ())
    &&& all(ballots, |b: BallotRowView| any(votes, with_vote_id(b.vote_id)))
}

/// Ids of subscriptions are unique.
pub open spec fn subscriptions_differ() -> spec_fn(
    SubscriptionRowView,
    SubscriptionRowView,
) -> bool {
    |a: SubscriptionRowView, b: SubscriptionRowView| a.subscription_id != b.subscription_id
}

/// Two deliveries differ in id, and in message or subscription.
pub open spec fn deliveries_differ() -> spec_fn(DeliveryRowView, DeliveryRowView) -> bool {
    |a: DeliveryRowView, b: DeliveryRowView|
        a.delivery_id != b.delivery_id && !(a.subscription_id == b.subscription_id && a.message_seq
            == b.message_seq)
}

/// Subscriptions are unique, a message is queued at most once for each, and a
/// delivery belongs to a subscription of the table.
pub open spec fn subscriptions_ok(
    subscriptions: Seq<SubscriptionRowView>,
    deliveries: Seq<DeliveryRowView>,
) -> bool {
    &&& pairwise(subscriptions, subscriptions_differ())
    &&& pairwise(deliveries, deliveries_differ())
    &&& all(
        deliveries,
        |d: DeliveryRowView| any(subscriptions, with_subscription_id(d.subscription_id)),
    )
}

/// API keys are unique.
pub open spec fn keys_differ() -> spec_fn(KeyRowView, KeyRowView) -> bool {
    |a: KeyRowView, b: KeyRowView| a.api_key != b.api_key
}

/// Ids of sessions are unique.
pub open spec fn sessions_differ() -> spec_fn(SessionRowView, SessionRowView) -> bool {
    |a: SessionRowView, b: SessionRowView| a.session_id != b.session_id
}

/// Ids of tasks are unique.
pub open spec fn tasks_differ() -> spec_fn(TaskView, TaskView) -> bool {
    |a: TaskView, b: TaskView| a.task_id != b.task_id
}

/// What every operation on the tables keeps.
pub open spec fn well_formed(s: StoreView) -> bool {
    &&& rooms_ok(s.rooms)
    &&& messages_ok(s.rooms, s.messages)
    &&& votes_ok(s.votes, s.ballots)
    &&& subscriptions_ok(s.subscriptions, s.deliveries)
    &&& pairwise(s.keys, keys_differ())
    &&& pairwise(s.sessions, sessions_differ())
    &&& pairwise(s.tasks, tasks_differ())
}

proof fn lemma_any_pushed<V>(rows: Seq<V>, x: V, wanted: spec_fn(V) -> bool)
    ensures
        any(rows.push(x), wanted) == (any(rows, wanted) || wanted(x)),
{
    let longer = rows.push(x);
    if any(rows, wanted) {
        let i = choose|i: int| 0 <= i < rows.len() && wanted(#[trigger] rows[i]);
        assert(wanted(longer[i]));
    }
    if wanted(x) {
        assert(wanted(longer[rows.len() as int]));
    }
    if any(longer, wanted) && !wanted(x) {
        let i = choose|i: int| 0 <= i < longer.len() && wanted(#[trigger] longer[i]);
        assert(wanted(rows[i]));
    }
}

proof fn lemma_any_mapped<V>(rows: Seq<V>, change: spec_fn(V) -> V, wanted: spec_fn(V) -> bool)
    requires
        forall|v: V| #[trigger] wanted(change(v)) == wanted(v),
    ensures
        any(rows.map_values(change), wanted) == any(rows, wanted),
{
    let changed = rows.map_values(change);
    if any(rows, wanted) {
        let i = choose|i: int| 0 <= i < rows.len() && wanted(#[trigger] rows[i]);
        assert(wanted(changed[i]));
    }
    if any(changed, wanted) {
        let i = choose|i: int| 0 <= i < changed.len() && wanted(#[trigger] changed[i]);
        assert(wanted(change(rows[i])));
        assert(wanted(rows[i]));
    }
}

proof fn lemma_any_filtered<V>(rows: Seq<V>, keep: spec_fn(V) -> bool, wanted: spec_fn(V) -> bool)
    requires
        forall|v: V| #[trigger] wanted(v) ==> keep(v),
    ensures
        any(rows.filter(keep), wanted) == any(rows, wanted),
{
    let kept = rows.filter(keep);
    lemma_filter_rows(rows, keep);
    if any(rows, wanted) {
        let i = choose|i: int| 0 <= i < rows.len() && wanted(#[trigger] rows[i]);
        assert(kept.contains(rows[i]));
        let j = choose|j: int| 0 <= j < kept.len() && kept[j] == rows[i];
        assert(wanted(kept[j]));
    }
    if any(kept, wanted) {
        let i = choose|i: int| 0 <= i < kept.len() && wanted(#[trigger] kept[i]);
        assert(rows.contains(kept[i]));
        let j = choose|j: int| 0 <= j < rows.len() && rows[j] == kept[i];
        assert(wanted(rows[j]));
    }
}

/// New tables are well formed once they are open.
pub proof fn new_tables_are_well_formed(created_at: Seq<char>)
    ensures
        well_formed(opened(empty_tables(), created_at)),
{
    let s = opened(empty_tables(), created_at);
    assert(s.rooms.len() == 1) by {
        let rooms = empty_tables().rooms;
        assert(!any(rooms, with_room_id("lobby"@)));
        assert(!any(rooms, with_room_name("lobby"@)));
    }
}

/// A room that is not refused leaves the tables well formed.
pub proof fn creating_a_room_keeps_well_formed(s: StoreView, row: RoomRowView)
    requires
        well_formed(s),
        room_refusal(s.rooms, row) is None,
    ensures
        well_formed(with_room(s, row)),
{
    let rooms = s.rooms.push(row);
    assert forall|i: int| 0 <= i < s.rooms.len() implies rooms_differ()(
        #[trigger] s.rooms[i],
        row,
    ) by {
        assert(!with_room_id(row.room_id)(s.rooms[i]));
        assert(!with_room_name(row.name)(s.rooms[i]));
    }
    lemma_push_pairwise(s.rooms, row, rooms_differ());
    assert forall|i: int| 0 <= i < rooms.len() implies ((#[trigger] rooms[i]).parent_id matches Some(
        p,
    ) ==> p != rooms[i].room_id && any(rooms, with_room_id(p))) by {
        if let Some(p) = rooms[i].parent_id {
            lemma_any_pushed(s.rooms, row, with_room_id(p));
            if i < s.rooms.len() {
                assert(rooms[i] == s.rooms[i]);
            }
        }
    }
    assert forall|i: int| 0 <= i < s.messages.len() implies any(
        rooms,
        with_room_id((#[trigger] s.messages[i]).room_id),
    ) by {
        lemma_any_pushed(s.rooms, row, with_room_id(s.messages[i].room_id));
    }
}

proof fn lemma_tip_is_highest(messages: Seq<MessageRowView>, room_id: Seq<char>)
    ensures
        forall|i: int|
            0 <= i < messages.len() && (#[trigger] messages[i]).room_id == room_id ==> highest_seq(
                messages,
                room_id,
            ) is Some && messages[i].seq <= highest_seq(messages, room_id)->0,
        highest_seq(messages, room_id) matches Some(m) ==> exists|i: int|
            0 <= i < messages.len() && (#[trigger] messages[i]).room_id == room_id
                && messages[i].seq == m,
    decreases messages.len(),
{
    if messages.len() > 0 {
        let front = messages.drop_last();
        lemma_tip_is_highest(front, room_id);
        assert forall|i: int|
            0 <= i < messages.len() && (#[trigger] messages[i]).room_id
                == room_id implies highest_seq(messages, room_id) is Some && messages[i].seq
            <= highest_seq(messages, room_id)->0 by {
            if i < front.len() {
                assert(front[i] == messages[i]);
            }
        }
        if let Some(m) = highest_seq(messages, room_id) {
            if highest_seq(front, room_id) == Some(m) {
                let i = choose|i: int|
                    0 <= i < front.len() && (#[trigger] front[i]).room_id == room_id
                        && front[i].seq == m;
                assert(messages[i].seq == m && messages[i].room_id == room_id);
            } else {
                assert(messages[messages.len() - 1].seq == m);
            }
        }
    }
}

/// A message that is not refused, with the next sequence number of its room,
/// leaves the tables well formed.
pub proof fn inserting_a_message_keeps_well_formed(s: StoreView, row: MessageRowView)
    requires
        well_formed(s),
        message_refusal(s, row) is None,
        row.seq == tip(s.messages, row.room_id) + 1,
    ensures
        well_formed(with_message(s, row)),
{
    let messages = s.messages.push(row);
    lemma_tip_is_highest(s.messages, row.room_id);
    assert forall|i: int| 0 <= i < s.messages.len() implies messages_advance()(
        #[trigger] s.messages[i],
        row,
    ) by {
        assert(!with_message_id(row.message_id)(s.messages[i]));
    }
    lemma_push_pairwise(s.messages, row, messages_advance());
    assert forall|i: int| 0 <= i < messages.len() implies (#[trigger] messages[i]).seq >= 1 && any(
        s.rooms,
        with_room_id(messages[i].room_id),
    ) && (messages[i].reply_to_message matches Some(id) ==> any(
        messages,
        with_message_id(id),
    )) by {
        if i < s.messages.len() {
            assert(messages[i] == s.messages[i]);
        } else {
            if let Some(m) = highest_seq(s.messages, row.room_id) {
                let k = choose|k: int|
                    0 <= k < s.messages.len() && (#[trigger] s.messages[k]).room_id == row.room_id
                        && s.messages[k].seq == m;
                assert(s.messages[k].seq >= 1);
            }
        }
        if let Some(id) = messages[i].reply_to_message {
            lemma_any_pushed(s.messages, row, with_message_id(id));
        }
    }
}

/// Removing a room leaves the tables well formed.
pub proof fn deleting_a_room_keeps_well_formed(s: StoreView, room_id: Seq<char>)
    requires
        well_formed(s),
    ensures
        well_formed(without_room(s, room_id)),
{
    let t = without_room(s, room_id);
    let stay = |r: RoomRowView| r.room_id != room_id;
    let kept = s.rooms.filter(stay);
    lemma_filter_rows(s.rooms, stay);
    lemma_filter_pairwise(s.rooms, stay, rooms_differ());
    lemma_map_pairwise(kept, orphaned(room_id), rooms_differ());
    assert forall|p: Seq<char>| p != room_id && #[trigger] any(s.rooms, with_room_id(p)) implies any(
        t.rooms,
        with_room_id(p),
    ) by {
        lemma_any_filtered(s.rooms, stay, with_room_id(p));
        lemma_any_mapped(kept, orphaned(room_id), with_room_id(p));
    }
    assert forall|i: int| 0 <= i < t.rooms.len() implies ((#[trigger] t.rooms[i]).parent_id matches Some(
        p,
    ) ==> p != t.rooms[i].room_id && any(t.rooms, with_room_id(p))) by {
        assert(t.rooms[i] == orphaned(room_id)(kept[i]));
        assert(s.rooms.contains(kept[i]));
        let k = choose|k: int| 0 <= k < s.rooms.len() && s.rooms[k] == kept[i];
        assert(s.rooms[k].parent_id matches Some(p) ==> any(s.rooms, with_room_id(p)));
    }
    let left = s.messages.filter(outside(room_id));
    let change = detached(s.messages, room_id);
    lemma_filter_rows(s.messages, outside(room_id));
    lemma_filter_pairwise(s.messages, outside(room_id), messages_advance());
    lemma_map_pairwise(left, change, messages_advance());
    assert forall|i: int| 0 <= i < t.messages.len() implies (#[trigger] t.messages[i]).seq >= 1
        && any(t.rooms, with_room_id(t.messages[i].room_id)) && (
    t.messages[i].reply_to_message matches Some(id) ==> any(t.messages, with_message_id(id))) by {
        assert(t.messages[i] == change(left[i]));
        assert(s.messages.contains(left[i]));
        let k = choose|k: int| 0 <= k < s.messages.len() && s.messages[k] == left[i];
        assert(any(s.rooms, with_room_id(s.messages[k].room_id)));
        if let Some(id) = t.messages[i].reply_to_message {
            assert(any(s.messages, with_message_id(id)));
            let j = choose|j: int|
                0 <= j < s.messages.len() && with_message_id(id)(#[trigger] s.messages[j]);
            let gone = |m: MessageRowView| m.message_id == id && m.room_id == room_id;
            assert(!any(s.messages, gone));
            assert(!gone(s.messages[j]));
            assert(left.contains(s.messages[j]));
            let n = choose|n: int| 0 <= n < left.len() && left[n] == s.messages[j];
            assert(with_message_id(id)(t.messages[n]));
        }
    }
}

/// A new vote leaves the tables well formed.
pub proof fn creating_a_vote_keeps_well_formed(s: StoreView, row: VoteRowView)
    requires
        well_formed(s),
        !any(s.votes, with_vote_id(row.vote_id)),
    ensures
        well_formed(with_vote(s, row)),
{
    assert forall|i: int| 0 <= i < s.votes.len() implies votes_differ()(
        #[trigger] s.votes[i],
        row,
    ) by {
        assert(!with_vote_id(row.vote_id)(s.votes[i]));
    }
    lemma_push_pairwise(s.votes, row, votes_differ());
    assert forall|i: int| 0 <= i < s.ballots.len() implies any(
        s.votes.push(row),
        with_vote_id((#[trigger] s.ballots[i]).vote_id),
    ) by {
        lemma_any_pushed(s.votes, row, with_vote_id(s.ballots[i].vote_id));
    }
}

/// A ballot that is not refused leaves the tables well formed: no agent votes
/// twice.
pub proof fn casting_a_ballot_keeps_well_formed(s: StoreView, row: BallotRowView)
    requires
        well_formed(s),
        ballot_refusal(s, row) is None,
    ensures
        well_formed(with_ballot(s, row)),
{
    lemma_first_match(s.votes, with_vote_id(row.vote_id));
    assert forall|i: int| 0 <= i < s.ballots.len() implies ballots_differ()(
        #[trigger] s.ballots[i],
        row,
    ) by {
        assert(!ballot_by(row.vote_id, row.agent_id)(s.ballots[i]));
    }
    lemma_push_pairwise(s.ballots, row, ballots_differ());
    let ballots = s.ballots.push(row);
    assert forall|i: int| 0 <= i < ballots.len() implies any(
        s.votes,
        with_vote_id((#[trigger] ballots[i]).vote_id),
    ) by {
        if i < s.ballots.len() {
            assert(ballots[i] == s.ballots[i]);
        }
    }
}

/// Closing a vote leaves the tables well formed.
pub proof fn closing_a_vote_keeps_well_formed(s: StoreView, vote_id: Seq<char>)
    requires
        well_formed(s),
    ensures
        well_formed(
            (StoreView { votes: s.votes.map_values(closed_where(vote_id)), ..s }),
        ),
{
    lemma_map_pairwise(s.votes, closed_where(vote_id), votes_differ());
    assert forall|i: int| 0 <= i < s.ballots.len() implies any(
        s.votes.map_values(closed_where(vote_id)),
        with_vote_id((#[trigger] s.ballots[i]).vote_id),
    ) by {
        lemma_any_mapped(s.votes, closed_where(vote_id), with_vote_id(s.ballots[i].vote_id));
    }
}

/// A new API key leaves the tables well formed.
pub proof fn creating_a_key_keeps_well_formed(s: StoreView, row: KeyRowView)
    requires
        well_formed(s),
        !any(s.keys, with_key(row.api_key)),
    ensures
        well_formed(with_api_key(s, row)),
{
    assert forall|i: int| 0 <= i < s.keys.len() implies keys_differ()(
        #[trigger] s.keys[i],
        row,
    ) by {
        assert(!with_key(row.api_key)(s.keys[i]));
    }
    lemma_push_pairwise(s.keys, row, keys_differ());
}

/// Starting a session leaves the tables well formed.
pub proof fn starting_a_session_keeps_well_formed(s: StoreView, row: SessionRowView)
    requires
        well_formed(s),
        !any(s.sessions, with_session_id(row.session_id)),
    ensures
        well_formed(with_session(s, row)),
{
    assert forall|i: int| 0 <= i < s.sessions.len() implies sessions_differ()(
        #[trigger] s.sessions[i],
        row,
    ) by {
        assert(!with_session_id(row.session_id)(s.sessions[i]));
    }
    lemma_push_pairwise(s.sessions, row, sessions_differ());
}

/// Ending a session leaves the tables well formed.
pub proof fn ending_a_session_keeps_well_formed(s: StoreView, session_id: Seq<char>, at: Seq<char>)
    requires
        well_formed(s),
    ensures
        well_formed(with_session_ended(s, session_id, at)),
{
    lemma_map_pairwise(s.sessions, ended_where(session_id, at), sessions_differ());
}

/// A new subscription leaves the tables well formed.
pub proof fn subscribing_keeps_well_formed(s: StoreView, row: SubscriptionRowView)
    requires
        well_formed(s),
        !any(s.subscriptions, with_subscription_id(row.subscription_id)),
    ensures
        well_formed(with_subscription(s, row)),
{
    assert forall|i: int| 0 <= i < s.subscriptions.len() implies subscriptions_differ()(
        #[trigger] s.subscriptions[i],
        row,
    ) by {
        assert(!with_subscription_id(row.subscription_id)(s.subscriptions[i]));
    }
    lemma_push_pairwise(s.subscriptions, row, subscriptions_differ());
    assert forall|i: int| 0 <= i < s.deliveries.len() implies any(
        s.subscriptions.push(row),
        with_subscription_id((#[trigger] s.deliveries[i]).subscription_id),
    ) by {
        lemma_any_pushed(
            s.subscriptions,
            row,
            with_subscription_id(s.deliveries[i].subscription_id),
        );
    }
}

/// Removing a subscription leaves the tables well formed.
pub proof fn unsubscribing_keeps_well_formed(s: StoreView, id: Seq<char>, owner_key: Seq<char>)
    requires
        well_formed(s),
    ensures
        well_formed(without_subscription(s, id, owner_key)),
{
    let t = without_subscription(s, id, owner_key);
    if any(s.subscriptions, owned_subscription(id, owner_key)) {
        let stay = |r: SubscriptionRowView| !owned_subscription(id, owner_key)(r);
        let left = |d: DeliveryRowView| d.subscription_id != id;
        lemma_filter_pairwise(s.subscriptions, stay, subscriptions_differ());
        lemma_filter_rows(s.deliveries, left);
        lemma_filter_pairwise(s.deliveries, left, deliveries_differ());
        assert forall|i: int| 0 <= i < t.deliveries.len() implies any(
            t.subscriptions,
            with_subscription_id((#[trigger] t.deliveries[i]).subscription_id),
        ) by {
            let d = t.deliveries[i];
            assert(s.deliveries.contains(d));
            let k = choose|k: int| 0 <= k < s.deliveries.len() && s.deliveries[k] == d;
            assert(any(s.subscriptions, with_subscription_id(s.deliveries[k].subscription_id)));
            lemma_any_filtered(s.subscriptions, stay, with_subscription_id(d.subscription_id));
        }
    }
}

proof fn lemma_subscription_change_keeps_well_formed(
    s: StoreView,
    change: spec_fn(SubscriptionRowView) -> SubscriptionRowView,
)
    requires
        well_formed(s),
        forall|r: SubscriptionRowView| (#[trigger] change(r)).subscription_id == r.subscription_id,
    ensures
        well_formed((StoreView { subscriptions: s.subscriptions.map_values(change), ..s })),
{
    lemma_map_pairwise(s.subscriptions, change, subscriptions_differ());
    assert forall|i: int| 0 <= i < s.deliveries.len() implies any(
        s.subscriptions.map_values(change),
        with_subscription_id((#[trigger] s.deliveries[i]).subscription_id),
    ) by {
        lemma_any_mapped(
            s.subscriptions,
            change,
            with_subscription_id(s.deliveries[i].subscription_id),
        );
    }
}

/// Setting the status of a subscription, and moving its cursor, leave the
/// tables well formed.
pub proof fn subscription_changes_keep_well_formed(
    s: StoreView,
    id: Seq<char>,
    status: Seq<char>,
    failure_count: Option<i64>,
    seq: i64,
)
    requires
        well_formed(s),
    ensures
        well_formed(
            (StoreView {
                subscriptions: s.subscriptions.map_values(status_where(id, status, failure_count)),
                ..s
            }),
        ),
        well_formed(
            (StoreView { subscriptions: s.subscriptions.map_values(advanced_where(id, seq)), ..s }),
        ),
{
    lemma_subscription_change_keeps_well_formed(s, status_where(id, status, failure_count));
    lemma_subscription_change_keeps_well_formed(s, advanced_where(id, seq));
}

/// A delivery that the queue takes leaves the tables well formed.
pub proof fn queueing_keeps_well_formed(s: StoreView, row: DeliveryRowView)
    requires
        well_formed(s),
        accepts_delivery(s, row),
    ensures
        well_formed(with_delivery(s, row)),
{
    assert forall|i: int| 0 <= i < s.deliveries.len() implies deliveries_differ()(
        #[trigger] s.deliveries[i],
        row,
    ) by {
        assert(!with_delivery_id(row.delivery_id)(s.deliveries[i]));
        assert(!delivery_of(row.subscription_id, row.message_seq)(s.deliveries[i]));
    }
    lemma_push_pairwise(s.deliveries, row, deliveries_differ());
    let deliveries = s.deliveries.push(row);
    assert forall|i: int| 0 <= i < deliveries.len() implies any(
        s.subscriptions,
        with_subscription_id((#[trigger] deliveries[i]).subscription_id),
    ) by {
        if i < s.deliveries.len() {
            assert(deliveries[i] == s.deliveries[i]);
        }
    }
}

/// Removing a delivery, and putting one off, leave the tables well formed.
pub proof fn delivery_changes_keep_well_formed(
    s: StoreView,
    id: Seq<char>,
    next_attempt_at: Seq<char>,
    attempts: i64,
    last_error: Seq<char>,
)
    requires
        well_formed(s),
    ensures
        well_formed(
            (StoreView {
                deliveries: s.deliveries.filter(|d: DeliveryRowView| d.delivery_id != id),
                ..s
            }),
        ),
        well_formed(
            (StoreView {
                deliveries: s.deliveries.map_values(
                    rescheduled_where(id, next_attempt_at, attempts, last_error),
                ),
                ..s
            }),
        ),
{
    let left = |d: DeliveryRowView| d.delivery_id != id;
    lemma_filter_rows(s.deliveries, left);
    lemma_filter_pairwise(s.deliveries, left, deliveries_differ());
    let kept = s.deliveries.filter(left);
    assert forall|i: int| 0 <= i < kept.len() implies any(
        s.subscriptions,
        with_subscription_id((#[trigger] kept[i]).subscription_id),
    ) by {
        assert(s.deliveries.contains(kept[i]));
        let k = choose|k: int| 0 <= k < s.deliveries.len() && s.deliveries[k] == kept[i];
        assert(any(s.subscriptions, with_subscription_id(s.deliveries[k].subscription_id)));
    }
    let change = rescheduled_where(id, next_attempt_at, attempts, last_error);
    lemma_map_pairwise(s.deliveries, change, deliveries_differ());
    let put_off = s.deliveries.map_values(change);
    assert forall|i: int| 0 <= i < put_off.len() implies any(
        s.subscriptions,
        with_subscription_id((#[trigger] put_off[i]).subscription_id),
    ) by {
        assert(any(s.subscriptions, with_subscription_id(s.deliveries[i].subscription_id)));
    }
}

/// Saving a task leaves the tables well formed.
pub proof fn saving_a_task_keeps_well_formed(s: StoreView, task: TaskView)
    requires
        well_formed(s),
    ensures
        well_formed(with_task_saved(s, task)),
{
    if any(s.tasks, with_task_id(task.task_id)) {
        lemma_map_pairwise(s.tasks, replaced_by(task), tasks_differ());
    } else {
        assert forall|i: int| 0 <= i < s.tasks.len() implies tasks_differ()(
            #[trigger] s.tasks[i],
            task,
        ) by {
            assert(!with_task_id(task.task_id)(s.tasks[i]));
        }
        lemma_push_pairwise(s.tasks, task, tasks_differ());
    }
}

/// Opening well formed tables leaves them well formed.
pub proof fn opening_keeps_well_formed(s: StoreView, created_at: Seq<char>)
    requires
        well_formed(s),
    ensures
        well_formed(opened(s, created_at)),
{
    let t = opened(s, created_at);
    assert(t.messages =~= s.messages);
    let rooms = with_lobby(s.rooms, created_at);
    let u = StoreView { rooms, ..s };
    if rooms != s.rooms {
        let row = lobby(created_at);
        assert(room_refusal(s.rooms, row) is None);
        creating_a_room_keeps_well_formed(s, row);
        assert(u =~= with_room(s, row));
    }
    assert(well_formed(u));
    lemma_map_pairwise(rooms, lobby_public(), rooms_differ());
    assert forall|p: Seq<char>| #[trigger] any(rooms, with_room_id(p)) implies any(
        t.rooms,
        with_room_id(p),
    ) by {
        lemma_any_mapped(rooms, lobby_public(), with_room_id(p));
    }
    assert forall|i: int| 0 <= i < t.rooms.len() implies ((#[trigger] t.rooms[i]).parent_id matches Some(
        p,
    ) ==> p != t.rooms[i].room_id && any(t.rooms, with_room_id(p))) by {
        assert(t.rooms[i] == lobby_public()(rooms[i]));
        assert(rooms[i].parent_id matches Some(p) ==> any(rooms, with_room_id(p)));
    }
    assert forall|i: int| 0 <= i < t.messages.len() implies any(
        t.rooms,
        with_room_id((#[trigger] t.messages[i]).room_id),
    ) by {
        assert(any(rooms, with_room_id(s.messages[i].room_id)));
    }
}

proof fn lemma_unnumbered_counts(messages: Seq<MessageRowView>, room_id: Seq<char>, n: int)
    requires
        0 <= n <= messages.len(),
    ensures
        0 <= unnumbered(messages, room_id, n) <= n,
    decreases n,
{
    if n > 0 {
        lemma_unnumbered_counts(messages, room_id, n - 1);
    }
}

/// The numbers that messages have survive a restart: opening changes no message
/// that has one.
pub proof fn numbers_survive_a_restart(s: StoreView, created_at: Seq<char>, i: int)
    requires
        0 <= i < s.messages.len(),
        s.messages[i].seq != 0,
    ensures
        opened(s, created_at).messages.len() == s.messages.len(),
        opened(s, created_at).messages[i] == s.messages[i],
{
}

/// Opening tables twice does no more than opening them once.
pub proof fn opening_is_idempotent(s: StoreView, first: Seq<char>, second: Seq<char>)
    requires
        s.messages.len() <= i64::MAX,
    ensures
        opened(opened(s, first), second) == opened(s, first),
{
    let t = opened(s, first);
    assert forall|i: int| 0 <= i < t.messages.len() implies (#[trigger] t.messages[i]).seq
        != 0 by {
        let m = s.messages[i];
        lemma_unnumbered_counts(s.messages, m.room_id, i);
        assert(t.messages[i].seq == if m.seq == 0 {
            unnumbered(s.messages, m.room_id, i + 1) as i64
        } else {
            m.seq
        });
    }
    assert(numbered(t.messages) =~= t.messages);
    let rooms = with_lobby(s.rooms, first);
    lemma_any_mapped(rooms, lobby_public(), with_room_id("lobby"@));
    lemma_any_mapped(rooms, lobby_public(), with_room_name("lobby"@));
    lemma_any_pushed(s.rooms, lobby(first), with_room_id("lobby"@));
    assert(with_lobby(t.rooms, second) == t.rooms);
    assert("public"@ != "private"@) by {
        reveal_strlit("public");
        reveal_strlit("private");
        assert("public"@.len() == 6 && "private"@.len() == 7);
    }
    assert(t.rooms.map_values(lobby_public()) =~= t.rooms);
    assert(opened(t, second) =~= t);
}

// --- What follows from one operation for the next ---

/// A room that was created is what its id and its name lead to; what any other
/// id or name leads to has not changed.
pub proof fn a_created_room_is_found(s: StoreView, row: RoomRowView, other: Seq<char>)
    requires
        room_refusal(s.rooms, row) is None,
    ensures
        first_match(with_room(s, row).rooms, with_room_id(row.room_id)) == Some(row),
        first_match(with_room(s, row).rooms, with_room_name(row.name)) == Some(row),
        other != row.room_id ==> first_match(with_room(s, row).rooms, with_room_id(other))
            == first_match(s.rooms, with_room_id(other)),
        other != row.name ==> first_match(with_room(s, row).rooms, with_room_name(other))
            == first_match(s.rooms, with_room_name(other)),
{
    lemma_first_match_pushed(s.rooms, row, with_room_id(row.room_id));
    lemma_first_match_pushed(s.rooms, row, with_room_name(row.name));
    if other != row.room_id {
        lemma_first_match_unchanged(s.rooms, row, with_room_id(other));
    }
    if other != row.name {
        lemma_first_match_unchanged(s.rooms, row, with_room_name(other));
    }
}

/// A name that a room has is refused for every further room that is not its own
/// parent.
pub proof fn a_room_name_is_taken_once(s: StoreView, row: RoomRowView, next: RoomRowView)
    requires
        any(s.rooms, with_room_name(row.name)),
        next.name == row.name,
        next.parent_id != Some(next.room_id),
    ensures
        room_refusal(s.rooms, next) == Some(StoreErrorView::RoomNameTaken(row.name)),
{
}

/// A message with the next sequence number of its room raises the tip of that
/// room by one, and of no other room.
pub proof fn a_message_raises_the_tip_of_its_room(
    messages: Seq<MessageRowView>,
    row: MessageRowView,
    other: Seq<char>,
)
    requires
        row.seq == tip(messages, row.room_id) + 1,
    ensures
        tip(messages.push(row), row.room_id) == tip(messages, row.room_id) + 1,
        other != row.room_id ==> tip(messages.push(row), other) == tip(messages, other),
{
    assert(messages.push(row).drop_last() =~= messages);
}

/// A message that was inserted is what its id leads to; what any other id leads
/// to has not changed.
pub proof fn an_inserted_message_is_found(s: StoreView, row: MessageRowView, other: Seq<char>)
    requires
        message_refusal(s, row) is None,
    ensures
        first_match(with_message(s, row).messages, with_message_id(row.message_id)) == Some(row),
        other != row.message_id ==> first_match(
            with_message(s, row).messages,
            with_message_id(other),
        ) == first_match(s.messages, with_message_id(other)),
{
    lemma_first_match_pushed(s.messages, row, with_message_id(row.message_id));
    if other != row.message_id {
        lemma_first_match_unchanged(s.messages, row, with_message_id(other));
    }
}

/// A message is still what its id leads to after another room was deleted; it no
/// longer refers to a message that went with that room.
pub proof fn a_message_outlives_other_rooms(
    s: StoreView,
    room_id: Seq<char>,
    message_id: Seq<char>,
    row: MessageRowView,
)
    requires
        well_formed(s),
        first_match(s.messages, with_message_id(message_id)) == Some(row),
        row.room_id != room_id,
    ensures
        first_match(without_room(s, room_id).messages, with_message_id(message_id)) == Some(
            detached(s.messages, room_id)(row),
        ),
{
    let wanted = with_message_id(message_id);
    let change = detached(s.messages, room_id);
    let left = s.messages.filter(outside(room_id));
    let after = without_room(s, room_id).messages;
    lemma_first_match(s.messages, wanted);
    lemma_filter_rows(s.messages, outside(room_id));
    let k = choose|k: int| 0 <= k < s.messages.len() && s.messages[k] == row;
    assert(outside(room_id)(s.messages[k]));
    assert(left.contains(row));
    let j = choose|j: int| 0 <= j < left.len() && left[j] == row;
    assert(after[j] == change(row));
    assert(wanted(after[j]));
    lemma_first_match(after, wanted);
    let found = first_match(after, wanted)->0;
    let m = choose|m: int| 0 <= m < after.len() && after[m] == found;
    assert(after[m] == change(left[m]));
    assert(s.messages.contains(left[m]));
    let n = choose|n: int| 0 <= n < s.messages.len() && s.messages[n] == left[m];
    if n != k {
        if n < k {
            assert(messages_advance()(s.messages[n], s.messages[k]));
        } else {
            assert(messages_advance()(s.messages[k], s.messages[n]));
        }
    }
}

/// After a room was deleted no message is in it, no room is below it and no
/// reply points at one of its messages.
pub proof fn a_deleted_room_leaves_nothing(s: StoreView, room_id: Seq<char>)
    ensures
        !any(without_room(s, room_id).rooms, with_room_id(room_id)),
        all(without_room(s, room_id).rooms, |r: RoomRowView| r.parent_id != Some(room_id)),
        all(without_room(s, room_id).messages, |m: MessageRowView| m.room_id != room_id),
        all(
            without_room(s, room_id).messages,
            |m: MessageRowView|
                m.reply_to_message matches Some(id) ==> !any(
                    s.messages,
                    |t: MessageRowView| t.message_id == id && t.room_id == room_id,
                ),
        ),
        tip(without_room(s, room_id).messages, room_id) == 0,
{
    let t = without_room(s, room_id);
    let stay = |r: RoomRowView| r.room_id != room_id;
    let kept = s.rooms.filter(stay);
    lemma_filter_rows(s.rooms, stay);
    assert forall|i: int| 0 <= i < t.rooms.len() implies (#[trigger] t.rooms[i]).room_id != room_id
        && t.rooms[i].parent_id != Some(room_id) by {
        assert(t.rooms[i] == orphaned(room_id)(kept[i]));
    }
    let left = s.messages.filter(outside(room_id));
    lemma_filter_rows(s.messages, outside(room_id));
    assert forall|i: int| 0 <= i < t.messages.len() implies (#[trigger] t.messages[i]).room_id
        != room_id && (t.messages[i].reply_to_message matches Some(id) ==> !any(
        s.messages,
        |m: MessageRowView| m.message_id == id && m.room_id == room_id,
    )) by {
        assert(t.messages[i] == detached(s.messages, room_id)(left[i]));
        assert(outside(room_id)(left[i]));
    }
    lemma_tip_is_highest(t.messages, room_id);
}

/// A vote that was created is what its id leads to.
pub proof fn a_created_vote_is_found(s: StoreView, row: VoteRowView, other: Seq<char>)
    requires
        !any(s.votes, with_vote_id(row.vote_id)),
    ensures
        first_match(with_vote(s, row).votes, with_vote_id(row.vote_id)) == Some(row),
        other != row.vote_id ==> first_match(with_vote(s, row).votes, with_vote_id(other))
            == first_match(s.votes, with_vote_id(other)),
{
    lemma_first_match_pushed(s.votes, row, with_vote_id(row.vote_id));
    if other != row.vote_id {
        lemma_first_match_unchanged(s.votes, row, with_vote_id(other));
    }
}

/// A subscription that was created is what its id leads to.
pub proof fn a_created_subscription_is_found(
    s: StoreView,
    row: SubscriptionRowView,
    other: Seq<char>,
)
    requires
        !any(s.subscriptions, with_subscription_id(row.subscription_id)),
    ensures
        first_match(
            with_subscription(s, row).subscriptions,
            with_subscription_id(row.subscription_id),
        ) == Some(row),
        other != row.subscription_id ==> first_match(
            with_subscription(s, row).subscriptions,
            with_subscription_id(other),
        ) == first_match(s.subscriptions, with_subscription_id(other)),
{
    lemma_first_match_pushed(s.subscriptions, row, with_subscription_id(row.subscription_id));
    if other != row.subscription_id {
        lemma_first_match_unchanged(s.subscriptions, row, with_subscription_id(other));
    }
}

/// An agent whose ballot was taken is refused any further one in that vote.
pub proof fn an_agent_votes_once(s: StoreView, row: BallotRowView, again: BallotRowView)
    requires
        ballot_refusal(s, row) is None,
        again.vote_id == row.vote_id,
        again.agent_id == row.agent_id,
    ensures
        ballot_refusal(with_ballot(s, row), again) == Some(StoreErrorView::AlreadyVoted),
{
    lemma_any_pushed(s.ballots, row, ballot_by(row.vote_id, row.agent_id));
}

/// A closed vote takes no ballot.
pub proof fn a_closed_vote_takes_no_ballot(s: StoreView, row: BallotRowView)
    requires
        any(s.votes, with_vote_id(row.vote_id)),
    ensures
        ballot_refusal(
            (StoreView { votes: s.votes.map_values(closed_where(row.vote_id)), ..s }),
            row,
        ) == Some(StoreErrorView::VoteClosed),
{
    let votes = s.votes.map_values(closed_where(row.vote_id));
    let wanted = with_vote_id(row.vote_id);
    lemma_any_mapped(s.votes, closed_where(row.vote_id), wanted);
    lemma_first_match(votes, wanted);
    let found = first_match(votes, wanted)->0;
    let i = choose|i: int| 0 <= i < votes.len() && votes[i] == found;
    assert(votes[i] == closed_where(row.vote_id)(s.votes[i]));
    assert("closed"@ != "open"@) by {
        reveal_strlit("closed");
        reveal_strlit("open");
        assert("closed"@.len() == 6 && "open"@.len() == 4);
    }
}

/// Once a message is queued for a subscription it cannot be queued for it again.
pub proof fn a_message_is_queued_once(s: StoreView, row: DeliveryRowView, again: DeliveryRowView)
    requires
        again.subscription_id == row.subscription_id,
        again.message_seq == row.message_seq,
    ensures
        !accepts_delivery(with_delivery(s, row), again),
{
    lemma_any_pushed(s.deliveries, row, delivery_of(row.subscription_id, row.message_seq));
}

/// The cursor of a subscription never moves down, and moving it to where it is
/// changes nothing.
pub proof fn a_cursor_never_moves_down(row: SubscriptionRowView, id: Seq<char>, seq: i64)
    ensures
        advanced_where(id, seq)(row).last_delivered_seq >= row.last_delivered_seq,
        row.subscription_id == id ==> advanced_where(id, seq)(row).last_delivered_seq >= seq,
        advanced_where(id, seq)(advanced_where(id, seq)(row)) == advanced_where(id, seq)(row),
{
}

/// A removed subscription leaves no delivery behind.
pub proof fn a_removed_subscription_leaves_no_delivery(
    s: StoreView,
    id: Seq<char>,
    owner_key: Seq<char>,
)
    requires
        any(s.subscriptions, owned_subscription(id, owner_key)),
    ensures
        all(
            without_subscription(s, id, owner_key).deliveries,
            |d: DeliveryRowView| d.subscription_id != id,
        ),
{
    lemma_filter_rows(s.deliveries, |d: DeliveryRowView| d.subscription_id != id);
}

// --- What lists and histories hold ---

pub(crate) proof fn lemma_text_order_is_strict<V>(
    before: spec_fn(V, V) -> bool,
    key: spec_fn(V) -> Seq<char>,
)
    requires
        forall|a: V, b: V| #[trigger] before(a, b) == lex_lt(key(a), key(b)),
    ensures
        is_strict_order(before),
{
    assert forall|a: V, b: V| #[trigger] before(a, b) implies !before(b, a) by {
        if before(b, a) {
            lemma_lex_transitive(key(a), key(b), key(a));
            lemma_lex_irreflexive(key(a));
        }
    }
    assert forall|a: V, b: V, c: V|
        #![trigger before(a, c), before(b, c)]
        #![trigger before(a, b), before(b, c)]
        before(a, c) implies before(a, b) || before(b, c) by {
        lemma_lex_total(key(a), key(b));
        if lex_lt(key(b), key(a)) {
            lemma_lex_transitive(key(b), key(a), key(c));
        }
    }
}

pub(crate) proof fn lemma_sorted_rows<V>(rows: Seq<V>, before: spec_fn(V, V) -> bool, ok: spec_fn(V) -> bool)
    requires
        all(rows, ok),
    ensures
        all(ordered(rows, before), ok),
{
    broadcast use vstd::seq_lib::group_to_multiset_ensures;

    let sorted = ordered(rows, before);
    lemma_ordered_same_rows(rows, before);
    assert forall|i: int| 0 <= i < sorted.len() implies ok(#[trigger] sorted[i]) by {
        assert(sorted.to_multiset().count(sorted[i]) > 0);
        assert(rows.to_multiset().count(sorted[i]) > 0);
        assert(rows.contains(sorted[i]));
    }
}

pub(crate) proof fn lemma_sorted_holds<V>(rows: Seq<V>, before: spec_fn(V, V) -> bool, v: V)
    requires
        rows.contains(v),
    ensures
        ordered(rows, before).contains(v),
{
    broadcast use vstd::seq_lib::group_to_multiset_ensures;

    lemma_ordered_same_rows(rows, before);
    assert(rows.to_multiset().count(v) > 0);
    assert(ordered(rows, before).to_multiset().count(v) > 0);
}

/// A key sees the public rooms and those it owns, and no others; without a key
/// only public rooms are seen. The list is in the order of names.
pub proof fn a_key_sees_public_and_own_rooms(
    rooms: Seq<RoomRowView>,
    api_key: Option<Seq<char>>,
    parent_id: Option<Seq<char>>,
)
    ensures
        ({
            let seen = ordered(rooms.filter(visible_below(api_key, parent_id)), by_name());
            &&& all(seen, |r: RoomRowView| visible_to(r, api_key) && rooms.contains(r))
            &&& all(
                rooms,
                |r: RoomRowView|
                    visible_to(r, api_key) && (parent_id is None || r.parent_id == parent_id)
                        ==> seen.contains(r),
            )
            &&& in_order(seen, by_name())
        }),
{
    let wanted = visible_below(api_key, parent_id);
    let chosen = rooms.filter(wanted);
    let seen = ordered(chosen, by_name());
    lemma_filter_rows(rooms, wanted);
    assert(all(chosen, |r: RoomRowView| wanted(r) && rooms.contains(r)));
    assert forall|i: int| 0 <= i < chosen.len() implies visible_to(#[trigger] chosen[i], api_key)
        && rooms.contains(chosen[i]) by {
        assert(wanted(chosen[i]));
    }
    lemma_sorted_rows(
        chosen,
        by_name(),
        |r: RoomRowView| visible_to(r, api_key) && rooms.contains(r),
    );
    assert forall|i: int|
        0 <= i < rooms.len() && visible_to(#[trigger] rooms[i], api_key) && (parent_id is None
            || rooms[i].parent_id == parent_id) implies seen.contains(rooms[i]) by {
        assert(wanted(rooms[i]));
        lemma_sorted_holds(chosen, by_name(), rooms[i]);
    }
    lemma_text_order_is_strict(by_name(), |r: RoomRowView| r.name);
    lemma_ordered_in_order(chosen, by_name());
}

/// A history holds at most `limit` messages, all of the room.
pub proof fn a_history_is_bounded(
    messages: Seq<MessageRowView>,
    room_id: Seq<char>,
    limit: int,
    before: Option<Seq<char>>,
    since: Option<Seq<char>>,
    since_seq: Option<i64>,
)
    requires
        0 <= limit,
    ensures
        history(messages, room_id, limit, before, since, since_seq).len() <= limit,
        all(
            history(messages, room_id, limit, before, since, since_seq),
            |m: MessageRowView| m.room_id == room_id,
        ),
{
    let here = |m: MessageRowView| m.room_id == room_id;
    match (since_seq, since) {
        (Some(floor), _) => {
            let wanted = after_seq(room_id, floor);
            let chosen = messages.filter(wanted);
            lemma_filter_rows(messages, wanted);
            assert forall|i: int| 0 <= i < chosen.len() implies here(#[trigger] chosen[i]) by {
                assert(wanted(chosen[i]));
            }
            lemma_sorted_rows(chosen, by_seq(), here);
            let sorted = ordered(chosen, by_seq());
            assert forall|i: int| 0 <= i < first_n(sorted, limit).len() implies here(
                #[trigger] first_n(sorted, limit)[i],
            ) by {
                assert(here(sorted[i]));
            }
        },
        (None, Some(id)) => {
            let tail = behind(messages, id);
            let chosen = tail.filter(in_room(room_id));
            lemma_filter_rows(tail, in_room(room_id));
            assert forall|i: int| 0 <= i < chosen.len() implies here(#[trigger] chosen[i]) by {
                assert(in_room(room_id)(chosen[i]));
            }
            lemma_sorted_rows(chosen, by_time(), here);
            let sorted = ordered(chosen, by_time());
            assert forall|i: int| 0 <= i < first_n(sorted, limit).len() implies here(
                #[trigger] first_n(sorted, limit)[i],
            ) by {
                assert(here(sorted[i]));
            }
        },
        (None, None) => {
            let wanted = before_time(room_id, before);
            let chosen = messages.filter(wanted);
            lemma_filter_rows(messages, wanted);
            assert forall|i: int| 0 <= i < chosen.len() implies here(#[trigger] chosen[i]) by {
                assert(wanted(chosen[i]));
            }
            lemma_sorted_rows(chosen, by_time(), here);
            let sorted = ordered(chosen, by_time());
            assert forall|i: int| 0 <= i < last_n(sorted, limit).len() implies here(
                #[trigger] last_n(sorted, limit)[i],
            ) by {
                if sorted.len() > limit {
                    assert(here(sorted[sorted.len() - limit + i]));
                } else {
                    assert(here(sorted[i]));
                }
            }
        },
    }
}

/// A history that is not read by sequence number is in chronological order.
pub proof fn a_history_is_chronological(
    messages: Seq<MessageRowView>,
    room_id: Seq<char>,
    limit: int,
    before: Option<Seq<char>>,
    since: Option<Seq<char>>,
)
    requires
        0 <= limit,
    ensures
        in_order(history(messages, room_id, limit, before, since, None), by_time()),
{
    lemma_text_order_is_strict(by_time(), |m: MessageRowView| m.created_at);
    let chosen = match since {
        Some(id) => behind(messages, id).filter(in_room(room_id)),
        None => messages.filter(before_time(room_id, before)),
    };
    lemma_ordered_in_order(chosen, by_time());
    let sorted = ordered(chosen, by_time());
    let h = history(messages, room_id, limit, before, since, None);
    let skipped = if since is None && sorted.len() > limit {
        sorted.len() - limit
    } else {
        0
    };
    assert forall|i: int, j: int| 0 <= i < j < h.len() implies !by_time()(
        #[trigger] h[j],
        #[trigger] h[i],
    ) by {
        assert(h[i] == sorted[skipped + i]);
        assert(h[j] == sorted[skipped + j]);
    }
}

/// The deliveries that are handed out are due, the most overdue first, and at
/// most as many as asked for.
pub proof fn due_deliveries_come_in_order(
    deliveries: Seq<DeliveryRowView>,
    time: Seq<char>,
    limit: int,
)
    requires
        0 <= limit,
    ensures
        ({
            let due = first_n(ordered(deliveries.filter(due_at(time)), by_attempt()), limit);
            &&& due.len() <= limit
            &&& all(due, |d: DeliveryRowView| !lex_lt(time, d.next_attempt_at))
            &&& in_order(due, by_attempt())
        }),
{
    let chosen = deliveries.filter(due_at(time));
    let sorted = ordered(chosen, by_attempt());
    let due = first_n(sorted, limit);
    let ok = |d: DeliveryRowView| !lex_lt(time, d.next_attempt_at);
    lemma_filter_rows(deliveries, due_at(time));
    assert forall|i: int| 0 <= i < chosen.len() implies ok(#[trigger] chosen[i]) by {
        assert(due_at(time)(chosen[i]));
    }
    lemma_sorted_rows(chosen, by_attempt(), ok);
    lemma_text_order_is_strict(by_attempt(), |d: DeliveryRowView| d.next_attempt_at);
    lemma_ordered_in_order(chosen, by_attempt());
    assert forall|i: int| 0 <= i < due.len() implies ok(#[trigger] due[i]) by {
        assert(ok(sorted[i]));
    }
    assert forall|i: int, j: int| 0 <= i < j < due.len() implies !by_attempt()(
        #[trigger] due[j],
        #[trigger] due[i],
    ) by {
        assert(!by_attempt()(sorted[j], sorted[i]));
    }
}

/// The order in which one room numbers its messages.
pub open spec fn numbers_rise() -> spec_fn(MessageRowView, MessageRowView) -> bool {
    |a: MessageRowView, b: MessageRowView| a.seq < b.seq
}

proof fn lemma_room_numbers_rise(
    rooms: Seq<RoomRowView>,
    messages: Seq<MessageRowView>,
    room_id: Seq<char>,
    floor: i64,
)
    requires
        messages_ok(rooms, messages),
    ensures
        pairwise(messages.filter(after_seq(room_id, floor)), numbers_rise()),
        ordered(messages.filter(after_seq(room_id, floor)), by_seq()) == messages.filter(
            after_seq(room_id, floor),
        ),
{
    let wanted = after_seq(room_id, floor);
    let chosen = messages.filter(wanted);
    lemma_filter_pairwise(messages, wanted, messages_advance());
    lemma_filter_rows(messages, wanted);
    assert forall|i: int, j: int| 0 <= i < j < chosen.len() implies numbers_rise()(
        #[trigger] chosen[i],
        #[trigger] chosen[j],
    ) by {
        assert(messages_advance()(chosen[i], chosen[j]));
        assert(wanted(chosen[i]) && wanted(chosen[j]));
    }
    lemma_ordered_in_place(chosen, by_seq());
}

/// A history after a sequence number holds the messages of the room with a
/// higher number, the first `limit` of them, in the order of their numbers.
pub proof fn a_history_after_a_number_is_exact(
    rooms: Seq<RoomRowView>,
    messages: Seq<MessageRowView>,
    room_id: Seq<char>,
    limit: int,
    before: Option<Seq<char>>,
    since: Option<Seq<char>>,
    floor: i64,
)
    requires
        messages_ok(rooms, messages),
        0 <= limit,
    ensures
        history(messages, room_id, limit, before, since, Some(floor)) == first_n(
            messages.filter(after_seq(room_id, floor)),
            limit,
        ),
        pairwise(history(messages, room_id, limit, before, since, Some(floor)), numbers_rise()),
        all(
            history(messages, room_id, limit, before, since, Some(floor)),
            |m: MessageRowView| m.seq > floor,
        ),
{
    let wanted = after_seq(room_id, floor);
    let chosen = messages.filter(wanted);
    lemma_room_numbers_rise(rooms, messages, room_id, floor);
    lemma_filter_rows(messages, wanted);
    let h = first_n(chosen, limit);
    assert forall|i: int, j: int| 0 <= i < j < h.len() implies numbers_rise()(
        #[trigger] h[i],
        #[trigger] h[j],
    ) by {
        assert(numbers_rise()(chosen[i], chosen[j]));
    }
    assert forall|i: int| 0 <= i < h.len() implies (#[trigger] h[i]).seq > floor by {
        assert(wanted(chosen[i]));
    }
}

proof fn lemma_filter_twice(
    messages: Seq<MessageRowView>,
    room_id: Seq<char>,
    floor: i64,
    higher: i64,
)
    requires
        floor <= higher,
    ensures
        messages.filter(after_seq(room_id, floor)).filter(after_seq(room_id, higher))
            == messages.filter(after_seq(room_id, higher)),
    decreases messages.len(),
{
    reveal(Seq::filter);
    if messages.len() > 0 {
        let front = messages.drop_last();
        lemma_filter_twice(front, room_id, floor, higher);
        let kept = front.filter(after_seq(room_id, floor));
        assert(kept.push(messages.last()).drop_last() =~= kept);
    }
}

proof fn lemma_filter_splits(rows: Seq<MessageRowView>, room_id: Seq<char>, k: int)
    requires
        0 < k <= rows.len(),
        pairwise(rows, numbers_rise()),
        all(rows, |m: MessageRowView| m.room_id == room_id),
    ensures
        rows.filter(after_seq(room_id, rows[k - 1].seq)) == rows.skip(k),
    decreases rows.len(),
{
    reveal(Seq::filter);
    let wanted = after_seq(room_id, rows[k - 1].seq);
    let front = rows.drop_last();
    assert(pairwise(front, numbers_rise())) by {
        assert forall|i: int, j: int| 0 <= i < j < front.len() implies numbers_rise()(
            #[trigger] front[i],
            #[trigger] front[j],
        ) by {
            assert(numbers_rise()(rows[i], rows[j]));
        }
    }
    assert(all(front, |m: MessageRowView| m.room_id == room_id)) by {
        assert forall|i: int| 0 <= i < front.len() implies (#[trigger] front[i]).room_id
            == room_id by {
            assert(rows[i].room_id == room_id);
        }
    }
    assert(rows[rows.len() - 1].room_id == room_id);
    if k == rows.len() {
        lemma_filter_none(front, wanted);
        assert(rows.skip(k) =~= Seq::empty());
    } else {
        assert(front[k - 1] == rows[k - 1]);
        lemma_filter_splits(front, room_id, k);
        assert(numbers_rise()(rows[k - 1], rows[rows.len() - 1]));
        assert(rows.skip(k) =~= front.skip(k).push(rows.last()));
    }
}

proof fn lemma_filter_none(rows: Seq<MessageRowView>, wanted: spec_fn(MessageRowView) -> bool)
    requires
        forall|i: int| 0 <= i < rows.len() ==> !wanted(#[trigger] rows[i]),
    ensures
        rows.filter(wanted) == Seq::<MessageRowView>::empty(),
    decreases rows.len(),
{
    reveal(Seq::filter);
    if rows.len() > 0 {
        let front = rows.drop_last();
        assert forall|i: int| 0 <= i < front.len() implies !wanted(#[trigger] front[i]) by {
            assert(!wanted(rows[i]));
        }
        assert(!wanted(rows[rows.len() - 1]));
        lemma_filter_none(front, wanted);
    }
}

/// Reading on from the number of the last message that was read gives the next
/// messages: none is lost, and none comes twice.
pub proof fn reading_on_loses_nothing(
    rooms: Seq<RoomRowView>,
    messages: Seq<MessageRowView>,
    room_id: Seq<char>,
    floor: i64,
    limit: int,
    next_limit: int,
)
    requires
        messages_ok(rooms, messages),
        0 <= limit,
        0 <= next_limit,
        history(messages, room_id, limit, None, None, Some(floor)).len() > 0,
    ensures
        ({
            let read = history(messages, room_id, limit, None, None, Some(floor));
            history(messages, room_id, next_limit, None, None, Some(read.last().seq)) == first_n(
                messages.filter(after_seq(room_id, floor)).skip(read.len() as int),
                next_limit,
            )
        }),
{
    let wanted = after_seq(room_id, floor);
    let chosen = messages.filter(wanted);
    lemma_room_numbers_rise(rooms, messages, room_id, floor);
    lemma_filter_rows(messages, wanted);
    let read = history(messages, room_id, limit, None, None, Some(floor));
    assert(read == first_n(chosen, limit));
    let k = read.len() as int;
    let last = read.last().seq;
    assert(read.last() == chosen[k - 1]);
    assert(wanted(chosen[k - 1]));
    lemma_room_numbers_rise(rooms, messages, room_id, last);
    lemma_filter_twice(messages, room_id, floor, last);
    assert forall|i: int| 0 <= i < chosen.len() implies (#[trigger] chosen[i]).room_id
        == room_id by {
        assert(wanted(chosen[i]));
    }
    lemma_filter_splits(chosen, room_id, k);
}

/// A message that was just inserted is all that a reader who was at the tip of
/// the room finds.
pub proof fn a_reader_at_the_tip_finds_the_new_message(
    s: StoreView,
    row: MessageRowView,
    limit: int,
)
    requires
        well_formed(s),
        message_refusal(s, row) is None,
        row.seq == tip(s.messages, row.room_id) + 1,
        limit >= 1,
    ensures
        history(
            with_message(s, row).messages,
            row.room_id,
            limit,
            None,
            None,
            Some(tip(s.messages, row.room_id)),
        ) == seq![row],
{
    reveal(Seq::filter);
    let floor = tip(s.messages, row.room_id);
    let wanted = after_seq(row.room_id, floor);
    lemma_tip_is_highest(s.messages, row.room_id);
    lemma_filter_none(s.messages, wanted);
    let longer = s.messages.push(row);
    assert(longer.drop_last() =~= s.messages);
    assert(longer.filter(wanted) =~= seq![row]);
    inserting_a_message_keeps_well_formed(s, row);
    lemma_room_numbers_rise(s.rooms, longer, row.room_id, floor);
}

/// Whether the messages of every room are numbered 1, 2, 3 and so on.
pub open spec fn counted_from_one(messages: Seq<MessageRowView>) -> bool {
    forall|room_id: Seq<char>, i: int|
        0 <= i < messages.filter(in_room(room_id)).len() ==> (#[trigger] messages.filter(
            in_room(room_id),
        )[i]).seq == i + 1
}

proof fn lemma_prefix_counted(messages: Seq<MessageRowView>)
    requires
        messages.len() > 0,
        counted_from_one(messages),
    ensures
        counted_from_one(messages.drop_last()),
{
    reveal(Seq::filter);
    let front = messages.drop_last();
    assert forall|room_id: Seq<char>, i: int|
        0 <= i < front.filter(in_room(room_id)).len() implies (#[trigger] front.filter(
        in_room(room_id),
    )[i]).seq == i + 1 by {
        assert(messages.filter(in_room(room_id))[i] == front.filter(in_room(room_id))[i]);
    }
}

proof fn lemma_tip_counts(messages: Seq<MessageRowView>, room_id: Seq<char>)
    requires
        counted_from_one(messages),
    ensures
        tip(messages, room_id) == messages.filter(in_room(room_id)).len(),
        highest_seq(messages, room_id) is Some <==> messages.filter(in_room(room_id)).len() > 0,
    decreases messages.len(),
{
    reveal(Seq::filter);
    if messages.len() > 0 {
        let front = messages.drop_last();
        lemma_prefix_counted(messages);
        lemma_tip_counts(front, room_id);
        let here = messages.filter(in_room(room_id));
        if messages.last().room_id == room_id {
            assert(here == front.filter(in_room(room_id)).push(messages.last()));
            assert(here[here.len() - 1] == messages.last());
        }
    }
}

/// New tables count from one.
pub proof fn new_tables_count_from_one(created_at: Seq<char>)
    ensures
        counted_from_one(opened(empty_tables(), created_at).messages),
{
    reveal(Seq::filter);
    assert(opened(empty_tables(), created_at).messages =~= Seq::empty());
}

/// The messages of every room go on being numbered 1, 2, 3 and so on when a
/// message with the next number of its room is added.
pub proof fn inserting_goes_on_counting(messages: Seq<MessageRowView>, row: MessageRowView)
    requires
        counted_from_one(messages),
        row.seq == tip(messages, row.room_id) + 1,
    ensures
        counted_from_one(messages.push(row)),
{
    reveal(Seq::filter);
    let longer = messages.push(row);
    assert(longer.drop_last() =~= messages);
    assert forall|room_id: Seq<char>, i: int|
        0 <= i < longer.filter(in_room(room_id)).len() implies (#[trigger] longer.filter(
        in_room(room_id),
    )[i]).seq == i + 1 by {
        let before = messages.filter(in_room(room_id));
        lemma_tip_counts(messages, room_id);
        if i < before.len() {
            assert(longer.filter(in_room(room_id))[i] == before[i]);
        } else {
            assert(longer.filter(in_room(room_id))[i] == row);
        }
    }
}

proof fn lemma_filter_mapped(
    messages: Seq<MessageRowView>,
    room_id: Seq<char>,
    change: spec_fn(MessageRowView) -> MessageRowView,
)
    requires
        forall|m: MessageRowView| (#[trigger] change(m)).room_id == m.room_id,
    ensures
        messages.map_values(change).filter(in_room(room_id)) == messages.filter(
            in_room(room_id),
        ).map_values(change),
    decreases messages.len(),
{
    reveal(Seq::filter);
    let changed = messages.map_values(change);
    if messages.len() > 0 {
        let front = messages.drop_last();
        lemma_filter_mapped(front, room_id, change);
        assert(changed.drop_last() =~= front.map_values(change));
        assert(changed.last() == change(messages.last()));
        let kept = front.filter(in_room(room_id));
        assert(kept.push(messages.last()).map_values(change) =~= kept.map_values(change).push(
            change(messages.last()),
        ));
    } else {
        assert(changed =~= messages);
        assert(messages.filter(in_room(room_id)).map_values(change) =~= messages.filter(
            in_room(room_id),
        ));
    }
}

proof fn lemma_filter_in_and_out(messages: Seq<MessageRowView>, gone: Seq<char>, room_id: Seq<char>)
    ensures
        messages.filter(outside(gone)).filter(in_room(room_id)) == if room_id == gone {
            Seq::<MessageRowView>::empty()
        } else {
            messages.filter(in_room(room_id))
        },
    decreases messages.len(),
{
    reveal(Seq::filter);
    if messages.len() > 0 {
        let front = messages.drop_last();
        lemma_filter_in_and_out(front, gone, room_id);
        let kept = front.filter(outside(gone));
        assert(kept.push(messages.last()).drop_last() =~= kept);
    }
}

/// Deleting a room leaves the numbers of every other room as they are.
pub proof fn deleting_a_room_keeps_counting(s: StoreView, room_id: Seq<char>)
    requires
        counted_from_one(s.messages),
    ensures
        counted_from_one(without_room(s, room_id).messages),
{
    let left = s.messages.filter(outside(room_id));
    let change = detached(s.messages, room_id);
    let after = left.map_values(change);
    assert forall|other: Seq<char>, i: int|
        0 <= i < after.filter(in_room(other)).len() implies (#[trigger] after.filter(
        in_room(other),
    )[i]).seq == i + 1 by {
        lemma_filter_mapped(left, other, change);
        lemma_filter_in_and_out(s.messages, room_id, other);
        assert(after.filter(in_room(other))[i] == change(left.filter(in_room(other))[i]));
        assert(s.messages.filter(in_room(other))[i].seq == i + 1);
    }
}

/// Open tables have a lobby: a room of that id, which is not private, or else a
/// room of that name.
pub proof fn open_tables_have_a_lobby(s: StoreView, created_at: Seq<char>)
    ensures
        any(opened(s, created_at).rooms, with_room_id("lobby"@)) || any(
            opened(s, created_at).rooms,
            with_room_name("lobby"@),
        ),
        all(
            opened(s, created_at).rooms,
            |r: RoomRowView| r.room_id == "lobby"@ ==> r.visibility != "private"@,
        ),
{
    let rooms = with_lobby(s.rooms, created_at);
    let after = opened(s, created_at).rooms;
    lemma_any_pushed(s.rooms, lobby(created_at), with_room_id("lobby"@));
    lemma_any_mapped(rooms, lobby_public(), with_room_id("lobby"@));
    lemma_any_mapped(rooms, lobby_public(), with_room_name("lobby"@));
    assert("public"@ != "private"@) by {
        reveal_strlit("public");
        reveal_strlit("private");
        assert("public"@.len() == 6 && "private"@.len() == 7);
    }
    assert forall|i: int| 0 <= i < after.len() && (#[trigger] after[i]).room_id
        == "lobby"@ implies after[i].visibility != "private"@ by {
        assert(after[i] == lobby_public()(rooms[i]));
    }
}

} // verus!
