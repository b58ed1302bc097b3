//! What every question to the tables is answered: which rows, in which order, and
//! with which fields.

use vstd::prelude::*;
use crate::json::{compact_json, json_texts};
use crate::models::{ChatMessage, ChatMessageView, Room, RoomView};
use crate::rows::{
    first_match, first_n, is_strict_order, last_n, lemma_filter_rows, lemma_first_match,
    lemma_ordered_in_order, lemma_ordered_same_rows, ordered, views,
};
use crate::store::effects::lemma_highest_seq;
use crate::store::keys::with_key;
use crate::store::laws::{lemma_sorted_holds, lemma_sorted_rows, lemma_text_order_is_strict};
use crate::store::messages::{
    after_seq, before_time, behind, by_seq, by_time, in_room, lemma_behind, lemma_behind_nothing,
};
use crate::store::rooms::{
    below, by_name, owned_by, visible_below, with_message_id, with_room_id, with_room_name,
};
use crate::store::subscriptions::{
    active_in, by_attempt, due_at, newest_first, subscriptions_of, with_subscription_id,
    pending, PendingDelivery, Subscription, SubscriptionView,
};
use crate::store::votes::{
    ballots_of, by_cast_time, latest_first, votes_in, with_vote_id, VoteMeta, VoteMetaView,
};
use crate::store::{
    BallotRowView, DbError, DeliveryRowView, MessageRow, MessageRowView, RoomRowView, Store,
    StoreError, StoreErrorView, SubscriptionRowView, VoteRowView,
};
use crate::text::{lemma_lex_irreflexive, lemma_lex_total, lemma_lex_transitive, lex_lt};
use crate::time::{
    column_instant, column_time, rfc3339_instant, shown, Timestamp, COLUMN_FORMAT,
};

verus! {

// --- How rows are shown ---

/// Whether a room shows a row of the table: every column as it is. A room of the
/// table is not ephemeral, and nothing is known of who is in it.
pub open spec fn shows_room(row: RoomRowView, room: RoomView) -> bool {
    &&& room.room_id == row.room_id
    &&& room.name == row.name
    &&& room.description == row.description
    &&& room.parent_id == row.parent_id
    &&& room.created_by == row.created_by
    &&& room.visibility == row.visibility
    &&& room.owner_key == row.owner_key
    &&& room.encrypted == row.encrypted
    &&& !room.ephemeral
    &&& room.last_activity is None
    &&& room.member_count is None
    &&& column_instant(row.created_at) matches Some(t) ==> room.created_at == t
}

/// Whether rooms show rows, one by one.
pub open spec fn show_rooms(rows: Seq<RoomRowView>, list: Seq<Room>) -> bool {
    &&& list.len() == rows.len()
    &&& forall|k: int| 0 <= k < rows.len() ==> shows_room(rows[k], (#[trigger] list[k])@)
}

/// Whether a message shows a row: every column as it is, the metadata as compact
/// JSON, or as an empty object where they are no JSON.
pub open spec fn shows_message(row: MessageRowView, m: ChatMessageView) -> bool {
    &&& m.message_id == row.message_id
    &&& m.room_id == row.room_id
    &&& m.agent_id == row.agent_id
    &&& m.agent_name == row.agent_name
    &&& m.content == row.content
    &&& m.reply_to_message == row.reply_to_message
    &&& m.seq == row.seq
    &&& compact_json(row.metadata) matches Some(json) ==> m.metadata == json
    &&& compact_json(row.metadata) is None ==> m.metadata == "{}"@
    &&& column_instant(row.created_at) matches Some(t) ==> m.timestamp == t
}

/// Whether messages show rows, one by one.
pub open spec fn show_messages(rows: Seq<MessageRowView>, list: Seq<ChatMessage>) -> bool {
    &&& list.len() == rows.len()
    &&& forall|k: int| 0 <= k < rows.len() ==> shows_message(rows[k], (#[trigger] list[k])@)
}

/// Whether a list is one of rows.
pub open spec fn show_rows(rows: Seq<MessageRowView>, list: Seq<MessageRow>) -> bool {
    &&& list.len() == rows.len()
    &&& forall|k: int| 0 <= k < rows.len() ==> rows[k] == (#[trigger] list[k])@
}

/// Whether a vote shows a row: every column as it is, and the options that the
/// column lists.
pub open spec fn shows_vote(row: VoteRowView, v: VoteMetaView) -> bool {
    &&& v.vote_id == row.vote_id
    &&& v.room_id == row.room_id
    &&& v.title == row.title
    &&& v.description == row.description
    &&& v.created_by == row.created_by
    &&& v.status == row.status
    &&& v.eligible_voters == row.eligible_voters
    &&& json_texts(row.options) matches Some(options) ==> v.options == options
    &&& json_texts(row.options) is None ==> v.options.len() == 0
    &&& column_instant(row.created_at) matches Some(t) ==> v.created_at == t
    &&& v.closes_at is Some <==> row.closes_at is Some
    &&& row.closes_at matches Some(text) ==> (column_instant(text) matches Some(t) ==> v.closes_at
        == Some(t))
}

/// Whether votes show rows, one by one.
pub open spec fn show_votes(rows: Seq<VoteRowView>, list: Seq<VoteMeta>) -> bool {
    &&& list.len() == rows.len()
    &&& forall|k: int| 0 <= k < rows.len() ==> shows_vote(rows[k], (#[trigger] list[k])@)
}

/// Whether triples show ballots, one by one: agent, name, option.
pub open spec fn show_ballots(
    rows: Seq<BallotRowView>,
    list: Seq<(String, String, usize)>,
) -> bool {
    &&& list.len() == rows.len()
    &&& forall|k: int|
        0 <= k < rows.len() ==> (#[trigger] list[k]).0@ == rows[k].agent_id && list[k].1@
            == rows[k].agent_name && list[k].2 == rows[k].option_index
}

/// Whether a subscription shows a row: every column as it is but for the owner and
/// the secret, and the kinds that the column lists.
pub open spec fn shows_subscription(row: SubscriptionRowView, s: SubscriptionView) -> bool {
    &&& s.subscription_id == row.subscription_id
    &&& s.room_id == row.room_id
    &&& s.webhook_url == row.webhook_url
    &&& s.only_from == row.only_from
    &&& s.not_from == row.not_from
    &&& s.exclude_thinking == row.exclude_thinking
    &&& s.since_seq == row.since_seq
    &&& s.last_delivered_seq == row.last_delivered_seq
    &&& s.status == row.status
    &&& s.failure_count == row.failure_count
    &&& row.kinds is None ==> s.kinds.len() == 0
    &&& row.kinds matches Some(json) ==> (json_texts(json) matches Some(kinds) ==> s.kinds == kinds)
    &&& row.kinds matches Some(json) ==> (json_texts(json) is None ==> s.kinds.len() == 0)
    &&& rfc3339_instant(row.created_at) matches Some(t) ==> s.created_at.secs == t.0
        && s.created_at.nanos == t.1
}

/// Whether subscriptions show rows, one by one.
pub open spec fn show_subscriptions(
    rows: Seq<SubscriptionRowView>,
    list: Seq<Subscription>,
) -> bool {
    &&& list.len() == rows.len()
    &&& forall|k: int| 0 <= k < rows.len() ==> shows_subscription(rows[k], (#[trigger] list[k])@)
}

/// Whether triples show rows, one by one: the subscription, its owner, its secret.
pub open spec fn show_full_subscriptions(
    rows: Seq<SubscriptionRowView>,
    list: Seq<(Subscription, String, String)>,
) -> bool {
    &&& list.len() == rows.len()
    &&& forall|k: int|
        0 <= k < rows.len() ==> shows_subscription(rows[k], (#[trigger] list[k]).0@)
            && list[k].1@ == rows[k].owner_key && list[k].2@ == rows[k].secret
}

/// Whether waiting deliveries show rows, one by one: every column as it is but for
/// the time of the next attempt and the last error.
pub open spec fn show_deliveries(rows: Seq<DeliveryRowView>, list: Seq<PendingDelivery>) -> bool {
    &&& list.len() == rows.len()
    &&& forall|k: int|
        0 <= k < rows.len() ==> (#[trigger] list[k])@.delivery_id == rows[k].delivery_id
            && list[k]@.subscription_id == rows[k].subscription_id && list[k]@.message_seq
            == rows[k].message_seq && list[k]@.message_id == rows[k].message_id
            && list[k]@.attempts == rows[k].attempts
}

// --- How rows are found and put in order ---

pub(crate) proof fn lemma_found_at<V>(rows: Seq<V>, wanted: spec_fn(V) -> bool, i: int)
    requires
        0 <= i < rows.len(),
        wanted(rows[i]),
        forall|j: int| 0 <= j < i ==> !wanted(#[trigger] rows[j]),
    ensures
        first_match(rows, wanted) == Some(rows[i]),
    decreases i,
{
    if i > 0 {
        let tail = rows.drop_first();
        assert(!wanted(rows[0]));
        assert forall|j: int| 0 <= j < i - 1 implies !wanted(#[trigger] tail[j]) by {
            assert(tail[j] == rows[j + 1]);
        }
        assert(tail[i - 1] == rows[i]);
        lemma_found_at(tail, wanted, i - 1);
    }
}

proof fn lemma_filter_shorter<V>(rows: Seq<V>, wanted: spec_fn(V) -> bool)
    ensures
        rows.filter(wanted).len() <= rows.len(),
    decreases rows.len(),
{
    reveal(Seq::filter);
    if rows.len() > 0 {
        lemma_filter_shorter(rows.drop_last(), wanted);
    }
}

/// Whether rows are exactly the wanted ones of a table, and none stands behind one
/// that it comes before.
pub open spec fn lists<V>(
    table: Seq<V>,
    wanted: spec_fn(V) -> bool,
    before: spec_fn(V, V) -> bool,
    rows: Seq<V>,
) -> bool {
    &&& rows.len() == table.filter(wanted).len()
    &&& forall|k: int|
        0 <= k < rows.len() ==> wanted(#[trigger] rows[k]) && table.contains(rows[k])
    &&& forall|i: int| 0 <= i < table.len() && wanted(#[trigger] table[i])
        ==> rows.contains(table[i])
    &&& forall|a: int, b: int|
        0 <= a < b < rows.len() ==> !before(#[trigger] rows[b], #[trigger] rows[a])
}

/// Whether rows are the first `n` of the wanted ones of a table: what is left out
/// comes before none of them.
pub open spec fn lists_first<V>(
    table: Seq<V>,
    wanted: spec_fn(V) -> bool,
    before: spec_fn(V, V) -> bool,
    n: int,
    rows: Seq<V>,
) -> bool {
    &&& rows.len() == (if n < table.filter(wanted).len() {
        n
    } else {
        table.filter(wanted).len() as int
    })
    &&& forall|k: int|
        0 <= k < rows.len() ==> wanted(#[trigger] rows[k]) && table.contains(rows[k])
    &&& forall|i: int|
        0 <= i < table.len() && wanted(#[trigger] table[i]) && !rows.contains(table[i])
            ==> rows.len() == n && forall|k: int|
            0 <= k < rows.len() ==> !before(table[i], #[trigger] rows[k])
    &&& forall|a: int, b: int|
        0 <= a < b < rows.len() ==> !before(#[trigger] rows[b], #[trigger] rows[a])
}

/// Whether rows are the last `n` of the wanted ones of a table: none of them comes
/// before what is left out.
pub open spec fn lists_last<V>(
    table: Seq<V>,
    wanted: spec_fn(V) -> bool,
    before: spec_fn(V, V) -> bool,
    n: int,
    rows: Seq<V>,
) -> bool {
    &&& rows.len() == (if n < table.filter(wanted).len() {
        n
    } else {
        table.filter(wanted).len() as int
    })
    &&& forall|k: int|
        0 <= k < rows.len() ==> wanted(#[trigger] rows[k]) && table.contains(rows[k])
    &&& forall|i: int|
        0 <= i < table.len() && wanted(#[trigger] table[i]) && !rows.contains(table[i])
            ==> rows.len() == n && forall|k: int|
            0 <= k < rows.len() ==> !before(#[trigger] rows[k], table[i])
    &&& forall|a: int, b: int|
        0 <= a < b < rows.len() ==> !before(#[trigger] rows[b], #[trigger] rows[a])
}

proof fn lemma_front<V>(
    table: Seq<V>,
    wanted: spec_fn(V) -> bool,
    before: spec_fn(V, V) -> bool,
    n: int,
)
    requires
        is_strict_order(before),
        0 <= n,
    ensures
        lists_first(
            table,
            wanted,
            before,
            n,
            first_n(ordered(table.filter(wanted), before), n),
        ),
{
    let sorted = ordered(table.filter(wanted), before);
    let front = first_n(sorted, n);
    lemma_whole(table, wanted, before);
    assert forall|k: int| 0 <= k < front.len() implies #[trigger] front[k] == sorted[k] by {}
    assert forall|k: int| 0 <= k < front.len() implies wanted(#[trigger] front[k])
        && table.contains(front[k]) by {
        assert(wanted(sorted[k]) && table.contains(sorted[k]));
    }
    assert forall|a: int, b: int| 0 <= a < b < front.len() implies !before(
        #[trigger] front[b],
        #[trigger] front[a],
    ) by {
        assert(!before(sorted[b], sorted[a]));
    }
    assert forall|i: int|
        0 <= i < table.len() && wanted(#[trigger] table[i]) && !front.contains(
            table[i],
        ) implies front.len() == n && forall|k: int|
        0 <= k < front.len() ==> !before(table[i], #[trigger] front[k]) by {
        assert(sorted.contains(table[i]));
        let p = choose|p: int| 0 <= p < sorted.len() && sorted[p] == table[i];
        if p < front.len() {
            assert(front[p] == table[i]);
        }
        assert forall|k: int| 0 <= k < front.len()
            implies !before(table[i], #[trigger] front[k]) by {
            assert(!before(sorted[p], sorted[k]));
        }
    }
}

pub(crate) proof fn lemma_whole<V>(
    table: Seq<V>,
    wanted: spec_fn(V) -> bool,
    before: spec_fn(V, V) -> bool,
)
    requires
        is_strict_order(before),
    ensures
        lists(table, wanted, before, ordered(table.filter(wanted), before)),
{
    let chosen = table.filter(wanted);
    let sorted = ordered(chosen, before);
    lemma_filter_rows(table, wanted);
    lemma_ordered_same_rows(chosen, before);
    lemma_ordered_in_order(chosen, before);
    lemma_sorted_rows(chosen, before, |v: V| wanted(v) && table.contains(v));
    assert forall|i: int| 0 <= i < table.len() && wanted(#[trigger] table[i])
        implies sorted.contains(
        table[i],
    ) by {
        lemma_sorted_holds(chosen, before, table[i]);
    }
}

pub(crate) proof fn lemma_back<V>(
    table: Seq<V>,
    wanted: spec_fn(V) -> bool,
    before: spec_fn(V, V) -> bool,
    n: int,
)
    requires
        is_strict_order(before),
        0 <= n,
    ensures
        lists_last(
            table,
            wanted,
            before,
            n,
            last_n(ordered(table.filter(wanted), before), n),
        ),
{
    let sorted = ordered(table.filter(wanted), before);
    let back = last_n(sorted, n);
    lemma_whole(table, wanted, before);
    let off = sorted.len() - back.len();
    assert forall|k: int| 0 <= k < back.len() implies #[trigger] back[k] == sorted[off + k] by {}
    assert forall|k: int| 0 <= k < back.len() implies wanted(#[trigger] back[k])
        && table.contains(back[k]) by {
        assert(wanted(sorted[off + k]) && table.contains(sorted[off + k]));
    }
    assert forall|a: int, b: int| 0 <= a < b < back.len() implies !before(
        #[trigger] back[b],
        #[trigger] back[a],
    ) by {
        assert(!before(sorted[off + b], sorted[off + a]));
    }
    assert forall|i: int|
        0 <= i < table.len() && wanted(#[trigger] table[i]) && !back.contains(
            table[i],
        ) implies back.len() == n && forall|k: int|
        0 <= k < back.len() ==> !before(#[trigger] back[k], table[i]) by {
        assert(sorted.contains(table[i]));
        let p = choose|p: int| 0 <= p < sorted.len() && sorted[p] == table[i];
        if p >= off {
            assert(back[p - off] == table[i]);
        }
        assert forall|k: int| 0 <= k < back.len() implies !before(#[trigger] back[k], table[i]) by {
            assert(!before(sorted[off + k], sorted[p]));
        }
    }
}

proof fn lemma_number_order_is_strict()
    ensures
        is_strict_order(by_seq()),
{
}

proof fn lemma_newest_first_is_strict()
    ensures
        is_strict_order(newest_first()),
{
    let before = newest_first();
    assert forall|a: SubscriptionRowView, b: SubscriptionRowView| #[trigger]
        before(a, b) implies !before(b, a) by {
        if before(b, a) {
            lemma_lex_transitive(b.created_at, a.created_at, b.created_at);
            lemma_lex_irreflexive(b.created_at);
        }
    }
    assert forall|a: SubscriptionRowView, b: SubscriptionRowView, c: SubscriptionRowView|
        #![trigger before(a, c), before(b, c)]
        #![trigger before(a, b), before(b, c)]
        before(a, c) implies before(a, b) || before(b, c) by {
        lemma_lex_total(a.created_at, b.created_at);
        if lex_lt(a.created_at, b.created_at) {
            lemma_lex_transitive(c.created_at, a.created_at, b.created_at);
        }
    }
}

proof fn lemma_latest_first_is_strict()
    ensures
        is_strict_order(latest_first()),
{
    let before = latest_first();
    assert forall|a: VoteRowView, b: VoteRowView| #[trigger] before(a, b) implies !before(b, a) by {
        lemma_lex_irreflexive(a.created_at);
        lemma_lex_irreflexive(a.vote_id);
        if lex_lt(b.created_at, a.created_at) && lex_lt(a.created_at, b.created_at) {
            lemma_lex_transitive(a.created_at, b.created_at, a.created_at);
        }
        if lex_lt(b.vote_id, a.vote_id) && lex_lt(a.vote_id, b.vote_id) {
            lemma_lex_transitive(a.vote_id, b.vote_id, a.vote_id);
        }
    }
    assert forall|a: VoteRowView, b: VoteRowView, c: VoteRowView|
        #![trigger before(a, c), before(b, c)]
        #![trigger before(a, b), before(b, c)]
        before(a, c) implies before(a, b) || before(b, c) by {
        lemma_lex_total(a.created_at, b.created_at);
        lemma_lex_total(a.vote_id, b.vote_id);
        if lex_lt(a.created_at, b.created_at) && lex_lt(c.created_at, a.created_at) {
            lemma_lex_transitive(c.created_at, a.created_at, b.created_at);
        }
        if lex_lt(a.vote_id, b.vote_id) && lex_lt(c.vote_id, a.vote_id) {
            lemma_lex_transitive(c.vote_id, a.vote_id, b.vote_id);
        }
    }
}

// --- Questions ---

/// A room is looked up by its id: the row with that id is shown, and nothing where there
/// is none.
pub proof fn a_room_is_found_by_id(
    s: &Store,
    room_id: &str,
    i: int,
    r: Result<Option<Room>, StoreError>,
)
    requires
        call_ensures(Store::get_room, (s, room_id), r),
    ensures
        0 <= i < s@.rooms.len() && s@.rooms[i].room_id == room_id@ && (forall|j: int|
            0 <= j < i ==> (#[trigger] s@.rooms[j]).room_id != room_id@) ==> (r matches Ok(Some(x))
            && shows_room(s@.rooms[i], x@)),
        (forall|j: int| 0 <= j < s@.rooms.len() ==> (#[trigger] s@.rooms[j]).room_id != room_id@)
            ==> (r matches Ok(None)),
{
    let wanted = with_room_id(room_id@);
    lemma_first_match(s@.rooms, wanted);
    if 0 <= i < s@.rooms.len() && s@.rooms[i].room_id == room_id@ && (forall|j: int|
        0 <= j < i ==> (#[trigger] s@.rooms[j]).room_id != room_id@) {
        lemma_found_at(s@.rooms, wanted, i);
    }
}

/// A room is looked up by its name.
pub proof fn a_room_is_found_by_name(
    s: &Store,
    name: &str,
    i: int,
    r: Result<Option<Room>, StoreError>,
)
    requires
        call_ensures(Store::get_room_by_name, (s, name), r),
    ensures
        0 <= i < s@.rooms.len() && s@.rooms[i].name == name@ && (forall|j: int|
            0 <= j < i ==> (#[trigger] s@.rooms[j]).name != name@) ==> (r matches Ok(Some(x))
            && shows_room(s@.rooms[i], x@)),
        (forall|j: int| 0 <= j < s@.rooms.len() ==> (#[trigger] s@.rooms[j]).name != name@)
            ==> (r matches Ok(None)),
{
    let wanted = with_room_name(name@);
    lemma_first_match(s@.rooms, wanted);
    if 0 <= i < s@.rooms.len() && s@.rooms[i].name == name@ && (forall|j: int|
        0 <= j < i ==> (#[trigger] s@.rooms[j]).name != name@) {
        lemma_found_at(s@.rooms, wanted, i);
    }
}

/// A message is looked up by its id.
pub proof fn a_message_is_found_by_id(
    s: &Store,
    message_id: &str,
    i: int,
    r: Result<Option<ChatMessage>, StoreError>,
)
    requires
        call_ensures(Store::get_message, (s, message_id), r),
    ensures
        0 <= i < s@.messages.len() && s@.messages[i].message_id == message_id@ && (forall|j: int|
            0 <= j < i ==> (#[trigger] s@.messages[j]).message_id != message_id@)
                ==> (r matches Ok(Some(x))
            && shows_message(s@.messages[i], x@)),
        (forall|j: int| 0 <= j < s@.messages.len() ==> (#[trigger] s@.messages[j]).message_id
            != message_id@)
            ==> (r matches Ok(None)),
{
    let wanted = with_message_id(message_id@);
    lemma_first_match(s@.messages, wanted);
    if 0 <= i < s@.messages.len() && s@.messages[i].message_id == message_id@ && (forall|j: int|
        0 <= j < i ==> (#[trigger] s@.messages[j]).message_id != message_id@) {
        lemma_found_at(s@.messages, wanted, i);
    }
}

/// A vote is looked up by its id.
pub proof fn a_vote_is_found_by_id(
    s: &Store,
    vote_id: &str,
    i: int,
    r: Result<Option<VoteMeta>, StoreError>,
)
    requires
        call_ensures(Store::get_vote_meta, (s, vote_id), r),
    ensures
        0 <= i < s@.votes.len() && s@.votes[i].vote_id == vote_id@ && (forall|j: int|
            0 <= j < i ==> (#[trigger] s@.votes[j]).vote_id != vote_id@) ==> (r matches Ok(Some(x))
            && shows_vote(s@.votes[i], x@)),
        (forall|j: int| 0 <= j < s@.votes.len() ==> (#[trigger] s@.votes[j]).vote_id != vote_id@)
            ==> (r matches Ok(None)),
{
    let wanted = with_vote_id(vote_id@);
    lemma_first_match(s@.votes, wanted);
    if 0 <= i < s@.votes.len() && s@.votes[i].vote_id == vote_id@ && (forall|j: int|
        0 <= j < i ==> (#[trigger] s@.votes[j]).vote_id != vote_id@) {
        lemma_found_at(s@.votes, wanted, i);
    }
}

/// A subscription is looked up by its id, with its owner and its secret.
pub proof fn a_subscription_is_found_by_id(
    s: &Store,
    subscription_id: &str,
    i: int,
    r: Result<Option<(Subscription, String, String)>, StoreError>,
)
    requires
        call_ensures(Store::get_subscription, (s, subscription_id), r),
    ensures
        0 <= i < s@.subscriptions.len() && s@.subscriptions[i].subscription_id == subscription_id@
            && (forall|j: int|
            0 <= j < i ==> (#[trigger] s@.subscriptions[j]).subscription_id != subscription_id@)
                ==> (r matches Ok(Some(x))
            && shows_subscription(s@.subscriptions[i], x.0@)
                && x.1@ == s@.subscriptions[i].owner_key
            && x.2@ == s@.subscriptions[i].secret),
        (forall|j: int| 0 <= j < s@.subscriptions.len()
            ==> (#[trigger] s@.subscriptions[j]).subscription_id != subscription_id@)
            ==> (r matches Ok(None)),
{
    let wanted = with_subscription_id(subscription_id@);
    lemma_first_match(s@.subscriptions, wanted);
    if 0 <= i < s@.subscriptions.len() && s@.subscriptions[i].subscription_id == subscription_id@
        && (forall|j: int|
        0 <= j < i ==> (#[trigger] s@.subscriptions[j]).subscription_id != subscription_id@) {
        lemma_found_at(s@.subscriptions, wanted, i);
    }
}

/// Whether a room, a message or a key is there is a matter of its id alone.
pub proof fn what_is_there_is_known_by_its_id(
    s: &Store,
    id: &str,
    room: bool,
    message: bool,
    key: Result<bool, StoreError>,
)
    requires
        call_ensures(Store::has_room, (s, id), room),
        call_ensures(Store::has_message, (s, id), message),
        call_ensures(Store::validate_api_key, (s, id), key),
    ensures
        room <==> exists|i: int|
            0 <= i < s@.rooms.len() && (#[trigger] s@.rooms[i]).room_id == id@,
        message <==> exists|i: int|
            0 <= i < s@.messages.len() && (#[trigger] s@.messages[i]).message_id == id@,
        key matches Ok(b) && (b <==> exists|i: int|
            0 <= i < s@.keys.len() && (#[trigger] s@.keys[i]).api_key == id@),
{
}

/// The tier of a key is that of its row; a key that is not there has none.
pub proof fn a_key_has_the_tier_of_its_row(
    s: &Store,
    api_key: &str,
    i: int,
    r: Result<String, StoreError>,
)
    requires
        call_ensures(Store::get_key_tier, (s, api_key), r),
    ensures
        0 <= i < s@.keys.len() && s@.keys[i].api_key == api_key@ && (forall|j: int|
            0 <= j < i ==> (#[trigger] s@.keys[j]).api_key != api_key@) ==> (r matches Ok(tier)
            && tier@ == s@.keys[i].tier),
        r is Err <==> forall|j: int|
            0 <= j < s@.keys.len() ==> (#[trigger] s@.keys[j]).api_key != api_key@,
        r matches Err(e) ==> e@ == StoreErrorView::Db(DbError::NoRows),
{
    let wanted = with_key(api_key@);
    lemma_first_match(s@.keys, wanted);
    if 0 <= i < s@.keys.len() && s@.keys[i].api_key == api_key@ && (forall|j: int|
        0 <= j < i ==> (#[trigger] s@.keys[j]).api_key != api_key@) {
        lemma_found_at(s@.keys, wanted, i);
    }
}

/// A key owns the rooms that name it as their owner.
pub proof fn rooms_are_counted_by_owner(
    s: &Store,
    api_key: &str,
    r: Result<usize, StoreError>,
)
    requires
        call_ensures(Store::count_rooms_for_key, (s, api_key), r),
    ensures
        r matches Ok(n) && n == s@.rooms.filter(
            |t: RoomRowView| t.owner_key == Some(api_key@),
        ).len(),
{
    assert(owned_by(api_key@) =~= |t: RoomRowView| t.owner_key == Some(api_key@));
}

/// The ballots of a vote are counted by its id.
pub proof fn ballots_are_counted_by_vote(
    s: &Store,
    vote_id: &str,
    r: Result<usize, StoreError>,
)
    requires
        call_ensures(Store::get_vote_ballot_count, (s, vote_id), r),
    ensures
        r matches Ok(n) && n == s@.ballots.filter(|t: BallotRowView| t.vote_id == vote_id@).len(),
{
    assert(ballots_of(vote_id@) =~= |t: BallotRowView| t.vote_id == vote_id@);
}

/// Asking for a list of what is kept never fails.
pub proof fn asking_for_a_list_never_fails(
    s: &Store,
    id: &str,
    other: Option<&str>,
    parent: Option<&str>,
    limit: u32,
    rooms: Result<Vec<Room>, StoreError>,
    shown_rooms: Result<Vec<Room>, StoreError>,
    ballots: Result<Vec<(String, String, usize)>, StoreError>,
    votes: Result<Vec<VoteMeta>, StoreError>,
    owned: Result<Vec<Subscription>, StoreError>,
    active: Result<Vec<(Subscription, String, String)>, StoreError>,
)
    requires
        call_ensures(Store::list_rooms, (s, parent), rooms),
        call_ensures(Store::list_rooms_for_key, (s, other, parent), shown_rooms),
        call_ensures(Store::get_vote_ballots, (s, id), ballots),
        call_ensures(Store::list_votes, (s, id, limit), votes),
        call_ensures(Store::list_subscriptions, (s, id, other), owned),
        call_ensures(Store::list_active_subscriptions_for_room, (s, id), active),
    ensures
        rooms is Ok,
        shown_rooms is Ok,
        ballots is Ok,
        votes is Ok,
        owned is Ok,
        active is Ok,
{
}

/// Asking for a history, or for the deliveries that are due, never fails.
pub proof fn asking_for_a_history_never_fails(
    s: &Store,
    room_id: &str,
    limit: u32,
    before: Option<Timestamp>,
    since: Option<&str>,
    since_seq: Option<i64>,
    now: Timestamp,
    most: usize,
    filtered: Result<Vec<ChatMessage>, StoreError>,
    since_list: Result<Vec<ChatMessage>, StoreError>,
    plain: Result<Vec<ChatMessage>, StoreError>,
    due: Result<Vec<PendingDelivery>, StoreError>,
)
    requires
        call_ensures(
            Store::get_history_filtered,
            (s, room_id, limit, before, since, since_seq),
            filtered,
        ),
        call_ensures(Store::get_history_since, (s, room_id, limit, before, since), since_list),
        call_ensures(Store::get_history, (s, room_id, limit, before), plain),
        call_ensures(Store::load_due_deliveries, (s, now, most), due),
    ensures
        filtered is Ok,
        since_list is Ok,
        plain is Ok,
        due is Ok,
{
}

/// The rooms below a room are exactly those whose parent it is, without one given all
/// rooms, in the order of their names.
pub proof fn rooms_are_listed_below_their_parent(
    s: &Store,
    parent_id: Option<&str>,
    list: Vec<Room>,
)
    requires
        call_ensures(Store::list_rooms, (s, parent_id), Ok(list)),
    ensures
        exists|rows: Seq<RoomRowView>| #[trigger]
            show_rooms(rows, list@) && lists(
                s@.rooms,
                |t: RoomRowView|
                    parent_id matches Some(p) ==> t.parent_id == Some(p@),
                |a: RoomRowView, b: RoomRowView| lex_lt(a.name, b.name),
                rows,
            ),
{
    let wanted = |t: RoomRowView| parent_id matches Some(p) ==> t.parent_id == Some(p@);
    let before = |a: RoomRowView, b: RoomRowView| lex_lt(a.name, b.name);
    assert(wanted =~= below(parent_id.deep_view()));
    assert(before =~= by_name());
    lemma_text_order_is_strict(by_name(), |t: RoomRowView| t.name);
    lemma_whole(s@.rooms, wanted, before);
    let rows = ordered(s@.rooms.filter(wanted), before);
    assert(show_rooms(rows, list@));
}

/// The rooms that a key is shown are exactly the public ones and those it owns, below
/// the parent where one is given, in the order of their names.
pub proof fn a_key_is_shown_public_and_own_rooms(
    s: &Store,
    api_key: Option<&str>,
    parent_id: Option<&str>,
    list: Vec<Room>,
)
    requires
        call_ensures(Store::list_rooms_for_key, (s, api_key, parent_id), Ok(list)),
    ensures
        exists|rows: Seq<RoomRowView>| #[trigger]
            show_rooms(rows, list@) && lists(
                s@.rooms,
                |t: RoomRowView|
                    (parent_id matches Some(p) ==> t.parent_id == Some(p@))
                        && (t.visibility == "public"@ ||
                        (api_key matches Some(key) && t.owner_key == Some(key@))),
                |a: RoomRowView, b: RoomRowView| lex_lt(a.name, b.name),
                rows,
            ),
{
    let wanted = |t: RoomRowView| (parent_id matches Some(p) ==> t.parent_id == Some(p@))
        && (t.visibility == "public"@ || (api_key matches Some(key) && t.owner_key == Some(key@)));
    let before = |a: RoomRowView, b: RoomRowView| lex_lt(a.name, b.name);
    assert(wanted =~= visible_below(api_key.deep_view(), parent_id.deep_view()));
    assert(before =~= by_name());
    lemma_text_order_is_strict(by_name(), |t: RoomRowView| t.name);
    lemma_whole(s@.rooms, wanted, before);
    let rows = ordered(s@.rooms.filter(wanted), before);
    assert(show_rooms(rows, list@));
}

/// The ballots of a vote are exactly those with its id, each with agent, name and
/// option, the first one cast first.
pub proof fn ballots_are_listed_as_cast(
    s: &Store,
    vote_id: &str,
    list: Vec<(String, String, usize)>,
)
    requires
        call_ensures(Store::get_vote_ballots, (s, vote_id), Ok(list)),
    ensures
        exists|rows: Seq<BallotRowView>| #[trigger]
            show_ballots(rows, list@) && lists(
                s@.ballots,
                |t: BallotRowView| t.vote_id == vote_id@,
                |a: BallotRowView, b: BallotRowView| lex_lt(a.cast_at, b.cast_at),
                rows,
            ),
{
    let wanted = |t: BallotRowView| t.vote_id == vote_id@;
    let before = |a: BallotRowView, b: BallotRowView| lex_lt(a.cast_at, b.cast_at);
    assert(wanted =~= ballots_of(vote_id@));
    assert(before =~= by_cast_time());
    lemma_text_order_is_strict(by_cast_time(), |t: BallotRowView| t.cast_at);
    lemma_whole(s@.ballots, wanted, before);
    let rows = ordered(s@.ballots.filter(wanted), before);
    assert(show_ballots(rows, list@));
}

/// The votes of a room are listed by its id, the latest first and of two at one time
/// the one with the greater id, as many as asked for.
pub proof fn votes_are_listed_latest_first(
    s: &Store,
    room_id: &str,
    limit: u32,
    list: Vec<VoteMeta>,
)
    requires
        call_ensures(Store::list_votes, (s, room_id, limit), Ok(list)),
    ensures
        exists|rows: Seq<VoteRowView>| #[trigger]
            show_votes(rows, list@) && lists_first(
                s@.votes,
                |t: VoteRowView| t.room_id == room_id@,
                |a: VoteRowView, b: VoteRowView|
                    lex_lt(b.created_at, a.created_at) ||
                        (a.created_at == b.created_at && lex_lt(b.vote_id, a.vote_id)),
                limit as int,
                rows,
            ),
{
    let wanted = |t: VoteRowView| t.room_id == room_id@;
    let before = |a: VoteRowView, b: VoteRowView| lex_lt(b.created_at, a.created_at) ||
        (a.created_at == b.created_at && lex_lt(b.vote_id, a.vote_id));
    assert(wanted =~= votes_in(room_id@));
    assert(before =~= latest_first());
    lemma_latest_first_is_strict();
    lemma_front(s@.votes, wanted, before, limit as int);
    let rows = first_n(ordered(s@.votes.filter(wanted), before), limit as int);
    assert(show_votes(rows, list@));
}

/// The subscriptions of an owner are exactly those with that owner, in one room where
/// one is given, the latest first.
pub proof fn subscriptions_are_listed_by_owner(
    s: &Store,
    owner_key: &str,
    room_id: Option<&str>,
    list: Vec<Subscription>,
)
    requires
        call_ensures(Store::list_subscriptions, (s, owner_key, room_id), Ok(list)),
    ensures
        exists|rows: Seq<SubscriptionRowView>| #[trigger]
            show_subscriptions(rows, list@) && lists(
                s@.subscriptions,
                |t: SubscriptionRowView|
                    t.owner_key == owner_key@ && (room_id matches Some(id) ==> t.room_id == id@),
                |a: SubscriptionRowView, b: SubscriptionRowView|
                    lex_lt(b.created_at, a.created_at),
                rows,
            ),
{
    let wanted = |t: SubscriptionRowView| t.owner_key == owner_key@
        && (room_id matches Some(id) ==> t.room_id == id@);
    let before = |a: SubscriptionRowView, b: SubscriptionRowView|
        lex_lt(b.created_at, a.created_at);
    assert(wanted =~= subscriptions_of(owner_key@, room_id.deep_view()));
    assert(before =~= newest_first());
    lemma_newest_first_is_strict();
    lemma_whole(s@.subscriptions, wanted, before);
    let rows = ordered(s@.subscriptions.filter(wanted), before);
    assert(show_subscriptions(rows, list@));
}

/// The active subscriptions of a room are exactly those of the room whose status is
/// active, each with its owner and its secret.
pub proof fn active_subscriptions_are_listed_by_room(
    s: &Store,
    room_id: &str,
    list: Vec<(Subscription, String, String)>,
)
    requires
        call_ensures(Store::list_active_subscriptions_for_room, (s, room_id), Ok(list)),
    ensures
        show_full_subscriptions(
            s@.subscriptions.filter(|t: SubscriptionRowView|
                    t.room_id == room_id@ && t.status == "active"@),
            list@,
        ),
{
    let wanted = |t: SubscriptionRowView| t.room_id == room_id@ && t.status == "active"@;
    assert(wanted =~= active_in(room_id@));
}

/// The deliveries that are due at a time are those whose next attempt is not after it,
/// the earliest first, as many as asked for.
pub proof fn deliveries_are_handed_out_when_due(
    s: &Store,
    cutoff: &str,
    limit: usize,
    list: Vec<PendingDelivery>,
)
    requires
        call_ensures(Store::due_deliveries, (s, cutoff, limit), list),
    ensures
        exists|rows: Seq<DeliveryRowView>| #[trigger]
            show_deliveries(rows, list@) && lists_first(
                s@.deliveries,
                |t: DeliveryRowView| !lex_lt(cutoff@, t.next_attempt_at),
                |a: DeliveryRowView, b: DeliveryRowView|
                    lex_lt(a.next_attempt_at, b.next_attempt_at),
                limit as int,
                rows,
            ),
{
    let wanted = |t: DeliveryRowView| !lex_lt(cutoff@, t.next_attempt_at);
    let before = |a: DeliveryRowView, b: DeliveryRowView|
        lex_lt(a.next_attempt_at, b.next_attempt_at);
    assert(wanted =~= due_at(cutoff@));
    assert(before =~= by_attempt());
    lemma_text_order_is_strict(by_attempt(), |t: DeliveryRowView| t.next_attempt_at);
    lemma_front(s@.deliveries, wanted, before, limit as int);
    let rows = first_n(ordered(s@.deliveries.filter(wanted), before), limit as int);
    assert(views(list@) == rows.map_values(|d: DeliveryRowView| pending(d)));
    assert(views(list@).len() == rows.len());
    assert forall|k: int| 0 <= k < list@.len()
        implies (#[trigger] list@[k])@ == pending(rows[k]) by {
        assert(views(list@)[k] == pending(rows[k]));
    }
    assert(show_deliveries(rows, list@));
}

/// The same deliveries are handed out at an instant.
pub proof fn deliveries_are_handed_out_at_an_instant(
    s: &Store,
    now: Timestamp,
    limit: usize,
    list: Vec<PendingDelivery>,
)
    requires
        call_ensures(Store::load_due_deliveries, (s, now, limit), Ok(list)),
    ensures
        exists|rows: Seq<DeliveryRowView>| #[trigger]
            show_deliveries(rows, list@) && lists_first(
                s@.deliveries,
                |t: DeliveryRowView|
                    !lex_lt(shown(now, COLUMN_FORMAT@), t.next_attempt_at),
                |a: DeliveryRowView, b: DeliveryRowView|
                    lex_lt(a.next_attempt_at, b.next_attempt_at),
                limit as int,
                rows,
            ),
{
    let wanted = |t: DeliveryRowView| !lex_lt(shown(now, COLUMN_FORMAT@), t.next_attempt_at);
    let before = |a: DeliveryRowView, b: DeliveryRowView|
        lex_lt(a.next_attempt_at, b.next_attempt_at);
    assert(wanted =~= due_at(shown(now, COLUMN_FORMAT@)));
    assert(before =~= by_attempt());
    lemma_text_order_is_strict(by_attempt(), |t: DeliveryRowView| t.next_attempt_at);
    lemma_front(s@.deliveries, wanted, before, limit as int);
    let rows = first_n(ordered(s@.deliveries.filter(wanted), before), limit as int);
    assert(views(list@) == rows.map_values(|d: DeliveryRowView| pending(d)));
    assert(views(list@).len() == rows.len());
    assert forall|k: int| 0 <= k < list@.len()
        implies (#[trigger] list@[k])@ == pending(rows[k]) by {
        assert(views(list@)[k] == pending(rows[k]));
    }
    assert(show_deliveries(rows, list@));
}

/// After a number come the messages of the room with higher numbers, the lowest first,
/// as many as asked for. A number takes precedence over a message and a cutoff.
pub proof fn a_history_goes_on_behind_a_number(
    s: &Store,
    room_id: &str,
    limit: u32,
    before: Option<&str>,
    since: Option<&str>,
    floor: i64,
    list: Vec<MessageRow>,
)
    requires
        call_ensures(Store::history_rows, (s, room_id, limit, before, since, Some(floor)), list),
    ensures
        exists|rows: Seq<MessageRowView>| #[trigger]
            show_rows(rows, list@) && lists_first(
                s@.messages,
                |t: MessageRowView| t.room_id == room_id@ && t.seq > floor,
                |a: MessageRowView, b: MessageRowView| a.seq < b.seq,
                limit as int,
                rows,
            ),
{
    let wanted = |t: MessageRowView| t.room_id == room_id@ && t.seq > floor;
    let earlier = |a: MessageRowView, b: MessageRowView| a.seq < b.seq;
    assert(wanted =~= after_seq(room_id@, floor));
    assert(earlier =~= by_seq());
    lemma_number_order_is_strict();
    lemma_front(s@.messages, wanted, earlier, limit as int);
    let rows = first_n(ordered(s@.messages.filter(wanted), earlier), limit as int);
    assert(show_rows(rows, list@));
}

/// Without a place to go on from, a history holds the latest messages of the room from
/// before the cutoff, where one is given, as many as asked for.
pub proof fn a_history_shows_the_latest(
    s: &Store,
    room_id: &str,
    limit: u32,
    before: Option<&str>,
    list: Vec<MessageRow>,
)
    requires
        call_ensures(Store::history_rows, (s, room_id, limit, before, None, None), list),
    ensures
        exists|rows: Seq<MessageRowView>| #[trigger]
            show_rows(rows, list@) && lists_last(
                s@.messages,
                |t: MessageRowView|
                    t.room_id == room_id@
                        && (before matches Some(cutoff) ==> lex_lt(t.created_at, cutoff@)),
                |a: MessageRowView, b: MessageRowView| lex_lt(a.created_at, b.created_at),
                limit as int,
                rows,
            ),
{
    let wanted = |t: MessageRowView| t.room_id == room_id@
        && (before matches Some(cutoff) ==> lex_lt(t.created_at, cutoff@));
    let earlier = |a: MessageRowView, b: MessageRowView| lex_lt(a.created_at, b.created_at);
    assert(wanted =~= before_time(room_id@, before.deep_view()));
    assert(earlier =~= by_time());
    lemma_text_order_is_strict(by_time(), |t: MessageRowView| t.created_at);
    lemma_back(s@.messages, wanted, earlier, limit as int);
    let rows = last_n(ordered(s@.messages.filter(wanted), earlier), limit as int);
    assert(show_rows(rows, list@));
}

/// After a message come the messages of the room that were stored behind it, the
/// earliest first, as many as asked for. A message takes precedence over a cutoff.
pub proof fn a_history_goes_on_behind_a_message(
    s: &Store,
    room_id: &str,
    limit: u32,
    before: Option<&str>,
    since: &str,
    p: int,
    list: Vec<MessageRow>,
)
    requires
        call_ensures(Store::history_rows, (s, room_id, limit, before, Some(since), None), list),
        0 <= p < s@.messages.len(),
        s@.messages[p].message_id == since@,
        forall|j: int| 0 <= j < p ==> (#[trigger] s@.messages[j]).message_id != since@,
    ensures
        exists|rows: Seq<MessageRowView>| #[trigger]
            show_rows(rows, list@) && lists_first(
                s@.messages.skip(p + 1),
                |t: MessageRowView| t.room_id == room_id@,
                |a: MessageRowView, b: MessageRowView| lex_lt(a.created_at, b.created_at),
                limit as int,
                rows,
            ),
{
    lemma_behind(s@.messages, since@, p);
    let wanted = |t: MessageRowView| t.room_id == room_id@;
    let earlier = |a: MessageRowView, b: MessageRowView| lex_lt(a.created_at, b.created_at);
    assert(wanted =~= in_room(room_id@));
    assert(earlier =~= by_time());
    lemma_text_order_is_strict(by_time(), |t: MessageRowView| t.created_at);
    lemma_front(s@.messages.skip(p + 1), wanted, earlier, limit as int);
    let rows = first_n(ordered(s@.messages.skip(p + 1).filter(wanted), earlier), limit as int);
    assert(show_rows(rows, list@));
}

/// After a message that is not there comes nothing.
pub proof fn nothing_comes_behind_an_unknown_message(
    s: &Store,
    room_id: &str,
    limit: u32,
    before: Option<&str>,
    since: &str,
    list: Vec<MessageRow>,
)
    requires
        call_ensures(
            Store::history_rows,
            (s, room_id, limit, before, Some(since), None),
            list,
        ),
        forall|j: int|
            0 <= j < s@.messages.len() ==> (#[trigger] s@.messages[j]).message_id != since@,
    ensures
        list@.len() == 0,
{
    lemma_behind_nothing(s@.messages, since@);
    let none = behind(s@.messages, since@).filter(in_room(room_id@));
    lemma_filter_shorter(behind(s@.messages, since@), in_room(room_id@));
    lemma_ordered_same_rows(none, by_time());
    assert(views(list@).len() == list@.len());
}

/// The three ways to ask for a history show the same rows: a cutoff is an instant, and
/// what is not asked for is left out.
pub proof fn histories_show_their_rows(
    s: &Store,
    room_id: &str,
    limit: u32,
    before: Option<Timestamp>,
    since: Option<&str>,
    since_seq: Option<i64>,
    cutoff: Option<&str>,
    all: Vec<MessageRow>,
    behind: Vec<MessageRow>,
    latest: Vec<MessageRow>,
    filtered: Vec<ChatMessage>,
    since_list: Vec<ChatMessage>,
    plain: Vec<ChatMessage>,
)
    requires
        cutoff is Some <==> before is Some,
        before matches Some(t) ==> cutoff matches Some(text) && text@ == shown(t, COLUMN_FORMAT@),
        call_ensures(Store::history_rows, (s, room_id, limit, cutoff, since, since_seq), all),
        call_ensures(Store::history_rows, (s, room_id, limit, cutoff, since, None), behind),
        call_ensures(Store::history_rows, (s, room_id, limit, cutoff, None, None), latest),
        call_ensures(
            Store::get_history_filtered,
            (s, room_id, limit, before, since, since_seq),
            Ok(filtered),
        ),
        call_ensures(Store::get_history_since, (s, room_id, limit, before, since), Ok(since_list)),
        call_ensures(Store::get_history, (s, room_id, limit, before), Ok(plain)),
    ensures
        show_messages(views(all@), filtered@),
        show_messages(views(behind@), since_list@),
        show_messages(views(latest@), plain@),
{
    assert(cutoff.deep_view() == column_time(before));
    assert(filtered@.len() == views(all@).len());
    assert(since_list@.len() == views(behind@).len());
    assert(plain@.len() == views(latest@).len());
}

/// The tip of a room is the highest number of its messages, and zero where it has none.
pub proof fn the_tip_is_the_highest_number(
    s: &Store,
    room_id: &str,
    r: Result<i64, StoreError>,
)
    requires
        call_ensures(Store::room_tip, (s, room_id), r),
    ensures
        r matches Ok(n) && ((exists|i: int|
            0 <= i < s@.messages.len() && (#[trigger] s@.messages[i]).room_id == room_id@
                && s@.messages[i].seq == n) || (n == 0 && forall|i: int|
            0 <= i < s@.messages.len() ==> (#[trigger] s@.messages[i]).room_id != room_id@)),
        r matches Ok(n) && forall|i: int|
            0 <= i < s@.messages.len() && (#[trigger] s@.messages[i]).room_id == room_id@
                ==> s@.messages[i].seq <= n,
{
    lemma_highest_seq(s@.messages, room_id@);
}

/// The next attempt is the earliest of all, and there is none where nothing waits.
pub proof fn the_earliest_attempt_is_that_of_a_delivery(
    s: &Store,
    r: Result<Option<Timestamp>, StoreError>,
)
    requires
        call_ensures(Store::earliest_pending_attempt, (s,), r),
    ensures
        s@.deliveries.len() == 0 ==> (r matches Ok(None)),
        s@.deliveries.len() > 0 ==> exists|i: int|
            0 <= i < s@.deliveries.len() && (r matches Ok(at) && (at matches Some(t)
                ==> rfc3339_instant((#[trigger] s@.deliveries[i]).next_attempt_at) == Some(
                (t.secs, t.nanos),
            )) && (at is None ==> rfc3339_instant(s@.deliveries[i].next_attempt_at) is None))
                && forall|j: int|
                0 <= j < s@.deliveries.len() ==> !lex_lt(
                    (#[trigger] s@.deliveries[j]).next_attempt_at,
                    s@.deliveries[i].next_attempt_at,
                ),
{
    if s@.deliveries.len() > 0 {
        let sorted = ordered(s@.deliveries, by_attempt());
        lemma_ordered_same_rows(s@.deliveries, by_attempt());
        lemma_sorted_rows(
            s@.deliveries,
            by_attempt(),
            |d: DeliveryRowView| s@.deliveries.contains(d),
        );
        assert(s@.deliveries.contains(sorted[0]));
        let i = choose|i: int| 0 <= i < s@.deliveries.len() && s@.deliveries[i] == sorted[0];
        lemma_text_order_is_strict(by_attempt(), |d: DeliveryRowView| d.next_attempt_at);
        lemma_ordered_in_order(s@.deliveries, by_attempt());
        assert forall|j: int| 0 <= j < s@.deliveries.len() implies !lex_lt(
            (#[trigger] s@.deliveries[j]).next_attempt_at,
            s@.deliveries[i].next_attempt_at,
        ) by {
            lemma_sorted_holds(s@.deliveries, by_attempt(), s@.deliveries[j]);
            let k = choose|k: int| 0 <= k < sorted.len() && sorted[k] == s@.deliveries[j];
            if k > 0 {
                assert(!by_attempt()(sorted[k], sorted[0]));
            } else {
                lemma_lex_irreflexive(sorted[0].next_attempt_at);
            }
        }
    }
}

} // verus!
