//! What is read back of what was written, and how times in columns compare.

use vstd::prelude::*;
use crate::json::{column_texts, compact_json, plain_json, stays_compact};
use crate::models::{ChatMessage, ChatMessageView, Room, RoomView};
use crate::rows::{
    first_match, lemma_filter_rows, lemma_ordered_in_order, lemma_ordered_same_rows, ordered,
};
use crate::store::laws::{
    a_created_room_is_found, a_created_subscription_is_found, a_created_vote_is_found,
    an_inserted_message_is_found, lemma_sorted_holds, lemma_sorted_rows,
    lemma_text_order_is_strict,
};
use crate::store::messages::{before_time, message_insertion, message_reads};
use crate::store::rooms::{room_creation, room_reads, with_message_id, with_room_id};
use crate::store::subscriptions::{
    by_attempt, due_at, earliest_attempt, handed_out, listed_kinds, subscription_creation, subscription_reads, with_subscription_id,
    Subscription, SubscriptionView,
};
use crate::store::votes::{vote_creation, vote_reads, with_vote_id, VoteMetaView};
use crate::store::{
    DeliveryRowView, MessageRowView, RoomRowView, Store, StoreError, SubscriptionRowView,
    VoteRowView,
};
use crate::text::{lemma_lex_irreflexive, lex_lt};
use crate::time::{
    column_time, columns_keep_instants, columns_keep_the_order_of_time, common, kept, millis,
    orderly, shown, to_millis, Timestamp, COLUMN_FORMAT,
};

verus! {

/// Whether a column text is that of a common instant.
pub open spec fn stamped(text: Seq<char>, t: Timestamp) -> bool {
    text == shown(t, COLUMN_FORMAT@) && kept(t) && common(t)
}

/// A room that was created is read back as it was handed out; when it was
/// created is known to the millisecond.
pub proof fn a_room_is_read_back(
    before: Store,
    after: Store,
    row: RoomRowView,
    at: Timestamp,
    created: Result<Room, StoreError>,
    read: RoomView,
)
    requires
        room_creation(before, after, row, created),
        created is Ok,
        stamped(row.created_at, at),
        first_match(after@.rooms, with_room_id(row.room_id)) matches Some(found) ==> room_reads(
            found,
            read,
        ),
    ensures
        created matches Ok(room) && room@ == read,
        read.created_at == to_millis(at),
{
    a_created_room_is_found(before@, row, row.room_id);
    columns_keep_instants(at);
}

/// A message that was inserted is read back as it was handed out; when it was
/// created is known to the millisecond. Its metadata must be JSON that reads
/// back as itself.
pub proof fn a_message_is_read_back(
    before: Store,
    after: Store,
    row: MessageRowView,
    at: Timestamp,
    inserted: Result<ChatMessage, StoreError>,
    read: ChatMessageView,
)
    requires
        message_insertion(before, after, row, inserted),
        inserted is Ok,
        stamped(row.created_at, at),
        compact_json(row.metadata) == Some(row.metadata),
        first_match(after@.messages, with_message_id(row.message_id)) matches Some(found)
            ==> message_reads(found, read),
    ensures
        inserted matches Ok(message) && message@ == read,
        read.timestamp == to_millis(at),
{
    an_inserted_message_is_found(before@, row, row.message_id);
    columns_keep_instants(at);
}

/// A message that was inserted with plain JSON metadata - no fractions, not
/// nested too deep, no reserved names - is read back as it was handed out; when
/// it was created is known to the millisecond.
pub proof fn a_message_with_plain_metadata_is_read_back(
    before: Store,
    after: Store,
    row: MessageRowView,
    metadata: Seq<char>,
    at: Timestamp,
    inserted: Result<ChatMessage, StoreError>,
    read: ChatMessageView,
)
    requires
        message_insertion(before, after, row, inserted),
        inserted is Ok,
        stamped(row.created_at, at),
        compact_json(metadata) == Some(row.metadata),
        stays_compact(compact_json(metadata)),
        plain_json(row.metadata),
        first_match(after@.messages, with_message_id(row.message_id)) matches Some(found)
            ==> message_reads(found, read),
    ensures
        inserted matches Ok(message) && message@ == read,
        read.timestamp == to_millis(at),
{
    a_message_is_read_back(before, after, row, at, inserted, read);
}

/// A vote that was created is read back with its options, and with its times to
/// the millisecond.
pub proof fn a_vote_is_read_back(
    before: Store,
    after: Store,
    row: VoteRowView,
    options: Seq<Seq<char>>,
    at: Timestamp,
    closes_at: Option<Timestamp>,
    created: Result<(), StoreError>,
    read: VoteMetaView,
)
    requires
        vote_creation(before, after, row, created),
        created is Ok,
        column_texts(after@.votes.last().options) == options,
        stamped(row.created_at, at),
        row.closes_at == column_time(closes_at),
        closes_at matches Some(t) ==> kept(t) && common(t),
        first_match(after@.votes, with_vote_id(row.vote_id)) matches Some(found) ==> vote_reads(
            found,
            read,
        ),
    ensures
        read == (VoteMetaView {
            vote_id: row.vote_id,
            room_id: row.room_id,
            title: row.title,
            description: row.description,
            options,
            created_by: row.created_by,
            created_at: to_millis(at),
            closes_at: match closes_at {
                Some(t) => Some(to_millis(t)),
                None => None,
            },
            status: row.status,
            eligible_voters: row.eligible_voters,
        }),
{
    a_created_vote_is_found(before@, row, row.vote_id);
    columns_keep_instants(at);
    if let Some(t) = closes_at {
        columns_keep_instants(t);
    }
}

/// A subscription that was created is read back as it was handed out; when it
/// was created is known to the millisecond.
pub proof fn a_subscription_is_read_back(
    before: Store,
    after: Store,
    row: SubscriptionRowView,
    kinds: Seq<Seq<char>>,
    at: Timestamp,
    created: Result<Subscription, StoreError>,
    read: SubscriptionView,
)
    requires
        subscription_creation(before, after, row, kinds, at, created),
        created is Ok,
        listed_kinds(after@.subscriptions.last().kinds) == kinds,
        stamped(row.created_at, at),
        first_match(after@.subscriptions, with_subscription_id(row.subscription_id)) matches Some(
            found,
        ) ==> subscription_reads(found, read),
    ensures
        created matches Ok(s) && read == s@,
        read.created_at == to_millis(at),
{
    a_created_subscription_is_found(before@, row, row.subscription_id);
    columns_keep_instants(at);
}

/// A delivery is due once the time of its next attempt has come, to the
/// millisecond.
pub proof fn a_delivery_is_due_once_its_time_has_come(
    row: DeliveryRowView,
    attempt: Timestamp,
    now: Timestamp,
)
    requires
        stamped(row.next_attempt_at, attempt),
        orderly(now),
    ensures
        due_at(shown(now, COLUMN_FORMAT@))(row) <==> millis(attempt) <= millis(now),
{
    columns_keep_the_order_of_time(attempt, now);
}

/// Whether the next attempts of deliveries are at given common instants.
pub open spec fn scheduled(deliveries: Seq<DeliveryRowView>, times: Seq<Timestamp>) -> bool {
    &&& times.len() == deliveries.len()
    &&& forall|i: int|
        0 <= i < times.len() ==> stamped(deliveries[i].next_attempt_at, #[trigger] times[i])
}

/// The earliest attempt is the least of all next attempts, to the millisecond,
/// and there is none only where nothing waits. At that time a delivery is handed
/// out; at any time that is a millisecond or more before, none is.
pub proof fn nothing_is_due_before_the_earliest_attempt(
    deliveries: Seq<DeliveryRowView>,
    times: Seq<Timestamp>,
)
    requires
        scheduled(deliveries, times),
    ensures
        earliest_attempt(deliveries) is None <==> deliveries.len() == 0,
        earliest_attempt(deliveries) matches Some(at) ==> {
            &&& exists|i: int| 0 <= i < times.len() && at == to_millis(#[trigger] times[i])
            &&& forall|i: int| 0 <= i < times.len() ==> millis(at) <= millis(#[trigger] times[i])
            &&& forall|limit: int|
                1 <= limit ==> #[trigger] handed_out(deliveries, at, limit).len() > 0
            &&& forall|now: Timestamp, limit: int|
                orderly(now) && millis(now) < millis(at) && 0 <= limit ==> #[trigger] handed_out(
                    deliveries,
                    now,
                    limit,
                ).len() == 0
        },
{
    if deliveries.len() > 0 {
        let sorted = ordered(deliveries, by_attempt());
        lemma_ordered_same_rows(deliveries, by_attempt());
        lemma_sorted_rows(deliveries, by_attempt(), |d: DeliveryRowView| deliveries.contains(d));
        let first = sorted[0];
        assert(deliveries.contains(first));
        let k = choose|k: int| 0 <= k < deliveries.len() && deliveries[k] == first;
        assert(stamped(first.next_attempt_at, times[k]));
        columns_keep_instants(times[k]);
        let at = to_millis(times[k]);
        assert(earliest_attempt(deliveries) == Some(at));
        assert forall|i: int| 0 <= i < times.len() implies millis(at) <= millis(
            #[trigger] times[i],
        ) by {
            assert(stamped(deliveries[i].next_attempt_at, times[i]));
            lemma_first_is_least(deliveries, i);
            columns_keep_the_order_of_time(times[i], times[k]);
        }
        assert forall|limit: int| 1 <= limit implies #[trigger] handed_out(
            deliveries,
            at,
            limit,
        ).len() > 0 by {
            columns_keep_the_order_of_time(times[k], at);
            let wanted = due_at(shown(at, COLUMN_FORMAT@));
            assert(wanted(deliveries[k]));
            lemma_filter_rows(deliveries, wanted);
            let due = deliveries.filter(wanted);
            assert(due.contains(deliveries[k]));
            lemma_ordered_same_rows(due, by_attempt());
        }
        assert forall|now: Timestamp, limit: int|
            orderly(now) && millis(now) < millis(at) && 0 <= limit implies #[trigger] handed_out(
            deliveries,
            now,
            limit,
        ).len() == 0 by {
            let wanted = due_at(shown(now, COLUMN_FORMAT@));
            lemma_filter_rows(deliveries, wanted);
            let due = deliveries.filter(wanted);
            lemma_ordered_same_rows(due, by_attempt());
            if due.len() > 0 {
                assert(wanted(due[0]) && deliveries.contains(due[0]));
                let j = choose|j: int| 0 <= j < deliveries.len() && deliveries[j] == due[0];
                assert(stamped(deliveries[j].next_attempt_at, times[j]));
                columns_keep_the_order_of_time(times[j], now);
            }
        }
    }
}

proof fn lemma_first_is_least(deliveries: Seq<DeliveryRowView>, i: int)
    requires
        0 <= i < deliveries.len(),
    ensures
        !lex_lt(
            deliveries[i].next_attempt_at,
            ordered(deliveries, by_attempt())[0].next_attempt_at,
        ),
{
    let sorted = ordered(deliveries, by_attempt());
    lemma_text_order_is_strict(by_attempt(), |d: DeliveryRowView| d.next_attempt_at);
    lemma_ordered_in_order(deliveries, by_attempt());
    lemma_sorted_holds(deliveries, by_attempt(), deliveries[i]);
    let j = choose|j: int| 0 <= j < sorted.len() && sorted[j] == deliveries[i];
    if j > 0 {
        assert(!by_attempt()(sorted[j], sorted[0]));
    } else {
        lemma_lex_irreflexive(sorted[0].next_attempt_at);
    }
}

/// Of the messages of a room, a cutoff lets through those that were created
/// before it, to the millisecond.
pub proof fn a_cutoff_lets_earlier_messages_through(
    row: MessageRowView,
    created: Timestamp,
    cutoff: Timestamp,
)
    requires
        stamped(row.created_at, created),
        orderly(cutoff),
    ensures
        before_time(row.room_id, column_time(Some(cutoff)))(row) <==> millis(created) < millis(
            cutoff,
        ),
{
    columns_keep_the_order_of_time(created, cutoff);
}

} // verus!
