//! What every change of the tables does, row by row and field by field, and what
//! it leaves alone.

use vstd::prelude::*;
use crate::json::texts_json;
use crate::models::{ChatMessage, Room};
use crate::rows::{any, lemma_first_match};
use crate::store::messages::highest_seq;
use crate::store::rooms::{outside, with_room_id};
use crate::store::subscriptions::{owned_subscription, Subscription};
use crate::store::votes::with_vote_id;
use crate::store::{
    DbError, DeliveryRow, DeliveryRowView, MessageRow, MessageRowView, RoomRow, RoomRowView,
    SessionRow, Store, StoreError, StoreErrorView, SubscriptionRow, SubscriptionRowView, VoteRow,
};
use crate::time::{
    column_instant, in_calendar, rfc3339_instant, shown, Timestamp, COLUMN_FORMAT,
};

verus! {

/// The highest number of a room is that of one of its messages, and no message
/// of the room has a higher one.
pub(crate) proof fn lemma_highest_seq(messages: Seq<MessageRowView>, room_id: Seq<char>)
    ensures
        highest_seq(messages, room_id) is None ==> forall|i: int|
            0 <= i < messages.len() ==> (#[trigger] messages[i]).room_id != room_id,
        highest_seq(messages, room_id) matches Some(n) ==> (exists|i: int|
            0 <= i < messages.len() && (#[trigger] messages[i]).room_id == room_id
                && messages[i].seq == n) && forall|i: int|
            0 <= i < messages.len() && (#[trigger] messages[i]).room_id == room_id
                ==> messages[i].seq <= n,
    decreases messages.len(),
{
    if messages.len() > 0 {
        let front = messages.drop_last();
        lemma_highest_seq(front, room_id);
        assert(messages[messages.len() - 1] == messages.last());
        assert forall|i: int| 0 <= i < front.len() implies #[trigger] messages[i] == front[i] by {}
        if let Some(n) = highest_seq(front, room_id) {
            let i = choose|i: int|
                0 <= i < front.len() && (#[trigger] front[i]).room_id == room_id && front[i].seq
                    == n;
            assert(messages[i] == front[i]);
        }
    }
}

/// A room is created as it was asked for: its row and the room handed back have what
/// the call was given. It is refused where its id or its name is in use, or where its
/// parent is itself or is not there, and then nothing changes.
pub proof fn a_room_is_created_as_asked(
    s: &mut Store,
    room_id: &str,
    name: &str,
    description: Option<&str>,
    parent_id: Option<&str>,
    created_by: Option<&str>,
    visibility: &str,
    owner_key: Option<&str>,
    encrypted: bool,
    created_at: &str,
    r: Result<Room, StoreError>,
)
    requires
        call_ensures(
            Store::create_room_at,
            (
                s,
                room_id,
                name,
                description,
                parent_id,
                created_by,
                visibility,
                owner_key,
                encrypted,
                created_at,
            ),
            r,
        ),
    ensures
        r is Ok ==> final(s)@.rooms.len() == old(s)@.rooms.len() + 1,
        r is Ok ==> final(s)@.rooms.take(old(s)@.rooms.len() as int) == old(s)@.rooms,
        r is Ok ==> ({
            let row = final(s)@.rooms.last();
            &&& row.room_id == room_id@
            &&& row.name == name@
            &&& row.description == description.deep_view()
            &&& row.parent_id == parent_id.deep_view()
            &&& row.created_by == created_by.deep_view()
            &&& row.visibility == visibility@
            &&& row.owner_key == owner_key.deep_view()
            &&& row.encrypted == encrypted
            &&& row.created_at == created_at@
        }),
        r matches Ok(room) ==> ({
            &&& room@.room_id == room_id@
            &&& room@.name == name@
            &&& room@.description == description.deep_view()
            &&& room@.parent_id == parent_id.deep_view()
            &&& room@.created_by == created_by.deep_view()
            &&& room@.visibility == visibility@
            &&& room@.owner_key == owner_key.deep_view()
            &&& room@.encrypted == encrypted
            &&& !room@.ephemeral
            &&& room@.last_activity is None
            &&& room@.member_count is None
            &&& column_instant(final(s)@.rooms.last().created_at) matches Some(t)
                ==> room@.created_at
                == t
        }),
        r is Err ==> final(s)@ == old(s)@,
        r is Ok <==> parent_id.deep_view() != Some(room_id@) && (forall|i: int|
            0 <= i < old(s)@.rooms.len() ==> (#[trigger] old(s)@.rooms[i]).room_id != room_id@
                && old(s)@.rooms[i].name != name@) && (parent_id matches Some(p) ==> exists|i: int|
            0 <= i < old(s)@.rooms.len() && (#[trigger] old(s)@.rooms[i]).room_id == p@),
        (r matches Err(e) && e@ is RoomNameTaken) <==> parent_id.deep_view() != Some(room_id@)
            && exists|i: int|
            0 <= i < old(s)@.rooms.len() && (#[trigger] old(s)@.rooms[i]).name == name@,
        r matches Err(e) ==> (e@ matches StoreErrorView::RoomNameTaken(n) ==> n == name@),
        parent_id.deep_view() == Some(room_id@) <==> (r matches Err(e) && e@ == StoreErrorView::Db(
            DbError::OwnParent,
        )),
        (r matches Err(e) && e@ == StoreErrorView::Db(DbError::DuplicateRoom)) ==> exists|i: int|
            0 <= i < old(s)@.rooms.len() && (#[trigger] old(s)@.rooms[i]).room_id == room_id@,
        (r matches Err(e) && e@ == StoreErrorView::Db(DbError::ForeignKey)) ==> (
        parent_id matches Some(p) && forall|i: int|
            0 <= i < old(s)@.rooms.len() ==> (#[trigger] old(s)@.rooms[i]).room_id != p@),
        r matches Err(e) ==> e@ is RoomNameTaken || e@ == StoreErrorView::Db(DbError::OwnParent) ||
            e@
            == StoreErrorView::Db(DbError::DuplicateRoom) || e@ == StoreErrorView::Db(
            DbError::ForeignKey,
        ),
        final(s)@.messages == old(s)@.messages,
        final(s)@.sessions == old(s)@.sessions,
        final(s)@.votes == old(s)@.votes,
        final(s)@.ballots == old(s)@.ballots,
        final(s)@.keys == old(s)@.keys,
        final(s)@.subscriptions == old(s)@.subscriptions,
        final(s)@.deliveries == old(s)@.deliveries,
        final(s)@.tasks == old(s)@.tasks,
{
}

/// A room created by the clock is the one that was asked for.
pub proof fn a_room_created_now_is_as_asked(
    s: &mut Store,
    room_id: &str,
    name: &str,
    description: Option<&str>,
    parent_id: Option<&str>,
    created_by: Option<&str>,
    visibility: &str,
    owner_key: Option<&str>,
    encrypted: bool,
    r: Result<Room, StoreError>,
)
    requires
        call_ensures(
            Store::create_room_with_visibility,
            (
                s,
                room_id,
                name,
                description,
                parent_id,
                created_by,
                visibility,
                owner_key,
                encrypted,
            ),
            r,
        ),
    ensures
        r is Ok ==> final(s)@.rooms.len() == old(s)@.rooms.len() + 1,
        r is Ok ==> final(s)@.rooms.take(old(s)@.rooms.len() as int) == old(s)@.rooms,
        r is Ok ==> ({
            let row = final(s)@.rooms.last();
            &&& row.room_id == room_id@
            &&& row.name == name@
            &&& row.description == description.deep_view()
            &&& row.parent_id == parent_id.deep_view()
            &&& row.created_by == created_by.deep_view()
            &&& row.visibility == visibility@
            &&& row.owner_key == owner_key.deep_view()
            &&& row.encrypted == encrypted
            &&& exists|at: Timestamp|
                in_calendar(at) && row.created_at == #[trigger] shown(at, COLUMN_FORMAT@)
        }),
        r matches Ok(room) ==> ({
            &&& room@.room_id == room_id@
            &&& room@.name == name@
            &&& room@.description == description.deep_view()
            &&& room@.parent_id == parent_id.deep_view()
            &&& room@.created_by == created_by.deep_view()
            &&& room@.visibility == visibility@
            &&& room@.owner_key == owner_key.deep_view()
            &&& room@.encrypted == encrypted
            &&& !room@.ephemeral
            &&& room@.last_activity is None
            &&& room@.member_count is None
            &&& column_instant(final(s)@.rooms.last().created_at) matches Some(t)
                ==> room@.created_at
                == t
        }),
        r is Err ==> final(s)@ == old(s)@,
        r is Ok <==> parent_id.deep_view() != Some(room_id@) && (forall|i: int|
            0 <= i < old(s)@.rooms.len() ==> (#[trigger] old(s)@.rooms[i]).room_id != room_id@
                && old(s)@.rooms[i].name != name@) && (parent_id matches Some(p) ==> exists|i: int|
            0 <= i < old(s)@.rooms.len() && (#[trigger] old(s)@.rooms[i]).room_id == p@),
        (r matches Err(e) && e@ is RoomNameTaken) <==> parent_id.deep_view() != Some(room_id@)
            && exists|i: int|
            0 <= i < old(s)@.rooms.len() && (#[trigger] old(s)@.rooms[i]).name == name@,
        r matches Err(e) ==> (e@ matches StoreErrorView::RoomNameTaken(n) ==> n == name@),
        parent_id.deep_view() == Some(room_id@) <==> (r matches Err(e) && e@ == StoreErrorView::Db(
            DbError::OwnParent,
        )),
        (r matches Err(e) && e@ == StoreErrorView::Db(DbError::DuplicateRoom)) ==> exists|i: int|
            0 <= i < old(s)@.rooms.len() && (#[trigger] old(s)@.rooms[i]).room_id == room_id@,
        (r matches Err(e) && e@ == StoreErrorView::Db(DbError::ForeignKey)) ==> (
        parent_id matches Some(p) && forall|i: int|
            0 <= i < old(s)@.rooms.len() ==> (#[trigger] old(s)@.rooms[i]).room_id != p@),
        r matches Err(e) ==> e@ is RoomNameTaken || e@ == StoreErrorView::Db(DbError::OwnParent) ||
            e@
            == StoreErrorView::Db(DbError::DuplicateRoom) || e@ == StoreErrorView::Db(
            DbError::ForeignKey,
        ),
        final(s)@.messages == old(s)@.messages,
        final(s)@.sessions == old(s)@.sessions,
        final(s)@.votes == old(s)@.votes,
        final(s)@.ballots == old(s)@.ballots,
        final(s)@.keys == old(s)@.keys,
        final(s)@.subscriptions == old(s)@.subscriptions,
        final(s)@.deliveries == old(s)@.deliveries,
        final(s)@.tasks == old(s)@.tasks,
{
}

/// A room created without further wishes is private, has no owner and is not
/// encrypted.
pub proof fn a_plain_room_is_private(
    s: &mut Store,
    room_id: &str,
    name: &str,
    description: Option<&str>,
    parent_id: Option<&str>,
    created_by: Option<&str>,
    r: Result<Room, StoreError>,
)
    requires
        call_ensures(
            Store::create_room,
            (s, room_id, name, description, parent_id, created_by),
            r,
        ),
    ensures
        r is Ok ==> final(s)@.rooms.len() == old(s)@.rooms.len() + 1,
        r is Ok ==> final(s)@.rooms.take(old(s)@.rooms.len() as int) == old(s)@.rooms,
        r is Ok ==> ({
            let row = final(s)@.rooms.last();
            &&& row.room_id == room_id@
            &&& row.name == name@
            &&& row.description == description.deep_view()
            &&& row.parent_id == parent_id.deep_view()
            &&& row.created_by == created_by.deep_view()
            &&& row.visibility == "private"@
            &&& row.owner_key == None::<Seq<char>>
            &&& row.encrypted == false
            &&& exists|at: Timestamp|
                in_calendar(at) && row.created_at == #[trigger] shown(at, COLUMN_FORMAT@)
        }),
        r matches Ok(room) ==> ({
            &&& room@.room_id == room_id@
            &&& room@.name == name@
            &&& room@.description == description.deep_view()
            &&& room@.parent_id == parent_id.deep_view()
            &&& room@.created_by == created_by.deep_view()
            &&& room@.visibility == "private"@
            &&& room@.owner_key == None::<Seq<char>>
            &&& room@.encrypted == false
            &&& !room@.ephemeral
            &&& room@.last_activity is None
            &&& room@.member_count is None
            &&& column_instant(final(s)@.rooms.last().created_at) matches Some(t)
                ==> room@.created_at
                == t
        }),
        r is Err ==> final(s)@ == old(s)@,
        r is Ok <==> parent_id.deep_view() != Some(room_id@) && (forall|i: int|
            0 <= i < old(s)@.rooms.len() ==> (#[trigger] old(s)@.rooms[i]).room_id != room_id@
                && old(s)@.rooms[i].name != name@) && (parent_id matches Some(p) ==> exists|i: int|
            0 <= i < old(s)@.rooms.len() && (#[trigger] old(s)@.rooms[i]).room_id == p@),
        (r matches Err(e) && e@ is RoomNameTaken) <==> parent_id.deep_view() != Some(room_id@)
            && exists|i: int|
            0 <= i < old(s)@.rooms.len() && (#[trigger] old(s)@.rooms[i]).name == name@,
        r matches Err(e) ==> (e@ matches StoreErrorView::RoomNameTaken(n) ==> n == name@),
        parent_id.deep_view() == Some(room_id@) <==> (r matches Err(e) && e@ == StoreErrorView::Db(
            DbError::OwnParent,
        )),
        (r matches Err(e) && e@ == StoreErrorView::Db(DbError::DuplicateRoom)) ==> exists|i: int|
            0 <= i < old(s)@.rooms.len() && (#[trigger] old(s)@.rooms[i]).room_id == room_id@,
        (r matches Err(e) && e@ == StoreErrorView::Db(DbError::ForeignKey)) ==> (
        parent_id matches Some(p) && forall|i: int|
            0 <= i < old(s)@.rooms.len() ==> (#[trigger] old(s)@.rooms[i]).room_id != p@),
        r matches Err(e) ==> e@ is RoomNameTaken || e@ == StoreErrorView::Db(DbError::OwnParent) ||
            e@
            == StoreErrorView::Db(DbError::DuplicateRoom) || e@ == StoreErrorView::Db(
            DbError::ForeignKey,
        ),
        final(s)@.messages == old(s)@.messages,
        final(s)@.sessions == old(s)@.sessions,
        final(s)@.votes == old(s)@.votes,
        final(s)@.ballots == old(s)@.ballots,
        final(s)@.keys == old(s)@.keys,
        final(s)@.subscriptions == old(s)@.subscriptions,
        final(s)@.deliveries == old(s)@.deliveries,
        final(s)@.tasks == old(s)@.tasks,
{
}

/// Deleting a room takes away that room and its messages. Every other room stays as
/// it was, but one below it moves to the top; every other message stays as it was, but
/// replies to what went become plain messages.
pub proof fn deleting_a_room_touches_nothing_else(
    s: &mut Store,
    room_id: &str,
    r: Result<bool, StoreError>,
)
    requires
        call_ensures(Store::delete_room, (s, room_id), r),
    ensures
        r matches Ok(b) && (b <==> exists|i: int|
            0 <= i < old(s)@.rooms.len() && (#[trigger] old(s)@.rooms[i]).room_id == room_id@),
        r == Ok::<bool, StoreError>(false) ==> final(s)@ == old(s)@,
        r == Ok::<bool, StoreError>(true) ==> final(s)@.rooms == old(s)@.rooms.filter(
            |t: RoomRowView| t.room_id != room_id@,
        ).map_values(
            |t: RoomRowView|
                RoomRowView {
                    parent_id: if t.parent_id == Some(room_id@) {
                        None
                    } else {
                        t.parent_id
                    },
                    ..t
                },
        ),
        r == Ok::<bool, StoreError>(true) ==> final(s)@.messages.len() == old(s)@.messages.filter(
            |m: MessageRowView| m.room_id != room_id@,
        ).len(),
        r == Ok::<bool, StoreError>(true) ==> forall|i: int|
            0 <= i < final(s)@.messages.len() ==> ({
                let was = old(s)@.messages.filter(|m: MessageRowView| m.room_id != room_id@)[i];
                let is = #[trigger] final(s)@.messages[i];
                &&& is.message_id == was.message_id
                &&& is.room_id == was.room_id
                &&& is.agent_id == was.agent_id
                &&& is.agent_name == was.agent_name
                &&& is.content == was.content
                &&& is.metadata == was.metadata
                &&& is.created_at == was.created_at
                &&& is.seq == was.seq
                &&& is.reply_to_message == was.reply_to_message || (is.reply_to_message is None
                    && exists|j: int|
                    0 <= j < old(s)@.messages.len() && (#[trigger] old(s)@.messages[j]).room_id
                        == room_id@ && was.reply_to_message == Some(
                        old(s)@.messages[j].message_id,
                    ))
                &&& is.reply_to_message matches Some(id) ==> forall|j: int|
                    0 <= j < old(s)@.messages.len() && (#[trigger] old(s)@.messages[j]).message_id
                        == id ==> old(s)@.messages[j].room_id != room_id@
            }),
        final(s)@.sessions == old(s)@.sessions,
        final(s)@.votes == old(s)@.votes,
        final(s)@.ballots == old(s)@.ballots,
        final(s)@.keys == old(s)@.keys,
        final(s)@.subscriptions == old(s)@.subscriptions,
        final(s)@.deliveries == old(s)@.deliveries,
        final(s)@.tasks == old(s)@.tasks,
{
    let gone = with_room_id(room_id@);
    if any(old(s)@.rooms, gone) {
        let stay = |t: RoomRowView| t.room_id != room_id@;
        let top = |t: RoomRowView|
            RoomRowView {
                parent_id: if t.parent_id == Some(room_id@) {
                    None
                } else {
                    t.parent_id
                },
                ..t
            };
        let kept_rooms = old(s)@.rooms.filter(stay);
        assert(final(s)@.rooms =~= kept_rooms.map_values(top));
        let out = |m: MessageRowView| m.room_id != room_id@;
        assert(out =~= outside(room_id@));
    }
}

/// A new key is kept with its label, in the free tier. A key is created once, and a
/// refused one changes nothing.
pub proof fn a_key_is_created_as_asked(
    s: &mut Store,
    api_key: &str,
    label: Option<&str>,
    created_at: &str,
    r: Result<(), StoreError>,
)
    requires
        call_ensures(Store::create_api_key_at, (s, api_key, label, created_at), r),
    ensures
        r is Ok ==> final(s)@.keys.len() == old(s)@.keys.len() + 1,
        r is Ok ==> final(s)@.keys.take(old(s)@.keys.len() as int) == old(s)@.keys,
        r is Ok ==> ({
            let row = final(s)@.keys.last();
            &&& row.api_key == api_key@
            &&& row.tier == "free"@
            &&& row.label == label.deep_view()
            &&& row.created_at == created_at@
        }),
        r is Err <==> exists|i: int|
            0 <= i < old(s)@.keys.len() && (#[trigger] old(s)@.keys[i]).api_key == api_key@,
        r matches Err(e) ==> e@ == StoreErrorView::Db(DbError::DuplicateKey),
        r is Err ==> final(s)@ == old(s)@,
        final(s)@.rooms == old(s)@.rooms,
        final(s)@.messages == old(s)@.messages,
        final(s)@.sessions == old(s)@.sessions,
        final(s)@.votes == old(s)@.votes,
        final(s)@.ballots == old(s)@.ballots,
        final(s)@.subscriptions == old(s)@.subscriptions,
        final(s)@.deliveries == old(s)@.deliveries,
        final(s)@.tasks == old(s)@.tasks,
{
}

/// A key created by the clock is kept with its label, in the free tier.
pub proof fn a_key_created_now_is_as_asked(
    s: &mut Store,
    api_key: &str,
    label: Option<&str>,
    r: Result<(), StoreError>,
)
    requires
        call_ensures(Store::create_api_key, (s, api_key, label), r),
    ensures
        r is Ok ==> final(s)@.keys.len() == old(s)@.keys.len() + 1,
        r is Ok ==> final(s)@.keys.take(old(s)@.keys.len() as int) == old(s)@.keys,
        r is Ok ==> ({
            let row = final(s)@.keys.last();
            &&& row.api_key == api_key@
            &&& row.tier == "free"@
            &&& row.label == label.deep_view()
            &&& exists|at: Timestamp|
                in_calendar(at) && row.created_at == #[trigger] shown(at, COLUMN_FORMAT@)
        }),
        r is Err <==> exists|i: int|
            0 <= i < old(s)@.keys.len() && (#[trigger] old(s)@.keys[i]).api_key == api_key@,
        r matches Err(e) ==> e@ == StoreErrorView::Db(DbError::DuplicateKey),
        r is Err ==> final(s)@ == old(s)@,
        final(s)@.rooms == old(s)@.rooms,
        final(s)@.messages == old(s)@.messages,
        final(s)@.sessions == old(s)@.sessions,
        final(s)@.votes == old(s)@.votes,
        final(s)@.ballots == old(s)@.ballots,
        final(s)@.subscriptions == old(s)@.subscriptions,
        final(s)@.deliveries == old(s)@.deliveries,
        final(s)@.tasks == old(s)@.tasks,
{
}

/// The start of a session is recorded as it was: agent, name, capabilities, and no end
/// yet. A session starts once, and a refused one changes nothing.
pub proof fn a_session_starts_as_recorded(
    s: &mut Store,
    session_id: &str,
    agent_id: &str,
    agent_name: &str,
    capabilities: &Vec<String>,
    connected_at: &str,
    r: Result<(), StoreError>,
)
    requires
        call_ensures(
            Store::record_session_start_at,
            (s, session_id, agent_id, agent_name, capabilities, connected_at),
            r,
        ),
    ensures
        r is Ok ==> final(s)@.sessions.len() == old(s)@.sessions.len() + 1,
        r is Ok ==> final(s)@.sessions.take(old(s)@.sessions.len() as int) == old(s)@.sessions,
        r is Ok ==> ({
            let row = final(s)@.sessions.last();
            &&& row.session_id == session_id@
            &&& row.agent_id == agent_id@
            &&& row.agent_name == agent_name@
            &&& row.capabilities == texts_json(capabilities.deep_view())
            &&& row.disconnected_at == None::<Seq<char>>
            &&& row.connected_at == connected_at@
        }),
        r is Err <==> exists|i: int|
            0 <= i < old(s)@.sessions.len() && (#[trigger] old(s)@.sessions[i]).session_id
                == session_id@,
        r matches Err(e) ==> e@ == StoreErrorView::Db(DbError::DuplicateSession),
        r is Err ==> final(s)@ == old(s)@,
        final(s)@.rooms == old(s)@.rooms,
        final(s)@.messages == old(s)@.messages,
        final(s)@.votes == old(s)@.votes,
        final(s)@.ballots == old(s)@.ballots,
        final(s)@.keys == old(s)@.keys,
        final(s)@.subscriptions == old(s)@.subscriptions,
        final(s)@.deliveries == old(s)@.deliveries,
        final(s)@.tasks == old(s)@.tasks,
{
}

/// The start of a session by the clock is recorded as it was.
pub proof fn a_session_starting_now_is_as_recorded(
    s: &mut Store,
    session_id: &str,
    agent_id: &str,
    agent_name: &str,
    capabilities: &Vec<String>,
    r: Result<(), StoreError>,
)
    requires
        call_ensures(
            Store::record_session_start,
            (s, session_id, agent_id, agent_name, capabilities),
            r,
        ),
    ensures
        r is Ok ==> final(s)@.sessions.len() == old(s)@.sessions.len() + 1,
        r is Ok ==> final(s)@.sessions.take(old(s)@.sessions.len() as int) == old(s)@.sessions,
        r is Ok ==> ({
            let row = final(s)@.sessions.last();
            &&& row.session_id == session_id@
            &&& row.agent_id == agent_id@
            &&& row.agent_name == agent_name@
            &&& row.capabilities == texts_json(capabilities.deep_view())
            &&& row.disconnected_at == None::<Seq<char>>
            &&& exists|at: Timestamp|
                in_calendar(at) && row.connected_at == #[trigger] shown(at, COLUMN_FORMAT@)
        }),
        r is Err <==> exists|i: int|
            0 <= i < old(s)@.sessions.len() && (#[trigger] old(s)@.sessions[i]).session_id
                == session_id@,
        r matches Err(e) ==> e@ == StoreErrorView::Db(DbError::DuplicateSession),
        r is Err ==> final(s)@ == old(s)@,
        final(s)@.rooms == old(s)@.rooms,
        final(s)@.messages == old(s)@.messages,
        final(s)@.votes == old(s)@.votes,
        final(s)@.ballots == old(s)@.ballots,
        final(s)@.keys == old(s)@.keys,
        final(s)@.subscriptions == old(s)@.subscriptions,
        final(s)@.deliveries == old(s)@.deliveries,
        final(s)@.tasks == old(s)@.tasks,
{
}

/// The end of a session is noted on that session alone, and nothing else of it
/// changes.
pub proof fn ending_a_session_touches_no_other(
    s: &mut Store,
    session_id: &str,
    at: &str,
    r: Result<(), StoreError>,
)
    requires
        call_ensures(Store::record_session_end_at, (s, session_id, at), r),
    ensures
        r is Ok,
        final(s)@.sessions.len() == old(s)@.sessions.len(),
        forall|i: int|
            0 <= i < old(s)@.sessions.len() && old(s)@.sessions[i].session_id != session_id@
                ==> #[trigger] final(s)@.sessions[i]
                == old(s)@.sessions[i],
        forall|i: int|
            0 <= i < old(s)@.sessions.len() && old(s)@.sessions[i].session_id == session_id@ ==> ({
                let was = old(s)@.sessions[i];
                let is = #[trigger] final(s)@.sessions[i];
                &&& is.session_id == was.session_id
                &&& is.agent_id == was.agent_id
                &&& is.agent_name == was.agent_name
                &&& is.capabilities == was.capabilities
                &&& is.connected_at == was.connected_at
                &&& is.disconnected_at == Some(at@)
            }),
        final(s)@.rooms == old(s)@.rooms,
        final(s)@.messages == old(s)@.messages,
        final(s)@.votes == old(s)@.votes,
        final(s)@.ballots == old(s)@.ballots,
        final(s)@.keys == old(s)@.keys,
        final(s)@.subscriptions == old(s)@.subscriptions,
        final(s)@.deliveries == old(s)@.deliveries,
        final(s)@.tasks == old(s)@.tasks,
{
}

/// The end of a session by the clock is noted on that session alone.
pub proof fn ending_a_session_now_touches_no_other(
    s: &mut Store,
    session_id: &str,
    r: Result<(), StoreError>,
)
    requires
        call_ensures(Store::record_session_end, (s, session_id), r),
    ensures
        r is Ok,
        final(s)@.sessions.len() == old(s)@.sessions.len(),
        forall|i: int|
            0 <= i < old(s)@.sessions.len() && old(s)@.sessions[i].session_id != session_id@
                ==> #[trigger] final(s)@.sessions[i]
                == old(s)@.sessions[i],
        forall|i: int|
            0 <= i < old(s)@.sessions.len() && old(s)@.sessions[i].session_id == session_id@ ==> ({
                let was = old(s)@.sessions[i];
                let is = #[trigger] final(s)@.sessions[i];
                &&& is.session_id == was.session_id
                &&& is.agent_id == was.agent_id
                &&& is.agent_name == was.agent_name
                &&& is.capabilities == was.capabilities
                &&& is.connected_at == was.connected_at
                &&& exists|at: Timestamp|
                    in_calendar(at) && is.disconnected_at == Some(
                        #[trigger] shown(at, COLUMN_FORMAT@),
                    )
            }),
        final(s)@.rooms == old(s)@.rooms,
        final(s)@.messages == old(s)@.messages,
        final(s)@.votes == old(s)@.votes,
        final(s)@.ballots == old(s)@.ballots,
        final(s)@.keys == old(s)@.keys,
        final(s)@.subscriptions == old(s)@.subscriptions,
        final(s)@.deliveries == old(s)@.deliveries,
        final(s)@.tasks == old(s)@.tasks,
{
}

/// A vote is created as it was asked for, and open. A vote is created once, and a
/// refused one changes nothing.
pub proof fn a_vote_is_created_as_asked(
    s: &mut Store,
    vote_id: &str,
    room_id: &str,
    title: &str,
    description: Option<&str>,
    options: &Vec<String>,
    created_by: &str,
    closes_at: Option<Timestamp>,
    eligible_voters: usize,
    created_at: &str,
    r: Result<(), StoreError>,
)
    requires
        call_ensures(
            Store::create_vote_at,
            (
                s,
                vote_id,
                room_id,
                title,
                description,
                options,
                created_by,
                closes_at,
                eligible_voters,
                created_at,
            ),
            r,
        ),
    ensures
        r is Ok ==> final(s)@.votes.len() == old(s)@.votes.len() + 1,
        r is Ok ==> final(s)@.votes.take(old(s)@.votes.len() as int) == old(s)@.votes,
        r is Ok ==> ({
            let row = final(s)@.votes.last();
            &&& row.vote_id == vote_id@
            &&& row.room_id == room_id@
            &&& row.title == title@
            &&& row.description == description.deep_view()
            &&& row.options == texts_json(options.deep_view())
            &&& row.created_by == created_by@
            &&& row.status == "open"@
            &&& row.eligible_voters == eligible_voters
            &&& row.closes_at is Some <==> closes_at is Some
            &&& closes_at matches Some(t) ==> row.closes_at == Some(shown(t, COLUMN_FORMAT@))
            &&& row.created_at == created_at@
        }),
        r is Err <==> exists|i: int|
            0 <= i < old(s)@.votes.len() && (#[trigger] old(s)@.votes[i]).vote_id == vote_id@,
        r matches Err(e) ==> e@ == StoreErrorView::Db(DbError::DuplicateVote),
        r is Err ==> final(s)@ == old(s)@,
        final(s)@.rooms == old(s)@.rooms,
        final(s)@.messages == old(s)@.messages,
        final(s)@.sessions == old(s)@.sessions,
        final(s)@.ballots == old(s)@.ballots,
        final(s)@.keys == old(s)@.keys,
        final(s)@.subscriptions == old(s)@.subscriptions,
        final(s)@.deliveries == old(s)@.deliveries,
        final(s)@.tasks == old(s)@.tasks,
{
}

/// A vote created by the clock is the one that was asked for, and open.
pub proof fn a_vote_created_now_is_as_asked(
    s: &mut Store,
    vote_id: &str,
    room_id: &str,
    title: &str,
    description: Option<&str>,
    options: &Vec<String>,
    created_by: &str,
    closes_at: Option<Timestamp>,
    eligible_voters: usize,
    r: Result<(), StoreError>,
)
    requires
        call_ensures(
            Store::create_vote,
            (
                s,
                vote_id,
                room_id,
                title,
                description,
                options,
                created_by,
                closes_at,
                eligible_voters,
            ),
            r,
        ),
    ensures
        r is Ok ==> final(s)@.votes.len() == old(s)@.votes.len() + 1,
        r is Ok ==> final(s)@.votes.take(old(s)@.votes.len() as int) == old(s)@.votes,
        r is Ok ==> ({
            let row = final(s)@.votes.last();
            &&& row.vote_id == vote_id@
            &&& row.room_id == room_id@
            &&& row.title == title@
            &&& row.description == description.deep_view()
            &&& row.options == texts_json(options.deep_view())
            &&& row.created_by == created_by@
            &&& row.status == "open"@
            &&& row.eligible_voters == eligible_voters
            &&& row.closes_at is Some <==> closes_at is Some
            &&& closes_at matches Some(t) ==> row.closes_at == Some(shown(t, COLUMN_FORMAT@))
            &&& exists|at: Timestamp|
                in_calendar(at) && row.created_at == #[trigger] shown(at, COLUMN_FORMAT@)
        }),
        r is Err <==> exists|i: int|
            0 <= i < old(s)@.votes.len() && (#[trigger] old(s)@.votes[i]).vote_id == vote_id@,
        r matches Err(e) ==> e@ == StoreErrorView::Db(DbError::DuplicateVote),
        r is Err ==> final(s)@ == old(s)@,
        final(s)@.rooms == old(s)@.rooms,
        final(s)@.messages == old(s)@.messages,
        final(s)@.sessions == old(s)@.sessions,
        final(s)@.ballots == old(s)@.ballots,
        final(s)@.keys == old(s)@.keys,
        final(s)@.subscriptions == old(s)@.subscriptions,
        final(s)@.deliveries == old(s)@.deliveries,
        final(s)@.tasks == old(s)@.tasks,
{
}

/// A ballot is kept as it was cast: vote, agent, name and option. It is taken exactly
/// where its vote is there, the vote is open and the agent has not voted in it.
pub proof fn a_ballot_is_cast_as_given(
    s: &mut Store,
    vote_id: &str,
    agent_id: &str,
    agent_name: &str,
    option_index: usize,
    cast_at: &str,
    r: Result<(), StoreError>,
)
    requires
        call_ensures(
            Store::cast_vote_at,
            (s, vote_id, agent_id, agent_name, option_index, cast_at),
            r,
        ),
    ensures
        r is Ok ==> final(s)@.ballots.len() == old(s)@.ballots.len() + 1,
        r is Ok ==> final(s)@.ballots.take(old(s)@.ballots.len() as int) == old(s)@.ballots,
        r is Ok ==> ({
            let row = final(s)@.ballots.last();
            &&& row.vote_id == vote_id@
            &&& row.agent_id == agent_id@
            &&& row.agent_name == agent_name@
            &&& row.option_index == option_index
            &&& row.cast_at == cast_at@
        }),
        r is Ok ==> exists|i: int|
            0 <= i < old(s)@.votes.len() && (#[trigger] old(s)@.votes[i]).vote_id == vote_id@
                && old(s)@.votes[i].status == "open"@,
        r is Ok ==> forall|i: int|
            0 <= i < old(s)@.ballots.len() && (#[trigger] old(s)@.ballots[i]).vote_id == vote_id@
                ==> old(s)@.ballots[i].agent_id != agent_id@,
        (r matches Err(e) && e@ is VoteNotFound) <==> forall|i: int|
            0 <= i < old(s)@.votes.len() ==> (#[trigger] old(s)@.votes[i]).vote_id != vote_id@,
        (r matches Err(e) && e@ is VoteClosed) ==> exists|i: int|
            0 <= i < old(s)@.votes.len() && (#[trigger] old(s)@.votes[i]).vote_id == vote_id@
                && old(s)@.votes[i].status != "open"@,
        (r matches Err(e) && e@ is AlreadyVoted) ==> exists|i: int|
            0 <= i < old(s)@.ballots.len() && (#[trigger] old(s)@.ballots[i]).vote_id == vote_id@
                && old(s)@.ballots[i].agent_id == agent_id@,
        r matches Err(e) ==> e@ is VoteNotFound || e@ is VoteClosed || e@ is AlreadyVoted,
        r is Err ==> final(s)@ == old(s)@,
        final(s)@.rooms == old(s)@.rooms,
        final(s)@.messages == old(s)@.messages,
        final(s)@.sessions == old(s)@.sessions,
        final(s)@.votes == old(s)@.votes,
        final(s)@.keys == old(s)@.keys,
        final(s)@.subscriptions == old(s)@.subscriptions,
        final(s)@.deliveries == old(s)@.deliveries,
        final(s)@.tasks == old(s)@.tasks,
{
    lemma_first_match(old(s)@.votes, with_vote_id(vote_id@));
}

/// A ballot cast by the clock is kept as it was cast.
pub proof fn a_ballot_cast_now_is_as_given(
    s: &mut Store,
    vote_id: &str,
    agent_id: &str,
    agent_name: &str,
    option_index: usize,
    r: Result<(), StoreError>,
)
    requires
        call_ensures(
            Store::cast_vote,
            (s, vote_id, agent_id, agent_name, option_index),
            r,
        ),
    ensures
        r is Ok ==> final(s)@.ballots.len() == old(s)@.ballots.len() + 1,
        r is Ok ==> final(s)@.ballots.take(old(s)@.ballots.len() as int) == old(s)@.ballots,
        r is Ok ==> ({
            let row = final(s)@.ballots.last();
            &&& row.vote_id == vote_id@
            &&& row.agent_id == agent_id@
            &&& row.agent_name == agent_name@
            &&& row.option_index == option_index
            &&& exists|at: Timestamp|
                in_calendar(at) && row.cast_at == #[trigger] shown(at, COLUMN_FORMAT@)
        }),
        r is Ok ==> exists|i: int|
            0 <= i < old(s)@.votes.len() && (#[trigger] old(s)@.votes[i]).vote_id == vote_id@
                && old(s)@.votes[i].status == "open"@,
        r is Ok ==> forall|i: int|
            0 <= i < old(s)@.ballots.len() && (#[trigger] old(s)@.ballots[i]).vote_id == vote_id@
                ==> old(s)@.ballots[i].agent_id != agent_id@,
        (r matches Err(e) && e@ is VoteNotFound) <==> forall|i: int|
            0 <= i < old(s)@.votes.len() ==> (#[trigger] old(s)@.votes[i]).vote_id != vote_id@,
        (r matches Err(e) && e@ is VoteClosed) ==> exists|i: int|
            0 <= i < old(s)@.votes.len() && (#[trigger] old(s)@.votes[i]).vote_id == vote_id@
                && old(s)@.votes[i].status != "open"@,
        (r matches Err(e) && e@ is AlreadyVoted) ==> exists|i: int|
            0 <= i < old(s)@.ballots.len() && (#[trigger] old(s)@.ballots[i]).vote_id == vote_id@
                && old(s)@.ballots[i].agent_id == agent_id@,
        r matches Err(e) ==> e@ is VoteNotFound || e@ is VoteClosed || e@ is AlreadyVoted,
        r is Err ==> final(s)@ == old(s)@,
        final(s)@.rooms == old(s)@.rooms,
        final(s)@.messages == old(s)@.messages,
        final(s)@.sessions == old(s)@.sessions,
        final(s)@.votes == old(s)@.votes,
        final(s)@.keys == old(s)@.keys,
        final(s)@.subscriptions == old(s)@.subscriptions,
        final(s)@.deliveries == old(s)@.deliveries,
        final(s)@.tasks == old(s)@.tasks,
{
    lemma_first_match(old(s)@.votes, with_vote_id(vote_id@));
}

/// Closing a vote closes that vote alone, and changes nothing else of it.
pub proof fn closing_a_vote_touches_no_other(
    s: &mut Store,
    vote_id: &str,
    r: Result<(), StoreError>,
)
    requires
        call_ensures(Store::close_vote, (s, vote_id), r),
    ensures
        r is Ok,
        final(s)@.votes.len() == old(s)@.votes.len(),
        forall|i: int|
            0 <= i < old(s)@.votes.len() && old(s)@.votes[i].vote_id != vote_id@
                ==> #[trigger] final(s)@.votes[i]
                == old(s)@.votes[i],
        forall|i: int|
            0 <= i < old(s)@.votes.len() && old(s)@.votes[i].vote_id == vote_id@ ==> ({
                let was = old(s)@.votes[i];
                let is = #[trigger] final(s)@.votes[i];
                &&& is.vote_id == was.vote_id
                &&& is.room_id == was.room_id
                &&& is.title == was.title
                &&& is.description == was.description
                &&& is.options == was.options
                &&& is.created_by == was.created_by
                &&& is.created_at == was.created_at
                &&& is.closes_at == was.closes_at
                &&& is.eligible_voters == was.eligible_voters
                &&& is.status == "closed"@
            }),
        final(s)@.rooms == old(s)@.rooms,
        final(s)@.messages == old(s)@.messages,
        final(s)@.sessions == old(s)@.sessions,
        final(s)@.ballots == old(s)@.ballots,
        final(s)@.keys == old(s)@.keys,
        final(s)@.subscriptions == old(s)@.subscriptions,
        final(s)@.deliveries == old(s)@.deliveries,
        final(s)@.tasks == old(s)@.tasks,
{
}

/// A subscription is created as it was asked for: active, without failures, and with
/// its cursor where it starts. It is created once, and a refused one changes nothing.
pub proof fn a_subscription_is_created_as_asked(
    s: &mut Store,
    subscription_id: &str,
    room_id: &str,
    owner_key: &str,
    webhook_url: &str,
    secret: &str,
    kinds: &Vec<String>,
    only_from: Option<&str>,
    not_from: Option<&str>,
    exclude_thinking: bool,
    since_seq: i64,
    created_at: Timestamp,
    r: Result<Subscription, StoreError>,
)
    requires
        call_ensures(
            Store::create_subscription_at,
            (
                s,
                subscription_id,
                room_id,
                owner_key,
                webhook_url,
                secret,
                kinds,
                only_from,
                not_from,
                exclude_thinking,
                since_seq,
                created_at,
            ),
            r,
        ),
    ensures
        r is Ok ==> final(s)@.subscriptions.len() == old(s)@.subscriptions.len() + 1,
        r is Ok ==> final(s)@.subscriptions.take(old(s)@.subscriptions.len() as int)
            == old(s)@.subscriptions,
        r is Ok ==> ({
            let row = final(s)@.subscriptions.last();
            &&& row.subscription_id == subscription_id@
            &&& row.room_id == room_id@
            &&& row.owner_key == owner_key@
            &&& row.webhook_url == webhook_url@
            &&& row.secret == secret@
            &&& row.only_from == only_from.deep_view()
            &&& row.not_from == not_from.deep_view()
            &&& row.exclude_thinking == exclude_thinking
            &&& row.since_seq == since_seq
            &&& row.last_delivered_seq == since_seq
            &&& row.status == "active"@
            &&& row.failure_count == 0
            &&& row.kinds is None <==> kinds@.len() == 0
            &&& row.kinds matches Some(list) ==> list == texts_json(kinds.deep_view())
            &&& row.created_at == shown(created_at, COLUMN_FORMAT@)
        }),
        r matches Ok(made) ==> ({
            &&& made@.subscription_id == subscription_id@
            &&& made@.room_id == room_id@
            &&& made@.webhook_url == webhook_url@
            &&& made@.only_from == only_from.deep_view()
            &&& made@.not_from == not_from.deep_view()
            &&& made@.exclude_thinking == exclude_thinking
            &&& made@.since_seq == since_seq
            &&& made@.last_delivered_seq == since_seq
            &&& made@.status == "active"@
            &&& made@.failure_count == 0
            &&& made@.kinds == kinds.deep_view()
            &&& rfc3339_instant(final(s)@.subscriptions.last().created_at) matches Some(t)
                ==> made@.created_at.secs == t.0 && made@.created_at.nanos == t.1
        }),
        r is Err <==> exists|i: int|
            0 <= i < old(s)@.subscriptions.len()
                && (#[trigger] old(s)@.subscriptions[i]).subscription_id
                == subscription_id@,
        r matches Err(e) ==> e@ == StoreErrorView::Db(DbError::DuplicateSubscription),
        r is Err ==> final(s)@ == old(s)@,
        final(s)@.rooms == old(s)@.rooms,
        final(s)@.messages == old(s)@.messages,
        final(s)@.sessions == old(s)@.sessions,
        final(s)@.votes == old(s)@.votes,
        final(s)@.ballots == old(s)@.ballots,
        final(s)@.keys == old(s)@.keys,
        final(s)@.deliveries == old(s)@.deliveries,
        final(s)@.tasks == old(s)@.tasks,
{
}

/// A subscription created by the clock is the one that was asked for.
pub proof fn a_subscription_created_now_is_as_asked(
    s: &mut Store,
    subscription_id: &str,
    room_id: &str,
    owner_key: &str,
    webhook_url: &str,
    secret: &str,
    kinds: &Vec<String>,
    only_from: Option<&str>,
    not_from: Option<&str>,
    exclude_thinking: bool,
    since_seq: i64,
    r: Result<Subscription, StoreError>,
)
    requires
        call_ensures(
            Store::create_subscription,
            (
                s,
                subscription_id,
                room_id,
                owner_key,
                webhook_url,
                secret,
                kinds,
                only_from,
                not_from,
                exclude_thinking,
                since_seq,
            ),
            r,
        ),
    ensures
        r is Ok ==> final(s)@.subscriptions.len() == old(s)@.subscriptions.len() + 1,
        r is Ok ==> final(s)@.subscriptions.take(old(s)@.subscriptions.len() as int)
            == old(s)@.subscriptions,
        r is Ok ==> ({
            let row = final(s)@.subscriptions.last();
            &&& row.subscription_id == subscription_id@
            &&& row.room_id == room_id@
            &&& row.owner_key == owner_key@
            &&& row.webhook_url == webhook_url@
            &&& row.secret == secret@
            &&& row.only_from == only_from.deep_view()
            &&& row.not_from == not_from.deep_view()
            &&& row.exclude_thinking == exclude_thinking
            &&& row.since_seq == since_seq
            &&& row.last_delivered_seq == since_seq
            &&& row.status == "active"@
            &&& row.failure_count == 0
            &&& row.kinds is None <==> kinds@.len() == 0
            &&& row.kinds matches Some(list) ==> list == texts_json(kinds.deep_view())
            &&& exists|at: Timestamp|
                in_calendar(at) && row.created_at == #[trigger] shown(at, COLUMN_FORMAT@)
        }),
        r matches Ok(made) ==> ({
            &&& made@.subscription_id == subscription_id@
            &&& made@.room_id == room_id@
            &&& made@.webhook_url == webhook_url@
            &&& made@.only_from == only_from.deep_view()
            &&& made@.not_from == not_from.deep_view()
            &&& made@.exclude_thinking == exclude_thinking
            &&& made@.since_seq == since_seq
            &&& made@.last_delivered_seq == since_seq
            &&& made@.status == "active"@
            &&& made@.failure_count == 0
            &&& made@.kinds == kinds.deep_view()
            &&& rfc3339_instant(final(s)@.subscriptions.last().created_at) matches Some(t)
                ==> made@.created_at.secs == t.0 && made@.created_at.nanos == t.1
        }),
        r is Err <==> exists|i: int|
            0 <= i < old(s)@.subscriptions.len()
                && (#[trigger] old(s)@.subscriptions[i]).subscription_id
                == subscription_id@,
        r matches Err(e) ==> e@ == StoreErrorView::Db(DbError::DuplicateSubscription),
        r is Err ==> final(s)@ == old(s)@,
        final(s)@.rooms == old(s)@.rooms,
        final(s)@.messages == old(s)@.messages,
        final(s)@.sessions == old(s)@.sessions,
        final(s)@.votes == old(s)@.votes,
        final(s)@.ballots == old(s)@.ballots,
        final(s)@.keys == old(s)@.keys,
        final(s)@.deliveries == old(s)@.deliveries,
        final(s)@.tasks == old(s)@.tasks,
{
}

/// The cursor of a subscription moves up to a higher number, and its failures are
/// forgotten then. It never moves otherwise, nothing else of the subscription changes,
/// and every other subscription stays exactly as it was.
pub proof fn advancing_a_cursor_touches_no_other(
    s: &mut Store,
    subscription_id: &str,
    seq: i64,
    r: Result<(), StoreError>,
)
    requires
        call_ensures(Store::advance_subscription_cursor, (s, subscription_id, seq), r),
    ensures
        r is Ok,
        final(s)@.subscriptions.len() == old(s)@.subscriptions.len(),
        forall|i: int|
            0 <= i < old(s)@.subscriptions.len() && old(s)@.subscriptions[i].subscription_id
                != subscription_id@ ==> #[trigger] final(s)@.subscriptions[i]
                == old(s)@.subscriptions[i],
        forall|i: int|
            0 <= i < old(s)@.subscriptions.len() && old(s)@.subscriptions[i].subscription_id
                == subscription_id@ ==> ({
                let was = old(s)@.subscriptions[i];
                let is = #[trigger] final(s)@.subscriptions[i];
                &&& is.subscription_id == was.subscription_id
                &&& is.room_id == was.room_id
                &&& is.owner_key == was.owner_key
                &&& is.webhook_url == was.webhook_url
                &&& is.secret == was.secret
                &&& is.kinds == was.kinds
                &&& is.only_from == was.only_from
                &&& is.not_from == was.not_from
                &&& is.exclude_thinking == was.exclude_thinking
                &&& is.since_seq == was.since_seq
                &&& is.status == was.status
                &&& is.created_at == was.created_at
                &&& is.last_delivered_seq
                    == if seq > was.last_delivered_seq { seq } else { was.last_delivered_seq }
                &&& is.failure_count
                    == if seq > was.last_delivered_seq { 0 } else { was.failure_count }
            }),
        final(s)@.rooms == old(s)@.rooms,
        final(s)@.messages == old(s)@.messages,
        final(s)@.sessions == old(s)@.sessions,
        final(s)@.votes == old(s)@.votes,
        final(s)@.ballots == old(s)@.ballots,
        final(s)@.keys == old(s)@.keys,
        final(s)@.deliveries == old(s)@.deliveries,
        final(s)@.tasks == old(s)@.tasks,
{
}

/// A new status is set on one subscription alone, with the count of failures where one
/// is given; nothing else of it changes.
pub proof fn a_status_is_set_on_one_subscription(
    s: &mut Store,
    subscription_id: &str,
    status: &str,
    failure_count: Option<i64>,
    r: Result<(), StoreError>,
)
    requires
        call_ensures(
            Store::set_subscription_status,
            (s, subscription_id, status, failure_count),
            r,
        ),
    ensures
        r is Ok,
        final(s)@.subscriptions.len() == old(s)@.subscriptions.len(),
        forall|i: int|
            0 <= i < old(s)@.subscriptions.len() && old(s)@.subscriptions[i].subscription_id
                != subscription_id@ ==> #[trigger] final(s)@.subscriptions[i]
                == old(s)@.subscriptions[i],
        forall|i: int|
            0 <= i < old(s)@.subscriptions.len() && old(s)@.subscriptions[i].subscription_id
                == subscription_id@ ==> ({
                let was = old(s)@.subscriptions[i];
                let is = #[trigger] final(s)@.subscriptions[i];
                &&& is.subscription_id == was.subscription_id
                &&& is.room_id == was.room_id
                &&& is.owner_key == was.owner_key
                &&& is.webhook_url == was.webhook_url
                &&& is.secret == was.secret
                &&& is.kinds == was.kinds
                &&& is.only_from == was.only_from
                &&& is.not_from == was.not_from
                &&& is.exclude_thinking == was.exclude_thinking
                &&& is.since_seq == was.since_seq
                &&& is.last_delivered_seq == was.last_delivered_seq
                &&& is.created_at == was.created_at
                &&& is.status == status@
                &&& failure_count is None ==> is.failure_count == was.failure_count
                &&& failure_count matches Some(n) ==> is.failure_count == n
            }),
        final(s)@.rooms == old(s)@.rooms,
        final(s)@.messages == old(s)@.messages,
        final(s)@.sessions == old(s)@.sessions,
        final(s)@.votes == old(s)@.votes,
        final(s)@.ballots == old(s)@.ballots,
        final(s)@.keys == old(s)@.keys,
        final(s)@.deliveries == old(s)@.deliveries,
        final(s)@.tasks == old(s)@.tasks,
{
}

/// Removing a subscription needs its id and its owner. It takes that one away with its
/// deliveries, and leaves everything else as it was.
pub proof fn removing_a_subscription_touches_nothing_else(
    s: &mut Store,
    subscription_id: &str,
    owner_key: &str,
    r: Result<bool, StoreError>,
)
    requires
        call_ensures(Store::delete_subscription, (s, subscription_id, owner_key), r),
    ensures
        r matches Ok(b) && (b <==> exists|i: int|
            0 <= i < old(s)@.subscriptions.len()
                && (#[trigger] old(s)@.subscriptions[i]).subscription_id
                == subscription_id@ && old(s)@.subscriptions[i].owner_key == owner_key@),
        r == Ok::<bool, StoreError>(false) ==> final(s)@ == old(s)@,
        r == Ok::<bool, StoreError>(true) ==> final(s)@.subscriptions
            == old(s)@.subscriptions.filter(
            |t: SubscriptionRowView|
                t.subscription_id != subscription_id@ || t.owner_key != owner_key@,
        ),
        r == Ok::<bool, StoreError>(true) ==> final(s)@.deliveries == old(s)@.deliveries.filter(
            |d: DeliveryRowView| d.subscription_id != subscription_id@,
        ),
        final(s)@.rooms == old(s)@.rooms,
        final(s)@.messages == old(s)@.messages,
        final(s)@.sessions == old(s)@.sessions,
        final(s)@.votes == old(s)@.votes,
        final(s)@.ballots == old(s)@.ballots,
        final(s)@.keys == old(s)@.keys,
        final(s)@.tasks == old(s)@.tasks,
{
    let stay = |t: SubscriptionRowView|
        t.subscription_id != subscription_id@ || t.owner_key != owner_key@;
    assert(stay =~= |t: SubscriptionRowView|
        !owned_subscription(subscription_id@, owner_key@)(t));
}

/// A delivery is queued as it was given, without attempts so far. The queue takes it
/// exactly where its id is new, its message is not queued for the subscription yet and
/// the subscription is there; otherwise nothing changes.
pub proof fn a_delivery_is_queued_as_given(
    s: &mut Store,
    delivery_id: &str,
    subscription_id: &str,
    message_seq: i64,
    message_id: &str,
    next_attempt_at: Timestamp,
    r: Result<bool, StoreError>,
)
    requires
        call_ensures(
            Store::enqueue_delivery,
            (s, delivery_id, subscription_id, message_seq, message_id, next_attempt_at),
            r,
        ),
    ensures
        r matches Ok(b) && (b <==> (forall|i: int|
            0 <= i < old(s)@.deliveries.len() ==> (#[trigger] old(s)@.deliveries[i]).delivery_id
                != delivery_id@ && (old(s)@.deliveries[i].subscription_id == subscription_id@
                ==> old(s)@.deliveries[i].message_seq != message_seq)) && exists|i: int|
            0 <= i < old(s)@.subscriptions.len()
                && (#[trigger] old(s)@.subscriptions[i]).subscription_id
                == subscription_id@),
        r == Ok::<bool, StoreError>(false) ==> final(s)@ == old(s)@,
        r == Ok::<bool, StoreError>(true) ==> final(s)@.deliveries.len() == old(s)@.deliveries.len()
            + 1,
        r == Ok::<bool, StoreError>(true)
            ==> final(s)@.deliveries.take(old(s)@.deliveries.len() as int) == old(s)@.deliveries,
        r == Ok::<bool, StoreError>(true) ==> ({
            let row = final(s)@.deliveries.last();
            &&& row.delivery_id == delivery_id@
            &&& row.subscription_id == subscription_id@
            &&& row.message_seq == message_seq
            &&& row.message_id == message_id@
            &&& row.next_attempt_at == shown(next_attempt_at, COLUMN_FORMAT@)
            &&& row.attempts == 0
            &&& row.last_error == None::<Seq<char>>
        }),
        final(s)@.rooms == old(s)@.rooms,
        final(s)@.messages == old(s)@.messages,
        final(s)@.sessions == old(s)@.sessions,
        final(s)@.votes == old(s)@.votes,
        final(s)@.ballots == old(s)@.ballots,
        final(s)@.keys == old(s)@.keys,
        final(s)@.subscriptions == old(s)@.subscriptions,
        final(s)@.tasks == old(s)@.tasks,
{
}

/// Deleting a delivery takes that one away, and nothing else.
pub proof fn deleting_a_delivery_touches_no_other(
    s: &mut Store,
    delivery_id: &str,
    r: Result<(), StoreError>,
)
    requires
        call_ensures(Store::delete_delivery, (s, delivery_id), r),
    ensures
        r is Ok,
        final(s)@.deliveries == old(s)@.deliveries.filter(
            |d: DeliveryRowView| d.delivery_id != delivery_id@,
        ),
        final(s)@.rooms == old(s)@.rooms,
        final(s)@.messages == old(s)@.messages,
        final(s)@.sessions == old(s)@.sessions,
        final(s)@.votes == old(s)@.votes,
        final(s)@.ballots == old(s)@.ballots,
        final(s)@.keys == old(s)@.keys,
        final(s)@.subscriptions == old(s)@.subscriptions,
        final(s)@.tasks == old(s)@.tasks,
{
}

/// Putting a delivery off sets its next attempt, the count of attempts and the last
/// error of that delivery alone; what it delivers, and to whom, stays.
pub proof fn putting_a_delivery_off_touches_no_other(
    s: &mut Store,
    delivery_id: &str,
    next_attempt_at: &str,
    attempts: i64,
    last_error: &str,
)
    requires
        call_ensures(
            Store::put_off_delivery,
            (s, delivery_id, next_attempt_at, attempts, last_error),
            (),
        ),
    ensures
        final(s)@.deliveries.len() == old(s)@.deliveries.len(),
        forall|i: int|
            0 <= i < old(s)@.deliveries.len() && old(s)@.deliveries[i].delivery_id != delivery_id@
                ==> #[trigger] final(s)@.deliveries[i]
                == old(s)@.deliveries[i],
        forall|i: int|
            0 <= i < old(s)@.deliveries.len() && old(s)@.deliveries[i].delivery_id == delivery_id@
                ==> ({
                let was = old(s)@.deliveries[i];
                let is = #[trigger] final(s)@.deliveries[i];
                &&& is.delivery_id == was.delivery_id
                &&& is.subscription_id == was.subscription_id
                &&& is.message_seq == was.message_seq
                &&& is.message_id == was.message_id
                &&& is.next_attempt_at == next_attempt_at@
                &&& is.attempts == attempts
                &&& is.last_error == Some(last_error@)
            }),
        final(s)@.rooms == old(s)@.rooms,
        final(s)@.messages == old(s)@.messages,
        final(s)@.sessions == old(s)@.sessions,
        final(s)@.votes == old(s)@.votes,
        final(s)@.ballots == old(s)@.ballots,
        final(s)@.keys == old(s)@.keys,
        final(s)@.subscriptions == old(s)@.subscriptions,
        final(s)@.tasks == old(s)@.tasks,
{
}

/// Rescheduling a delivery does the same for an instant.
pub proof fn rescheduling_a_delivery_touches_no_other(
    s: &mut Store,
    delivery_id: &str,
    next_attempt_at: Timestamp,
    attempts: i64,
    last_error: &str,
    r: Result<(), StoreError>,
)
    requires
        call_ensures(
            Store::reschedule_delivery,
            (s, delivery_id, next_attempt_at, attempts, last_error),
            r,
        ),
    ensures
        r is Ok,
        final(s)@.deliveries.len() == old(s)@.deliveries.len(),
        forall|i: int|
            0 <= i < old(s)@.deliveries.len() && old(s)@.deliveries[i].delivery_id != delivery_id@
                ==> #[trigger] final(s)@.deliveries[i]
                == old(s)@.deliveries[i],
        forall|i: int|
            0 <= i < old(s)@.deliveries.len() && old(s)@.deliveries[i].delivery_id == delivery_id@
                ==> ({
                let was = old(s)@.deliveries[i];
                let is = #[trigger] final(s)@.deliveries[i];
                &&& is.delivery_id == was.delivery_id
                &&& is.subscription_id == was.subscription_id
                &&& is.message_seq == was.message_seq
                &&& is.message_id == was.message_id
                &&& is.next_attempt_at == shown(next_attempt_at, COLUMN_FORMAT@)
                &&& is.attempts == attempts
                &&& is.last_error == Some(last_error@)
            }),
        final(s)@.rooms == old(s)@.rooms,
        final(s)@.messages == old(s)@.messages,
        final(s)@.sessions == old(s)@.sessions,
        final(s)@.votes == old(s)@.votes,
        final(s)@.ballots == old(s)@.ballots,
        final(s)@.keys == old(s)@.keys,
        final(s)@.subscriptions == old(s)@.subscriptions,
        final(s)@.tasks == old(s)@.tasks,
{
}

/// A message is kept as it was given, and handed back so. It gets the number after the
/// highest of its room, and the first of a room gets one. It is refused where its id is
/// in use, or its room or the message it answers is not there, and then nothing changes.
pub proof fn a_message_is_kept_as_given(
    s: &mut Store,
    message_id: &str,
    room_id: &str,
    agent_id: &str,
    agent_name: &str,
    content: &str,
    reply_to_message: Option<&str>,
    metadata: &str,
    created_at: &str,
    r: Result<ChatMessage, StoreError>,
)
    requires
        call_ensures(
            Store::insert_message_at,
            (
                s,
                message_id,
                room_id,
                agent_id,
                agent_name,
                content,
                reply_to_message,
                metadata,
                created_at,
            ),
            r,
        ),
        forall|i: int|
            0 <= i < old(s)@.messages.len() && (#[trigger] old(s)@.messages[i]).room_id == room_id@
                ==> old(s)@.messages[i].seq < i64::MAX,
    ensures
        r is Ok ==> final(s)@.messages.len() == old(s)@.messages.len() + 1,
        r is Ok ==> final(s)@.messages.take(old(s)@.messages.len() as int) == old(s)@.messages,
        r is Ok ==> ({
            let row = final(s)@.messages.last();
            &&& row.message_id == message_id@
            &&& row.room_id == room_id@
            &&& row.agent_id == agent_id@
            &&& row.agent_name == agent_name@
            &&& row.content == content@
            &&& row.reply_to_message == reply_to_message.deep_view()
            &&& row.metadata == metadata@
            &&& row.created_at == created_at@
        }),
        r matches Ok(m) ==> ({
            &&& m@.message_id == message_id@
            &&& m@.room_id == room_id@
            &&& m@.agent_id == agent_id@
            &&& m@.agent_name == agent_name@
            &&& m@.content == content@
            &&& m@.reply_to_message == reply_to_message.deep_view()
            &&& m@.metadata == metadata@
            &&& m@.seq == final(s)@.messages.last().seq
            &&& column_instant(final(s)@.messages.last().created_at) matches Some(t)
                ==> m@.timestamp
                == t
        }),
        r is Ok ==> forall|i: int|
            0 <= i < old(s)@.messages.len() && (#[trigger] old(s)@.messages[i]).room_id == room_id@
                ==> old(s)@.messages[i].seq < final(s)@.messages.last().seq,
        r is Ok ==> (exists|i: int|
            0 <= i < old(s)@.messages.len() && (#[trigger] old(s)@.messages[i]).room_id == room_id@
                && old(s)@.messages[i].seq + 1 == final(s)@.messages.last().seq) || (
        final(s)@.messages.last().seq == 1 && forall|i: int|
            0 <= i < old(s)@.messages.len() ==> (#[trigger] old(s)@.messages[i]).room_id
                != room_id@),
        r is Ok <==> (forall|i: int|
            0 <= i < old(s)@.messages.len() ==> (#[trigger] old(s)@.messages[i]).message_id
                != message_id@) && (exists|i: int|
            0 <= i < old(s)@.rooms.len() && (#[trigger] old(s)@.rooms[i]).room_id == room_id@)
            && (reply_to_message matches Some(t) ==> t@ == message_id@ || exists|i: int|
            0 <= i < old(s)@.messages.len() && (#[trigger] old(s)@.messages[i]).message_id == t@),
        (exists|i: int|
            0 <= i < old(s)@.messages.len() && (#[trigger] old(s)@.messages[i]).message_id
                == message_id@) <==> (r matches Err(e) && e@ == StoreErrorView::Db(
            DbError::DuplicateMessage,
        )),
        r matches Err(e) ==> e@ == StoreErrorView::Db(DbError::DuplicateMessage) || e@
            == StoreErrorView::Db(DbError::ForeignKey),
        r is Err ==> final(s)@ == old(s)@,
        final(s)@.rooms == old(s)@.rooms,
        final(s)@.sessions == old(s)@.sessions,
        final(s)@.votes == old(s)@.votes,
        final(s)@.ballots == old(s)@.ballots,
        final(s)@.keys == old(s)@.keys,
        final(s)@.subscriptions == old(s)@.subscriptions,
        final(s)@.deliveries == old(s)@.deliveries,
        final(s)@.tasks == old(s)@.tasks,
{
    lemma_highest_seq(old(s)@.messages, room_id@);
}

/// A message inserted by the clock is kept as it was given.
pub proof fn a_message_inserted_now_is_as_given(
    s: &mut Store,
    message_id: &str,
    room_id: &str,
    agent_id: &str,
    agent_name: &str,
    content: &str,
    reply_to_message: Option<&str>,
    metadata: &str,
    r: Result<ChatMessage, StoreError>,
)
    requires
        call_ensures(
            Store::insert_message,
            (
                s,
                message_id,
                room_id,
                agent_id,
                agent_name,
                content,
                reply_to_message,
                metadata,
            ),
            r,
        ),
        forall|i: int|
            0 <= i < old(s)@.messages.len() && (#[trigger] old(s)@.messages[i]).room_id == room_id@
                ==> old(s)@.messages[i].seq < i64::MAX,
    ensures
        r is Ok ==> final(s)@.messages.len() == old(s)@.messages.len() + 1,
        r is Ok ==> final(s)@.messages.take(old(s)@.messages.len() as int) == old(s)@.messages,
        r is Ok ==> ({
            let row = final(s)@.messages.last();
            &&& row.message_id == message_id@
            &&& row.room_id == room_id@
            &&& row.agent_id == agent_id@
            &&& row.agent_name == agent_name@
            &&& row.content == content@
            &&& row.reply_to_message == reply_to_message.deep_view()
            &&& row.metadata == metadata@
            &&& exists|at: Timestamp|
                in_calendar(at) && row.created_at == #[trigger] shown(at, COLUMN_FORMAT@)
        }),
        r matches Ok(m) ==> ({
            &&& m@.message_id == message_id@
            &&& m@.room_id == room_id@
            &&& m@.agent_id == agent_id@
            &&& m@.agent_name == agent_name@
            &&& m@.content == content@
            &&& m@.reply_to_message == reply_to_message.deep_view()
            &&& m@.metadata == metadata@
            &&& m@.seq == final(s)@.messages.last().seq
            &&& column_instant(final(s)@.messages.last().created_at) matches Some(t)
                ==> m@.timestamp
                == t
        }),
        r is Ok ==> forall|i: int|
            0 <= i < old(s)@.messages.len() && (#[trigger] old(s)@.messages[i]).room_id == room_id@
                ==> old(s)@.messages[i].seq < final(s)@.messages.last().seq,
        r is Ok ==> (exists|i: int|
            0 <= i < old(s)@.messages.len() && (#[trigger] old(s)@.messages[i]).room_id == room_id@
                && old(s)@.messages[i].seq + 1 == final(s)@.messages.last().seq) || (
        final(s)@.messages.last().seq == 1 && forall|i: int|
            0 <= i < old(s)@.messages.len() ==> (#[trigger] old(s)@.messages[i]).room_id
                != room_id@),
        r is Ok <==> (forall|i: int|
            0 <= i < old(s)@.messages.len() ==> (#[trigger] old(s)@.messages[i]).message_id
                != message_id@) && (exists|i: int|
            0 <= i < old(s)@.rooms.len() && (#[trigger] old(s)@.rooms[i]).room_id == room_id@)
            && (reply_to_message matches Some(t) ==> t@ == message_id@ || exists|i: int|
            0 <= i < old(s)@.messages.len() && (#[trigger] old(s)@.messages[i]).message_id == t@),
        (exists|i: int|
            0 <= i < old(s)@.messages.len() && (#[trigger] old(s)@.messages[i]).message_id
                == message_id@) <==> (r matches Err(e) && e@ == StoreErrorView::Db(
            DbError::DuplicateMessage,
        )),
        r matches Err(e) ==> e@ == StoreErrorView::Db(DbError::DuplicateMessage) || e@
            == StoreErrorView::Db(DbError::ForeignKey),
        r is Err ==> final(s)@ == old(s)@,
        final(s)@.rooms == old(s)@.rooms,
        final(s)@.sessions == old(s)@.sessions,
        final(s)@.votes == old(s)@.votes,
        final(s)@.ballots == old(s)@.ballots,
        final(s)@.keys == old(s)@.keys,
        final(s)@.subscriptions == old(s)@.subscriptions,
        final(s)@.deliveries == old(s)@.deliveries,
        final(s)@.tasks == old(s)@.tasks,
{
    lemma_highest_seq(old(s)@.messages, room_id@);
}

/// A row is appended to the rooms as it is, where its id and its name are new, and its
/// parent is another room of the table; otherwise nothing changes.
pub proof fn a_room_row_is_appended_as_it_is(
    s: &mut Store,
    given: RoomRow,
    r: Result<(), StoreError>,
)
    requires
        call_ensures(Store::append_room, (s, given), r),
    ensures
        r is Ok ==> final(s)@.rooms.len() == old(s)@.rooms.len() + 1,
        r is Ok ==> final(s)@.rooms.take(old(s)@.rooms.len() as int) == old(s)@.rooms,
        r is Ok ==> ({
            let row = final(s)@.rooms.last();
            &&& row.room_id == given@.room_id
            &&& row.name == given@.name
            &&& row.description == given@.description
            &&& row.parent_id == given@.parent_id
            &&& row.created_by == given@.created_by
            &&& row.created_at == given@.created_at
            &&& row.visibility == given@.visibility
            &&& row.owner_key == given@.owner_key
            &&& row.encrypted == given@.encrypted
        }),
        r is Ok <==> given@.parent_id != Some(given@.room_id) && (forall|i: int|
            0 <= i < old(s)@.rooms.len() ==> (#[trigger] old(s)@.rooms[i]).room_id != given@.room_id
                && old(s)@.rooms[i].name != given@.name) && (given@.parent_id matches Some(p)
            ==> exists|i: int|
            0 <= i < old(s)@.rooms.len() && (#[trigger] old(s)@.rooms[i]).room_id == p),
        r is Err ==> final(s)@ == old(s)@,
        final(s)@.messages == old(s)@.messages,
        final(s)@.sessions == old(s)@.sessions,
        final(s)@.votes == old(s)@.votes,
        final(s)@.ballots == old(s)@.ballots,
        final(s)@.keys == old(s)@.keys,
        final(s)@.subscriptions == old(s)@.subscriptions,
        final(s)@.deliveries == old(s)@.deliveries,
        final(s)@.tasks == old(s)@.tasks,
{
}

/// A row is appended to the sessions as it is, where its id is new.
pub proof fn a_session_row_is_appended_as_it_is(
    s: &mut Store,
    given: SessionRow,
    r: Result<(), StoreError>,
)
    requires
        call_ensures(Store::append_session, (s, given), r),
    ensures
        r is Ok ==> final(s)@.sessions.len() == old(s)@.sessions.len() + 1,
        r is Ok ==> final(s)@.sessions.take(old(s)@.sessions.len() as int) == old(s)@.sessions,
        r is Ok ==> ({
            let row = final(s)@.sessions.last();
            &&& row.session_id == given@.session_id
            &&& row.agent_id == given@.agent_id
            &&& row.agent_name == given@.agent_name
            &&& row.capabilities == given@.capabilities
            &&& row.connected_at == given@.connected_at
            &&& row.disconnected_at == given@.disconnected_at
        }),
        r is Err <==> exists|i: int|
            0 <= i < old(s)@.sessions.len() && (#[trigger] old(s)@.sessions[i]).session_id
                == given@.session_id,
        r is Err ==> final(s)@ == old(s)@,
        final(s)@.rooms == old(s)@.rooms,
        final(s)@.messages == old(s)@.messages,
        final(s)@.votes == old(s)@.votes,
        final(s)@.ballots == old(s)@.ballots,
        final(s)@.keys == old(s)@.keys,
        final(s)@.subscriptions == old(s)@.subscriptions,
        final(s)@.deliveries == old(s)@.deliveries,
        final(s)@.tasks == old(s)@.tasks,
{
}

/// A row is appended to the votes as it is, where its id is new.
pub proof fn a_vote_row_is_appended_as_it_is(
    s: &mut Store,
    given: VoteRow,
    r: Result<(), StoreError>,
)
    requires
        call_ensures(Store::append_vote, (s, given), r),
    ensures
        r is Ok ==> final(s)@.votes.len() == old(s)@.votes.len() + 1,
        r is Ok ==> final(s)@.votes.take(old(s)@.votes.len() as int) == old(s)@.votes,
        r is Ok ==> ({
            let row = final(s)@.votes.last();
            &&& row.vote_id == given@.vote_id
            &&& row.room_id == given@.room_id
            &&& row.title == given@.title
            &&& row.description == given@.description
            &&& row.options == given@.options
            &&& row.created_by == given@.created_by
            &&& row.created_at == given@.created_at
            &&& row.closes_at == given@.closes_at
            &&& row.status == given@.status
            &&& row.eligible_voters == given@.eligible_voters
        }),
        r is Err <==> exists|i: int|
            0 <= i < old(s)@.votes.len() && (#[trigger] old(s)@.votes[i]).vote_id == given@.vote_id,
        r is Err ==> final(s)@ == old(s)@,
        final(s)@.rooms == old(s)@.rooms,
        final(s)@.messages == old(s)@.messages,
        final(s)@.sessions == old(s)@.sessions,
        final(s)@.ballots == old(s)@.ballots,
        final(s)@.keys == old(s)@.keys,
        final(s)@.subscriptions == old(s)@.subscriptions,
        final(s)@.deliveries == old(s)@.deliveries,
        final(s)@.tasks == old(s)@.tasks,
{
}

/// A row is appended to the subscriptions as it is, where its id is new.
pub proof fn a_subscription_row_is_appended_as_it_is(
    s: &mut Store,
    given: SubscriptionRow,
    r: Result<(), StoreError>,
)
    requires
        call_ensures(Store::append_subscription, (s, given), r),
    ensures
        r is Ok ==> final(s)@.subscriptions.len() == old(s)@.subscriptions.len() + 1,
        r is Ok ==> final(s)@.subscriptions.take(old(s)@.subscriptions.len() as int)
            == old(s)@.subscriptions,
        r is Ok ==> ({
            let row = final(s)@.subscriptions.last();
            &&& row.subscription_id == given@.subscription_id
            &&& row.room_id == given@.room_id
            &&& row.owner_key == given@.owner_key
            &&& row.webhook_url == given@.webhook_url
            &&& row.secret == given@.secret
            &&& row.kinds == given@.kinds
            &&& row.only_from == given@.only_from
            &&& row.not_from == given@.not_from
            &&& row.exclude_thinking == given@.exclude_thinking
            &&& row.since_seq == given@.since_seq
            &&& row.last_delivered_seq == given@.last_delivered_seq
            &&& row.status == given@.status
            &&& row.failure_count == given@.failure_count
            &&& row.created_at == given@.created_at
        }),
        r is Err <==> exists|i: int|
            0 <= i < old(s)@.subscriptions.len()
                && (#[trigger] old(s)@.subscriptions[i]).subscription_id == given@.subscription_id,
        r is Err ==> final(s)@ == old(s)@,
        final(s)@.rooms == old(s)@.rooms,
        final(s)@.messages == old(s)@.messages,
        final(s)@.sessions == old(s)@.sessions,
        final(s)@.votes == old(s)@.votes,
        final(s)@.ballots == old(s)@.ballots,
        final(s)@.keys == old(s)@.keys,
        final(s)@.deliveries == old(s)@.deliveries,
        final(s)@.tasks == old(s)@.tasks,
{
}

/// A row is appended to the deliveries as it is, where its id is new, its message is not
/// queued for the subscription yet and the subscription is there.
pub proof fn a_delivery_row_is_appended_as_it_is(
    s: &mut Store,
    given: DeliveryRow,
    r: bool,
)
    requires
        call_ensures(Store::append_delivery, (s, given), r),
    ensures
        r <==> (forall|i: int|
            0 <= i < old(s)@.deliveries.len() ==> (#[trigger] old(s)@.deliveries[i]).delivery_id
                != given@.delivery_id
                    && (old(s)@.deliveries[i].subscription_id == given@.subscription_id
                ==> old(s)@.deliveries[i].message_seq != given@.message_seq)) && exists|i: int|
            0 <= i < old(s)@.subscriptions.len()
                && (#[trigger] old(s)@.subscriptions[i]).subscription_id
                == given@.subscription_id,
        !r ==> final(s)@ == old(s)@,
        r ==> final(s)@.deliveries == old(s)@.deliveries.push(given@),
        final(s)@.rooms == old(s)@.rooms,
        final(s)@.messages == old(s)@.messages,
        final(s)@.sessions == old(s)@.sessions,
        final(s)@.votes == old(s)@.votes,
        final(s)@.ballots == old(s)@.ballots,
        final(s)@.keys == old(s)@.keys,
        final(s)@.subscriptions == old(s)@.subscriptions,
        final(s)@.tasks == old(s)@.tasks,
{
}

/// A row is appended to the messages as it is but for its number, which is the one after
/// the highest of its room, and the one that is handed back.
pub proof fn a_message_row_is_appended_with_the_next_number(
    s: &mut Store,
    given: MessageRow,
    r: Result<i64, StoreError>,
)
    requires
        call_ensures(Store::append_message, (s, given), r),
        forall|i: int|
            0 <= i < old(s)@.messages.len() && (#[trigger] old(s)@.messages[i]).room_id
                == given@.room_id
                ==> old(s)@.messages[i].seq < i64::MAX,
    ensures
        r is Ok ==> final(s)@.messages.len() == old(s)@.messages.len() + 1,
        r is Ok ==> final(s)@.messages.take(old(s)@.messages.len() as int) == old(s)@.messages,
        r is Ok ==> ({
            let row = final(s)@.messages.last();
            &&& row.message_id == given@.message_id
            &&& row.room_id == given@.room_id
            &&& row.agent_id == given@.agent_id
            &&& row.agent_name == given@.agent_name
            &&& row.content == given@.content
            &&& row.reply_to_message == given@.reply_to_message
            &&& row.metadata == given@.metadata
            &&& row.created_at == given@.created_at
        }),
        r matches Ok(n) ==> final(s)@.messages.last().seq == n,
        r matches Ok(n) ==> forall|i: int|
            0 <= i < old(s)@.messages.len() && (#[trigger] old(s)@.messages[i]).room_id
                == given@.room_id
                ==> old(s)@.messages[i].seq < n,
        r matches Ok(n) ==> (exists|i: int|
            0 <= i < old(s)@.messages.len() && (#[trigger] old(s)@.messages[i]).room_id
                == given@.room_id
                && old(s)@.messages[i].seq + 1 == n) || (n == 1 && forall|i: int|
            0 <= i < old(s)@.messages.len() ==> (#[trigger] old(s)@.messages[i]).room_id
                != given@.room_id),
        r is Ok <==> (forall|i: int|
            0 <= i < old(s)@.messages.len() ==> (#[trigger] old(s)@.messages[i]).message_id
                != given@.message_id) && (exists|i: int|
            0 <= i < old(s)@.rooms.len() && (#[trigger] old(s)@.rooms[i]).room_id == given@.room_id)
            && (given@.reply_to_message matches Some(t) ==> t == given@.message_id || exists|i: int|
            0 <= i < old(s)@.messages.len() && (#[trigger] old(s)@.messages[i]).message_id == t),
        r is Err ==> final(s)@ == old(s)@,
        final(s)@.rooms == old(s)@.rooms,
        final(s)@.sessions == old(s)@.sessions,
        final(s)@.votes == old(s)@.votes,
        final(s)@.ballots == old(s)@.ballots,
        final(s)@.keys == old(s)@.keys,
        final(s)@.subscriptions == old(s)@.subscriptions,
        final(s)@.deliveries == old(s)@.deliveries,
        final(s)@.tasks == old(s)@.tasks,
{
    lemma_highest_seq(old(s)@.messages, given@.room_id);
}

/// An error says what it is about: a name that is taken is named, and a failure of the
/// tables is told behind a prefix.
pub proof fn errors_say_what_they_are_about(
    e: &StoreError,
    r: String,
)
    requires
        call_ensures(StoreError::text, (e,), r),
    ensures
        e@ matches StoreErrorView::RoomNameTaken(name)
            ==> r@ == "room name already taken: "@ + name,
        e@ is VoteNotFound ==> r@ == "vote not found"@,
        e@ is VoteClosed ==> r@ == "vote is closed"@,
        e@ is AlreadyVoted ==> r@ == "already voted"@,
        e@ matches StoreErrorView::Db(d) ==> r@ == "database error: "@ + d.message(),
{
}

/// A failure of the tables names the constraint that failed.
pub proof fn failures_name_their_constraint(
    d: &DbError,
    r: &'static str,
)
    requires
        call_ensures(DbError::text, (d,), r),
    ensures
        d is OwnParent ==> r@ == "CHECK constraint failed: room_id != parent_id"@,
        d is DuplicateRoom ==> r@ == "UNIQUE constraint failed: rooms.room_id"@,
        d is DuplicateMessage ==> r@ == "UNIQUE constraint failed: messages.message_id"@,
        d is DuplicateSession ==> r@ == "UNIQUE constraint failed: agent_sessions.session_id"@,
        d is DuplicateVote ==> r@ == "UNIQUE constraint failed: votes.vote_id"@,
        d is DuplicateKey ==> r@ == "UNIQUE constraint failed: api_keys.api_key"@,
        d is DuplicateSubscription ==> r@
            == "UNIQUE constraint failed: subscriptions.subscription_id"@,
        d is ForeignKey ==> r@ == "FOREIGN KEY constraint failed"@,
        d is NoRows ==> r@ == "Query returned no rows"@,
{
}

} // verus!
