//! The tables of webhook subscriptions and of their pending deliveries.

use vstd::prelude::*;
use crate::json::{column_list, column_texts, texts_json, write_texts};
use crate::rows::{
    any, exists_row, find, first_match, first_n, limit_front, ordered, rewrite, select, sort,
    views, Row,
};
use crate::store::{
    DbError, DeliveryRow, DeliveryRowView, Store, StoreError, StoreErrorView, StoreView,
    SubscriptionRow, SubscriptionRowView,
};
use crate::text::{copy_list, copy_text, lex_lt, own, text_lt};
use crate::time::{
    in_calendar, kept, now, parse_rfc3339, rfc3339_instant, show, shown, Timestamp, COLUMN_FORMAT,
};

verus! {

/// A webhook subscription, as its owner sees it.
#[derive(Debug)]
pub struct Subscription {
    pub subscription_id: String,
    pub room_id: String,
    pub webhook_url: String,
    pub kinds: Vec<String>,
    pub only_from: Option<String>,
    pub not_from: Option<String>,
    pub exclude_thinking: bool,
    pub since_seq: i64,
    pub last_delivered_seq: i64,
    pub status: String,
    pub failure_count: i64,
    pub created_at: Timestamp,
}

/// What a `Subscription` stands for.
pub struct SubscriptionView {
    pub subscription_id: Seq<char>,
    pub room_id: Seq<char>,
    pub webhook_url: Seq<char>,
    pub kinds: Seq<Seq<char>>,
    pub only_from: Option<Seq<char>>,
    pub not_from: Option<Seq<char>>,
    pub exclude_thinking: bool,
    pub since_seq: i64,
    pub last_delivered_seq: i64,
    pub status: Seq<char>,
    pub failure_count: i64,
    pub created_at: Timestamp,
}

impl View for Subscription {
    type V = SubscriptionView;

    open spec fn view(&self) -> SubscriptionView {
        SubscriptionView {
            subscription_id: self.subscription_id@,
            room_id: self.room_id@,
            webhook_url: self.webhook_url@,
            kinds: self.kinds.deep_view(),
            only_from: self.only_from.deep_view(),
            not_from: self.not_from.deep_view(),
            exclude_thinking: self.exclude_thinking,
            since_seq: self.since_seq,
            last_delivered_seq: self.last_delivered_seq,
            status: self.status@,
            failure_count: self.failure_count,
            created_at: self.created_at,
        }
    }
}

impl Row for Subscription {
    fn duplicate(&self) -> (r: Subscription) {
        Subscription {
            subscription_id: self.subscription_id.clone(),
            room_id: self.room_id.clone(),
            webhook_url: self.webhook_url.clone(),
            kinds: copy_list(&self.kinds),
            only_from: copy_text(&self.only_from),
            not_from: copy_text(&self.not_from),
            exclude_thinking: self.exclude_thinking,
            since_seq: self.since_seq,
            last_delivered_seq: self.last_delivered_seq,
            status: self.status.clone(),
            failure_count: self.failure_count,
            created_at: self.created_at,
        }
    }
}

impl Clone for Subscription {
    fn clone(&self) -> (r: Subscription)
        ensures
            r@ == self@,
    {
        self.duplicate()
    }
}

/// A delivery that waits for its next attempt.
#[derive(Debug)]
pub struct PendingDelivery {
    pub delivery_id: String,
    pub subscription_id: String,
    pub message_seq: i64,
    pub message_id: String,
    pub attempts: i64,
}

/// What a `PendingDelivery` stands for.
pub struct PendingDeliveryView {
    pub delivery_id: Seq<char>,
    pub subscription_id: Seq<char>,
    pub message_seq: i64,
    pub message_id: Seq<char>,
    pub attempts: i64,
}

impl View for PendingDelivery {
    type V = PendingDeliveryView;

    open spec fn view(&self) -> PendingDeliveryView {
        PendingDeliveryView {
            delivery_id: self.delivery_id@,
            subscription_id: self.subscription_id@,
            message_seq: self.message_seq,
            message_id: self.message_id@,
            attempts: self.attempts,
        }
    }
}

impl Row for PendingDelivery {
    fn duplicate(&self) -> (r: PendingDelivery) {
        PendingDelivery {
            delivery_id: self.delivery_id.clone(),
            subscription_id: self.subscription_id.clone(),
            message_seq: self.message_seq,
            message_id: self.message_id.clone(),
            attempts: self.attempts,
        }
    }
}

impl Clone for PendingDelivery {
    fn clone(&self) -> (r: PendingDelivery)
        ensures
            r@ == self@,
    {
        self.duplicate()
    }
}

/// The subscriptions with an id.
pub open spec fn with_subscription_id(id: Seq<char>) -> spec_fn(SubscriptionRowView) -> bool {
    |s: SubscriptionRowView| s.subscription_id == id
}

/// The subscriptions with an id and an owner.
pub open spec fn owned_subscription(id: Seq<char>, owner_key: Seq<char>) -> spec_fn(
    SubscriptionRowView,
) -> bool {
    |s: SubscriptionRowView| s.subscription_id == id && s.owner_key == owner_key
}

/// The subscriptions of an owner, in one room where one is given.
pub open spec fn subscriptions_of(owner_key: Seq<char>, room_id: Option<Seq<char>>) -> spec_fn(
    SubscriptionRowView,
) -> bool {
    |s: SubscriptionRowView|
        s.owner_key == owner_key && (room_id is None || room_id == Some(s.room_id))
}

/// The active subscriptions of a room.
pub open spec fn active_in(room_id: Seq<char>) -> spec_fn(SubscriptionRowView) -> bool {
    |s: SubscriptionRowView| s.room_id == room_id && s.status == "active"@
}

/// The order of subscription lists: the latest first.
pub open spec fn newest_first() -> spec_fn(SubscriptionRowView, SubscriptionRowView) -> bool {
    |a: SubscriptionRowView, b: SubscriptionRowView| lex_lt(b.created_at, a.created_at)
}

/// The deliveries with an id.
pub open spec fn with_delivery_id(id: Seq<char>) -> spec_fn(DeliveryRowView) -> bool {
    |d: DeliveryRowView| d.delivery_id == id
}

/// The deliveries of a message to a subscription.
pub open spec fn delivery_of(subscription_id: Seq<char>, message_seq: i64) -> spec_fn(
    DeliveryRowView,
) -> bool {
    |d: DeliveryRowView| d.subscription_id == subscription_id && d.message_seq == message_seq
}

/// The deliveries that are due at a time.
pub open spec fn due_at(t: Seq<char>) -> spec_fn(DeliveryRowView) -> bool {
    |d: DeliveryRowView| !lex_lt(t, d.next_attempt_at)
}

/// The order of deliveries: the next attempt first.
pub open spec fn by_attempt() -> spec_fn(DeliveryRowView, DeliveryRowView) -> bool {
    |a: DeliveryRowView, b: DeliveryRowView| lex_lt(a.next_attempt_at, b.next_attempt_at)
}

/// When the next attempt of any delivery is due; none where nothing waits, or
/// where the column names no instant.
pub open spec fn earliest_attempt(deliveries: Seq<DeliveryRowView>) -> Option<Timestamp> {
    if deliveries.len() == 0 {
        None
    } else {
        match rfc3339_instant(ordered(deliveries, by_attempt())[0].next_attempt_at) {
            Some(t) => Some(Timestamp { secs: t.0, nanos: t.1 }),
            None => None,
        }
    }
}

/// The deliveries that are handed out at a time: those that are due, the most
/// overdue first, at most `limit`.
pub open spec fn handed_out(
    deliveries: Seq<DeliveryRowView>,
    now: Timestamp,
    limit: int,
) -> Seq<PendingDeliveryView> {
    first_n(
        ordered(deliveries.filter(due_at(shown(now, COLUMN_FORMAT@))), by_attempt()),
        limit,
    ).map_values(|d: DeliveryRowView| pending(d))
}

/// The kinds that a column lists; none at all where it is empty.
pub open spec fn listed_kinds(kinds: Option<Seq<char>>) -> Seq<Seq<char>> {
    match kinds {
        Some(json) => column_texts(json),
        None => Seq::empty(),
    }
}

/// The column text of a list of kinds: empty where every kind matches.
pub open spec fn kinds_column(kinds: Seq<Seq<char>>) -> Option<Seq<char>> {
    if kinds.len() == 0 {
        None
    } else {
        Some(texts_json(kinds))
    }
}

/// Whether an instant is a correct reading of an RFC 3339 text. A text that
/// names none may be read as any instant of the calendar.
pub open spec fn reads_rfc3339(text: Seq<char>, t: Timestamp) -> bool {
    match rfc3339_instant(text) {
        Some(named) => t == (Timestamp { secs: named.0, nanos: named.1 }),
        None => in_calendar(t),
    }
}

/// The instant that a column keeps of an instant: the one its text names. An
/// instant whose text names none is as it was.
pub open spec fn as_kept(t: Timestamp) -> Timestamp {
    match rfc3339_instant(shown(t, COLUMN_FORMAT@)) {
        Some(named) => Timestamp { secs: named.0, nanos: named.1 },
        None => t,
    }
}

/// Whether a subscription is a correct reading of a row.
pub open spec fn subscription_reads(row: SubscriptionRowView, s: SubscriptionView) -> bool {
    &&& s == (SubscriptionView {
        subscription_id: row.subscription_id,
        room_id: row.room_id,
        webhook_url: row.webhook_url,
        kinds: listed_kinds(row.kinds),
        only_from: row.only_from,
        not_from: row.not_from,
        exclude_thinking: row.exclude_thinking,
        since_seq: row.since_seq,
        last_delivered_seq: row.last_delivered_seq,
        status: row.status,
        failure_count: row.failure_count,
        created_at: s.created_at,
    })
    &&& reads_rfc3339(row.created_at, s.created_at)
}

/// Whether subscriptions are a correct reading of rows, one by one.
pub open spec fn subscriptions_read(
    rows: Seq<SubscriptionRowView>,
    list: Seq<Subscription>,
) -> bool {
    &&& list.len() == rows.len()
    &&& forall|i: int| 0 <= i < rows.len() ==> subscription_reads(rows[i], (#[trigger] list[i])@)
}

/// Whether a triple is a correct reading of a row: subscription, owner key,
/// secret.
pub open spec fn full_subscription_reads(
    row: SubscriptionRowView,
    full: (Subscription, String, String),
) -> bool {
    subscription_reads(row, full.0@) && full.1@ == row.owner_key && full.2@ == row.secret
}

/// Whether triples are a correct reading of rows, one by one.
pub open spec fn full_subscriptions_read(
    rows: Seq<SubscriptionRowView>,
    list: Seq<(Subscription, String, String)>,
) -> bool {
    &&& list.len() == rows.len()
    &&& forall|i: int| 0 <= i < rows.len() ==> full_subscription_reads(rows[i], #[trigger] list[i])
}

/// What a waiting delivery shows of a row.
pub open spec fn pending(row: DeliveryRowView) -> PendingDeliveryView {
    PendingDeliveryView {
        delivery_id: row.delivery_id,
        subscription_id: row.subscription_id,
        message_seq: row.message_seq,
        message_id: row.message_id,
        attempts: row.attempts,
    }
}

/// The tables with a subscription added.
pub open spec fn with_subscription(s: StoreView, row: SubscriptionRowView) -> StoreView {
    StoreView { subscriptions: s.subscriptions.push(row), ..s }
}

/// What adding a subscription does: one whose id is not new changes nothing,
/// any other is in the table afterwards and handed back, with the time of its
/// creation as the table keeps it.
pub open spec fn subscription_creation(
    before: Store,
    after: Store,
    row: SubscriptionRowView,
    kinds: Seq<Seq<char>>,
    created_at: Timestamp,
    r: Result<Subscription, StoreError>,
) -> bool {
    if any(before@.subscriptions, with_subscription_id(row.subscription_id)) {
        r matches Err(e) && e@ == StoreErrorView::Db(DbError::DuplicateSubscription) && after
            == before
    } else {
        r matches Ok(s) && s@ == (SubscriptionView {
            subscription_id: row.subscription_id,
            room_id: row.room_id,
            webhook_url: row.webhook_url,
            kinds,
            only_from: row.only_from,
            not_from: row.not_from,
            exclude_thinking: row.exclude_thinking,
            since_seq: row.since_seq,
            last_delivered_seq: row.last_delivered_seq,
            status: row.status,
            failure_count: row.failure_count,
            created_at: as_kept(created_at),
        }) && after@ == with_subscription(before@, row)
    }
}

/// The tables with a delivery added.
pub open spec fn with_delivery(s: StoreView, row: DeliveryRowView) -> StoreView {
    StoreView { deliveries: s.deliveries.push(row), ..s }
}

/// The tables without a subscription of an owner and without its deliveries.
pub open spec fn without_subscription(
    s: StoreView,
    id: Seq<char>,
    owner_key: Seq<char>,
) -> StoreView {
    if any(s.subscriptions, owned_subscription(id, owner_key)) {
        StoreView {
            subscriptions: s.subscriptions.filter(
                |t: SubscriptionRowView| !owned_subscription(id, owner_key)(t),
            ),
            deliveries: s.deliveries.filter(|d: DeliveryRowView| d.subscription_id != id),
            ..s
        }
    } else {
        s
    }
}

/// Whether the queue takes a delivery: its id must be new, its message must not
/// be queued for the subscription yet, and the subscription must be there.
pub open spec fn accepts_delivery(s: StoreView, row: DeliveryRowView) -> bool {
    &&& !any(s.deliveries, with_delivery_id(row.delivery_id))
    &&& !any(s.deliveries, delivery_of(row.subscription_id, row.message_seq))
    &&& any(s.subscriptions, with_subscription_id(row.subscription_id))
}

/// A subscription with another status, and another failure count where one is
/// given, where it has the given id.
pub open spec fn status_where(
    id: Seq<char>,
    status: Seq<char>,
    failure_count: Option<i64>,
) -> spec_fn(SubscriptionRowView) -> SubscriptionRowView {
    |s: SubscriptionRowView|
        if s.subscription_id == id {
            SubscriptionRowView {
                status,
                failure_count: match failure_count {
                    Some(n) => n,
                    None => s.failure_count,
                },
                ..s
            }
        } else {
            s
        }
}

/// A subscription whose cursor moved up to a sequence number, where it has the
/// given id and the number is higher. Its failures are forgotten then.
pub open spec fn advanced_where(id: Seq<char>, seq: i64) -> spec_fn(
    SubscriptionRowView,
) -> SubscriptionRowView {
    |s: SubscriptionRowView|
        if s.subscription_id == id && seq > s.last_delivered_seq {
            SubscriptionRowView { last_delivered_seq: seq, failure_count: 0, ..s }
        } else {
            s
        }
}

/// A delivery with another attempt ahead, where it has the given id.
pub open spec fn rescheduled_where(
    id: Seq<char>,
    next_attempt_at: Seq<char>,
    attempts: i64,
    last_error: Seq<char>,
) -> spec_fn(DeliveryRowView) -> DeliveryRowView {
    |d: DeliveryRowView|
        if d.delivery_id == id {
            DeliveryRowView { next_attempt_at, attempts, last_error: Some(last_error), ..d }
        } else {
            d
        }
}

/// Reads a row as a subscription with its owner key and its secret.
fn read_subscription(row: &SubscriptionRow) -> (r: (Subscription, String, String))
    ensures
        full_subscription_reads(row@, r),
{
    let kinds: Vec<String> = match &row.kinds {
        Some(json) => column_list(json.as_str()),
        None => {
            let none: Vec<String> = Vec::new();
            assert(none.deep_view() =~= Seq::empty());
            none
        },
    };
    let created_at = match parse_rfc3339(row.created_at.as_str()) {
        Some(t) => t,
        None => now(),
    };
    (
        Subscription {
            subscription_id: row.subscription_id.clone(),
            room_id: row.room_id.clone(),
            webhook_url: row.webhook_url.clone(),
            kinds,
            only_from: copy_text(&row.only_from),
            not_from: copy_text(&row.not_from),
            exclude_thinking: row.exclude_thinking,
            since_seq: row.since_seq,
            last_delivered_seq: row.last_delivered_seq,
            status: row.status.clone(),
            failure_count: row.failure_count,
            created_at,
        },
        row.owner_key.clone(),
        row.secret.clone(),
    )
}

/// Sorts deliveries by their next attempt.
fn sort_by_attempt(rows: Vec<DeliveryRow>) -> (r: Vec<DeliveryRow>)
    ensures
        views(r@) == ordered(views(rows@), by_attempt()),
{
    sort(
        rows,
        |a: &DeliveryRow, b: &DeliveryRow| -> (o: bool)
            ensures
                o == lex_lt(a@.next_attempt_at, b@.next_attempt_at)
            { text_lt(a.next_attempt_at.as_str(), b.next_attempt_at.as_str()) },
        Ghost(by_attempt()),
    )
}

impl Store {
    fn find_subscription(&self, id: &str) -> (r: Option<usize>)
        ensures
            r is Some <==> any(self@.subscriptions, with_subscription_id(id@)),
            match r {
                Some(i) => i < self.subscriptions.len() && first_match(
                    self@.subscriptions,
                    with_subscription_id(id@),
                ) == Some(self.subscriptions@[i as int]@),
                None => first_match(self@.subscriptions, with_subscription_id(id@)) is None,
            },
    {
        find(
            &self.subscriptions,
            |t: &SubscriptionRow| -> (b: bool)
                ensures
                    b == (t@.subscription_id == id@)
                { *t.subscription_id.as_str() == *id },
            Ghost(with_subscription_id(id@)),
        )
    }

    /// Adds a row to the table. One whose id is not new changes nothing.
    pub fn append_subscription(&mut self, row: SubscriptionRow) -> (r: Result<(), StoreError>)
        ensures
            if any(old(self)@.subscriptions, with_subscription_id(row@.subscription_id)) {
                r matches Err(e) && e@ == StoreErrorView::Db(DbError::DuplicateSubscription)
                    && *final(self) == *old(self)
            } else {
                r is Ok && final(self)@ == with_subscription(old(self)@, row@)
            },
    {
        if self.find_subscription(row.subscription_id.as_str()).is_some() {
            return Err(StoreError::Db(DbError::DuplicateSubscription));
        }
        self.subscriptions.push(row);
        assert(self@ =~= with_subscription(old(self)@, row@));
        Ok(())
    }

    /// Adds an active subscription created at the given time. One whose id is
    /// not new changes nothing.
    pub fn create_subscription_at(
        &mut self,
        subscription_id: &str,
        room_id: &str,
        owner_key: &str,
        webhook_url: &str,
        secret: &str,
        kinds: &Vec<String>,
        only_from: Option<&str>,
        not_from: Option<&str>,
        exclude_thinking: bool,
        since_seq: i64,
        created_at: Timestamp,
    ) -> (r: Result<Subscription, StoreError>)
        ensures
            subscription_creation(
                *old(self),
                *final(self),
                (SubscriptionRowView {
                    subscription_id: subscription_id@,
                    room_id: room_id@,
                    owner_key: owner_key@,
                    webhook_url: webhook_url@,
                    secret: secret@,
                    kinds: kinds_column(kinds.deep_view()),
                    only_from: only_from.deep_view(),
                    not_from: not_from.deep_view(),
                    exclude_thinking,
                    since_seq,
                    last_delivered_seq: since_seq,
                    status: "active"@,
                    failure_count: 0,
                    created_at: shown(created_at, COLUMN_FORMAT@),
                }),
                kinds.deep_view(),
                created_at,
                r,
            ),
            kept(created_at),
            r is Ok ==> listed_kinds(final(self)@.subscriptions.last().kinds) == kinds.deep_view(),
    {
        let kinds_text: Option<String> = if kinds.len() == 0 {
            assert(kinds.deep_view() =~= Seq::empty());
            None
        } else {
            Some(write_texts(kinds))
        };
        let created_text = show(created_at, COLUMN_FORMAT);
        let stored_at = match parse_rfc3339(created_text.as_str()) {
            Some(t) => t,
            None => created_at,
        };
        let row = SubscriptionRow {
            subscription_id: subscription_id.to_owned(),
            room_id: room_id.to_owned(),
            owner_key: owner_key.to_owned(),
            webhook_url: webhook_url.to_owned(),
            secret: secret.to_owned(),
            kinds: kinds_text,
            only_from: own(only_from),
            not_from: own(not_from),
            exclude_thinking,
            since_seq,
            last_delivered_seq: since_seq,
            status: "active".to_owned(),
            failure_count: 0,
            created_at: created_text,
        };
        if let Err(e) = self.append_subscription(row) {
            return Err(e);
        }
        assert(self@.subscriptions.last() == row@);
        Ok(
            Subscription {
                subscription_id: subscription_id.to_owned(),
                room_id: room_id.to_owned(),
                webhook_url: webhook_url.to_owned(),
                kinds: copy_list(kinds),
                only_from: own(only_from),
                not_from: own(not_from),
                exclude_thinking,
                since_seq,
                last_delivered_seq: since_seq,
                status: "active".to_owned(),
                failure_count: 0,
                created_at: stored_at,
            },
        )
    }

    /// Adds an active subscription; the clock says when it was created.
    pub fn create_subscription(
        &mut self,
        subscription_id: &str,
        room_id: &str,
        owner_key: &str,
        webhook_url: &str,
        secret: &str,
        kinds: &Vec<String>,
        only_from: Option<&str>,
        not_from: Option<&str>,
        exclude_thinking: bool,
        since_seq: i64,
    ) -> (r: Result<Subscription, StoreError>)
        ensures
            exists|created_at: Timestamp|
                in_calendar(created_at) && kept(created_at) && #[trigger] subscription_creation(
                    *old(self),
                    *final(self),
                    (SubscriptionRowView {
                        subscription_id: subscription_id@,
                        room_id: room_id@,
                        owner_key: owner_key@,
                        webhook_url: webhook_url@,
                        secret: secret@,
                        kinds: kinds_column(kinds.deep_view()),
                        only_from: only_from.deep_view(),
                        not_from: not_from.deep_view(),
                        exclude_thinking,
                        since_seq,
                        last_delivered_seq: since_seq,
                        status: "active"@,
                        failure_count: 0,
                        created_at: shown(created_at, COLUMN_FORMAT@),
                    }),
                    kinds.deep_view(),
                    created_at,
                    r,
                ),
            r is Ok ==> listed_kinds(final(self)@.subscriptions.last().kinds) == kinds.deep_view(),
    {
        self.create_subscription_at(
            subscription_id,
            room_id,
            owner_key,
            webhook_url,
            secret,
            kinds,
            only_from,
            not_from,
            exclude_thinking,
            since_seq,
            now(),
        )
    }

    /// The subscription with this id, its owner key and its secret.
    pub fn get_subscription(&self, subscription_id: &str) -> (r: Result<
        Option<(Subscription, String, String)>,
        StoreError,
    >)
        ensures
            r matches Ok(found) && match first_match(
                self@.subscriptions,
                with_subscription_id(subscription_id@),
            ) {
                Some(row) => found matches Some(full) && full_subscription_reads(row, full),
                None => found is None,
            },
    {
        match self.find_subscription(subscription_id) {
            Some(i) => Ok(Some(read_subscription(&self.subscriptions[i]))),
            None => Ok(None),
        }
    }

    /// The subscriptions of an owner, in one room where one is given, the latest
    /// first.
    pub fn list_subscriptions(&self, owner_key: &str, room_id: Option<&str>) -> (r: Result<
        Vec<Subscription>,
        StoreError,
    >)
        ensures
            r matches Ok(list) && subscriptions_read(
                ordered(
                    self@.subscriptions.filter(subscriptions_of(owner_key@, room_id.deep_view())),
                    newest_first(),
                ),
                list@,
            ),
    {
        let chosen = select(
            &self.subscriptions,
            |t: &SubscriptionRow| -> (b: bool)
                ensures
                    b == subscriptions_of(owner_key@, room_id.deep_view())(t@)
                {
                    let here = match room_id {
                        Some(room) => *t.room_id.as_str() == *room,
                        None => true,
                    };
                    *t.owner_key.as_str() == *owner_key && here
                },
            Ghost(subscriptions_of(owner_key@, room_id.deep_view())),
        );
        let sorted = sort(
            chosen,
            |a: &SubscriptionRow, b: &SubscriptionRow| -> (o: bool)
                ensures
                    o == lex_lt(b@.created_at, a@.created_at)
                { text_lt(b.created_at.as_str(), a.created_at.as_str()) },
            Ghost(newest_first()),
        );
        let mut out: Vec<Subscription> = Vec::new();
        let mut i: usize = 0;
        while i < sorted.len()
            invariant
                i <= sorted.len(),
                out.len() == i,
                forall|j: int|
                    0 <= j < i ==> subscription_reads(sorted@[j]@, (#[trigger] out@[j])@),
            decreases sorted.len() - i,
        {
            let (sub, _, _) = read_subscription(&sorted[i]);
            out.push(sub);
            i = i + 1;
        }
        Ok(out)
    }

    /// The active subscriptions of a room, with owner keys and secrets.
    pub fn list_active_subscriptions_for_room(&self, room_id: &str) -> (r: Result<
        Vec<(Subscription, String, String)>,
        StoreError,
    >)
        ensures
            r matches Ok(list) && full_subscriptions_read(
                self@.subscriptions.filter(active_in(room_id@)),
                list@,
            ),
    {
        let rows = select(
            &self.subscriptions,
            |t: &SubscriptionRow| -> (b: bool)
                ensures
                    b == active_in(room_id@)(t@)
                { *t.room_id.as_str() == *room_id && *t.status.as_str() == *"active" },
            Ghost(active_in(room_id@)),
        );
        let mut out: Vec<(Subscription, String, String)> = Vec::new();
        let mut i: usize = 0;
        while i < rows.len()
            invariant
                i <= rows.len(),
                out.len() == i,
                forall|j: int| 0 <= j < i ==> full_subscription_reads(rows@[j]@, #[trigger] out@[j]),
            decreases rows.len() - i,
        {
            out.push(read_subscription(&rows[i]));
            i = i + 1;
        }
        Ok(out)
    }

    /// Removes a subscription of an owner together with its deliveries; says
    /// whether there was one.
    pub fn delete_subscription(&mut self, subscription_id: &str, owner_key: &str) -> (r: Result<
        bool,
        StoreError,
    >)
        ensures
            r matches Ok(b) && b == any(
                old(self)@.subscriptions,
                owned_subscription(subscription_id@, owner_key@),
            ),
            final(self)@ == without_subscription(old(self)@, subscription_id@, owner_key@),
    {
        let there = exists_row(
            &self.subscriptions,
            |t: &SubscriptionRow| -> (b: bool)
                ensures
                    b == owned_subscription(subscription_id@, owner_key@)(t@)
                {
                    *t.subscription_id.as_str() == *subscription_id && *t.owner_key.as_str()
                        == *owner_key
                },
            Ghost(owned_subscription(subscription_id@, owner_key@)),
        );
        if !there {
            return Ok(false);
        }
        let subscriptions = select(
            &self.subscriptions,
            |t: &SubscriptionRow| -> (b: bool)
                ensures
                    b == !owned_subscription(subscription_id@, owner_key@)(t@)
                {
                    !(*t.subscription_id.as_str() == *subscription_id && *t.owner_key.as_str()
                        == *owner_key)
                },
            Ghost(
                |t: SubscriptionRowView| !owned_subscription(subscription_id@, owner_key@)(t),
            ),
        );
        let deliveries = select(
            &self.deliveries,
            |t: &DeliveryRow| -> (b: bool)
                ensures
                    b == (t@.subscription_id != subscription_id@)
                { !(*t.subscription_id.as_str() == *subscription_id) },
            Ghost(|d: DeliveryRowView| d.subscription_id != subscription_id@),
        );
        self.subscriptions = subscriptions;
        self.deliveries = deliveries;
        Ok(true)
    }

    /// Sets the status of a subscription, and its failure count where one is
    /// given.
    pub fn set_subscription_status(
        &mut self,
        subscription_id: &str,
        status: &str,
        failure_count: Option<i64>,
    ) -> (r: Result<(), StoreError>)
        ensures
            r is Ok,
            final(self)@ == (StoreView {
                subscriptions: old(self)@.subscriptions.map_values(
                    status_where(subscription_id@, status@, failure_count),
                ),
                ..old(self)@
            }),
    {
        let subscriptions = rewrite(
            &self.subscriptions,
            |t: &SubscriptionRow| -> (u: SubscriptionRow)
                ensures
                    u@ == status_where(subscription_id@, status@, failure_count)(t@)
                {
                    let mut u = t.duplicate();
                    if *t.subscription_id.as_str() == *subscription_id {
                        u.status = status.to_owned();
                        if let Some(n) = failure_count {
                            u.failure_count = n;
                        }
                    }
                    u
                },
            Ghost(status_where(subscription_id@, status@, failure_count)),
        );
        self.subscriptions = subscriptions;
        Ok(())
    }

    /// Moves the cursor of a subscription up, never down.
    pub fn advance_subscription_cursor(
        &mut self,
        subscription_id: &str,
        new_last_delivered_seq: i64,
    ) -> (r: Result<(), StoreError>)
        ensures
            r is Ok,
            final(self)@ == (StoreView {
                subscriptions: old(self)@.subscriptions.map_values(
                    advanced_where(subscription_id@, new_last_delivered_seq),
                ),
                ..old(self)@
            }),
    {
        let subscriptions = rewrite(
            &self.subscriptions,
            |t: &SubscriptionRow| -> (u: SubscriptionRow)
                ensures
                    u@ == advanced_where(subscription_id@, new_last_delivered_seq)(t@)
                {
                    let mut u = t.duplicate();
                    if *t.subscription_id.as_str() == *subscription_id && new_last_delivered_seq
                        > t.last_delivered_seq {
                        u.last_delivered_seq = new_last_delivered_seq;
                        u.failure_count = 0;
                    }
                    u
                },
            Ghost(advanced_where(subscription_id@, new_last_delivered_seq)),
        );
        self.subscriptions = subscriptions;
        Ok(())
    }

    /// Adds a row to the queue; says whether the queue took it. One that it does
    /// not take changes nothing.
    pub fn append_delivery(&mut self, row: DeliveryRow) -> (r: bool)
        ensures
            r == accepts_delivery(old(self)@, row@),
            r ==> final(self)@ == with_delivery(old(self)@, row@),
            !r ==> *final(self) == *old(self),
    {
        let delivery_id = row.delivery_id.as_str();
        let subscription_id = row.subscription_id.as_str();
        let message_seq: i64 = row.message_seq;
        let known = exists_row(
            &self.deliveries,
            |t: &DeliveryRow| -> (b: bool)
                ensures
                    b == (t@.delivery_id == delivery_id@)
                { *t.delivery_id.as_str() == *delivery_id },
            Ghost(with_delivery_id(delivery_id@)),
        );
        let queued = exists_row(
            &self.deliveries,
            |t: &DeliveryRow| -> (b: bool)
                ensures
                    b == (t@.subscription_id == subscription_id@ && t@.message_seq == message_seq)
                { *t.subscription_id.as_str() == *subscription_id && t.message_seq == message_seq },
            Ghost(delivery_of(subscription_id@, message_seq)),
        );
        let subscribed = self.find_subscription(subscription_id).is_some();
        if known || queued || !subscribed {
            return false;
        }
        self.deliveries.push(row);
        assert(self@ =~= with_delivery(old(self)@, row@));
        true
    }

    /// Queues a delivery; says whether the queue took it. One that it does not
    /// take changes nothing.
    pub fn enqueue_delivery(
        &mut self,
        delivery_id: &str,
        subscription_id: &str,
        message_seq: i64,
        message_id: &str,
        next_attempt_at: Timestamp,
    ) -> (r: Result<bool, StoreError>)
        ensures
            ({
                let row = DeliveryRowView {
                    delivery_id: delivery_id@,
                    subscription_id: subscription_id@,
                    message_seq,
                    message_id: message_id@,
                    next_attempt_at: shown(next_attempt_at, COLUMN_FORMAT@),
                    attempts: 0,
                    last_error: None,
                };
                &&& r matches Ok(b) && b == accepts_delivery(old(self)@, row)
                &&& accepts_delivery(old(self)@, row) ==> final(self)@ == with_delivery(
                    old(self)@,
                    row,
                )
                &&& !accepts_delivery(old(self)@, row) ==> *final(self) == *old(self)
            }),
            kept(next_attempt_at),
    {
        let row = DeliveryRow {
            delivery_id: delivery_id.to_owned(),
            subscription_id: subscription_id.to_owned(),
            message_seq,
            message_id: message_id.to_owned(),
            next_attempt_at: show(next_attempt_at, COLUMN_FORMAT),
            attempts: 0,
            last_error: None,
        };
        Ok(self.append_delivery(row))
    }

    /// The deliveries that are due at a time, the most overdue first, at most
    /// `limit`.
    pub fn due_deliveries(&self, cutoff: &str, limit: usize) -> (r: Vec<PendingDelivery>)
        ensures
            views(r@) == first_n(
                ordered(self@.deliveries.filter(due_at(cutoff@)), by_attempt()),
                limit as int,
            ).map_values(|d: DeliveryRowView| pending(d)),
    {
        let chosen = select(
            &self.deliveries,
            |t: &DeliveryRow| -> (b: bool)
                ensures
                    b == due_at(cutoff@)(t@)
                { !text_lt(cutoff, t.next_attempt_at.as_str()) },
            Ghost(due_at(cutoff@)),
        );
        let rows = limit_front(sort_by_attempt(chosen), limit as u64);
        let mut out: Vec<PendingDelivery> = Vec::new();
        let mut i: usize = 0;
        while i < rows.len()
            invariant
                i <= rows.len(),
                out.len() == i,
                forall|j: int| 0 <= j < i ==> (#[trigger] out@[j])@ == pending(rows@[j]@),
            decreases rows.len() - i,
        {
            let d = &rows[i];
            out.push(
                PendingDelivery {
                    delivery_id: d.delivery_id.clone(),
                    subscription_id: d.subscription_id.clone(),
                    message_seq: d.message_seq,
                    message_id: d.message_id.clone(),
                    attempts: d.attempts,
                },
            );
            i = i + 1;
        }
        assert(views(out@) =~= views(rows@).map_values(|d: DeliveryRowView| pending(d)));
        out
    }

    /// The deliveries that are due, the most overdue first, at most `limit`.
    pub fn load_due_deliveries(&self, now: Timestamp, limit: usize) -> (r: Result<
        Vec<PendingDelivery>,
        StoreError,
    >)
        ensures
            r matches Ok(list) && views(list@) == handed_out(
                self@.deliveries,
                now,
                limit as int,
            ),
            kept(now),
    {
        let cutoff = show(now, COLUMN_FORMAT);
        Ok(self.due_deliveries(cutoff.as_str(), limit))
    }

    /// When the next attempt of any delivery is due; none where nothing waits,
    /// or where the column names no instant.
    pub fn earliest_pending_attempt(&self) -> (r: Result<Option<Timestamp>, StoreError>)
        ensures
            r matches Ok(at) && at == earliest_attempt(self@.deliveries),
    {
        let rows = select(
            &self.deliveries,
            |t: &DeliveryRow| -> (b: bool)
                ensures
                    b == true
                { true },
            Ghost(|d: DeliveryRowView| true),
        );
        proof {
            lemma_filter_all(self@.deliveries);
            crate::rows::lemma_ordered_same_rows(self@.deliveries, by_attempt());
        }
        let sorted = sort_by_attempt(rows);
        if sorted.len() == 0 {
            return Ok(None);
        }
        assert(views(sorted@)[0] == sorted@[0]@);
        Ok(parse_rfc3339(sorted[0].next_attempt_at.as_str()))
    }

    /// Removes a delivery from the queue.
    pub fn delete_delivery(&mut self, delivery_id: &str) -> (r: Result<(), StoreError>)
        ensures
            r is Ok,
            final(self)@ == (StoreView {
                deliveries: old(self)@.deliveries.filter(
                    |d: DeliveryRowView| d.delivery_id != delivery_id@,
                ),
                ..old(self)@
            }),
    {
        let deliveries = select(
            &self.deliveries,
            |t: &DeliveryRow| -> (b: bool)
                ensures
                    b == (t@.delivery_id != delivery_id@)
                { !(*t.delivery_id.as_str() == *delivery_id) },
            Ghost(|d: DeliveryRowView| d.delivery_id != delivery_id@),
        );
        self.deliveries = deliveries;
        Ok(())
    }

    /// Puts a delivery off to a time after a failed attempt.
    pub fn put_off_delivery(
        &mut self,
        delivery_id: &str,
        next_attempt_at: &str,
        attempts: i64,
        last_error: &str,
    )
        ensures
            final(self)@ == (StoreView {
                deliveries: old(self)@.deliveries.map_values(
                    rescheduled_where(delivery_id@, next_attempt_at@, attempts, last_error@),
                ),
                ..old(self)@
            }),
    {
        let deliveries = rewrite(
            &self.deliveries,
            |t: &DeliveryRow| -> (u: DeliveryRow)
                ensures
                    u@ == rescheduled_where(
                        delivery_id@,
                        next_attempt_at@,
                        attempts,
                        last_error@,
                    )(t@)
                {
                    let mut u = t.duplicate();
                    if *t.delivery_id.as_str() == *delivery_id {
                        u.next_attempt_at = next_attempt_at.to_owned();
                        u.attempts = attempts;
                        u.last_error = Some(last_error.to_owned());
                    }
                    u
                },
            Ghost(rescheduled_where(delivery_id@, next_attempt_at@, attempts, last_error@)),
        );
        self.deliveries = deliveries;
    }

    /// Puts a delivery off after a failed attempt.
    pub fn reschedule_delivery(
        &mut self,
        delivery_id: &str,
        next_attempt_at: Timestamp,
        attempts: i64,
        last_error: &str,
    ) -> (r: Result<(), StoreError>)
        ensures
            r is Ok,
            final(self)@ == (StoreView {
                deliveries: old(self)@.deliveries.map_values(
                    rescheduled_where(
                        delivery_id@,
                        shown(next_attempt_at, COLUMN_FORMAT@),
                        attempts,
                        last_error@,
                    ),
                ),
                ..old(self)@
            }),
            kept(next_attempt_at),
    {
        let at = show(next_attempt_at, COLUMN_FORMAT);
        self.put_off_delivery(delivery_id, at.as_str(), attempts, last_error);
        Ok(())
    }
}

proof fn lemma_filter_all<V>(rows: Seq<V>)
    ensures
        rows.filter(|v: V| true) == rows,
    decreases rows.len(),
{
    reveal(Seq::filter);
    if rows.len() > 0 {
        lemma_filter_all(rows.drop_last());
        assert(rows =~= rows.drop_last().push(rows.last()));
    }
}

} // verus!
