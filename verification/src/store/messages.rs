//! The messages table.

use vstd::prelude::*;
use crate::json::{json_or_empty, normalise};
use crate::models::{ChatMessage, ChatMessageView};
use crate::rows::{
    any, exists_row, find, first_match, first_n, last_n, limit_back, limit_front, ordered, select,
    sort, views, Row,
};
use crate::store::rooms::{with_message_id, with_room_id};
use crate::store::{
    DbError, MessageRow, MessageRowView, Store, StoreError, StoreErrorView, StoreView,
};
use crate::text::{copy_text, lex_lt, own, text_lt};
use crate::time::{
    column_text, column_time, in_calendar, kept, now, parse_timestamp, reads_as, show, shown,
    Timestamp, COLUMN_FORMAT,
};

verus! {

/// The highest sequence number in a room, where the room has messages.
pub open spec fn highest_seq(messages: Seq<MessageRowView>, room_id: Seq<char>) -> Option<i64>
    decreases messages.len(),
{
    if messages.len() == 0 {
        None
    } else {
        let before = highest_seq(messages.drop_last(), room_id);
        let last = messages.last();
        if last.room_id != room_id {
            before
        } else if before matches Some(m) && m >= last.seq {
            before
        } else {
            Some(last.seq)
        }
    }
}

/// The sequence number of the latest message in a room, or zero.
pub open spec fn tip(messages: Seq<MessageRowView>, room_id: Seq<char>) -> i64 {
    match highest_seq(messages, room_id) {
        Some(m) => m,
        None => 0,
    }
}

/// Why a new message is refused, if it is. Its id must be new; its room must be
/// there, and so must the message that it answers, which may be itself.
pub open spec fn message_refusal(s: StoreView, row: MessageRowView) -> Option<StoreErrorView> {
    if any(s.messages, with_message_id(row.message_id)) {
        Some(StoreErrorView::Db(DbError::DuplicateMessage))
    } else if !any(s.rooms, with_room_id(row.room_id)) {
        Some(StoreErrorView::Db(DbError::ForeignKey))
    } else if row.reply_to_message matches Some(id) && id != row.message_id && !any(
        s.messages,
        with_message_id(id),
    ) {
        Some(StoreErrorView::Db(DbError::ForeignKey))
    } else {
        None
    }
}

/// The tables with a message added.
pub open spec fn with_message(s: StoreView, row: MessageRowView) -> StoreView {
    StoreView { messages: s.messages.push(row), ..s }
}

/// Whether a message shows a row, its metadata given.
pub open spec fn message_shows(
    row: MessageRowView,
    metadata: Seq<char>,
    m: ChatMessageView,
) -> bool {
    &&& m == (ChatMessageView {
        message_id: row.message_id,
        room_id: row.room_id,
        agent_id: row.agent_id,
        agent_name: row.agent_name,
        content: row.content,
        reply_to_message: row.reply_to_message,
        metadata,
        timestamp: m.timestamp,
        seq: row.seq,
    })
    &&& reads_as(row.created_at, m.timestamp)
}

/// Whether a message is a correct reading of a row.
pub open spec fn message_reads(row: MessageRowView, m: ChatMessageView) -> bool {
    message_shows(row, json_or_empty(row.metadata), m)
}

/// Whether messages are a correct reading of rows, one by one.
pub open spec fn messages_read(rows: Seq<MessageRowView>, messages: Seq<ChatMessage>) -> bool {
    &&& messages.len() == rows.len()
    &&& forall|i: int| 0 <= i < rows.len() ==> message_reads(rows[i], (#[trigger] messages[i])@)
}

/// What adding a message does: a refused one changes nothing, any other is in
/// the table afterwards and handed back.
pub open spec fn message_insertion(
    before: Store,
    after: Store,
    row: MessageRowView,
    r: Result<ChatMessage, StoreError>,
) -> bool {
    match message_refusal(before@, row) {
        None => r matches Ok(m) && message_shows(row, row.metadata, m@) && after@ == with_message(
            before@,
            row,
        ),
        Some(e) => r matches Err(err) && err@ == e && after == before,
    }
}

/// The messages of a room after a sequence number.
pub open spec fn after_seq(room_id: Seq<char>, floor: i64) -> spec_fn(MessageRowView) -> bool {
    |m: MessageRowView| m.room_id == room_id && m.seq > floor
}

/// The messages of a room from before a time.
pub open spec fn before_time(room_id: Seq<char>, before: Option<Seq<char>>) -> spec_fn(
    MessageRowView,
) -> bool {
    |m: MessageRowView|
        m.room_id == room_id && match before {
            Some(t) => lex_lt(m.created_at, t),
            None => true,
        }
}

/// The messages of a room.
pub open spec fn in_room(room_id: Seq<char>) -> spec_fn(MessageRowView) -> bool {
    |m: MessageRowView| m.room_id == room_id
}

/// The order by sequence number.
pub open spec fn by_seq() -> spec_fn(MessageRowView, MessageRowView) -> bool {
    |a: MessageRowView, b: MessageRowView| a.seq < b.seq
}

/// The order by time.
pub open spec fn by_time() -> spec_fn(MessageRowView, MessageRowView) -> bool {
    |a: MessageRowView, b: MessageRowView| lex_lt(a.created_at, b.created_at)
}

/// The rows behind the first one with an id; none where there is no such row.
pub open spec fn behind(messages: Seq<MessageRowView>, message_id: Seq<char>) -> Seq<MessageRowView>
    decreases messages.len(),
{
    if messages.len() == 0 {
        messages
    } else if messages[0].message_id == message_id {
        messages.drop_first()
    } else {
        behind(messages.drop_first(), message_id)
    }
}

/// The history of a room. A sequence number takes precedence over a message id,
/// which takes precedence over a time. After a sequence number or a message come
/// the first `limit` messages; otherwise the last `limit` ones.
pub open spec fn history(
    messages: Seq<MessageRowView>,
    room_id: Seq<char>,
    limit: int,
    before: Option<Seq<char>>,
    since: Option<Seq<char>>,
    since_seq: Option<i64>,
) -> Seq<MessageRowView> {
    match (since_seq, since) {
        (Some(floor), _) => first_n(
            ordered(messages.filter(after_seq(room_id, floor)), by_seq()),
            limit,
        ),
        (None, Some(id)) => first_n(
            ordered(behind(messages, id).filter(in_room(room_id)), by_time()),
            limit,
        ),
        (None, None) => last_n(
            ordered(messages.filter(before_time(room_id, before)), by_time()),
            limit,
        ),
    }
}

/// How many of the first `n` messages are in a room and have no number yet.
pub open spec fn unnumbered(messages: Seq<MessageRowView>, room_id: Seq<char>, n: int) -> int
    decreases n,
{
    if n <= 0 {
        0
    } else if messages[n - 1].room_id == room_id && messages[n - 1].seq == 0 {
        unnumbered(messages, room_id, n - 1) + 1
    } else {
        unnumbered(messages, room_id, n - 1)
    }
}

/// The messages with every missing sequence number filled in: the messages of a
/// room without one get 1, 2, 3 and so on, in the order of the table.
pub open spec fn numbered(messages: Seq<MessageRowView>) -> Seq<MessageRowView> {
    messages.map(
        |i: int, m: MessageRowView|
            if m.seq == 0 {
                MessageRowView { seq: unnumbered(messages, m.room_id, i + 1) as i64, ..m }
            } else {
                m
            },
    )
}

/// Reads a row as a message.
fn read_message(row: &MessageRow) -> (r: ChatMessage)
    ensures
        message_reads(row@, r@),
{
    ChatMessage {
        message_id: row.message_id.clone(),
        room_id: row.room_id.clone(),
        agent_id: row.agent_id.clone(),
        agent_name: row.agent_name.clone(),
        content: row.content.clone(),
        reply_to_message: copy_text(&row.reply_to_message),
        metadata: normalise(row.metadata.as_str()),
        timestamp: parse_timestamp(row.created_at.as_str()),
        seq: row.seq,
    }
}

/// Reads rows as messages.
fn read_messages(rows: &Vec<MessageRow>) -> (r: Vec<ChatMessage>)
    ensures
        messages_read(views(rows@), r@),
{
    let mut out: Vec<ChatMessage> = Vec::new();
    let mut i: usize = 0;
    while i < rows.len()
        invariant
            i <= rows.len(),
            out.len() == i,
            forall|j: int| 0 <= j < i ==> message_reads(rows@[j]@, (#[trigger] out@[j])@),
        decreases rows.len() - i,
    {
        out.push(read_message(&rows[i]));
        i = i + 1;
    }
    out
}

/// Sorts messages by time.
fn sort_by_time(rows: Vec<MessageRow>) -> (r: Vec<MessageRow>)
    ensures
        views(r@) == ordered(views(rows@), by_time()),
{
    sort(
        rows,
        |a: &MessageRow, b: &MessageRow| -> (o: bool)
            ensures
                o == lex_lt(a@.created_at, b@.created_at)
            { text_lt(a.created_at.as_str(), b.created_at.as_str()) },
        Ghost(by_time()),
    )
}

/// The rows of a room behind a position.
fn room_rows_from(rows: &Vec<MessageRow>, from: usize, room_id: &str) -> (r: Vec<MessageRow>)
    requires
        from <= rows.len(),
    ensures
        views(r@) == views(rows@).skip(from as int).filter(in_room(room_id@)),
{
    let mut tail: Vec<MessageRow> = Vec::new();
    let mut i: usize = from;
    while i < rows.len()
        invariant
            from <= i <= rows.len(),
            tail.len() == i - from,
            forall|j: int| 0 <= j < tail.len() ==> (#[trigger] tail@[j])@ == rows@[from + j]@,
        decreases rows.len() - i,
    {
        tail.push(rows[i].duplicate());
        i = i + 1;
    }
    assert(views(tail@) =~= views(rows@).skip(from as int));
    select(
        &tail,
        |m: &MessageRow| -> (b: bool)
            ensures
                b == (m@.room_id == room_id@)
            { *m.room_id.as_str() == *room_id },
        Ghost(in_room(room_id@)),
    )
}

pub(crate) proof fn lemma_behind(messages: Seq<MessageRowView>, message_id: Seq<char>, p: int)
    requires
        0 <= p < messages.len(),
        messages[p].message_id == message_id,
        forall|j: int| 0 <= j < p ==> (#[trigger] messages[j]).message_id != message_id,
    ensures
        behind(messages, message_id) == messages.skip(p + 1),
    decreases p,
{
    if p == 0 {
        assert(messages.drop_first() =~= messages.skip(1));
    } else {
        let rest = messages.drop_first();
        assert forall|j: int| 0 <= j < p - 1 implies (#[trigger] rest[j]).message_id
            != message_id by {
            assert(messages[j + 1].message_id != message_id);
        }
        assert(messages[0].message_id != message_id);
        lemma_behind(rest, message_id, p - 1);
        assert(rest.skip(p) =~= messages.skip(p + 1));
    }
}

pub(crate) proof fn lemma_behind_nothing(messages: Seq<MessageRowView>, message_id: Seq<char>)
    requires
        forall|j: int|
            0 <= j < messages.len() ==> (#[trigger] messages[j]).message_id != message_id,
    ensures
        behind(messages, message_id).len() == 0,
    decreases messages.len(),
{
    if messages.len() > 0 {
        let rest = messages.drop_first();
        assert forall|j: int| 0 <= j < rest.len() implies (#[trigger] rest[j]).message_id
            != message_id by {
            assert(messages[j + 1].message_id != message_id);
        }
        assert(messages[0].message_id != message_id);
        lemma_behind_nothing(rest, message_id);
    }
}

/// How many of the first `n` messages are in a room and have no number yet.
fn count_unnumbered(rows: &Vec<MessageRow>, room_id: &str, n: usize) -> (r: usize)
    requires
        n <= rows.len(),
    ensures
        r == unnumbered(views(rows@), room_id@, n as int),
        r <= n,
{
    let mut k: usize = 0;
    let mut i: usize = 0;
    while i < n
        invariant
            k <= i <= n <= rows.len(),
            k == unnumbered(views(rows@), room_id@, i as int),
        decreases n - i,
    {
        assert(views(rows@)[i as int] == rows@[i as int]@);
        if *rows[i].room_id.as_str() == *room_id && rows[i].seq == 0 {
            k = k + 1;
        }
        i = i + 1;
    }
    k
}

impl Store {
    /// Whether a message with this id is in the table.
    pub fn has_message(&self, message_id: &str) -> (r: bool)
        ensures
            r == any(self@.messages, with_message_id(message_id@)),
    {
        exists_row(
            &self.messages,
            |t: &MessageRow| -> (b: bool)
                ensures
                    b == (t@.message_id == message_id@)
                { *t.message_id.as_str() == *message_id },
            Ghost(with_message_id(message_id@)),
        )
    }

    /// Adds a row to the table, with the next sequence number of its room in
    /// place of its own. A refused row changes nothing.
    pub fn append_message(&mut self, row: MessageRow) -> (r: Result<i64, StoreError>)
        requires
            tip(old(self)@.messages, row@.room_id) < i64::MAX,
        ensures
            ({
                let next = MessageRowView {
                    seq: (tip(old(self)@.messages, row@.room_id) + 1) as i64,
                    ..row@
                };
                match message_refusal(old(self)@, next) {
                    None => r == Ok::<i64, StoreError>(next.seq) && final(self)@ == with_message(
                        old(self)@,
                        next,
                    ),
                    Some(e) => r matches Err(err) && err@ == e && *final(self) == *old(self),
                }
            }),
    {
        if self.has_message(row.message_id.as_str()) {
            return Err(StoreError::Db(DbError::DuplicateMessage));
        }
        if !self.has_room(row.room_id.as_str()) {
            return Err(StoreError::Db(DbError::ForeignKey));
        }
        if let Some(id) = &row.reply_to_message {
            if !(*id.as_str() == *row.message_id.as_str()) && !self.has_message(id.as_str()) {
                return Err(StoreError::Db(DbError::ForeignKey));
            }
        }
        let seq: i64 = self.tip_of(row.room_id.as_str()) + 1;
        let mut next = row;
        next.seq = seq;
        self.messages.push(next);
        assert(self@ =~= with_message(old(self)@, next@));
        Ok(seq)
    }

    /// Adds a message created at the given time, with the next sequence number
    /// of its room. Its metadata, a JSON text, is kept as it is. A refused message
    /// changes nothing.
    pub fn insert_message_at(
        &mut self,
        message_id: &str,
        room_id: &str,
        agent_id: &str,
        agent_name: &str,
        content: &str,
        reply_to_message: Option<&str>,
        metadata: &str,
        created_at: &str,
    ) -> (r: Result<ChatMessage, StoreError>)
        requires
            tip(old(self)@.messages, room_id@) < i64::MAX,
        ensures
            message_insertion(
                *old(self),
                *final(self),
                (MessageRowView {
                    message_id: message_id@,
                    room_id: room_id@,
                    agent_id: agent_id@,
                    agent_name: agent_name@,
                    content: content@,
                    reply_to_message: reply_to_message.deep_view(),
                    metadata: metadata@,
                    created_at: created_at@,
                    seq: (tip(old(self)@.messages, room_id@) + 1) as i64,
                }),
                r,
            ),
    {
        let row = MessageRow {
            message_id: message_id.to_owned(),
            room_id: room_id.to_owned(),
            agent_id: agent_id.to_owned(),
            agent_name: agent_name.to_owned(),
            content: content.to_owned(),
            reply_to_message: own(reply_to_message),
            metadata: metadata.to_owned(),
            created_at: created_at.to_owned(),
            seq: 0,
        };
        let mut message = ChatMessage {
            message_id: row.message_id.clone(),
            room_id: row.room_id.clone(),
            agent_id: row.agent_id.clone(),
            agent_name: row.agent_name.clone(),
            content: row.content.clone(),
            reply_to_message: copy_text(&row.reply_to_message),
            metadata: row.metadata.clone(),
            timestamp: parse_timestamp(created_at),
            seq: 0,
        };
        match self.append_message(row) {
            Ok(seq) => {
                message.seq = seq;
                Ok(message)
            },
            Err(e) => Err(e),
        }
    }

    /// Adds a message; the clock says when it was created.
    pub fn insert_message(
        &mut self,
        message_id: &str,
        room_id: &str,
        agent_id: &str,
        agent_name: &str,
        content: &str,
        reply_to_message: Option<&str>,
        metadata: &str,
    ) -> (r: Result<ChatMessage, StoreError>)
        requires
            tip(old(self)@.messages, room_id@) < i64::MAX,
        ensures
            exists|at: Timestamp|
                in_calendar(at) && kept(at) && #[trigger] message_insertion(
                    *old(self),
                    *final(self),
                    (MessageRowView {
                        message_id: message_id@,
                        room_id: room_id@,
                        agent_id: agent_id@,
                        agent_name: agent_name@,
                        content: content@,
                        reply_to_message: reply_to_message.deep_view(),
                        metadata: metadata@,
                        created_at: shown(at, COLUMN_FORMAT@),
                        seq: (tip(old(self)@.messages, room_id@) + 1) as i64,
                    }),
                    r,
                ),
    {
        let clock = now();
        let created_at = show(clock, COLUMN_FORMAT);
        self.insert_message_at(
            message_id,
            room_id,
            agent_id,
            agent_name,
            content,
            reply_to_message,
            metadata,
            created_at.as_str(),
        )
    }

    fn tip_of(&self, room_id: &str) -> (r: i64)
        ensures
            r == tip(self@.messages, room_id@),
    {
        let mut best: Option<i64> = None;
        let mut i: usize = 0;
        let ghost all = self@.messages;
        assert(all.take(0) =~= Seq::empty());
        while i < self.messages.len()
            invariant
                i <= self.messages.len(),
                all == views(self.messages@),
                best == highest_seq(all.take(i as int), room_id@),
            decreases self.messages.len() - i,
        {
            proof {
                assert(all.take(i + 1).drop_last() =~= all.take(i as int));
                assert(all.take(i + 1).last() == self.messages@[i as int]@);
            }
            let row = &self.messages[i];
            if *row.room_id.as_str() == *room_id {
                let higher = match best {
                    Some(m) => row.seq > m,
                    None => true,
                };
                if higher {
                    best = Some(row.seq);
                }
            }
            i = i + 1;
        }
        assert(all.take(i as int) =~= all);
        match best {
            Some(m) => m,
            None => 0,
        }
    }

    /// The latest sequence number of a room, or zero where it has no messages.
    pub fn room_tip(&self, room_id: &str) -> (r: Result<i64, StoreError>)
        ensures
            r == Ok::<i64, StoreError>(tip(self@.messages, room_id@)),
    {
        Ok(self.tip_of(room_id))
    }

    /// The rows of a history, oldest first, cut off at a time.
    pub fn history_rows(
        &self,
        room_id: &str,
        limit: u32,
        before: Option<&str>,
        since: Option<&str>,
        since_seq: Option<i64>,
    ) -> (r: Vec<MessageRow>)
        ensures
            views(r@) == history(
                self@.messages,
                room_id@,
                limit as int,
                before.deep_view(),
                since.deep_view(),
                since_seq,
            ),
    {
        if let Some(floor) = since_seq {
            let chosen = select(
                &self.messages,
                |m: &MessageRow| -> (b: bool)
                    ensures
                        b == after_seq(room_id@, floor)(m@)
                    { *m.room_id.as_str() == *room_id && m.seq > floor },
                Ghost(after_seq(room_id@, floor)),
            );
            let sorted = sort(
                chosen,
                |a: &MessageRow, b: &MessageRow| -> (o: bool)
                    ensures
                        o == (a@.seq < b@.seq)
                    { a.seq < b.seq },
                Ghost(by_seq()),
            );
            return limit_front(sorted, limit as u64);
        }
        if let Some(id) = since {
            let at = find(
                &self.messages,
                |t: &MessageRow| -> (b: bool)
                    ensures
                        b == (t@.message_id == id@)
                    { *t.message_id.as_str() == *id },
                Ghost(with_message_id(id@)),
            );
            let from: usize = match at {
                Some(p) => p + 1,
                None => self.messages.len(),
            };
            proof {
                let all = views(self.messages@);
                match at {
                    Some(p) => {
                        lemma_behind(all, id@, p as int);
                    },
                    None => {
                        lemma_behind_nothing(all, id@);
                        assert(behind(all, id@) =~= all.skip(from as int));
                    },
                }
            }
            let chosen = room_rows_from(&self.messages, from, room_id);
            return limit_front(sort_by_time(chosen), limit as u64);
        }
        let chosen = select(
            &self.messages,
            |m: &MessageRow| -> (b: bool)
                ensures
                    b == before_time(room_id@, before.deep_view())(m@)
                {
                    let early = match before {
                        Some(text) => text_lt(m.created_at.as_str(), text),
                        None => true,
                    };
                    *m.room_id.as_str() == *room_id && early
                },
            Ghost(before_time(room_id@, before.deep_view())),
        );
        limit_back(sort_by_time(chosen), limit as u64)
    }

    /// The latest messages of a room, oldest first.
    pub fn get_history(&self, room_id: &str, limit: u32, before: Option<Timestamp>) -> (r: Result<
        Vec<ChatMessage>,
        StoreError,
    >)
        ensures
            r matches Ok(list) && messages_read(
                history(
                    self@.messages,
                    room_id@,
                    limit as int,
                    column_time(before),
                    None,
                    None,
                ),
                list@,
            ),
            before matches Some(t) ==> kept(t),
    {
        self.get_history_filtered(room_id, limit, before, None, None)
    }

    /// The messages of a room after one with an id, or its latest ones.
    pub fn get_history_since(
        &self,
        room_id: &str,
        limit: u32,
        before: Option<Timestamp>,
        since: Option<&str>,
    ) -> (r: Result<Vec<ChatMessage>, StoreError>)
        ensures
            r matches Ok(list) && messages_read(
                history(
                    self@.messages,
                    room_id@,
                    limit as int,
                    column_time(before),
                    since.deep_view(),
                    None,
                ),
                list@,
            ),
            before matches Some(t) ==> kept(t),
    {
        self.get_history_filtered(room_id, limit, before, since, None)
    }

    /// The history of a room, oldest first. `since_seq` takes precedence over
    /// `since`, which takes precedence over `before`.
    pub fn get_history_filtered(
        &self,
        room_id: &str,
        limit: u32,
        before: Option<Timestamp>,
        since: Option<&str>,
        since_seq: Option<i64>,
    ) -> (r: Result<Vec<ChatMessage>, StoreError>)
        ensures
            r matches Ok(list) && messages_read(
                history(
                    self@.messages,
                    room_id@,
                    limit as int,
                    column_time(before),
                    since.deep_view(),
                    since_seq,
                ),
                list@,
            ),
            before matches Some(t) ==> kept(t),
    {
        let cutoff = column_text(before);
        let before_text: Option<&str> = match &cutoff {
            Some(t) => Some(t.as_str()),
            None => None,
        };
        Ok(read_messages(&self.history_rows(room_id, limit, before_text, since, since_seq)))
    }

    /// The message with this id.
    pub fn get_message(&self, message_id: &str) -> (r: Result<Option<ChatMessage>, StoreError>)
        ensures
            r matches Ok(found) && match first_match(
                self@.messages,
                with_message_id(message_id@),
            ) {
                Some(row) => found matches Some(m) && message_reads(row, m@),
                None => found is None,
            },
    {
        let at = find(
            &self.messages,
            |t: &MessageRow| -> (b: bool)
                ensures
                    b == (t@.message_id == message_id@)
                { *t.message_id.as_str() == *message_id },
            Ghost(with_message_id(message_id@)),
        );
        match at {
            Some(i) => Ok(Some(read_message(&self.messages[i]))),
            None => Ok(None),
        }
    }

    /// Gives every message without a sequence number its place among those of
    /// its room.
    pub fn backfill_message_seq(&mut self)
        ensures
            final(self)@ == (StoreView { messages: numbered(old(self)@.messages), ..old(self)@ }),
    {
        let ghost all = views(self.messages@);
        let mut out: Vec<MessageRow> = Vec::new();
        let mut i: usize = 0;
        while i < self.messages.len()
            invariant
                i <= self.messages.len(),
                all == views(self.messages@),
                *self == *old(self),
                out.len() == i,
                forall|j: int| 0 <= j < i ==> (#[trigger] out@[j])@ == numbered(all)[j],
            decreases self.messages.len() - i,
        {
            let mut row = self.messages[i].duplicate();
            if row.seq == 0 {
                let place: usize = count_unnumbered(&self.messages, row.room_id.as_str(), i + 1);
                row.seq = place as i64;
            }
            assert(row@ == numbered(all)[i as int]);
            out.push(row);
            i = i + 1;
        }
        assert(views(out@) =~= numbered(all));
        self.messages = out;
    }
}

} // verus!
