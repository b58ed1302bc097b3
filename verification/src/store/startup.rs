//! What happens when the tables are opened.

use vstd::prelude::*;
use vstd::string::*;
use crate::rows::{any, exists_row, rewrite, views, Row};
use crate::store::messages::{numbered, unnumbered};
use crate::store::rooms::{with_room_id, with_room_name};
use crate::store::{MessageRowView, RoomRow, RoomRowView, Store, StoreError, StoreView};
use crate::text::{eq_ignore_ascii_case, same_ignoring_case};
use crate::time::{in_calendar, kept, now, show, shown, Timestamp, COLUMN_FORMAT};

verus! {

/// Tables without rows.
pub open spec fn empty_tables() -> StoreView {
    StoreView {
        rooms: Seq::empty(),
        messages: Seq::empty(),
        sessions: Seq::empty(),
        votes: Seq::empty(),
        ballots: Seq::empty(),
        keys: Seq::empty(),
        subscriptions: Seq::empty(),
        deliveries: Seq::empty(),
        tasks: Seq::empty(),
    }
}

/// The room that every agent starts in.
pub open spec fn lobby(created_at: Seq<char>) -> RoomRowView {
    RoomRowView {
        room_id: "lobby"@,
        name: "lobby"@,
        description: Some("Default room for all agents"@),
        parent_id: None,
        created_by: None,
        created_at,
        visibility: "public"@,
        owner_key: None,
        encrypted: false,
    }
}

/// The rooms with the lobby among them. Where its id or its name is in use,
/// nothing is added.
pub open spec fn with_lobby(rooms: Seq<RoomRowView>, created_at: Seq<char>) -> Seq<RoomRowView> {
    if any(rooms, with_room_id("lobby"@)) || any(rooms, with_room_name("lobby"@)) {
        rooms
    } else {
        rooms.push(lobby(created_at))
    }
}

/// A private lobby made public; any other room as it is.
pub open spec fn lobby_public() -> spec_fn(RoomRowView) -> RoomRowView {
    |r: RoomRowView|
        if r.room_id == "lobby"@ && r.visibility == "private"@ {
            RoomRowView { visibility: "public"@, ..r }
        } else {
            r
        }
}

/// The tables once they are open: every message has its sequence number, and
/// there is a lobby, which is not private.
pub open spec fn opened(s: StoreView, created_at: Seq<char>) -> StoreView {
    StoreView {
        messages: numbered(s.messages),
        rooms: with_lobby(s.rooms, created_at).map_values(lobby_public()),
        ..s
    }
}

impl Store {
    /// Tables without rows.
    pub fn empty() -> (r: Store)
        ensures
            r@ == empty_tables(),
    {
        let r = Store {
            rooms: Vec::new(),
            messages: Vec::new(),
            sessions: Vec::new(),
            votes: Vec::new(),
            ballots: Vec::new(),
            keys: Vec::new(),
            subscriptions: Vec::new(),
            deliveries: Vec::new(),
            tasks: Vec::new(),
        };
        assert(r@ =~= empty_tables());
        r
    }

    /// Makes tables ready for use at the given time.
    pub fn initialize_at(&mut self, created_at: &str)
        ensures
            final(self)@ == opened(old(self)@, created_at@),
    {
        self.backfill_message_seq();
        let id_taken = self.has_room("lobby");
        let name_taken = exists_row(
            &self.rooms,
            |t: &RoomRow| -> (b: bool)
                ensures
                    b == (t@.name == "lobby"@)
                { *t.name.as_str() == *"lobby" },
            Ghost(with_room_name("lobby"@)),
        );
        if !id_taken && !name_taken {
            let row = RoomRow {
                room_id: "lobby".to_owned(),
                name: "lobby".to_owned(),
                description: Some("Default room for all agents".to_owned()),
                parent_id: None,
                created_by: None,
                created_at: created_at.to_owned(),
                visibility: "public".to_owned(),
                owner_key: None,
                encrypted: false,
            };
            let ghost before = views(self.rooms@);
            self.rooms.push(row);
            assert(views(self.rooms@) =~= before.push(lobby(created_at@)));
        }
        let rooms = rewrite(
            &self.rooms,
            |t: &RoomRow| -> (u: RoomRow)
                ensures
                    u@ == lobby_public()(t@)
                {
                    let mut u = t.duplicate();
                    if *t.room_id.as_str() == *"lobby" && *t.visibility.as_str() == *"private" {
                        u.visibility = "public".to_owned();
                    }
                    u
                },
            Ghost(lobby_public()),
        );
        self.rooms = rooms;
    }

    /// Makes tables ready for use; the clock says when a new lobby was created.
    pub fn initialize(&mut self)
        ensures
            exists|at: Timestamp|
                in_calendar(at) && kept(at) && final(self)@ == #[trigger] opened(
                    old(self)@,
                    shown(at, COLUMN_FORMAT@),
                ),
    {
        let clock = now();
        let created_at = show(clock, COLUMN_FORMAT);
        self.initialize_at(created_at.as_str())
    }

    /// New tables, ready for use.
    pub fn open_in_memory() -> (r: Result<Store, StoreError>)
        ensures
            r matches Ok(s) && exists|at: Timestamp|
                in_calendar(at) && kept(at) && s@ == #[trigger] opened(empty_tables(), shown(at, COLUMN_FORMAT@)),
    {
        let mut s = Store::empty();
        s.initialize();
        Ok(s)
    }
}

/// The statement that adds a column to a table.
pub open spec fn add_column(table: Seq<char>, column: Seq<char>, declared: Seq<char>) -> Seq<char> {
    "ALTER TABLE "@ + table + " ADD COLUMN "@ + column + " "@ + declared
}

/// Writes the statement that adds a column to a table.
pub fn add_column_sql(table: &str, column: &str, declared: &str) -> (r: String)
    ensures
        r@ == add_column(table@, column@, declared@),
{
    let mut out = "ALTER TABLE ".to_owned();
    out.append(table);
    out.append(" ADD COLUMN ");
    out.append(column);
    out.append(" ");
    out.append(declared);
    out
}

/// Whether a list of columns has one of a name, upper or lower case.
pub open spec fn has_column(columns: Seq<Seq<char>>, column: Seq<char>) -> bool {
    exists|i: int| 0 <= i < columns.len() && same_ignoring_case(#[trigger] columns[i], column)
}

/// The statement that a table of these columns needs so that it has a further
/// one; none where it has it already.
pub fn missing_column_sql(
    columns: &Vec<String>,
    table: &str,
    column: &str,
    declared: &str,
) -> (r: Option<String>)
    ensures
        r is None <==> has_column(columns.deep_view(), column@),
        r matches Some(sql) ==> sql@ == add_column(table@, column@, declared@),
{
    let mut i: usize = 0;
    while i < columns.len()
        invariant
            i <= columns.len(),
            forall|j: int| 0 <= j < i ==> !same_ignoring_case(#[trigger] columns.deep_view()[j], column@),
        decreases columns.len() - i,
    {
        if eq_ignore_ascii_case(columns[i].as_str(), column) {
            assert(columns.deep_view()[i as int] == columns@[i as int]@);
            return None;
        }
        i = i + 1;
    }
    Some(add_column_sql(table, column, declared))
}

// --- What the calls do ---

proof fn lemma_unnumbered(messages: Seq<MessageRowView>, room_id: Seq<char>, n: int)
    requires
        0 <= n <= messages.len(),
    ensures
        unnumbered(messages, room_id, n) == messages.take(n).filter(
            |m: MessageRowView| m.room_id == room_id && m.seq == 0,
        ).len(),
        0 <= unnumbered(messages, room_id, n) <= n,
    decreases n,
{
    reveal(Seq::filter);
    if n > 0 {
        lemma_unnumbered(messages, room_id, n - 1);
        assert(messages.take(n).drop_last() =~= messages.take(n - 1));
        assert(messages.take(n).last() == messages[n - 1]);
    }
}

/// Messages without a number get one, in the order of the table: the first of its room gets
/// one, and each further one the next. Nothing else of a message changes, and no other
/// message.
pub proof fn missing_numbers_are_filled_in(
    s: &mut Store,
)
    requires
        call_ensures(Store::backfill_message_seq, (s,), ()),
    ensures
        final(s)@.messages.len() == old(s)@.messages.len(),
        forall|i: int|
            0 <= i < old(s)@.messages.len() ==> ({
                let was = old(s)@.messages[i];
                let is = #[trigger] final(s)@.messages[i];
                &&& is.message_id == was.message_id
                &&& is.room_id == was.room_id
                &&& is.agent_id == was.agent_id
                &&& is.agent_name == was.agent_name
                &&& is.content == was.content
                &&& is.reply_to_message == was.reply_to_message
                &&& is.metadata == was.metadata
                &&& is.created_at == was.created_at
                &&& was.seq != 0 ==> is.seq == was.seq
                &&& was.seq == 0 && old(s)@.messages.len() <= i64::MAX ==> is.seq == old(
                    s,
                )@.messages.take(i + 1).filter(
                    |m: MessageRowView| m.room_id == was.room_id && m.seq == 0,
                ).len()
            }),
        final(s)@.rooms == old(s)@.rooms,
        final(s)@.sessions == old(s)@.sessions,
        final(s)@.votes == old(s)@.votes,
        final(s)@.ballots == old(s)@.ballots,
        final(s)@.keys == old(s)@.keys,
        final(s)@.subscriptions == old(s)@.subscriptions,
        final(s)@.deliveries == old(s)@.deliveries,
        final(s)@.tasks == old(s)@.tasks,
{
    let all = old(s)@.messages;
    assert forall|i: int| 0 <= i < all.len() implies unnumbered(
        all,
        (#[trigger] final(s)@.messages[i]).room_id,
        i + 1,
    ) == all.take(i + 1).filter(
        |m: MessageRowView| m.room_id == all[i].room_id && m.seq == 0,
    ).len() && unnumbered(all, all[i].room_id, i + 1) <= all.len() by {
        lemma_unnumbered(all, all[i].room_id, i + 1);
    }
}

/// Opening the tables numbers the messages, adds a public lobby where its id and its name
/// are free, and makes a private lobby public. Nothing else changes.
pub proof fn opening_adds_only_a_lobby(
    s: &mut Store,
    created_at: &str,
)
    requires
        call_ensures(Store::initialize_at, (s, created_at), ()),
    ensures
        final(s)@.messages.len() == old(s)@.messages.len(),
        forall|i: int|
            0 <= i < old(s)@.messages.len() ==> ({
                let was = old(s)@.messages[i];
                let is = #[trigger] final(s)@.messages[i];
                &&& is.message_id == was.message_id
                &&& is.room_id == was.room_id
                &&& is.agent_id == was.agent_id
                &&& is.agent_name == was.agent_name
                &&& is.content == was.content
                &&& is.reply_to_message == was.reply_to_message
                &&& is.metadata == was.metadata
                &&& is.created_at == was.created_at
                &&& was.seq != 0 ==> is.seq == was.seq
                &&& was.seq == 0 && old(s)@.messages.len() <= i64::MAX ==> is.seq == old(
                    s,
                )@.messages.take(i + 1).filter(
                    |m: MessageRowView| m.room_id == was.room_id && m.seq == 0,
                ).len()
            }),
        (exists|i: int|
            0 <= i < old(s)@.rooms.len() && ((#[trigger] old(s)@.rooms[i]).room_id == "lobby"@
                || old(s)@.rooms[i].name == "lobby"@)) ==> final(s)@.rooms.len() == old(
            s,
        )@.rooms.len(),
        (forall|i: int|
            0 <= i < old(s)@.rooms.len() ==> (#[trigger] old(s)@.rooms[i]).room_id != "lobby"@
                && old(s)@.rooms[i].name != "lobby"@) ==> {
            let row = final(s)@.rooms.last();
            &&& final(s)@.rooms.len() == old(s)@.rooms.len() + 1
            &&& row.room_id == "lobby"@
            &&& row.name == "lobby"@
            &&& row.description == Some("Default room for all agents"@)
            &&& row.parent_id is None
            &&& row.created_by is None
            &&& row.created_at == created_at@
            &&& row.visibility == "public"@
            &&& row.owner_key is None
            &&& !row.encrypted
        },
        forall|i: int|
            0 <= i < old(s)@.rooms.len() && !(old(s)@.rooms[i].room_id == "lobby"@ && old(
                s,
            )@.rooms[i].visibility == "private"@) ==> #[trigger] final(s)@.rooms[i] == old(
                s,
            )@.rooms[i],
        forall|i: int|
            0 <= i < old(s)@.rooms.len() && old(s)@.rooms[i].room_id == "lobby"@ && old(
                s,
            )@.rooms[i].visibility == "private"@ ==> #[trigger] final(s)@.rooms[i] == (RoomRowView {
                visibility: "public"@,
                ..old(s)@.rooms[i]
            }),
        final(s)@.sessions == old(s)@.sessions,
        final(s)@.votes == old(s)@.votes,
        final(s)@.ballots == old(s)@.ballots,
        final(s)@.keys == old(s)@.keys,
        final(s)@.subscriptions == old(s)@.subscriptions,
        final(s)@.deliveries == old(s)@.deliveries,
        final(s)@.tasks == old(s)@.tasks,
{
    let all = old(s)@.messages;
    assert forall|i: int| 0 <= i < all.len() implies unnumbered(
        all,
        (#[trigger] final(s)@.messages[i]).room_id,
        i + 1,
    ) == all.take(i + 1).filter(
        |m: MessageRowView| m.room_id == all[i].room_id && m.seq == 0,
    ).len() && unnumbered(all, all[i].room_id, i + 1) <= all.len() by {
        lemma_unnumbered(all, all[i].room_id, i + 1);
    }
    reveal_strlit("public");
    reveal_strlit("private");
    assert("public"@.len() == 6 && "private"@.len() == 7);
}

/// Opening the tables by the clock does the same.
pub proof fn opening_by_the_clock_adds_only_a_lobby(
    s: &mut Store,
)
    requires
        call_ensures(Store::initialize, (s,), ()),
    ensures
        final(s)@.messages.len() == old(s)@.messages.len(),
        forall|i: int|
            0 <= i < old(s)@.messages.len() ==> ({
                let was = old(s)@.messages[i];
                let is = #[trigger] final(s)@.messages[i];
                &&& is.message_id == was.message_id
                &&& is.room_id == was.room_id
                &&& is.agent_id == was.agent_id
                &&& is.agent_name == was.agent_name
                &&& is.content == was.content
                &&& is.reply_to_message == was.reply_to_message
                &&& is.metadata == was.metadata
                &&& is.created_at == was.created_at
                &&& was.seq != 0 ==> is.seq == was.seq
                &&& was.seq == 0 && old(s)@.messages.len() <= i64::MAX ==> is.seq == old(
                    s,
                )@.messages.take(i + 1).filter(
                    |m: MessageRowView| m.room_id == was.room_id && m.seq == 0,
                ).len()
            }),
        (exists|i: int|
            0 <= i < old(s)@.rooms.len() && ((#[trigger] old(s)@.rooms[i]).room_id == "lobby"@
                || old(s)@.rooms[i].name == "lobby"@)) ==> final(s)@.rooms.len() == old(
            s,
        )@.rooms.len(),
        (forall|i: int|
            0 <= i < old(s)@.rooms.len() ==> (#[trigger] old(s)@.rooms[i]).room_id != "lobby"@
                && old(s)@.rooms[i].name != "lobby"@) ==> {
            let row = final(s)@.rooms.last();
            &&& final(s)@.rooms.len() == old(s)@.rooms.len() + 1
            &&& row.room_id == "lobby"@
            &&& row.name == "lobby"@
            &&& row.description == Some("Default room for all agents"@)
            &&& row.parent_id is None
            &&& row.created_by is None
            &&& row.visibility == "public"@
            &&& row.owner_key is None
            &&& !row.encrypted
        },
        forall|i: int|
            0 <= i < old(s)@.rooms.len() && !(old(s)@.rooms[i].room_id == "lobby"@ && old(
                s,
            )@.rooms[i].visibility == "private"@) ==> #[trigger] final(s)@.rooms[i] == old(
                s,
            )@.rooms[i],
        forall|i: int|
            0 <= i < old(s)@.rooms.len() && old(s)@.rooms[i].room_id == "lobby"@ && old(
                s,
            )@.rooms[i].visibility == "private"@ ==> #[trigger] final(s)@.rooms[i] == (RoomRowView {
                visibility: "public"@,
                ..old(s)@.rooms[i]
            }),
        final(s)@.sessions == old(s)@.sessions,
        final(s)@.votes == old(s)@.votes,
        final(s)@.ballots == old(s)@.ballots,
        final(s)@.keys == old(s)@.keys,
        final(s)@.subscriptions == old(s)@.subscriptions,
        final(s)@.deliveries == old(s)@.deliveries,
        final(s)@.tasks == old(s)@.tasks,
{
    let all = old(s)@.messages;
    assert forall|i: int| 0 <= i < all.len() implies unnumbered(
        all,
        (#[trigger] final(s)@.messages[i]).room_id,
        i + 1,
    ) == all.take(i + 1).filter(
        |m: MessageRowView| m.room_id == all[i].room_id && m.seq == 0,
    ).len() && unnumbered(all, all[i].room_id, i + 1) <= all.len() by {
        lemma_unnumbered(all, all[i].room_id, i + 1);
    }
    reveal_strlit("public");
    reveal_strlit("private");
    assert("public"@.len() == 6 && "private"@.len() == 7);
}

/// New tables hold nothing; those that are open hold a public lobby and nothing else.
pub proof fn new_tables_hold_only_a_lobby(
    none: Store,
    r: Result<Store, StoreError>,
)
    requires
        call_ensures(Store::empty, (), none),
        call_ensures(Store::open_in_memory, (), r),
    ensures
        none@.rooms.len() == 0,
        none@.messages.len() == 0,
        none@.sessions.len() == 0,
        none@.votes.len() == 0,
        none@.ballots.len() == 0,
        none@.keys.len() == 0,
        none@.subscriptions.len() == 0,
        none@.deliveries.len() == 0,
        none@.tasks.len() == 0,
        r matches Ok(s) && {
            &&& s@.rooms.len() == 1
            &&& s@.rooms[0].room_id == "lobby"@
            &&& s@.rooms[0].name == "lobby"@
            &&& s@.rooms[0].visibility == "public"@
            &&& s@.rooms[0].owner_key is None
            &&& s@.rooms[0].parent_id is None
            &&& !s@.rooms[0].encrypted
            &&& s@.messages.len() == 0
            &&& s@.sessions.len() == 0
            &&& s@.votes.len() == 0
            &&& s@.ballots.len() == 0
            &&& s@.keys.len() == 0
            &&& s@.subscriptions.len() == 0
            &&& s@.deliveries.len() == 0
            &&& s@.tasks.len() == 0
        },
{
    reveal_strlit("public");
    reveal_strlit("private");
    assert("public"@.len() == 6 && "private"@.len() == 7);
}

/// A column is added by a statement that names the table, the column and its declaration;
/// only where the table does not have it, in upper or lower case.
pub proof fn a_column_is_added_where_it_is_missing(
    columns: &Vec<String>,
    table: &str,
    column: &str,
    declared: &str,
    sql: String,
    r: Option<String>,
)
    requires
        call_ensures(add_column_sql, (table, column, declared), sql),
        call_ensures(missing_column_sql, (columns, table, column, declared), r),
    ensures
        sql@ == "ALTER TABLE "@ + table@ + " ADD COLUMN "@ + column@ + " "@ + declared@,
        r matches Some(text) ==> text@ == sql@,
        r is None <==> exists|i: int|
            0 <= i < columns@.len() && same_ignoring_case((#[trigger] columns@[i])@, column@),
{
    let names = columns.deep_view();
    assert forall|i: int| 0 <= i < columns@.len() implies #[trigger] names[i] == columns@[i]@ by {}
    if r is None {
        let i = choose|i: int| 0 <= i < names.len()
            && same_ignoring_case(#[trigger] names[i], column@);
        assert(same_ignoring_case(columns@[i]@, column@));
    }
    if exists|i: int|
        0 <= i < columns@.len() && same_ignoring_case((#[trigger] columns@[i])@, column@) {
        let i = choose|i: int|
            0 <= i < columns@.len() && same_ignoring_case((#[trigger] columns@[i])@, column@);
        assert(same_ignoring_case(names[i], column@));
    }
}

} // verus!
