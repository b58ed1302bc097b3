//! The rooms table.

use vstd::prelude::*;
use crate::models::{Room, RoomView};
use crate::rows::{any, count, exists_row, find, first_match, ordered, rewrite, select, sort, views, Row};
use crate::store::{
    DbError, MessageRow, MessageRowView, RoomRow, RoomRowView, Store, StoreError, StoreErrorView,
    StoreView,
};
use crate::text::{copy_text, is_text, lex_lt, own, text_lt};
use crate::time::{
    in_calendar, kept, now, parse_timestamp, reads_as, show, shown, Timestamp, COLUMN_FORMAT,
};

verus! {

/// The rooms with an id.
pub open spec fn with_room_id(room_id: Seq<char>) -> spec_fn(RoomRowView) -> bool {
    |r: RoomRowView| r.room_id == room_id
}

/// The rooms with a name.
pub open spec fn with_room_name(name: Seq<char>) -> spec_fn(RoomRowView) -> bool {
    |r: RoomRowView| r.name == name
}

/// The rooms directly below a room; all rooms where none is given.
pub open spec fn below(parent_id: Option<Seq<char>>) -> spec_fn(RoomRowView) -> bool {
    |r: RoomRowView| parent_id is None || r.parent_id == parent_id
}

/// The rooms that a key owns.
pub open spec fn owned_by(api_key: Seq<char>) -> spec_fn(RoomRowView) -> bool {
    |r: RoomRowView| r.owner_key == Some(api_key)
}

/// Whether a room can be seen with a key, or without one: public rooms by
/// everybody, the others by the key that owns them.
pub open spec fn visible_to(room: RoomRowView, api_key: Option<Seq<char>>) -> bool {
    room.visibility == "public"@ || (api_key is Some && room.owner_key == api_key)
}

/// The rooms below a room that can be seen with a key.
pub open spec fn visible_below(
    api_key: Option<Seq<char>>,
    parent_id: Option<Seq<char>>,
) -> spec_fn(RoomRowView) -> bool {
    |r: RoomRowView| below(parent_id)(r) && visible_to(r, api_key)
}

/// The order of room lists: by name.
pub open spec fn by_name() -> spec_fn(RoomRowView, RoomRowView) -> bool {
    |a: RoomRowView, b: RoomRowView| lex_lt(a.name, b.name)
}

/// Whether a room is a correct reading of a row.
pub open spec fn room_reads(row: RoomRowView, room: RoomView) -> bool {
    &&& room == (RoomView {
        room_id: row.room_id,
        name: row.name,
        description: row.description,
        parent_id: row.parent_id,
        ephemeral: false,
        created_at: room.created_at,
        created_by: row.created_by,
        visibility: row.visibility,
        owner_key: row.owner_key,
        last_activity: None,
        member_count: None,
        encrypted: row.encrypted,
    })
    &&& reads_as(row.created_at, room.created_at)
}

/// Whether rooms are a correct reading of rows, one by one.
pub open spec fn rooms_read(rows: Seq<RoomRowView>, rooms: Seq<Room>) -> bool {
    &&& rooms.len() == rows.len()
    &&& forall|i: int| 0 <= i < rows.len() ==> room_reads(rows[i], (#[trigger] rooms[i])@)
}

/// Why a new room is refused, if it is. A room may not be its own parent; its
/// name and its id must be new; its parent must be there.
pub open spec fn room_refusal(rooms: Seq<RoomRowView>, row: RoomRowView) -> Option<StoreErrorView> {
    if row.parent_id == Some(row.room_id) {
        Some(StoreErrorView::Db(DbError::OwnParent))
    } else if any(rooms, with_room_name(row.name)) {
        Some(StoreErrorView::RoomNameTaken(row.name))
    } else if any(rooms, with_room_id(row.room_id)) {
        Some(StoreErrorView::Db(DbError::DuplicateRoom))
    } else if row.parent_id matches Some(p) && !any(rooms, with_room_id(p)) {
        Some(StoreErrorView::Db(DbError::ForeignKey))
    } else {
        None
    }
}

/// The tables with a room added.
pub open spec fn with_room(s: StoreView, row: RoomRowView) -> StoreView {
    StoreView { rooms: s.rooms.push(row), ..s }
}

/// What adding a room does: a refused room changes nothing, any other is in the
/// table afterwards and handed back.
pub open spec fn room_creation(
    before: Store,
    after: Store,
    row: RoomRowView,
    r: Result<Room, StoreError>,
) -> bool {
    match room_refusal(before@.rooms, row) {
        None => r matches Ok(room) && room_reads(row, room@) && after@ == with_room(before@, row),
        Some(e) => r matches Err(err) && err@ == e && after == before,
    }
}

/// A row that lost its parent, where that is the given room.
pub open spec fn orphaned(room_id: Seq<char>) -> spec_fn(RoomRowView) -> RoomRowView {
    |r: RoomRowView|
        if r.parent_id == Some(room_id) {
            RoomRowView { parent_id: None, ..r }
        } else {
            r
        }
}

/// The messages outside a room.
pub open spec fn outside(room_id: Seq<char>) -> spec_fn(MessageRowView) -> bool {
    |m: MessageRowView| m.room_id != room_id
}

/// The messages with an id.
pub open spec fn with_message_id(message_id: Seq<char>) -> spec_fn(MessageRowView) -> bool {
    |m: MessageRowView| m.message_id == message_id
}

/// A message that no longer points at a message of the given room.
pub open spec fn detached(
    messages: Seq<MessageRowView>,
    room_id: Seq<char>,
) -> spec_fn(MessageRowView) -> MessageRowView {
    |m: MessageRowView|
        if m.reply_to_message matches Some(id) && any(
            messages,
            |t: MessageRowView| t.message_id == id && t.room_id == room_id,
        ) {
            MessageRowView { reply_to_message: None, ..m }
        } else {
            m
        }
}

/// The tables without a room: the rooms below it move to the top, its messages
/// go with it, and replies to them from elsewhere become plain messages.
pub open spec fn without_room(s: StoreView, room_id: Seq<char>) -> StoreView {
    StoreView {
        rooms: s.rooms.filter(|r: RoomRowView| r.room_id != room_id).map_values(orphaned(room_id)),
        messages: s.messages.filter(outside(room_id)).map_values(detached(s.messages, room_id)),
        ..s
    }
}

/// Reads a row as a room.
fn read_room(row: &RoomRow) -> (r: Room)
    ensures
        room_reads(row@, r@),
{
    Room {
        room_id: row.room_id.clone(),
        name: row.name.clone(),
        description: copy_text(&row.description),
        parent_id: copy_text(&row.parent_id),
        ephemeral: false,
        created_at: parse_timestamp(row.created_at.as_str()),
        created_by: copy_text(&row.created_by),
        visibility: row.visibility.clone(),
        owner_key: copy_text(&row.owner_key),
        last_activity: None,
        member_count: None,
        encrypted: row.encrypted,
    }
}

/// Reads rows as rooms.
fn read_rooms(rows: &Vec<RoomRow>) -> (r: Vec<Room>)
    ensures
        rooms_read(views(rows@), r@),
{
    let mut out: Vec<Room> = Vec::new();
    let mut i: usize = 0;
    while i < rows.len()
        invariant
            i <= rows.len(),
            out.len() == i,
            forall|j: int| 0 <= j < i ==> room_reads(rows@[j]@, (#[trigger] out@[j])@),
        decreases rows.len() - i,
    {
        out.push(read_room(&rows[i]));
        i = i + 1;
    }
    out
}

impl Store {
    /// Whether a room with this id is in the table.
    pub fn has_room(&self, room_id: &str) -> (r: bool)
        ensures
            r == any(self@.rooms, with_room_id(room_id@)),
    {
        let hit = |t: &RoomRow| -> (b: bool)
            ensures
                b == (t@.room_id == room_id@)
        {
            *t.room_id.as_str() == *room_id
        };
        exists_row(&self.rooms, hit, Ghost(with_room_id(room_id@)))
    }

    /// Adds a row to the table. A refused row changes nothing.
    pub fn append_room(&mut self, row: RoomRow) -> (r: Result<(), StoreError>)
        ensures
            match room_refusal(old(self)@.rooms, row@) {
                None => r is Ok && final(self)@ == with_room(old(self)@, row@),
                Some(e) => r matches Err(err) && err@ == e && *final(self) == *old(self),
            },
    {
        if is_text(&row.parent_id, row.room_id.as_str()) {
            return Err(StoreError::Db(DbError::OwnParent));
        }
        let name = row.name.as_str();
        let name_taken = exists_row(
            &self.rooms,
            |t: &RoomRow| -> (b: bool)
                ensures
                    b == (t@.name == name@)
                { *t.name.as_str() == *name },
            Ghost(with_room_name(name@)),
        );
        if name_taken {
            return Err(StoreError::RoomNameTaken(row.name));
        }
        if self.has_room(row.room_id.as_str()) {
            return Err(StoreError::Db(DbError::DuplicateRoom));
        }
        if let Some(p) = &row.parent_id {
            if !self.has_room(p.as_str()) {
                return Err(StoreError::Db(DbError::ForeignKey));
            }
        }
        self.rooms.push(row);
        assert(self@ =~= with_room(old(self)@, row@));
        Ok(())
    }

    /// Adds a room created at the given time. A refused room changes nothing.
    pub fn create_room_at(
        &mut self,
        room_id: &str,
        name: &str,
        description: Option<&str>,
        parent_id: Option<&str>,
        created_by: Option<&str>,
        visibility: &str,
        owner_key: Option<&str>,
        encrypted: bool,
        created_at: &str,
    ) -> (r: Result<Room, StoreError>)
        ensures
            room_creation(
                *old(self),
                *final(self),
                (RoomRowView {
                    room_id: room_id@,
                    name: name@,
                    description: description.deep_view(),
                    parent_id: parent_id.deep_view(),
                    created_by: created_by.deep_view(),
                    created_at: created_at@,
                    visibility: visibility@,
                    owner_key: owner_key.deep_view(),
                    encrypted,
                }),
                r,
            ),
    {
        let row = RoomRow {
            room_id: room_id.to_owned(),
            name: name.to_owned(),
            description: own(description),
            parent_id: own(parent_id),
            created_by: own(created_by),
            created_at: created_at.to_owned(),
            visibility: visibility.to_owned(),
            owner_key: own(owner_key),
            encrypted,
        };
        let room = read_room(&row);
        match self.append_room(row) {
            Ok(_) => Ok(room),
            Err(e) => Err(e),
        }
    }

    /// Adds a room; the clock says when it was created.
    pub fn create_room_with_visibility(
        &mut self,
        room_id: &str,
        name: &str,
        description: Option<&str>,
        parent_id: Option<&str>,
        created_by: Option<&str>,
        visibility: &str,
        owner_key: Option<&str>,
        encrypted: bool,
    ) -> (r: Result<Room, StoreError>)
        ensures
            exists|at: Timestamp|
                in_calendar(at) && kept(at) && #[trigger] room_creation(
                    *old(self),
                    *final(self),
                    (RoomRowView {
                        room_id: room_id@,
                        name: name@,
                        description: description.deep_view(),
                        parent_id: parent_id.deep_view(),
                        created_by: created_by.deep_view(),
                        created_at: shown(at, COLUMN_FORMAT@),
                        visibility: visibility@,
                        owner_key: owner_key.deep_view(),
                        encrypted,
                    }),
                    r,
                ),
    {
        let clock = now();
        let created_at = show(clock, COLUMN_FORMAT);
        self.create_room_at(
            room_id,
            name,
            description,
            parent_id,
            created_by,
            visibility,
            owner_key,
            encrypted,
            created_at.as_str(),
        )
    }

    /// Adds a private room that no key owns.
    pub fn create_room(
        &mut self,
        room_id: &str,
        name: &str,
        description: Option<&str>,
        parent_id: Option<&str>,
        created_by: Option<&str>,
    ) -> (r: Result<Room, StoreError>)
        ensures
            exists|at: Timestamp|
                in_calendar(at) && kept(at) && #[trigger] room_creation(
                    *old(self),
                    *final(self),
                    (RoomRowView {
                        room_id: room_id@,
                        name: name@,
                        description: description.deep_view(),
                        parent_id: parent_id.deep_view(),
                        created_by: created_by.deep_view(),
                        created_at: shown(at, COLUMN_FORMAT@),
                        visibility: "private"@,
                        owner_key: None,
                        encrypted: false,
                    }),
                    r,
                ),
    {
        self.create_room_with_visibility(
            room_id,
            name,
            description,
            parent_id,
            created_by,
            "private",
            None,
            false,
        )
    }

    /// The room with this id.
    pub fn get_room(&self, room_id: &str) -> (r: Result<Option<Room>, StoreError>)
        ensures
            r matches Ok(found) && match first_match(self@.rooms, with_room_id(room_id@)) {
                Some(row) => found matches Some(room) && room_reads(row, room@),
                None => found is None,
            },
    {
        let at = find(
            &self.rooms,
            |t: &RoomRow| -> (b: bool)
                ensures
                    b == (t@.room_id == room_id@)
                { *t.room_id.as_str() == *room_id },
            Ghost(with_room_id(room_id@)),
        );
        match at {
            Some(i) => Ok(Some(read_room(&self.rooms[i]))),
            None => Ok(None),
        }
    }

    /// The room with this name.
    pub fn get_room_by_name(&self, name: &str) -> (r: Result<Option<Room>, StoreError>)
        ensures
            r matches Ok(found) && match first_match(self@.rooms, with_room_name(name@)) {
                Some(row) => found matches Some(room) && room_reads(row, room@),
                None => found is None,
            },
    {
        let at = find(
            &self.rooms,
            |t: &RoomRow| -> (b: bool)
                ensures
                    b == (t@.name == name@)
                { *t.name.as_str() == *name },
            Ghost(with_room_name(name@)),
        );
        match at {
            Some(i) => Ok(Some(read_room(&self.rooms[i]))),
            None => Ok(None),
        }
    }

    /// The rooms below a room, or all rooms, by name.
    pub fn list_rooms(&self, parent_id: Option<&str>) -> (r: Result<Vec<Room>, StoreError>)
        ensures
            r matches Ok(rooms) && rooms_read(
                ordered(self@.rooms.filter(below(parent_id.deep_view())), by_name()),
                rooms@,
            ),
    {
        let chosen = select(
            &self.rooms,
            |t: &RoomRow| -> (b: bool)
                ensures
                    b == below(parent_id.deep_view())(t@)
                {
                    match parent_id {
                        Some(p) => is_text(&t.parent_id, p),
                        None => true,
                    }
                },
            Ghost(below(parent_id.deep_view())),
        );
        Ok(read_rooms(&sort_by_name(chosen)))
    }

    /// The rooms below a room, or all rooms, that can be seen with a key, by name.
    pub fn list_rooms_for_key(&self, api_key: Option<&str>, parent_id: Option<&str>) -> (r: Result<
        Vec<Room>,
        StoreError,
    >)
        ensures
            r matches Ok(rooms) && rooms_read(
                ordered(
                    self@.rooms.filter(visible_below(api_key.deep_view(), parent_id.deep_view())),
                    by_name(),
                ),
                rooms@,
            ),
    {
        let chosen = select(
            &self.rooms,
            |t: &RoomRow| -> (b: bool)
                ensures
                    b == visible_below(api_key.deep_view(), parent_id.deep_view())(t@)
                {
                    let there = match parent_id {
                        Some(p) => is_text(&t.parent_id, p),
                        None => true,
                    };
                    let seen = match api_key {
                        Some(k) => is_text(&t.owner_key, k),
                        None => false,
                    };
                    there && (*t.visibility.as_str() == *"public" || seen)
                },
            Ghost(visible_below(api_key.deep_view(), parent_id.deep_view())),
        );
        Ok(read_rooms(&sort_by_name(chosen)))
    }

    /// How many rooms a key owns.
    pub fn count_rooms_for_key(&self, api_key: &str) -> (r: Result<usize, StoreError>)
        ensures
            r matches Ok(n) && n == self@.rooms.filter(owned_by(api_key@)).len(),
    {
        Ok(
            count(
                &self.rooms,
                |t: &RoomRow| -> (b: bool)
                    ensures
                        b == owned_by(api_key@)(t@)
                    { is_text(&t.owner_key, api_key) },
                Ghost(owned_by(api_key@)),
            ),
        )
    }

    /// Removes a room with its messages; says whether there was one.
    pub fn delete_room(&mut self, room_id: &str) -> (r: Result<bool, StoreError>)
        ensures
            r matches Ok(b) && b == any(old(self)@.rooms, with_room_id(room_id@)),
            any(old(self)@.rooms, with_room_id(room_id@)) ==> final(self)@ == without_room(
                old(self)@,
                room_id@,
            ),
            !any(old(self)@.rooms, with_room_id(room_id@)) ==> *final(self) == *old(self),
    {
        if !self.has_room(room_id) {
            return Ok(false);
        }
        let kept = select(
            &self.rooms,
            |t: &RoomRow| -> (b: bool)
                ensures
                    b == (t@.room_id != room_id@)
                { !(*t.room_id.as_str() == *room_id) },
            Ghost(|t: RoomRowView| t.room_id != room_id@),
        );
        let rooms = rewrite(
            &kept,
            |t: &RoomRow| -> (u: RoomRow)
                ensures
                    u@ == orphaned(room_id@)(t@)
                {
                    let mut u = t.duplicate();
                    if is_text(&t.parent_id, room_id) {
                        u.parent_id = None;
                    }
                    u
                },
            Ghost(orphaned(room_id@)),
        );
        let stay = select(
            &self.messages,
            |m: &MessageRow| -> (b: bool)
                ensures
                    b == outside(room_id@)(m@)
                { !(*m.room_id.as_str() == *room_id) },
            Ghost(outside(room_id@)),
        );
        let all = &self.messages;
        let messages = rewrite(
            &stay,
            |m: &MessageRow| -> (u: MessageRow)
                ensures
                    u@ == detached(views(all@), room_id@)(m@)
                {
                    let mut u = m.duplicate();
                    if let Some(id) = &m.reply_to_message {
                        let gone = exists_row(
                            all,
                            |t: &MessageRow| -> (b: bool)
                                ensures
                                    b == (t@.message_id == id@ && t@.room_id == room_id@)
                                {
                                    *t.message_id.as_str() == *id.as_str() && *t.room_id.as_str()
                                        == *room_id
                                },
                            Ghost(
                                |t: MessageRowView| t.message_id == id@ && t.room_id == room_id@,
                            ),
                        );
                        if gone {
                            u.reply_to_message = None;
                        }
                    }
                    u
                },
            Ghost(detached(views(all@), room_id@)),
        );
        self.rooms = rooms;
        self.messages = messages;
        Ok(true)
    }
}

/// Sorts rooms by name.
fn sort_by_name(rows: Vec<RoomRow>) -> (r: Vec<RoomRow>)
    ensures
        views(r@) == ordered(views(rows@), by_name()),
{
    sort(
        rows,
        |a: &RoomRow, b: &RoomRow| -> (o: bool)
            ensures
                o == lex_lt(a@.name, b@.name)
            { text_lt(a.name.as_str(), b.name.as_str()) },
        Ghost(by_name()),
    )
}

} // verus!
