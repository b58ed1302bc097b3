//! Rooms that live only as long as someone is in them.

use vstd::prelude::*;
use dashmap::DashMap;
use crate::models::{Room, RoomView};
use crate::rows::{views, Row};
use crate::text::is_text;

verus! {

/// A room that ends when it is empty, and the number of its latest message; zero
/// where it has none yet.
#[derive(Debug)]
pub struct EphemeralRoom {
    pub room: Room,
    pub tip: i64,
}

/// What an `EphemeralRoom` stands for.
pub struct EphemeralRoomView {
    pub room: RoomView,
    pub tip: i64,
}

impl View for EphemeralRoom {
    type V = EphemeralRoomView;

    open spec fn view(&self) -> EphemeralRoomView {
        EphemeralRoomView { room: self.room@, tip: self.tip }
    }
}

impl Row for EphemeralRoom {
    fn duplicate(&self) -> (r: EphemeralRoom) {
        EphemeralRoom { room: self.room.duplicate(), tip: self.tip }
    }
}

/// The rooms that a map holds, by id.
pub uninterp spec fn rooms_of(m: DashMap<String, EphemeralRoom>) -> Map<Seq<char>, EphemeralRoomView>;

/// No rooms at all.
pub open spec fn no_rooms() -> Map<Seq<char>, EphemeralRoomView> {
    Map::empty()
}

/// Calls `DashMap::new`: the map holds nothing.
#[verifier::external_body]
pub(crate) fn new_rooms() -> (m: DashMap<String, EphemeralRoom>)
    ensures
        rooms_of(m) == no_rooms(),
{
    DashMap::new()
}

/// Calls `DashMap::insert`: the key now leads to the value, every other key to
/// what it led to.
#[verifier::external_body]
pub(crate) fn put_room(m: &mut DashMap<String, EphemeralRoom>, key: String, value: EphemeralRoom)
    ensures
        rooms_of(*final(m)) == rooms_of(*old(m)).insert(key@, value@),
{
    m.insert(key, value);
}

/// Calls `DashMap::get` and copies the value found.
#[verifier::external_body]
pub(crate) fn lookup_room(m: &DashMap<String, EphemeralRoom>, key: &str) -> (r: Option<EphemeralRoom>)
    ensures
        r is Some <==> rooms_of(*m).contains_key(key@),
        r matches Some(t) ==> t@ == rooms_of(*m)[key@],
{
    m.get(key).map(|entry| entry.value().duplicate())
}

/// Calls `DashMap::remove`: the key leads nowhere afterwards, every other key to
/// what it led to. Says whether it led somewhere.
#[verifier::external_body]
pub(crate) fn take_room(m: &mut DashMap<String, EphemeralRoom>, key: &str) -> (r: bool)
    ensures
        r == rooms_of(*old(m)).contains_key(key@),
        rooms_of(*final(m)) == rooms_of(*old(m)).remove(key@),
{
    m.remove(key).is_some()
}

/// Calls `DashMap::iter` and copies each value. Every key is visited once; the
/// order is open.
#[verifier::external_body]
fn room_entries(m: &DashMap<String, EphemeralRoom>) -> (r: Vec<(String, EphemeralRoom)>)
    ensures
        forall|i: int, j: int|
            0 <= i < j < r.len() ==> (#[trigger] r@[i]).0@ != (#[trigger] r@[j]).0@,
        forall|i: int|
            0 <= i < r.len() ==> rooms_of(*m).contains_key((#[trigger] r@[i]).0@) && r@[i].1@
                == rooms_of(*m)[r@[i].0@],
        forall|k: Seq<char>| #[trigger]
            rooms_of(*m).contains_key(k) ==> exists|i: int|
                0 <= i < r.len() && (#[trigger] r@[i]).0@ == k,
{
    m.iter().map(|entry| (entry.key().clone(), entry.value().duplicate())).collect()
}

/// Whether a room is directly below another; any room is below none.
pub open spec fn is_below(room: RoomView, parent_id: Option<Seq<char>>) -> bool {
    parent_id is None || room.parent_id == parent_id
}

/// Whether a list holds exactly the rooms of a map below a room, each once. The
/// order is open.
pub open spec fn lists_rooms(
    list: Seq<RoomView>,
    rooms: Map<Seq<char>, EphemeralRoomView>,
    parent_id: Option<Seq<char>>,
) -> bool {
    exists|keys: Seq<Seq<char>>| #[trigger] lists_rooms_by(keys, list, rooms, parent_id)
}

/// Whether a list holds exactly the rooms of a map below a room, in the order of
/// some different keys.
pub open spec fn lists_rooms_by(
    keys: Seq<Seq<char>>,
    list: Seq<RoomView>,
    rooms: Map<Seq<char>, EphemeralRoomView>,
    parent_id: Option<Seq<char>>,
) -> bool {
    &&& keys.no_duplicates()
    &&& keys.len() == list.len()
    &&& forall|i: int|
        0 <= i < keys.len() ==> rooms.contains_key(#[trigger] keys[i]) && rooms[keys[i]].room == list[i]
            && is_below(list[i], parent_id)
    &&& forall|k: Seq<char>|
        rooms.contains_key(k) && is_below((#[trigger] rooms[k]).room, parent_id) ==> keys.contains(k)
}

/// The ephemeral rooms below a room, or all of them.
pub fn rooms_below(m: &DashMap<String, EphemeralRoom>, parent_id: Option<&str>) -> (r: Vec<Room>)
    ensures
        lists_rooms(views(r@), rooms_of(*m), parent_id.deep_view()),
{
    let ghost map = rooms_of(*m);
    let ghost parent = parent_id.deep_view();
    let all = room_entries(m);
    let ghost mut keys: Seq<Seq<char>> = Seq::empty();
    let mut out: Vec<Room> = Vec::new();
    let mut i: usize = 0;
    while i < all.len()
        invariant
            i <= all.len(),
            parent == parent_id.deep_view(),
            forall|a: int, b: int|
                0 <= a < b < all.len() ==> (#[trigger] all@[a]).0@ != (#[trigger] all@[b]).0@,
            forall|a: int|
                0 <= a < all.len() ==> map.contains_key((#[trigger] all@[a]).0@) && all@[a].1@
                    == map[all@[a].0@],
            keys.no_duplicates(),
            keys.len() == out.len(),
            forall|a: int|
                0 <= a < keys.len() ==> map.contains_key(#[trigger] keys[a]) && map[keys[a]].room
                    == out@[a]@ && is_below(out@[a]@, parent),
            forall|a: int|
                0 <= a < keys.len() ==> exists|b: int|
                    0 <= b < i && (#[trigger] all@[b]).0@ == #[trigger] keys[a],
            forall|b: int|
                0 <= b < i && is_below((#[trigger] all@[b]).1@.room, parent) ==> keys.contains(
                    all@[b].0@,
                ),
        decreases all.len() - i,
    {
        let room = &all[i].1.room;
        let here = match parent_id {
            Some(p) => is_text(&room.parent_id, p),
            None => true,
        };
        let ghost old_keys = keys;
        if here {
            out.push(room.duplicate());
            proof {
                keys = keys.push(all@[i as int].0@);
                assert forall|k: Seq<char>| old_keys.contains(k) implies keys.contains(k) by {
                    let a = choose|a: int| 0 <= a < old_keys.len() && old_keys[a] == k;
                    assert(keys[a] == k);
                }
                assert(keys[keys.len() - 1] == all@[i as int].0@);
                assert forall|a: int, b: int|
                    0 <= a < keys.len() && 0 <= b < keys.len() && a != b implies keys[a]
                    != keys[b] by {
                    if a < old_keys.len() {
                        assert(old_keys[a] == keys[a]);
                    }
                    if b < old_keys.len() {
                        assert(old_keys[b] == keys[b]);
                    }
                }
                assert forall|a: int| 0 <= a < keys.len() implies exists|b: int|
                    0 <= b < i + 1 && (#[trigger] all@[b]).0@ == #[trigger] keys[a] by {
                    if a < old_keys.len() {
                        assert(old_keys[a] == keys[a]);
                    }
                }
                assert forall|a: int| 0 <= a < keys.len() implies map.contains_key(
                    #[trigger] keys[a],
                ) && map[keys[a]].room == out@[a]@ && is_below(out@[a]@, parent) by {
                    if a < old_keys.len() {
                        assert(old_keys[a] == keys[a]);
                    }
                }
            }
        }
        i = i + 1;
    }
    proof {
        assert forall|k: Seq<char>|
            map.contains_key(k) && is_below((#[trigger] map[k]).room, parent) implies keys.contains(
            k,
        ) by {
            let b = choose|b: int| 0 <= b < all.len() && (#[trigger] all@[b]).0@ == k;
            assert(all@[b].1@ == map[k]);
        }
        let list = views(out@);
        assert forall|a: int| 0 <= a < keys.len() implies map.contains_key(#[trigger] keys[a])
            && map[keys[a]].room == list[a] && is_below(list[a], parent) by {
            assert(list[a] == out@[a]@);
        }
        assert(lists_rooms_by(keys, list, map, parent));
    }
    out
}

// --- What the calls do ---

/// The ephemeral rooms below a room are listed as they are, each once, and no others; without
/// a room all of them are.
pub proof fn ephemeral_rooms_are_listed_below_their_parent(
    m: &DashMap<String, EphemeralRoom>,
    parent_id: Option<&str>,
    list: Vec<Room>,
)
    requires
        call_ensures(rooms_below, (m, parent_id), list),
    ensures
        forall|i: int|
            0 <= i < list@.len() ==> (parent_id matches Some(p) ==> (#[trigger] list@[i])@.parent_id
                == Some(p@)) && exists|k: Seq<char>| #[trigger]
                rooms_of(*m).contains_key(k) && rooms_of(*m)[k].room == list@[i]@,
        forall|k: Seq<char>| #[trigger]
            rooms_of(*m).contains_key(k) && (parent_id matches Some(p) ==> rooms_of(
                *m,
            )[k].room.parent_id == Some(p@)) ==> exists|i: int|
                0 <= i < list@.len() && (#[trigger] list@[i])@ == rooms_of(*m)[k].room,
        list@.len() == rooms_of(*m).dom().filter(
            |k: Seq<char>|
                parent_id matches Some(p) ==> rooms_of(*m)[k].room.parent_id == Some(p@),
        ).len(),
{
    let map = rooms_of(*m);
    let all = views(list@);
    let parent = parent_id.deep_view();
    let keys = choose|keys: Seq<Seq<char>>| #[trigger] lists_rooms_by(keys, all, map, parent);
    let here = |k: Seq<char>|
        parent_id matches Some(p) ==> map[k].room.parent_id == Some(p@);
    assert forall|i: int| 0 <= i < list@.len() implies (parent_id matches Some(p) ==> (
    #[trigger] list@[i])@.parent_id == Some(p@)) && exists|k: Seq<char>| #[trigger]
        map.contains_key(k) && map[k].room == list@[i]@ by {
        assert(all[i] == list@[i]@);
        assert(map.contains_key(keys[i]) && map[keys[i]].room == all[i]);
    }
    assert forall|k: Seq<char>| #[trigger] map.contains_key(k) && here(k) implies exists|i: int|
        0 <= i < list@.len() && (#[trigger] list@[i])@ == map[k].room by {
        assert(is_below(map[k].room, parent));
        assert(keys.contains(k));
        let i = choose|i: int| 0 <= i < keys.len() && keys[i] == k;
        assert(map[keys[i]].room == all[i]);
        assert(all[i] == list@[i]@);
    }
    assert(keys.to_set() =~= map.dom().filter(here)) by {
        assert forall|k: Seq<char>| keys.to_set().contains(k) <==> map.dom().filter(here).contains(
            k,
        ) by {
            if keys.contains(k) {
                let i = choose|i: int| 0 <= i < keys.len() && keys[i] == k;
                assert(map.contains_key(keys[i]) && map[keys[i]].room == all[i]);
                assert(is_below(all[i], parent));
            }
            if map.contains_key(k) && here(k) {
                assert(is_below(map[k].room, parent));
            }
        }
    }
    keys.unique_seq_to_set();
}

} // verus!
