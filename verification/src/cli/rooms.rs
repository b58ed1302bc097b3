//! Finding a room by its id or its name.

use vstd::prelude::*;
use vstd::string::*;
use crate::models::{Room, RoomView};
use crate::rows::{lemma_filter_rows, views};
use crate::text::join3;

verus! {

/// What the server says of a room id.
#[derive(Debug)]
pub enum IdLookup {
    Known,
    Unknown,
    /// The request failed.
    Failed(String),
}

/// What comes after looking up a room by id.
#[derive(Debug)]
pub enum ById {
    /// This is the room.
    Room(String),
    /// Look for a room of this name.
    TryName,
    /// There is nothing more to try.
    Failed(String),
}

/// Goes on after looking up a room by id.
pub fn resolve_by_id(room: &str, answer: &IdLookup) -> (r: ById)
    ensures
        match answer {
            IdLookup::Known => r matches ById::Room(id) && id@ == room@,
            IdLookup::Unknown => r is TryName,
            IdLookup::Failed(why) => r matches ById::Failed(e) && e@ == why@,
        },
{
    match answer {
        IdLookup::Known => ById::Room(room.to_owned()),
        IdLookup::Unknown => ById::TryName,
        IdLookup::Failed(why) => ById::Failed(why.clone()),
    }
}

/// The rooms of a name.
pub open spec fn called(name: Seq<char>) -> spec_fn(RoomView) -> bool {
    |r: RoomView| r.name == name
}

/// Finds the one room of a name. Without one, and with more than one, there is
/// none.
pub fn resolve_by_name(room: &str, rooms: &Vec<Room>) -> (r: Result<String, String>)
    ensures
        ({
            let found = views(rooms@).filter(called(room@));
            if found.len() == 1 {
                r matches Ok(id) && id@ == found[0].room_id
            } else if found.len() == 0 {
                r matches Err(e) && e@ == "Room '"@ + room@
                    + "' not found (expected ID or exact name)"@
            } else {
                r matches Err(e) && e@ == "Room name '"@ + room@
                    + "' is ambiguous; use the room ID"@
            }
        }),
{
    let found = crate::rows::select(
        rooms,
        |t: &Room| -> (b: bool)
            ensures
                b == (t@.name == room@)
            { *t.name.as_str() == *room },
        Ghost(called(room@)),
    );
    let ghost all = views(rooms@).filter(called(room@));
    assert(found@.len() == all.len());
    if found.len() == 1 {
        assert(views(found@)[0] == found@[0]@);
        Ok(found[0].room_id.clone())
    } else if found.len() == 0 {
        Err(join3("Room '", room, "' not found (expected ID or exact name)"))
    } else {
        Err(join3("Room name '", room, "' is ambiguous; use the room ID"))
    }
}

// --- What the calls do ---

/// Whether two rows satisfy a condition, one behind the other.
spec fn two_match<V>(rows: Seq<V>, wanted: spec_fn(V) -> bool, i: int, j: int) -> bool {
    0 <= i < j < rows.len() && wanted(rows[i]) && wanted(rows[j])
}

proof fn lemma_count_filtered<V>(rows: Seq<V>, wanted: spec_fn(V) -> bool)
    ensures
        forall|i: int| 0 <= i < rows.len() && wanted(#[trigger] rows[i])
            ==> rows.filter(wanted).len()
            >= 1,
        forall|i: int, j: int| #[trigger]
            two_match(rows, wanted, i, j) ==> rows.filter(wanted).len() >= 2,
    decreases rows.len(),
{
    reveal(Seq::filter);
    if rows.len() > 0 {
        let front = rows.drop_last();
        lemma_count_filtered(front, wanted);
        assert forall|i: int| 0 <= i < rows.len() && wanted(#[trigger] rows[i]) implies rows.filter(
            wanted,
        ).len() >= 1 by {
            if i < front.len() {
                assert(wanted(front[i]));
            }
        }
        assert forall|i: int, j: int| #[trigger] two_match(rows, wanted, i, j) implies rows.filter(
            wanted,
        ).len() >= 2 by {
            assert(front[i] == rows[i]);
            assert(wanted(front[i]));
            if j < front.len() {
                assert(front[j] == rows[j]);
                assert(two_match(front, wanted, i, j));
            }
        }
    }
}

/// A room is resolved by its id where the server knows it; an unknown one is looked for by
/// name, and a failure ends the search.
pub proof fn a_known_id_is_the_room(
    room: &str,
    answer: &IdLookup,
    r: ById,
)
    requires
        call_ensures(resolve_by_id, (room, answer), r),
    ensures
        answer is Known ==> (r matches ById::Room(id) && id@ == room@),
        answer is Unknown <==> r is TryName,
        answer matches IdLookup::Failed(why) ==> (r matches ById::Failed(e) && e@ == why@),
{
}

/// A name stands for a room exactly where one room has it: then for that room. Without one,
/// or with two, it is refused.
pub proof fn a_name_stands_for_the_one_room_that_has_it(
    room: &str,
    rooms: &Vec<Room>,
    r: Result<String, String>,
)
    requires
        call_ensures(resolve_by_name, (room, rooms), r),
    ensures
        r matches Ok(id) ==> exists|i: int|
            0 <= i < rooms@.len() && (#[trigger] rooms@[i])@.name == room@
                && id@ == rooms@[i]@.room_id
                && forall|j: int|
                0 <= j < rooms@.len() && j != i ==> (#[trigger] rooms@[j])@.name != room@,
        (forall|j: int| 0 <= j < rooms@.len() ==> (#[trigger] rooms@[j])@.name != room@) <==> (
        r matches Err(e) && e@ == "Room '"@ + room@ + "' not found (expected ID or exact name)"@),
        (exists|i: int, j: int|
            0 <= i < j < rooms@.len() && (#[trigger] rooms@[i])@.name == room@ && (
            #[trigger] rooms@[j])@.name == room@) ==> (r matches Err(e) && e@ == "Room name '"@
            + room@ + "' is ambiguous; use the room ID"@),
        r matches Err(e) ==> e@ == "Room '"@ + room@ + "' not found (expected ID or exact name)"@ ||
            e@
            == "Room name '"@ + room@ + "' is ambiguous; use the room ID"@,
{
    let all = views(rooms@);
    let found = all.filter(called(room@));
    lemma_filter_rows(all, called(room@));
    lemma_count_filtered(all, called(room@));
    reveal_strlit("Room '");
    reveal_strlit("Room name '");
    let none = "Room '"@ + room@ + "' not found (expected ID or exact name)"@;
    let many = "Room name '"@ + room@ + "' is ambiguous; use the room ID"@;
    assert(none[5] == '\'' && many[5] == 'n');
    assert forall|j: int| 0 <= j < all.len() implies #[trigger] all[j] == rooms@[j]@ by {}
    if found.len() == 0 {
        assert forall|j: int| 0 <= j < rooms@.len() implies (#[trigger] rooms@[j])@.name
            != room@ by {
            if rooms@[j]@.name == room@ {
                assert(called(room@)(all[j]));
                assert(found.contains(all[j]));
            }
        }
    } else {
        assert(called(room@)(found[0]) && all.contains(found[0]));
        let i = choose|i: int| 0 <= i < all.len() && all[i] == found[0];
        assert(rooms@[i]@.name == room@);
        if found.len() == 1 {
            assert forall|j: int| 0 <= j < rooms@.len() && j != i implies (
            #[trigger] rooms@[j])@.name != room@ by {
                if rooms@[j]@.name == room@ {
                    assert(called(room@)(all[j]) && called(room@)(all[i]));
                    if i < j {
                        assert(two_match(all, called(room@), i, j));
                    } else {
                        assert(two_match(all, called(room@), j, i));
                    }
                }
            }
        }
    }
    assert forall|i: int, j: int|
        0 <= i < j < rooms@.len() && (#[trigger] rooms@[i])@.name == room@ && (
        #[trigger] rooms@[j])@.name == room@ implies found.len() >= 2 by {
        assert(called(room@)(all[j]) && called(room@)(all[i]));
        assert(two_match(all, called(room@), i, j));
    }
}

} // verus!
