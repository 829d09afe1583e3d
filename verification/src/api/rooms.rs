//! The room endpoints.
use crate::api::error::{refusal, ApiError};
use crate::ids::{hyphenated, id_text, is_random_id, random_id};
use crate::order::{
    in_order, insert_in_order, lemma_text_leq_total, lemma_text_leq_transitive, not_after, orders,
    text_leq,
};
use crate::protocol::{CreateRoomRequest, Room};
use crate::rooms::{is_new_room, MediaLookup, RoomRecord};
use crate::text::{concat2, opt_text, trim, trimmed};
use crate::timestamp::Timestamp;
use vstd::prelude::*;

verus! {

pub const MAX_DISPLAY_NAME_CHARS: usize = 120;

/// The order of rooms: by name.
pub open spec fn room_leq() -> spec_fn(Room, Room) -> bool {
    |a: Room, b: Room| text_leq(a.name@, b.name@)
}

fn room_not_after(a: &Room, b: &Room) -> (r: bool)
    ensures
        r == room_leq()(*a, *b),
{
    not_after(a.name.as_str(), b.name.as_str())
}

/// The rooms by name.
pub fn list_rooms(rooms: Vec<Room>) -> (r: Vec<Room>)
    ensures
        in_order(r@, room_leq()),
        r@.to_multiset() == rooms@.to_multiset(),
{
    proof {
        let leq = room_leq();
        assert forall|a: Room, b: Room| #[trigger] leq(a, b) || leq(b, a) by {
            lemma_text_leq_total(a.name@, b.name@);
        }
        assert forall|a: Room, b: Room, c: Room| #[trigger] leq(a, b) && #[trigger] leq(b, c) implies leq(a, c) by {
            lemma_text_leq_transitive(a.name@, b.name@, c.name@);
        }
    }
    let ghost all = rooms@;
    let mut rest: Vec<Room> = rooms;
    let mut list: Vec<Room> = Vec::new();
    assert(all.to_multiset() =~= list@.to_multiset().add(rest@.to_multiset())) by {
        assert(list@ =~= Seq::<Room>::empty());
        list@.to_multiset_ensures();
    }
    while rest.len() > 0
        invariant
            orders(room_leq()),
            in_order(list@, room_leq()),
            all.to_multiset() == list@.to_multiset().add(rest@.to_multiset()),
        decreases rest@.len(),
    {
        let ghost before = rest@;
        let ghost listed = list@.to_multiset();
        match rest.pop() {
            Some(room) => {
                proof {
                    assert(before =~= rest@.push(room));
                    vstd::seq_lib::to_multiset_build(rest@, room);
                }
                insert_in_order(&mut list, room, room_not_after, Ghost(room_leq()));
                assert(listed.insert(room).add(rest@.to_multiset()) =~= listed.add(
                    rest@.to_multiset().insert(room),
                ));
            },
            None => {},
        }
    }
    proof {
        assert(rest@ =~= Seq::<Room>::empty());
        rest@.to_multiset_ensures();
        assert(list@.to_multiset().add(rest@.to_multiset()) =~= list@.to_multiset());
    }
    list
}

/// A room request that was found in order.
#[derive(Debug)]
pub struct RoomPlan {
    pub name: String,
    pub media_id: Option<u128>,
    pub media_title: Option<String>,
}

/// The media title that a request gives: trimmed, and none where that leaves
/// nothing.
pub open spec fn given_title(title: Option<Seq<char>>) -> Option<Seq<char>> {
    match title {
        Some(text) => if trimmed(text).len() == 0 {
            None
        } else {
            Some(trimmed(text))
        },
        None => None,
    }
}

/// Why a room request is refused, if it is.
pub open spec fn room_refusal(name: Seq<char>, title: Option<Seq<char>>) -> Option<
    (u16, Seq<char>),
> {
    if trimmed(name).len() == 0 {
        Some((400u16, "Room name is required"@))
    } else if trimmed(name).len() > MAX_DISPLAY_NAME_CHARS {
        Some((400u16, "Room name is too long."@))
    } else if title matches Some(text) && trimmed(text).len() > MAX_DISPLAY_NAME_CHARS {
        Some((400u16, "Media title is too long."@))
    } else {
        None
    }
}

/// Checks a room request.
pub fn check_room_request(payload: CreateRoomRequest) -> (r: Result<RoomPlan, ApiError>)
    ensures
        refusal(r) == room_refusal(payload.name@, opt_text(payload.media_title)),
        r matches Ok(plan) ==> plan.name@ == trimmed(payload.name@) && plan.media_id
            == payload.media_id && opt_text(plan.media_title) == given_title(
            opt_text(payload.media_title),
        ),
{
    let name: &str = trim(payload.name.as_str());
    if name.is_empty() {
        return Err(ApiError::bad_request("Room name is required"));
    }
    if name.unicode_len() > MAX_DISPLAY_NAME_CHARS {
        return Err(ApiError::bad_request("Room name is too long."));
    }
    let media_title: Option<String> = match &payload.media_title {
        Some(value) => {
            let title: &str = trim(value.as_str());
            if title.unicode_len() > MAX_DISPLAY_NAME_CHARS {
                return Err(ApiError::bad_request("Media title is too long."));
            }
            if title.is_empty() {
                None
            } else {
                Some(title.to_owned())
            }
        },
        None => None,
    };
    Ok(RoomPlan { name: name.to_owned(), media_id: payload.media_id, media_title })
}

/// Why a room is refused for its media item, if it is.
pub open spec fn media_refusal(media_id: Option<u128>, lookup: MediaLookup) -> Option<
    (u16, Seq<char>),
> {
    if media_id is None {
        None
    } else {
        match lookup {
            MediaLookup::Found { media_id, file_name } => None,
            MediaLookup::Missing => Some((400u16, "Media is not in the library index."@)),
            MediaLookup::Failed => Some((500u16, "Failed to resolve media for room."@)),
        }
    }
}

/// The media item of a new room: the one that was found, under the given title
/// or else its file name; without a requested item, none, under the given
/// title.
pub open spec fn room_media(plan: RoomPlan, lookup: MediaLookup) -> (
    Option<u128>,
    Option<Seq<char>>,
) {
    match (plan.media_id, lookup) {
        (Some(_), MediaLookup::Found { media_id, file_name }) => (
            Some(media_id),
            match plan.media_title {
                Some(title) => Some(title@),
                None => Some(file_name@),
            },
        ),
        _ => (None, opt_text(plan.media_title)),
    }
}

/// Makes the room of a checked request. `lookup` is what a lookup of the
/// requested media item found; it does not count where none was requested.
pub fn create_room(plan: RoomPlan, lookup: MediaLookup, now: Timestamp) -> (r: Result<
    RoomRecord,
    ApiError,
>)
    requires
        now.formattable(),
    ensures
        refusal(r) == media_refusal(plan.media_id, lookup),
        r matches Ok(record) ==> is_random_id(record.id) && record.name == plan.name
            && record.media_id == room_media(plan, lookup).0 && opt_text(record.media_title)
            == room_media(plan, lookup).1 && is_new_room(
            record,
            record.id,
            plan.name,
            record.media_id,
            record.media_title,
            now,
        ),
{
    let (media_id, media_title): (Option<u128>, Option<String>) = match plan.media_id {
        Some(_) => match lookup {
            MediaLookup::Found { media_id, file_name } => (
                Some(media_id),
                match plan.media_title {
                    Some(title) => Some(title),
                    None => Some(file_name),
                },
            ),
            MediaLookup::Missing => {
                return Err(ApiError::bad_request("Media is not in the library index."));
            },
            MediaLookup::Failed => {
                return Err(ApiError::internal("Failed to resolve media for room."));
            },
        },
        None => (None, plan.media_title),
    };
    Ok(RoomRecord::new(plan.name, media_id, media_title, now))
}

/// The answer where a new room cannot be stored.
pub fn store_room_refusal() -> (r: ApiError)
    ensures
        r@ == (500u16, "Failed to persist room."@),
{
    ApiError::internal("Failed to persist room.")
}

/// Whether a client may connect to a room.
pub fn connect_room_socket(origin_allowed: bool, room_exists: bool) -> (r: Result<(), ApiError>)
    ensures
        refusal(r) == (if !origin_allowed {
            Some((403u16, "WebSocket origin is not allowed."@))
        } else if !room_exists {
            Some((404u16, "Room not found"@))
        } else {
            None
        }),
{
    if !origin_allowed {
        Err(ApiError::with_status(403, "WebSocket origin is not allowed."))
    } else if !room_exists {
        Err(ApiError::not_found("Room not found"))
    } else {
        Ok(())
    }
}

/// The name of a client that gave none.
pub open spec fn viewer_name(id: u128) -> Seq<char> {
    "viewer-"@ + hyphenated(id).take(8)
}

/// The name that a client is known by: what it gave, trimmed and cut to
/// length, or a name made from `id`.
pub open spec fn client_name_for(given: Option<Seq<char>>, id: u128) -> Seq<char> {
    match given {
        Some(text) => if trimmed(text).len() == 0 {
            viewer_name(id)
        } else {
            truncated(trimmed(text), MAX_DISPLAY_NAME_CHARS as int)
        },
        None => viewer_name(id),
    }
}

/// The first `max` characters of a text.
pub open spec fn truncated(text: Seq<char>, max: int) -> Seq<char> {
    if text.len() <= max {
        text
    } else {
        text.take(max)
    }
}

/// The first `max_chars` characters of a text.
pub fn truncate_chars(value: &str, max_chars: usize) -> (r: String)
    ensures
        r@ == truncated(value@, max_chars as int),
{
    if value.unicode_len() <= max_chars {
        return value.to_owned();
    }
    let start: &str = value.substring_char(0, max_chars);
    assert(start@ =~= value@.take(max_chars as int));
    start.to_owned()
}

/// The name that a client is known by, where `fallback` names one that gave
/// none.
pub fn client_name_or(client_name: Option<&str>, fallback: u128) -> (r: String)
    ensures
        r@ == client_name_for(crate::text::opt_str(client_name), fallback),
{
    if let Some(value) = client_name {
        let name: &str = trim(value);
        if !name.is_empty() {
            return truncate_chars(name, MAX_DISPLAY_NAME_CHARS);
        }
    }
    let id: String = id_text(fallback);
    let start: &str = id.as_str().substring_char(0, 8);
    assert(start@ =~= hyphenated(fallback).take(8));
    concat2("viewer-", start)
}

/// The name that a client is known by; one that gave none gets a random one.
pub fn sanitize_client_name(client_name: Option<&str>) -> (r: String)
    ensures
        exists|id: u128| is_random_id(id) && r@ == #[trigger] client_name_for(
            crate::text::opt_str(client_name),
            id,
        ),
{
    let fallback: u128 = random_id();
    client_name_or(client_name, fallback)
}

/// A client is never known by an empty name, nor by one beyond the limit.
pub proof fn law_client_name_length(given: Option<Seq<char>>, id: u128)
    ensures
        0 < client_name_for(given, id).len() <= MAX_DISPLAY_NAME_CHARS,
{
    reveal_strlit("viewer-");
}

/// A room is made exactly where its name, without the white space round it, has between
/// one and 120 characters, and its title, where there is one, at most 120.
pub proof fn law_rooms_have_short_names(name: Seq<char>, title: Option<Seq<char>>)
    ensures
        room_refusal(name, title) is None <==> 1 <= trimmed(name).len() <= 120 && (title is Some
            ==> trimmed(title->0).len() <= 120),
        room_refusal(name, title) is Some ==> (room_refusal(name, title)->0).0 == 400,
        title is Some && trimmed(title->0).len() > 0 ==> given_title(title) == Some(
            trimmed(title->0),
        ),
        title is Some && trimmed(title->0).len() == 0 ==> given_title(title) is None,
        given_title(None) is None,
{
}

/// A new room shows the media item that was found, under the given title or else under
/// its file name. An item that was asked for and is not there is refused.
pub proof fn law_rooms_show_what_was_found(plan: RoomPlan, lookup: MediaLookup)
    ensures
        plan.media_id is None ==> media_refusal(plan.media_id, lookup) is None && room_media(
            plan,
            lookup,
        ) == (None::<u128>, opt_text(plan.media_title)),
        plan.media_id is Some ==> (media_refusal(plan.media_id, lookup) is None <==> lookup is Found),
        plan.media_id is Some ==> (lookup matches MediaLookup::Found { media_id, file_name } ==> {
            &&& room_media(plan, lookup).0 == Some(media_id)
            &&& plan.media_title is Some ==> room_media(plan, lookup).1 == Some(
                plan.media_title->0@,
            )
            &&& plan.media_title is None ==> room_media(plan, lookup).1 == Some(file_name@)
        }),
        plan.media_id is Some && lookup is Missing ==> (media_refusal(plan.media_id, lookup)->0).0
            == 400,
{
}

/// A client is known by the name that it gave, without the white space round it and cut
/// to 120 characters; one that gave none gets a name that starts alike for all of them.
pub proof fn law_clients_are_known_by_their_name(given: Seq<char>, id: u128)
    ensures
        trimmed(given).len() > 0 ==> client_name_for(Some(given), id).is_prefix_of(trimmed(given)),
        1 <= trimmed(given).len() <= 120 ==> client_name_for(Some(given), id) == trimmed(given),
        trimmed(given).len() > 120 ==> client_name_for(Some(given), id).len() == 120,
        trimmed(given).len() == 0 ==> client_name_for(Some(given), id) == client_name_for(None, id),
        client_name_for(None, id).len() == 15,
        "viewer-"@.is_prefix_of(client_name_for(None, id)),
{
    let name = trimmed(given);
    assert(name =~= name.subrange(0, name.len() as int));
    if name.len() > 120 {
        assert(name.take(120) =~= name.subrange(0, 120));
    }
    reveal_strlit("viewer-");
    let other = viewer_name(id);
    assert("viewer-"@ =~= other.subrange(0, 7));
}

/// Rooms are listed by name.
pub proof fn law_rooms_are_listed_by_name(list: Seq<Room>, i: int, j: int)
    requires
        in_order(list, room_leq()),
        0 <= i < j < list.len(),
    ensures
        text_leq(list[i].name@, list[j].name@),
{
    assert(room_leq()(list[i], list[j]));
}

/// A client may connect to a room that exists from an origin that is allowed.
pub proof fn law_clients_connect_to_rooms_that_exist(
    origin_allowed: bool,
    room_exists: bool,
    r: Result<(), ApiError>,
)
    requires
        call_ensures(connect_room_socket, (origin_allowed, room_exists), r),
    ensures
        r is Ok <==> origin_allowed && room_exists,
        r matches Err(error) ==> error@.0 == (if origin_allowed {
            404u16
        } else {
            403u16
        }),
{
}

/// A room is made with the name and the title that were asked for, without the white space
/// round them, and with the item that was found.
pub proof fn law_rooms_are_made_as_asked(
    payload: CreateRoomRequest,
    checked: Result<RoomPlan, ApiError>,
    lookup: MediaLookup,
    now: Timestamp,
    r: Result<RoomRecord, ApiError>,
)
    requires
        call_ensures(check_room_request, (payload,), checked),
        checked is Ok,
        call_ensures(create_room, (checked->Ok_0, lookup, now), r),
    ensures
        r is Ok <==> payload.media_id is None || lookup is Found,
        r matches Ok(record) ==> {
            &&& record.name@ == trimmed(payload.name@)
            &&& payload.media_id is None ==> record.media_id is None
            &&& payload.media_id is Some ==> (lookup matches MediaLookup::Found {
                media_id,
                file_name,
            } && record.media_id == Some(media_id))
            &&& payload.media_title is Some && trimmed(payload.media_title->0@).len() > 0
                ==> opt_text(record.media_title) == Some(trimmed(payload.media_title->0@))
            &&& record.clock@.status == crate::protocol::PlaybackStatus::Paused
            &&& record.clock@.anchor_position_nanos == 0
        },
{
}

} // verus!
