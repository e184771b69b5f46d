//! The decisions of the listing endpoints: what a room looks like from
//! outside, and whether the room asked for is the one there is.

use vstd::prelude::*;

use crate::domain::entity::Room;
use crate::infrastructure::dto::http::{ParticipantDetailDto, RoomDetailDto, RoomSummaryDto};
use crate::time::{jst_rfc3339_text, timestamp_to_jst_rfc3339};

verus! {

/// Status of a request for a room that is not there.
pub const NOT_FOUND: u16 = 404;

/// Status of a request whose answer cannot be written down.
pub const INTERNAL_SERVER_ERROR: u16 = 500;

/// Whether `detail` shows the participant at position `i` of `room`.
pub open spec fn shows_participant(detail: ParticipantDetailDto, room: Room, i: int) -> bool {
    &&& detail.client_id@ == room@.participants[i].id
    &&& jst_rfc3339_text(room@.participants[i].connected_at) == Some(detail.connected_at@)
}

/// Whether every time in `room` has an RFC 3339 text.
pub open spec fn times_can_be_shown(room: Room) -> bool {
    &&& jst_rfc3339_text(room@.created_at) is Some
    &&& forall|i: int|
        0 <= i < room@.participants.len() ==> jst_rfc3339_text(
            (#[trigger] room@.participants[i]).connected_at,
        ) is Some
}

/// The list of rooms: the one room, with the identifiers of its
/// participants in the order they joined. Nothing when the time the room was
/// created at has no RFC 3339 text.
pub fn get_rooms(room: &Room) -> (res: Option<Vec<RoomSummaryDto>>)
    ensures
        res is Some <==> jst_rfc3339_text(room@.created_at) is Some,
        res matches Some(list) ==> {
            &&& list.len() == 1
            &&& list[0].id@ == room@.id
            &&& list[0].participants.deep_view() == room@.participant_ids()
            &&& jst_rfc3339_text(room@.created_at) == Some(list[0].created_at@)
        },
{
    let created_at = match timestamp_to_jst_rfc3339(room.created_at.value()) {
        Some(text) => text,
        None => {
            return None;
        },
    };
    let mut participants: Vec<String> = Vec::new();
    let mut i: usize = 0;
    while i < room.participants.len()
        invariant
            0 <= i <= room.participants.len(),
            participants.deep_view() == room@.participant_ids().subrange(0, i as int),
        decreases room.participants.len() - i,
    {
        let ghost listed = participants.deep_view();
        participants.push(room.participants[i].id.clone().into_string());
        assert(participants.deep_view() =~= listed.push(room@.participant_ids()[i as int]));
        i = i + 1;
    }
    assert(participants.deep_view() =~= room@.participant_ids());
    let room_summary = RoomSummaryDto {
        id: room.id.clone().into_string(),
        participants,
        created_at,
    };
    let mut list: Vec<RoomSummaryDto> = Vec::new();
    list.push(room_summary);
    Some(list)
}

/// The detail of the room called `room_id`.
///
/// Not found unless `room_id` is the identifier of `room`. An error of the
/// server when a time in the room has no RFC 3339 text.
pub fn get_room_detail(room: &Room, room_id: &str) -> (res: Result<RoomDetailDto, u16>)
    ensures
        room_id@ != room@.id ==> res == Err::<RoomDetailDto, _>(NOT_FOUND),
        room_id@ == room@.id && !times_can_be_shown(*room) ==> res == Err::<RoomDetailDto, _>(
            INTERNAL_SERVER_ERROR,
        ),
        room_id@ == room@.id && times_can_be_shown(*room) ==> res is Ok,
        res matches Ok(detail) ==> {
            &&& detail.id@ == room@.id
            &&& jst_rfc3339_text(room@.created_at) == Some(detail.created_at@)
            &&& detail.participants.len() == room@.participants.len()
            &&& forall|i: int|
                0 <= i < detail.participants.len() ==> shows_participant(
                    #[trigger] detail.participants[i],
                    *room,
                    i,
                )
        },
{
    let id = room.id.clone().into_string();
    if !(id == room_id.to_owned()) {
        return Err(NOT_FOUND);
    }
    let mut participants: Vec<ParticipantDetailDto> = Vec::new();
    let mut i: usize = 0;
    while i < room.participants.len()
        invariant
            0 <= i <= room.participants.len(),
            participants.len() == i,
            id@ == room@.id,
            room_id@ == room@.id,
            forall|j: int|
                0 <= j < i ==> shows_participant(#[trigger] participants[j], *room, j),
        decreases room.participants.len() - i,
    {
        match timestamp_to_jst_rfc3339(room.participants[i].connected_at.value()) {
            Some(connected_at) => {
                participants.push(
                    ParticipantDetailDto {
                        client_id: room.participants[i].id.clone().into_string(),
                        connected_at,
                    },
                );
            },
            None => {
                assert(jst_rfc3339_text(room@.participants[i as int].connected_at) is None);
                return Err(INTERNAL_SERVER_ERROR);
            },
        }
        i = i + 1;
    }
    assert forall|j: int| 0 <= j < room@.participants.len() implies jst_rfc3339_text(
        (#[trigger] room@.participants[j]).connected_at,
    ) is Some by {
        assert(shows_participant(participants[j], *room, j));
    }
    match timestamp_to_jst_rfc3339(room.created_at.value()) {
        Some(created_at) => Ok(RoomDetailDto { id, participants, created_at }),
        None => Err(INTERNAL_SERVER_ERROR),
    }
}

} // verus!
