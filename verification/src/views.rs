//! What the room and sync endpoints answer with, the records a room is
//! created from, and small request helpers.
use vstd::prelude::*;

use crate::create_room::{RoomPreset, RoomVisibility};
use crate::errors::AppError;
use crate::text::is_blank;
use crate::versions::RoomVersion;

verus! {

/// A room that was joined.
#[derive(Debug)]
pub struct JoinedRoom {
    pub room_id: String,
}

/// The rooms a user has joined.
#[derive(Debug)]
pub struct JoinedRooms {
    pub room_ids: Vec<String>,
}

/// A room that was left.
#[derive(Debug)]
pub struct LeftRoom;

/// A leave request body.
#[derive(Debug)]
pub struct LeaveRoomRequestDto {
    pub reason: Option<String>,
}

/// The reply to a create-room request.
#[derive(Debug)]
pub struct CreateRoomView {
    pub room_id: String,
}

/// The reply to a join request.
#[derive(Debug)]
pub struct JoinRoomView {
    pub room_id: String,
}

/// The reply listing joined rooms.
#[derive(Debug)]
pub struct JoinedRoomsView {
    pub joined_rooms: Vec<String>,
}

/// The (empty) reply to a leave request.
#[derive(Debug)]
pub struct LeaveRoomView {}

/// The (empty) reply to a receipt request.
#[derive(Debug)]
pub struct SendReceiptView {}

/// The reply to a message event request: the event's id.
#[derive(Debug)]
pub struct SendRoomEventView {
    pub event_id: String,
}

/// The (empty) reply to a read-markers request.
#[derive(Debug)]
pub struct SetReadMarkersView {}

/// The reply to a state event request: the event's id.
#[derive(Debug)]
pub struct SetRoomStateWithKeyView {
    pub event_id: String,
}

/// The reply to a filter definition: the filter's id.
#[derive(Debug)]
pub struct DefineFilterView {
    pub filter_id: String,
}

/// The device list changes of a sync reply, as sent.
#[derive(Debug)]
pub struct SyncDeviceListsResponseView {
    pub changed: Vec<String>,
    pub left: Vec<String>,
}

impl CreateRoomView {
    pub fn from_created(value: crate::room::CreatedRoom) -> (r: Self)
        ensures
            r.room_id == value.room_id,
    {
        CreateRoomView { room_id: value.room_id }
    }
}

impl JoinRoomView {
    pub fn from_joined(value: JoinedRoom) -> (r: Self)
        ensures
            r.room_id == value.room_id,
    {
        JoinRoomView { room_id: value.room_id }
    }
}

impl JoinedRoomsView {
    pub fn from_joined_rooms(value: JoinedRooms) -> (r: Self)
        ensures
            r.joined_rooms == value.room_ids,
    {
        JoinedRoomsView { joined_rooms: value.room_ids }
    }
}

impl LeaveRoomView {
    pub fn from_left(value: LeftRoom) -> (r: Self) {
        LeaveRoomView {  }
    }
}

impl SyncDeviceListsResponseView {
    pub fn from_batch(value: crate::sync::SyncDeviceListsBatch) -> (r: Self)
        ensures
            r.changed == value.changed,
            r.left == value.left,
    {
        SyncDeviceListsResponseView { changed: value.changed, left: value.left }
    }
}

/// A legacy create-room request body of the first client API.
#[derive(Debug)]
pub struct CreateRoomRequestViewModel {
    pub name: Option<String>,
    pub visibility: Option<String>,
    pub room_alias_name: Option<String>,
}

/// The legacy create-room reply.
#[derive(Debug)]
pub struct CreateRoomResponseViewModel {
    pub room_identifier: String,
}

/// The legacy join reply.
#[derive(Debug)]
pub struct JoinRoomResponseViewModel {
    pub room_identifier: String,
}

/// A room of the legacy public room listing.
#[derive(Debug)]
pub struct PublicRoomViewModel {
    pub room_identifier: String,
    pub name: String,
    pub joined_member_count: usize,
}

/// The legacy public room listing.
#[derive(Debug)]
pub struct PublicRoomsResponseViewModel {
    pub chunk: Vec<PublicRoomViewModel>,
}

/// The room row that room creation writes first.
#[derive(Debug)]
pub struct RoomShellIntent {
    pub room_id: String,
    pub room_version: RoomVersion,
    pub creator_user_id: String,
    pub is_direct: bool,
    pub name: Option<String>,
    pub topic: Option<String>,
    pub visibility: RoomVisibility,
    pub preset: RoomPreset,
}

/// The alias that room creation binds.
#[derive(Debug)]
pub struct AliasIntent {
    pub alias_localpart: String,
    pub room_id: String,
}

/// The directory listing that room creation sets.
#[derive(Debug)]
pub struct DirectoryVisibilityIntent {
    pub room_id: String,
    pub visibility: RoomVisibility,
}

/// The steps of room creation, in the order they are carried out.
#[derive(Clone, Copy, Debug, PartialEq, Eq, Structural)]
pub enum RoomFactoryEvent {
    RequiredCreateEvent,
    CreatorJoinEvent,
    DefaultPowerLevelsEvent,
    CanonicalAliasEventIfNeeded,
    PresetEvents,
    InitialStateEvents,
    NameAndTopicEvents,
    InviteEvents,
}

/// What creating a room writes: the room, its alias and directory entry,
/// and the order of its first events.
#[derive(Debug)]
pub struct RoomCreationFlow {
    pub room_shell_intent: RoomShellIntent,
    pub alias_intent: Option<AliasIntent>,
    pub directory_visibility_intent: Option<DirectoryVisibilityIntent>,
    pub ordered_event_intents: Vec<RoomFactoryEvent>,
}

/// The order in which room creation plans its events.
pub open spec fn room_factory_order() -> Seq<RoomFactoryEvent> {
    seq![
        RoomFactoryEvent::RequiredCreateEvent,
        RoomFactoryEvent::CreatorJoinEvent,
        RoomFactoryEvent::DefaultPowerLevelsEvent,
        RoomFactoryEvent::CanonicalAliasEventIfNeeded,
        RoomFactoryEvent::PresetEvents,
        RoomFactoryEvent::InitialStateEvents,
        RoomFactoryEvent::NameAndTopicEvents,
        RoomFactoryEvent::InviteEvents,
    ]
}

impl RoomFactoryEvent {
    pub fn in_order() -> (r: Vec<RoomFactoryEvent>)
        ensures
            r@ == room_factory_order(),
    {
        let mut v: Vec<RoomFactoryEvent> = Vec::new();
        v.push(RoomFactoryEvent::RequiredCreateEvent);
        v.push(RoomFactoryEvent::CreatorJoinEvent);
        v.push(RoomFactoryEvent::DefaultPowerLevelsEvent);
        v.push(RoomFactoryEvent::CanonicalAliasEventIfNeeded);
        v.push(RoomFactoryEvent::PresetEvents);
        v.push(RoomFactoryEvent::InitialStateEvents);
        v.push(RoomFactoryEvent::NameAndTopicEvents);
        v.push(RoomFactoryEvent::InviteEvents);
        assert(v@ =~= room_factory_order());
        v
    }
}

/// A row of the timeline projection written when a room is created.
#[derive(Debug)]
pub struct CreateRoomTimelineProjectionModel {
    pub room_id: String,
    pub stream_position: i64,
    pub event_id: String,
}

/// A clock.
pub trait Clock {
    fn as_seconds(&self) -> i64;

    fn now_unix_milliseconds(&self) -> i64;
}

/// A source of fresh identifiers.
pub trait IdGenerator {
    fn next_access_token(&self, user_identifier: &str) -> String;

    fn next_room_identifier(&self, home_server_name: &str) -> String;

    fn next_event_identifier(&self, home_server_name: &str) -> String;
}

/// A type that hands out fresh identifiers of its own.
pub trait Id {
    fn new_id() -> String;
}

/// Why a JSON web token could not be made.
#[derive(Debug)]
pub enum JsonWebTokenError {
    Encoding,
}

/// Makes and checks JSON web tokens.
pub trait JsonWebTokenAdapter {
    fn encode<C: Clock>(&self, expires_at: &C, encoding_key: &str) -> Result<String, JsonWebTokenError>;

    fn is_token_valid(&self, token: &str, secret: &str) -> bool;
}

/// The message of a missing parameter: `<field> must not be empty`.
pub open spec fn missing_parameter_message(field_name: Seq<char>) -> Seq<char> {
    field_name + " must not be empty"@
}

fn missing_parameter(field_name: &str) -> (r: AppError)
    ensures
        r matches AppError::MissingParameter { message } && message@ == missing_parameter_message(
            field_name@,
        ),
{
    AppError::MissingParameter {
        message: String::from_str(field_name).concat(" must not be empty"),
    }
}

/// The text of a parameter that is present and not blank.
pub fn sanitize_option_string_or_error(option: Option<&str>, field_name: &'static str) -> (r: Result<
    String,
    AppError,
>)
    ensures
        match option {
            Some(s) => if is_blank(s@) {
                r matches Err(AppError::MissingParameter { message }) && message@
                    == missing_parameter_message(field_name@)
            } else {
                r matches Ok(v) && v@ == s@
            },
            None => r matches Err(AppError::MissingParameter { message }) && message@
                == missing_parameter_message(field_name@),
        },
{
    match option {
        Some(s) => if crate::text::is_blank_str(s) {
            Err(missing_parameter(field_name))
        } else {
            Ok(String::from_str(s))
        },
        None => Err(missing_parameter(field_name)),
    }
}

/// The value of a parameter that is present.
pub fn get_some_or_error<T>(option: Option<T>, field_name: &'static str) -> (r: Result<T, AppError>)
    ensures
        match option {
            Some(v) => r == Ok::<T, AppError>(v),
            None => r matches Err(AppError::MissingParameter { message }) && message@
                == missing_parameter_message(field_name@),
        },
{
    match option {
        Some(v) => Ok(v),
        None => Err(missing_parameter(field_name)),
    }
}

} // verus!
