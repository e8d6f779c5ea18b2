//! The errors that the room and sync services answer with, and how the
//! validation errors of requests map onto them.
use vstd::prelude::*;

verus! {

/// What a room request can fail with, as the client sees it.
#[derive(Clone, Copy, Debug, PartialEq, Eq, Structural)]
pub enum RoomsApplicationError {
    Unauthorized,
    RoomInUse,
    UnsupportedRoomVersion,
    InvalidRoomState,
    InvalidParameter,
    InviteBlocked,
    Forbidden,
    Internal,
    NotFound,
    BadAlias,
}

/// The message each room error carries.
pub open spec fn rooms_error_message(e: RoomsApplicationError) -> Seq<char> {
    match e {
        RoomsApplicationError::Unauthorized => "missing or invalid access token"@,
        RoomsApplicationError::RoomInUse => "room alias is already in use"@,
        RoomsApplicationError::UnsupportedRoomVersion => "requested room version is unsupported"@,
        RoomsApplicationError::InvalidRoomState => "invalid room state"@,
        RoomsApplicationError::InvalidParameter => "invalid request parameter"@,
        RoomsApplicationError::InviteBlocked => "invite blocked"@,
        RoomsApplicationError::Forbidden => "forbidden"@,
        RoomsApplicationError::Internal => "internal error"@,
        RoomsApplicationError::NotFound => "not found"@,
        RoomsApplicationError::BadAlias => "invalid room alias"@,
    }
}

impl RoomsApplicationError {
    /// The message the error carries.
    pub fn message(&self) -> (r: &'static str)
        ensures
            r@ == rooms_error_message(*self),
    {
        match self {
            RoomsApplicationError::Unauthorized => "missing or invalid access token",
            RoomsApplicationError::RoomInUse => "room alias is already in use",
            RoomsApplicationError::UnsupportedRoomVersion => "requested room version is unsupported",
            RoomsApplicationError::InvalidRoomState => "invalid room state",
            RoomsApplicationError::InvalidParameter => "invalid request parameter",
            RoomsApplicationError::InviteBlocked => "invite blocked",
            RoomsApplicationError::Forbidden => "forbidden",
            RoomsApplicationError::Internal => "internal error",
            RoomsApplicationError::NotFound => "not found",
            RoomsApplicationError::BadAlias => "invalid room alias",
        }
    }
}

/// Why a legacy create-room request was refused.
#[derive(Debug)]
pub enum RoomValidationError {
    InvalidRoomAlias,
    InvalidRoomName,
    InvalidRoomTopic,
    InvalidInitialStateEventType,
    InvalidInitialStateEventContent { event_type: String },
    InitialStateContainsRoomCreate,
    UnsupportedRoomVersion { room_version: String },
    InvalidInviteUserIdentifier { user_id: String },
    InvalidThirdPartyInvite,
    InvalidCreationContent,
    InvalidPredecessor,
}

/// The application error a validation error is answered with.
pub open spec fn rooms_error_for_validation(e: RoomValidationError) -> RoomsApplicationError {
    match e {
        RoomValidationError::UnsupportedRoomVersion { .. } => RoomsApplicationError::UnsupportedRoomVersion,
        RoomValidationError::InvalidInitialStateEventType
        | RoomValidationError::InvalidInitialStateEventContent { .. }
        | RoomValidationError::InitialStateContainsRoomCreate => RoomsApplicationError::InvalidRoomState,
        _ => RoomsApplicationError::InvalidParameter,
    }
}

impl From<RoomValidationError> for RoomsApplicationError {
    fn from(value: RoomValidationError) -> (r: Self) {
        match value {
            RoomValidationError::UnsupportedRoomVersion { .. } => RoomsApplicationError::UnsupportedRoomVersion,
            RoomValidationError::InvalidInitialStateEventType
            | RoomValidationError::InvalidInitialStateEventContent { .. }
            | RoomValidationError::InitialStateContainsRoomCreate => RoomsApplicationError::InvalidRoomState,
            RoomValidationError::InvalidInviteUserIdentifier { .. }
            | RoomValidationError::InvalidRoomAlias
            | RoomValidationError::InvalidRoomName
            | RoomValidationError::InvalidRoomTopic
            | RoomValidationError::InvalidThirdPartyInvite
            | RoomValidationError::InvalidCreationContent
            | RoomValidationError::InvalidPredecessor => RoomsApplicationError::InvalidParameter,
        }
    }
}

impl vstd::std_specs::convert::FromSpecImpl<RoomValidationError> for RoomsApplicationError {
    open spec fn obeys_from_spec() -> bool {
        true
    }

    open spec fn from_spec(v: RoomValidationError) -> RoomsApplicationError {
        rooms_error_for_validation(v)
    }
}

/// What a sync or filter request can fail with.
#[derive(Clone, Copy, Debug, PartialEq, Eq, Structural)]
pub enum SyncronizationApplicationError {
    Unauthorized,
    Forbidden,
    InvalidParameter,
    Internal,
    NotFound,
}

/// The error a request helper answers with when a parameter is missing.
#[derive(Debug)]
pub enum AppError {
    MissingParameter { message: String },
}

/// The body of a Matrix error reply.
#[derive(Debug)]
pub struct MatrixErrorResponse {
    pub errcode: String,
    pub error: String,
}

/// The body of a Matrix rate-limit reply.
#[derive(Debug)]
pub struct MatrixRateLimitErrorResponse {
    pub base: MatrixErrorResponse,
    pub retry_after_ms: u64,
}

} // verus!
