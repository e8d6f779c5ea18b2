//! Who may act on a room: the membership checks behind joining, leaving,
//! inviting and reading a room. Each use case is a sequence of decisions;
//! between them the caller looks up what the next decision needs (a
//! membership, whether a user exists) and hands the answer in.
use vstd::prelude::*;

use crate::errors::RoomsApplicationError;
use crate::identifiers::{is_user_identifier, parse_room_identifier, RoomIdentifier, UserIdentifier};
use crate::json::JsonValue;
use crate::text::str_eq;
use crate::versions::RoomVersion;

verus! {

/// What the store knows of a user in a room.
#[derive(Debug)]
pub struct RoomJoinContext {
    pub room_version: Option<String>,
    pub visibility: Option<String>,
    pub membership_state: Option<String>,
}

/// A joined member and the profile shown for them.
#[derive(Debug)]
pub struct JoinedRoomMemberProfile {
    pub user_id: String,
    pub display_name: Option<String>,
    pub avatar_url: Option<String>,
}

/// How a store operation failed.
#[derive(Debug)]
pub enum DomainError {
    AlreadyExists,
    InvalidRequest(String),
    NotFound,
    InvalidCredentials,
}

/// An optional text equals `s`.
pub open spec fn opt_is(o: Option<String>, s: Seq<char>) -> bool {
    o matches Some(v) && v@ == s
}

fn opt_str_is(o: &Option<String>, s: &str) -> (r: bool)
    ensures
        r == opt_is(*o, s@),
{
    match o {
        Some(v) => str_eq(v.as_str(), s),
        None => false,
    }
}

/// Refuses a request on a room identifier that does not parse.
pub fn require_room_identifier(room_id: &str) -> (r: Result<(), RoomsApplicationError>)
    ensures
        r is Ok <==> parse_room_identifier(room_id@) is Some,
        r matches Err(e) ==> e == RoomsApplicationError::Forbidden,
{
    match RoomIdentifier::parse(room_id) {
        Some(_) => Ok(()),
        None => Err(RoomsApplicationError::Forbidden),
    }
}

/// The membership context of a lookup: a failed lookup is an internal
/// error, and a user the room does not know is refused.
pub fn require_room_membership_context(
    fetched: Result<Option<RoomJoinContext>, DomainError>,
) -> (r: Result<RoomJoinContext, RoomsApplicationError>)
    ensures
        match fetched {
            Err(_) => r == Err::<RoomJoinContext, _>(RoomsApplicationError::Internal),
            Ok(None) => r == Err::<RoomJoinContext, _>(RoomsApplicationError::Forbidden),
            Ok(Some(c)) => r == Ok::<_, RoomsApplicationError>(c),
        },
{
    match fetched {
        Err(_) => Err(RoomsApplicationError::Internal),
        Ok(None) => Err(RoomsApplicationError::Forbidden),
        Ok(Some(c)) => Ok(c),
    }
}

/// The membership context of a user who must have joined the room.
pub fn require_joined_membership(fetched: Result<Option<RoomJoinContext>, DomainError>) -> (r: Result<
    RoomJoinContext,
    RoomsApplicationError,
>)
    ensures
        match fetched {
            Err(_) => r == Err::<RoomJoinContext, _>(RoomsApplicationError::Internal),
            Ok(None) => r == Err::<RoomJoinContext, _>(RoomsApplicationError::Forbidden),
            Ok(Some(c)) => if opt_is(c.membership_state, "join"@) {
                r == Ok::<_, RoomsApplicationError>(c)
            } else {
                r == Err::<RoomJoinContext, _>(RoomsApplicationError::Forbidden)
            },
        },
{
    let context = match require_room_membership_context(fetched) {
        Ok(c) => c,
        Err(e) => return Err(e),
    };
    if !opt_str_is(&context.membership_state, "join") {
        return Err(RoomsApplicationError::Forbidden);
    }
    Ok(context)
}

/// Whether a membership lets a user read the room's state: a member who
/// joined, or one who left.
pub open spec fn may_read_room_state(membership: Option<String>) -> bool {
    opt_is(membership, "join"@) || opt_is(membership, "leave"@)
}

/// Allows reading the room's state to users who joined or left it.
pub fn require_room_state_read_access(fetched: Result<Option<RoomJoinContext>, DomainError>) -> (r:
    Result<(), RoomsApplicationError>)
    ensures
        match fetched {
            Err(_) => r == Err::<(), _>(RoomsApplicationError::Internal),
            Ok(None) => r == Err::<(), _>(RoomsApplicationError::Forbidden),
            Ok(Some(c)) => if may_read_room_state(c.membership_state) {
                r is Ok
            } else {
                r == Err::<(), _>(RoomsApplicationError::Forbidden)
            },
        },
{
    let context = match require_room_membership_context(fetched) {
        Ok(c) => c,
        Err(e) => return Err(e),
    };
    if opt_str_is(&context.membership_state, "join") || opt_str_is(
        &context.membership_state,
        "leave",
    ) {
        Ok(())
    } else {
        Err(RoomsApplicationError::Forbidden)
    }
}

/// The room versions that events can be written for.
pub open spec fn is_event_room_version(v: RoomVersion) -> bool {
    v == RoomVersion::V1 || v == RoomVersion::V2
}

/// The event room version a stored version names: `1` or `2`.
pub fn parse_supported_room_version(value: &str) -> (r: Option<RoomVersion>)
    ensures
        r == (if value@ == "1"@ {
            Some(RoomVersion::V1)
        } else if value@ == "2"@ {
            Some(RoomVersion::V2)
        } else {
            None
        }),
{
    if str_eq(value, "1") {
        Some(RoomVersion::V1)
    } else if str_eq(value, "2") {
        Some(RoomVersion::V2)
    } else {
        None
    }
}

/// The event room versions, in order.
pub fn supported_event_room_versions() -> (r: Vec<RoomVersion>)
    ensures
        r@ == seq![RoomVersion::V1, RoomVersion::V2],
{
    let mut v: Vec<RoomVersion> = Vec::new();
    v.push(RoomVersion::V1);
    v.push(RoomVersion::V2);
    assert(v@ =~= seq![RoomVersion::V1, RoomVersion::V2]);
    v
}

/// The version of a room with a membership context; a room with none
/// recorded has the default version.
pub open spec fn context_room_version(
    stored: Option<String>,
    default_version: Seq<char>,
) -> Option<RoomVersion> {
    let name = match stored {
        Some(s) => s@,
        None => default_version,
    };
    if name == "1"@ {
        Some(RoomVersion::V1)
    } else if name == "2"@ {
        Some(RoomVersion::V2)
    } else {
        None
    }
}

/// The room's event version, or an internal error when the stored one is
/// not an event room version.
pub fn require_context_room_version(context: &RoomJoinContext, default_version: &str) -> (r: Result<
    RoomVersion,
    RoomsApplicationError,
>)
    ensures
        match context_room_version(context.room_version, default_version@) {
            Some(v) => r == Ok::<_, RoomsApplicationError>(v),
            None => r == Err::<RoomVersion, _>(RoomsApplicationError::Internal),
        },
{
    let name = match &context.room_version {
        Some(s) => s.as_str(),
        None => default_version,
    };
    match parse_supported_room_version(name) {
        Some(v) => Ok(v),
        None => Err(RoomsApplicationError::Internal),
    }
}

/// A third-party signature on a join.
#[derive(Debug)]
pub struct ThirdPartySignedDto {
    pub sender: String,
    pub mxid: String,
    pub token: String,
    pub signatures: JsonValue,
}

/// A join request.
#[derive(Debug)]
pub struct JoinRoomCommand {
    pub reason: Option<String>,
    pub third_party_signed: Option<ThirdPartySignedDto>,
}

/// A leave request.
#[derive(Debug)]
pub struct LeaveRoomCommand {
    pub reason: Option<String>,
}

/// A membership event to write: `sender` sets the membership of the user
/// `state_key` in the room.
#[derive(Debug, PartialEq, Eq)]
pub struct MembershipEvent {
    pub room_id: String,
    pub sender: String,
    pub state_key: String,
    pub membership: String,
}

/// Whether `e` is the event in which `sender` gives `state_key` the
/// membership `membership` in `room_id`.
pub open spec fn membership_event_is(
    e: MembershipEvent,
    room_id: Seq<char>,
    sender: Seq<char>,
    state_key: Seq<char>,
    membership: Seq<char>,
) -> bool {
    &&& e.room_id@ == room_id
    &&& e.sender@ == sender
    &&& e.state_key@ == state_key
    &&& e.membership@ == membership
}

/// Builds a membership event.
pub fn membership_event(room_id: &str, sender: &str, state_key: &str, membership: &str) -> (r:
    MembershipEvent)
    ensures
        membership_event_is(r, room_id@, sender@, state_key@, membership@),
{
    MembershipEvent {
        room_id: String::from_str(room_id),
        sender: String::from_str(sender),
        state_key: String::from_str(state_key),
        membership: String::from_str(membership),
    }
}

/// What a membership request comes to: nothing to write, or exactly one
/// membership event to write. A refused request writes nothing.
#[derive(Debug, PartialEq, Eq)]
pub enum MembershipStep {
    /// Nothing to write: the user already has the membership asked for.
    AlreadyDone,
    /// Write `event` in a room of this version.
    Append { room_version: RoomVersion, event: MembershipEvent },
}

/// Whether `step` writes exactly `event_is` in a room of version `v`.
pub open spec fn appends(
    r: Result<MembershipStep, RoomsApplicationError>,
    v: RoomVersion,
    room_id: Seq<char>,
    sender: Seq<char>,
    state_key: Seq<char>,
    membership: Seq<char>,
) -> bool {
    r matches Ok(MembershipStep::Append { room_version, event }) && room_version == v
        && membership_event_is(event, room_id, sender, state_key, membership)
}

/// Joining a room.
pub struct JoinRoomUseCase {
    pub room_id: String,
    pub has_third_party_signed: bool,
    pub reason: Option<String>,
}

impl JoinRoomUseCase {
    pub fn new(room_id: String, command: JoinRoomCommand) -> (r: Self)
        ensures
            r.room_id == room_id,
            r.has_third_party_signed == command.third_party_signed is Some,
            r.reason == command.reason,
    {
        JoinRoomUseCase {
            room_id,
            has_third_party_signed: command.third_party_signed.is_some(),
            reason: command.reason,
        }
    }

    /// The checks made before the user's membership is looked up: the room
    /// identifier must parse, and third-party signed joins are refused.
    pub fn check_request(&self) -> (r: Result<(), RoomsApplicationError>)
        ensures
            r is Ok <==> parse_room_identifier(self.room_id@) is Some
                && !self.has_third_party_signed,
            r matches Err(e) ==> e == RoomsApplicationError::Forbidden,
    {
        match require_room_identifier(self.room_id.as_str()) {
            Ok(()) => {},
            Err(e) => return Err(e),
        }
        if self.has_third_party_signed {
            return Err(RoomsApplicationError::Forbidden);
        }
        Ok(())
    }

    /// Decides a join from the user's membership context: a member stays
    /// joined; otherwise the room must be public or the user invited, and
    /// the user's join event is written.
    pub fn execute(
        &self,
        user_id: &UserIdentifier,
        fetched: Result<Option<RoomJoinContext>, DomainError>,
        default_version: &str,
    ) -> (r: Result<MembershipStep, RoomsApplicationError>)
        ensures
            match fetched {
                Err(_) => r == Err::<MembershipStep, _>(RoomsApplicationError::Internal),
                Ok(None) => r == Err::<MembershipStep, _>(RoomsApplicationError::Forbidden),
                Ok(Some(c)) => if opt_is(c.membership_state, "join"@) {
                    r == Ok::<_, RoomsApplicationError>(MembershipStep::AlreadyDone)
                } else if !opt_is(c.visibility, "public"@) && !opt_is(
                    c.membership_state,
                    "invite"@,
                ) {
                    r == Err::<MembershipStep, _>(RoomsApplicationError::Forbidden)
                } else {
                    match context_room_version(c.room_version, default_version@) {
                        Some(v) => appends(r, v, self.room_id@, user_id@, user_id@, "join"@),
                        None => r == Err::<MembershipStep, _>(RoomsApplicationError::Internal),
                    }
                },
            },
    {
        let context = match require_room_membership_context(fetched) {
            Ok(c) => c,
            Err(e) => return Err(e),
        };
        if opt_str_is(&context.membership_state, "join") {
            return Ok(MembershipStep::AlreadyDone);
        }
        if !opt_str_is(&context.visibility, "public") && !opt_str_is(
            &context.membership_state,
            "invite",
        ) {
            return Err(RoomsApplicationError::Forbidden);
        }
        match require_context_room_version(&context, default_version) {
            Ok(v) => Ok(
                MembershipStep::Append {
                    room_version: v,
                    event: membership_event(
                        self.room_id.as_str(),
                        user_id.as_str(),
                        user_id.as_str(),
                        "join",
                    ),
                },
            ),
            Err(e) => Err(e),
        }
    }
}

/// Leaving a room.
pub struct LeaveRoomUseCase {
    pub room_id: String,
    pub reason: Option<String>,
}

impl LeaveRoomUseCase {
    pub fn new(room_id: String, command: LeaveRoomCommand) -> (r: Self)
        ensures
            r.room_id == room_id,
            r.reason == command.reason,
    {
        LeaveRoomUseCase { room_id, reason: command.reason }
    }

    /// The room identifier must parse.
    pub fn check_request(&self) -> (r: Result<(), RoomsApplicationError>)
        ensures
            r is Ok <==> parse_room_identifier(self.room_id@) is Some,
            r matches Err(e) ==> e == RoomsApplicationError::Forbidden,
    {
        require_room_identifier(self.room_id.as_str())
    }

    /// Decides a leave: joined and invited users leave (their own leave
    /// event is written), one who left already stays left and nothing is
    /// written, anyone else is refused.
    pub fn execute(
        &self,
        user_id: &UserIdentifier,
        fetched: Result<Option<RoomJoinContext>, DomainError>,
        default_version: &str,
    ) -> (r: Result<MembershipStep, RoomsApplicationError>)
        ensures
            match fetched {
                Err(_) => r == Err::<MembershipStep, _>(RoomsApplicationError::Internal),
                Ok(None) => r == Err::<MembershipStep, _>(RoomsApplicationError::Forbidden),
                Ok(Some(c)) => if opt_is(c.membership_state, "leave"@) {
                    r == Ok::<_, RoomsApplicationError>(MembershipStep::AlreadyDone)
                } else if !opt_is(c.membership_state, "join"@) && !opt_is(
                    c.membership_state,
                    "invite"@,
                ) {
                    r == Err::<MembershipStep, _>(RoomsApplicationError::Forbidden)
                } else {
                    match context_room_version(c.room_version, default_version@) {
                        Some(v) => appends(r, v, self.room_id@, user_id@, user_id@, "leave"@),
                        None => r == Err::<MembershipStep, _>(RoomsApplicationError::Internal),
                    }
                },
            },
    {
        let context = match require_room_membership_context(fetched) {
            Ok(c) => c,
            Err(e) => return Err(e),
        };
        if opt_str_is(&context.membership_state, "leave") {
            return Ok(MembershipStep::AlreadyDone);
        }
        if !opt_str_is(&context.membership_state, "join") && !opt_str_is(
            &context.membership_state,
            "invite",
        ) {
            return Err(RoomsApplicationError::Forbidden);
        }
        match require_context_room_version(&context, default_version) {
            Ok(v) => Ok(
                MembershipStep::Append {
                    room_version: v,
                    event: membership_event(
                        self.room_id.as_str(),
                        user_id.as_str(),
                        user_id.as_str(),
                        "leave",
                    ),
                },
            ),
            Err(e) => Err(e),
        }
    }
}

/// An invite request: a Matrix user, or a third-party identifier.
#[derive(Debug)]
pub enum InviteUserCommand {
    MatrixUser { invited_user_id: UserIdentifier, reason: Option<String> },
    ThirdPartyIdentifier { id_server: String, medium: String, address: String },
}

/// Inviting a user to a room.
pub struct InviteUserUseCase {
    pub room_id: String,
    pub inviter_user_id: UserIdentifier,
}

impl InviteUserUseCase {
    pub fn new(room_id: String, inviter_user_id: UserIdentifier) -> (r: Self)
        ensures
            r.room_id == room_id,
            r.inviter_user_id == inviter_user_id,
    {
        InviteUserUseCase { room_id, inviter_user_id }
    }

    /// The room identifier must parse.
    pub fn check_request(&self) -> (r: Result<(), RoomsApplicationError>)
        ensures
            r is Ok <==> parse_room_identifier(self.room_id@) is Some,
            r matches Err(e) ==> e == RoomsApplicationError::Forbidden,
    {
        require_room_identifier(self.room_id.as_str())
    }

    /// The inviter must have joined; the room's event version comes with it.
    pub fn check_inviter(
        &self,
        fetched: Result<Option<RoomJoinContext>, DomainError>,
        default_version: &str,
    ) -> (r: Result<RoomVersion, RoomsApplicationError>)
        ensures
            match fetched {
                Err(_) => r == Err::<RoomVersion, _>(RoomsApplicationError::Internal),
                Ok(None) => r == Err::<RoomVersion, _>(RoomsApplicationError::Forbidden),
                Ok(Some(c)) => if !opt_is(c.membership_state, "join"@) {
                    r == Err::<RoomVersion, _>(RoomsApplicationError::Forbidden)
                } else {
                    match context_room_version(c.room_version, default_version@) {
                        Some(v) => r == Ok::<_, RoomsApplicationError>(v),
                        None => r == Err::<RoomVersion, _>(RoomsApplicationError::Internal),
                    }
                },
            },
    {
        let context = match require_joined_membership(fetched) {
            Ok(c) => c,
            Err(e) => return Err(e),
        };
        require_context_room_version(&context, default_version)
    }

    /// The invitee: only Matrix users are invited, they must be registered
    /// (`invitee_exists`), and nobody invites themselves.
    pub fn check_invitee(&self, command: &InviteUserCommand, invitee_exists: bool) -> (r: Result<
        (),
        RoomsApplicationError,
    >)
        ensures
            match *command {
                InviteUserCommand::ThirdPartyIdentifier { .. } => r == Err::<(), _>(
                    RoomsApplicationError::Forbidden,
                ),
                InviteUserCommand::MatrixUser { invited_user_id, .. } => if !invitee_exists {
                    r == Err::<(), _>(RoomsApplicationError::InvalidParameter)
                } else if invited_user_id@ == self.inviter_user_id@ {
                    r == Err::<(), _>(RoomsApplicationError::Forbidden)
                } else {
                    r is Ok
                },
            },
    {
        match command {
            InviteUserCommand::ThirdPartyIdentifier { .. } => Err(RoomsApplicationError::Forbidden),
            InviteUserCommand::MatrixUser { invited_user_id, .. } => {
                if !invitee_exists {
                    return Err(RoomsApplicationError::InvalidParameter);
                }
                if str_eq(invited_user_id.as_str(), self.inviter_user_id.as_str()) {
                    return Err(RoomsApplicationError::Forbidden);
                }
                Ok(())
            },
        }
    }

    /// Decides the invite once the inviter is known to have joined a room
    /// of `room_version`: the invitee must pass `check_invitee`, and one
    /// who is banned, joined or already invited is not invited again.
    /// Otherwise the inviter's invite event for the invitee is written; a
    /// refused invite writes nothing.
    pub fn execute(
        &self,
        command: &InviteUserCommand,
        invitee_exists: bool,
        invitee_fetched: Result<Option<RoomJoinContext>, DomainError>,
        room_version: RoomVersion,
    ) -> (r: Result<MembershipStep, RoomsApplicationError>)
        ensures
            match *command {
                InviteUserCommand::ThirdPartyIdentifier { .. } => r == Err::<MembershipStep, _>(
                    RoomsApplicationError::Forbidden,
                ),
                InviteUserCommand::MatrixUser { invited_user_id, .. } => if !invitee_exists {
                    r == Err::<MembershipStep, _>(RoomsApplicationError::InvalidParameter)
                } else if invited_user_id@ == self.inviter_user_id@ {
                    r == Err::<MembershipStep, _>(RoomsApplicationError::Forbidden)
                } else {
                    match invitee_fetched {
                        Err(_) => r == Err::<MembershipStep, _>(RoomsApplicationError::Internal),
                        Ok(None) => r == Err::<MembershipStep, _>(RoomsApplicationError::Forbidden),
                        Ok(Some(c)) => if opt_is(c.membership_state, "ban"@) || opt_is(
                            c.membership_state,
                            "join"@,
                        ) || opt_is(c.membership_state, "invite"@) {
                            r == Err::<MembershipStep, _>(RoomsApplicationError::Forbidden)
                        } else {
                            appends(
                                r,
                                room_version,
                                self.room_id@,
                                self.inviter_user_id@,
                                invited_user_id@,
                                "invite"@,
                            )
                        },
                    }
                },
            },
    {
        match self.check_invitee(command, invitee_exists) {
            Ok(()) => {},
            Err(e) => return Err(e),
        }
        let invited = match command {
            InviteUserCommand::MatrixUser { invited_user_id, .. } => invited_user_id,
            InviteUserCommand::ThirdPartyIdentifier { .. } => {
                return Err(RoomsApplicationError::Forbidden);
            },
        };
        let context = match require_room_membership_context(invitee_fetched) {
            Ok(c) => c,
            Err(e) => return Err(e),
        };
        if opt_str_is(&context.membership_state, "ban") || opt_str_is(
            &context.membership_state,
            "join",
        ) || opt_str_is(&context.membership_state, "invite") {
            return Err(RoomsApplicationError::Forbidden);
        }
        Ok(
            MembershipStep::Append {
                room_version,
                event: membership_event(
                    self.room_id.as_str(),
                    self.inviter_user_id.as_str(),
                    invited.as_str(),
                    "invite",
                ),
            },
        )
    }
}

/// A joined member, as the joined-members listing shows them.
#[derive(Debug)]
pub struct JoinedRoomMember {
    pub display_name: Option<String>,
    pub avatar_url: Option<String>,
}

/// The joined members of a room, by user identifier.
#[derive(Debug)]
pub struct JoinedMembers {
    pub joined: Vec<(String, JoinedRoomMember)>,
}

/// Listing the joined members of a room.
pub struct GetJoinedMembersUseCase {
    pub room_id: String,
}

/// Whether the access check over member profiles succeeds: scanning the
/// profiles in order, each must be a valid user identifier until one is
/// controlled by the requesting session (`controls[i]`, or an error when the
/// check could not be made).
pub open spec fn first_controlled_member(
    profiles: Seq<JoinedRoomMemberProfile>,
    controls: Seq<Result<bool, ()>>,
    i: int,
) -> Result<bool, RoomsApplicationError>
    decreases profiles.len() - i,
{
    if i < 0 || i >= profiles.len() {
        Ok(false)
    } else if !is_user_identifier(profiles[i].user_id@) {
        Err(RoomsApplicationError::Internal)
    } else {
        match controls[i] {
            Err(_) => Err(RoomsApplicationError::Internal),
            Ok(true) => Ok(true),
            Ok(false) => first_controlled_member(profiles, controls, i + 1),
        }
    }
}

impl GetJoinedMembersUseCase {
    pub fn new(room_id: String) -> (r: Self)
        ensures
            r.room_id == room_id,
    {
        GetJoinedMembersUseCase { room_id }
    }

    /// The room identifier must parse.
    pub fn check_request(&self) -> (r: Result<(), RoomsApplicationError>)
        ensures
            r is Ok <==> parse_room_identifier(self.room_id@) is Some,
            r matches Err(e) ==> e == RoomsApplicationError::Forbidden,
    {
        require_room_identifier(self.room_id.as_str())
    }

    /// Whether the requesting user has joined, and so may list members
    /// without further checks.
    pub fn can_view_members(&self, fetched: Result<Option<RoomJoinContext>, DomainError>) -> (r:
        Result<bool, RoomsApplicationError>)
        ensures
            match fetched {
                Err(_) => r == Err::<bool, _>(RoomsApplicationError::Internal),
                Ok(None) => r == Ok::<_, RoomsApplicationError>(false),
                Ok(Some(c)) => r == Ok::<_, RoomsApplicationError>(
                    opt_is(c.membership_state, "join"@),
                ),
            },
    {
        match fetched {
            Err(_) => Err(RoomsApplicationError::Internal),
            Ok(None) => Ok(false),
            Ok(Some(c)) => Ok(opt_str_is(&c.membership_state, "join")),
        }
    }

    /// Lets a user who has not joined list members when their session
    /// controls one of the joined members.
    pub fn check_member_access(
        &self,
        profiles: &Vec<JoinedRoomMemberProfile>,
        controls: &Vec<Result<bool, ()>>,
    ) -> (r: Result<(), RoomsApplicationError>)
        requires
            controls@.len() == profiles@.len(),
        ensures
            match first_controlled_member(profiles@, controls@, 0) {
                Ok(true) => r is Ok,
                Ok(false) => r == Err::<(), _>(RoomsApplicationError::Forbidden),
                Err(e) => r == Err::<(), _>(e),
            },
    {
        let mut i: usize = 0;
        while i < profiles.len()
            invariant
                controls@.len() == profiles@.len(),
                i <= profiles@.len(),
                first_controlled_member(profiles@, controls@, 0) == first_controlled_member(
                    profiles@,
                    controls@,
                    i as int,
                ),
            decreases profiles.len() - i,
        {
            if UserIdentifier::parse(profiles[i].user_id.as_str()).is_none() {
                return Err(RoomsApplicationError::Internal);
            }
            match controls[i] {
                Err(_) => return Err(RoomsApplicationError::Internal),
                Ok(true) => return Ok(()),
                Ok(false) => {},
            }
            i = i + 1;
        }
        Err(RoomsApplicationError::Forbidden)
    }

    /// The answer to a joined-members request from what the store gave: the
    /// requester's membership, the room's joined member profiles and, for
    /// each profile, whether the requester's session controls that user. A
    /// requester who has joined gets the members; anyone else only when the
    /// session controls one of them (each profile's user id must be a user
    /// identifier, checked in order until one is controlled); a failed
    /// lookup is an internal error.
    pub fn execute(
        &self,
        fetched: Result<Option<RoomJoinContext>, DomainError>,
        profiles: Result<Vec<JoinedRoomMemberProfile>, DomainError>,
        controls: &Vec<Result<bool, ()>>,
    ) -> (r: Result<JoinedMembers, RoomsApplicationError>)
        requires
            profiles matches Ok(p) ==> controls@.len() == p@.len(),
        ensures
            match fetched {
                Err(_) => r == Err::<JoinedMembers, _>(RoomsApplicationError::Internal),
                Ok(context) => match profiles {
                    Err(_) => r == Err::<JoinedMembers, _>(RoomsApplicationError::Internal),
                    Ok(p) => if context matches Some(c) && opt_is(c.membership_state, "join"@) {
                        r matches Ok(m) && members_listed(m, p@)
                    } else {
                        match first_controlled_member(p@, controls@, 0) {
                            Ok(true) => r matches Ok(m) && members_listed(m, p@),
                            Ok(false) => r == Err::<JoinedMembers, _>(RoomsApplicationError::Forbidden),
                            Err(e) => r == Err::<JoinedMembers, _>(e),
                        }
                    },
                },
            },
    {
        let can_view = match self.can_view_members(fetched) {
            Ok(b) => b,
            Err(e) => return Err(e),
        };
        let profiles = match profiles {
            Ok(p) => p,
            Err(_) => return Err(RoomsApplicationError::Internal),
        };
        if !can_view {
            match self.check_member_access(&profiles, controls) {
                Ok(()) => {},
                Err(e) => return Err(e),
            }
        }
        Ok(self.list_members(profiles))
    }

    /// The listing of the joined members: each profile's user id with its
    /// display name and avatar.
    pub fn list_members(&self, profiles: Vec<JoinedRoomMemberProfile>) -> (r: JoinedMembers)
        ensures
            r.joined@.len() == profiles@.len(),
            forall|i: int|
                0 <= i < profiles@.len() ==> (#[trigger] r.joined@[i]).0 == profiles@[i].user_id
                    && r.joined@[i].1.display_name == profiles@[i].display_name
                    && r.joined@[i].1.avatar_url == profiles@[i].avatar_url,
    {
        map_joined_members(profiles)
    }
}

/// Each profile as a (user identifier, member) pair, in order.
/// `members` lists the profiles, in order: each user with the name and
/// avatar of their profile.
pub open spec fn members_listed(members: JoinedMembers, profiles: Seq<JoinedRoomMemberProfile>) -> bool {
    &&& members.joined@.len() == profiles.len()
    &&& forall|i: int|
        0 <= i < profiles.len() ==> (#[trigger] members.joined@[i]).0 == profiles[i].user_id
            && members.joined@[i].1.display_name == profiles[i].display_name
            && members.joined@[i].1.avatar_url == profiles[i].avatar_url
}

pub fn map_joined_members(member_profiles: Vec<JoinedRoomMemberProfile>) -> (r: JoinedMembers)
    ensures
        r.joined@.len() == member_profiles@.len(),
        forall|i: int|
            0 <= i < member_profiles@.len() ==> (#[trigger] r.joined@[i]).0
                == member_profiles@[i].user_id && r.joined@[i].1.display_name
                == member_profiles@[i].display_name && r.joined@[i].1.avatar_url
                == member_profiles@[i].avatar_url,
{
    let ghost given = member_profiles@;
    let mut profiles = member_profiles;
    let mut reversed: Vec<(String, JoinedRoomMember)> = Vec::new();
    while profiles.len() > 0
        invariant
            profiles@.len() + reversed@.len() == given.len(),
            forall|k: int| 0 <= k < profiles@.len() ==> #[trigger] profiles@[k] == given[k],
            forall|k: int|
                0 <= k < reversed@.len() ==> (#[trigger] reversed@[k]).0 == given[given.len()
                    - 1 - k].user_id && reversed@[k].1.display_name == given[given.len() - 1
                    - k].display_name && reversed@[k].1.avatar_url == given[given.len() - 1
                    - k].avatar_url,
        decreases profiles.len(),
    {
        let p = profiles.pop().unwrap();
        reversed.push(
            (p.user_id, JoinedRoomMember { display_name: p.display_name, avatar_url: p.avatar_url }),
        );
    }
    let mut joined: Vec<(String, JoinedRoomMember)> = Vec::new();
    while reversed.len() > 0
        invariant
            reversed@.len() + joined@.len() == given.len(),
            forall|k: int|
                0 <= k < reversed@.len() ==> (#[trigger] reversed@[k]).0 == given[given.len()
                    - 1 - k].user_id && reversed@[k].1.display_name == given[given.len() - 1
                    - k].display_name && reversed@[k].1.avatar_url == given[given.len() - 1
                    - k].avatar_url,
            forall|k: int|
                0 <= k < joined@.len() ==> (#[trigger] joined@[k]).0 == given[k].user_id
                    && joined@[k].1.display_name == given[k].display_name
                    && joined@[k].1.avatar_url == given[k].avatar_url,
        decreases reversed.len(),
    {
        let entry = reversed.pop().unwrap();
        joined.push(entry);
    }
    JoinedMembers { joined }
}

} // verus!
