//! The inputs of a create-room request, and the rules that validate them.
use vstd::prelude::*;

use crate::errors::{RoomValidationError, RoomsApplicationError};
use crate::identifiers::{is_user_identifier, parse_room_identifier, RoomIdentifier, UserIdentifier};
use crate::json::{entries_insert, entries_view, Json, JsonValue};
use crate::text::{contains_char, is_blank, is_blank_str, trim, trim_str};
use crate::room_events::{state_event_kind_name, state_event_kind_named, StateEventKind};
use crate::state_contents::{content_fits_event_type, state_content_fits};
use crate::versions::RoomVersion;

verus! {

/// Whether a room is listed in the public room directory.
#[derive(Clone, Copy, Debug, PartialEq, Eq, Structural)]
pub enum RoomVisibility {
    Public,
    Private,
}

/// The wire name of a visibility.
pub open spec fn visibility_name(v: RoomVisibility) -> Seq<char> {
    match v {
        RoomVisibility::Public => "public"@,
        RoomVisibility::Private => "private"@,
    }
}

impl RoomVisibility {
    /// The wire name: `public` or `private`.
    pub fn as_str(self) -> (r: &'static str)
        ensures
            r@ == visibility_name(self),
    {
        match self {
            RoomVisibility::Public => "public",
            RoomVisibility::Private => "private",
        }
    }
}

impl Default for RoomVisibility {
    fn default() -> (r: Self)
        ensures
            r == RoomVisibility::Private,
    {
        RoomVisibility::Private
    }
}

/// The preset a room is created with.
#[derive(Clone, Copy, Debug, PartialEq, Eq, Structural)]
pub enum RoomPreset {
    PrivateChat,
    PublicChat,
    TrustedPrivateChat,
}

/// The wire name of a preset.
pub open spec fn preset_name(p: RoomPreset) -> Seq<char> {
    match p {
        RoomPreset::PrivateChat => "private_chat"@,
        RoomPreset::PublicChat => "public_chat"@,
        RoomPreset::TrustedPrivateChat => "trusted_private_chat"@,
    }
}

impl RoomPreset {
    /// The wire name in snake case.
    pub fn as_str(self) -> (r: &'static str)
        ensures
            r@ == preset_name(self),
    {
        match self {
            RoomPreset::PrivateChat => "private_chat",
            RoomPreset::PublicChat => "public_chat",
            RoomPreset::TrustedPrivateChat => "trusted_private_chat",
        }
    }
}

/// The preset that a visibility implies.
pub open spec fn preset_for_visibility(v: RoomVisibility) -> RoomPreset {
    match v {
        RoomVisibility::Public => RoomPreset::PublicChat,
        RoomVisibility::Private => RoomPreset::PrivateChat,
    }
}

impl From<RoomVisibility> for RoomPreset {
    fn from(value: RoomVisibility) -> (r: Self) {
        match value {
            RoomVisibility::Public => RoomPreset::PublicChat,
            RoomVisibility::Private => RoomPreset::PrivateChat,
        }
    }
}

impl vstd::std_specs::convert::FromSpecImpl<RoomVisibility> for RoomPreset {
    open spec fn obeys_from_spec() -> bool {
        true
    }

    open spec fn from_spec(v: RoomVisibility) -> RoomPreset {
        preset_for_visibility(v)
    }
}

impl Default for RoomPreset {
    /// The preset of the default visibility.
    fn default() -> (r: Self)
        ensures
            r == preset_for_visibility(RoomVisibility::Private),
    {
        RoomPreset::PrivateChat
    }
}

/// A room alias localpart: no `:`, `#`, NUL or space, and not empty.
pub open spec fn is_alias_localpart(s: Seq<char>) -> bool {
    &&& s.len() > 0
    &&& !s.contains(':')
    &&& !s.contains('#')
    &&& !s.contains('\0')
    &&& !s.contains(' ')
}

/// A trimmed room alias localpart.
#[derive(Debug)]
pub struct ValidatedRoomAliasLocalPart {
    value: String,
}

impl View for ValidatedRoomAliasLocalPart {
    type V = Seq<char>;

    closed spec fn view(&self) -> Seq<char> {
        self.value@
    }
}

impl ValidatedRoomAliasLocalPart {
    #[verifier::type_invariant]
    spec fn inv(self) -> bool {
        is_alias_localpart(self.value@)
    }

    /// Trims `value` and accepts it when it is a valid alias localpart.
    pub fn parse(value: String) -> (r: Option<ValidatedRoomAliasLocalPart>)
        ensures
            r matches Some(a) ==> a@ == trim(value@),
            r is Some <==> is_alias_localpart(trim(value@)),
    {
        let candidate = trim_str(value.as_str());
        if candidate.unicode_len() == 0 || contains_char(candidate, ':') || contains_char(
            candidate,
            '#',
        ) || contains_char(candidate, '\0') || contains_char(candidate, ' ') {
            return None;
        }
        Some(ValidatedRoomAliasLocalPart { value: String::from_str(candidate) })
    }

    pub fn as_str(&self) -> (r: &str)
        ensures
            r@ == self@,
            is_alias_localpart(self@),
    {
        proof {
            use_type_invariant(self);
        }
        self.value.as_str()
    }
}

/// A trimmed, non-empty room name.
#[derive(Debug)]
pub struct ValidatedRoomName {
    value: String,
}

impl View for ValidatedRoomName {
    type V = Seq<char>;

    closed spec fn view(&self) -> Seq<char> {
        self.value@
    }
}

impl ValidatedRoomName {
    #[verifier::type_invariant]
    spec fn inv(self) -> bool {
        self.value@.len() > 0
    }

    /// Trims `value` and accepts it when something is left.
    pub fn parse(value: String) -> (r: Option<ValidatedRoomName>)
        ensures
            r matches Some(a) ==> a@ == trim(value@),
            r is Some <==> trim(value@).len() > 0,
    {
        let candidate = trim_str(value.as_str());
        if candidate.unicode_len() == 0 {
            return None;
        }
        Some(ValidatedRoomName { value: String::from_str(candidate) })
    }

    pub fn as_str(&self) -> (r: &str)
        ensures
            r@ == self@,
            r@.len() > 0,
    {
        proof {
            use_type_invariant(self);
        }
        self.value.as_str()
    }
}

/// A trimmed, non-empty room topic.
#[derive(Debug)]
pub struct ValidatedRoomTopic {
    value: String,
}

impl View for ValidatedRoomTopic {
    type V = Seq<char>;

    closed spec fn view(&self) -> Seq<char> {
        self.value@
    }
}

impl ValidatedRoomTopic {
    #[verifier::type_invariant]
    spec fn inv(self) -> bool {
        self.value@.len() > 0
    }

    /// Trims `value` and accepts it when something is left.
    pub fn parse(value: String) -> (r: Option<ValidatedRoomTopic>)
        ensures
            r matches Some(a) ==> a@ == trim(value@),
            r is Some <==> trim(value@).len() > 0,
    {
        let candidate = trim_str(value.as_str());
        if candidate.unicode_len() == 0 {
            return None;
        }
        Some(ValidatedRoomTopic { value: String::from_str(candidate) })
    }

    pub fn as_str(&self) -> (r: &str)
        ensures
            r@ == self@,
            r@.len() > 0,
    {
        proof {
            use_type_invariant(self);
        }
        self.value.as_str()
    }
}

/// A state key; an absent one is the empty key.
#[derive(Debug)]
pub struct ValidatedStateKey {
    value: String,
}

impl View for ValidatedStateKey {
    type V = Seq<char>;

    closed spec fn view(&self) -> Seq<char> {
        self.value@
    }
}

impl ValidatedStateKey {
    pub fn parse(value: Option<String>) -> (r: ValidatedStateKey)
        ensures
            r@ == (match value {
                Some(s) => s@,
                None => Seq::empty(),
            }),
    {
        match value {
            Some(s) => ValidatedStateKey { value: s },
            None => ValidatedStateKey { value: String::new() },
        }
    }

    pub fn as_str(&self) -> (r: &str)
        ensures
            r@ == self@,
    {
        self.value.as_str()
    }
}

/// A required text field counts as missing when it holds only white space.
pub open spec fn third_party_fields_blank(
    id_server: Seq<char>,
    id_access_token: Seq<char>,
    medium: Seq<char>,
    address: Seq<char>,
) -> bool {
    is_blank(id_server) || is_blank(id_access_token) || is_blank(medium) || is_blank(address)
}

/// A third-party invite as the client sends it.
#[derive(Debug)]
pub struct InviteThirdPartyIdentifierInfo {
    pub id_server: String,
    pub id_access_token: String,
    pub medium: String,
    pub address: String,
}

impl InviteThirdPartyIdentifierInfo {
    /// Whether one of the four required fields is blank.
    pub fn has_empty_required_field(&self) -> (r: bool)
        ensures
            r == third_party_fields_blank(
                self.id_server@,
                self.id_access_token@,
                self.medium@,
                self.address@,
            ),
    {
        is_blank_str(self.id_server.as_str()) || is_blank_str(self.id_access_token.as_str())
            || is_blank_str(self.medium.as_str()) || is_blank_str(self.address.as_str())
    }
}

/// A third-party invite in a legacy create-room request.
#[derive(Debug)]
pub struct InviteThirdPartyDto {
    pub id_server: String,
    pub id_access_token: String,
    pub medium: String,
    pub address: String,
}

/// A third-party invite whose four fields are all present.
#[derive(Debug)]
pub struct ValidatedThirdPartyInvite {
    pub id_server: String,
    pub id_access_token: String,
    pub medium: String,
    pub address: String,
}

/// Accepts a third-party invite when none of its fields is blank.
pub fn validate_third_party_invite(invite: InviteThirdPartyDto) -> (r: Result<
    ValidatedThirdPartyInvite,
    RoomValidationError,
>)
    ensures
        r is Err <==> third_party_fields_blank(
            invite.id_server@,
            invite.id_access_token@,
            invite.medium@,
            invite.address@,
        ),
        r matches Err(e) ==> e is InvalidThirdPartyInvite,
        r matches Ok(v) ==> v.id_server@ == invite.id_server@ && v.id_access_token@
            == invite.id_access_token@ && v.medium@ == invite.medium@ && v.address@
            == invite.address@,
{
    if is_blank_str(invite.id_server.as_str()) || is_blank_str(invite.id_access_token.as_str())
        || is_blank_str(invite.medium.as_str()) || is_blank_str(invite.address.as_str()) {
        return Err(RoomValidationError::InvalidThirdPartyInvite);
    }
    Ok(
        ValidatedThirdPartyInvite {
            id_server: invite.id_server,
            id_access_token: invite.id_access_token,
            medium: invite.medium,
            address: invite.address,
        },
    )
}

/// The `notifications` block of a power-levels override.
#[derive(Debug)]
pub struct RoomPowerLevelNotifications {
    pub room: Option<i64>,
}

/// Power levels that a create-room request sets in place of the defaults.
/// The `events` and `users` maps are lists of (key, level) pairs; where a key
/// repeats, the last pair counts.
#[derive(Debug)]
pub struct RoomPowerLevelsContentOverride {
    pub ban: Option<i64>,
    pub events: Option<Vec<(String, i64)>>,
    pub events_default: Option<i64>,
    pub invite: Option<i64>,
    pub kick: Option<i64>,
    pub notifications: Option<RoomPowerLevelNotifications>,
    pub redact: Option<i64>,
    pub state_default: Option<i64>,
    pub users: Option<Vec<(String, i64)>>,
    pub users_default: Option<i64>,
}

impl Default for RoomPowerLevelsContentOverride {
    fn default() -> (r: Self)
        ensures
            r.ban is None && r.events is None && r.events_default is None && r.invite is None
                && r.kick is None && r.notifications is None && r.redact is None
                && r.state_default is None && r.users is None && r.users_default is None,
    {
        RoomPowerLevelsContentOverride {
            ban: None,
            events: None,
            events_default: None,
            invite: None,
            kick: None,
            notifications: None,
            redact: None,
            state_default: None,
            users: None,
            users_default: None,
        }
    }
}

/// The power-levels override of a legacy create-room request.
#[derive(Debug)]
pub struct RoomPowerLevelsOverrideDto {
    pub ban: Option<i64>,
    pub events: Option<Vec<(String, i64)>>,
    pub events_default: Option<i64>,
    pub invite: Option<i64>,
    pub kick: Option<i64>,
    pub notifications: Option<RoomPowerLevelNotifications>,
    pub redact: Option<i64>,
    pub state_default: Option<i64>,
    pub users: Option<Vec<(String, i64)>>,
    pub users_default: Option<i64>,
}

/// A predecessor is valid when its event id is not blank and its room id
/// parses with a server name.
pub open spec fn is_valid_predecessor(event_id: Seq<char>, room_id: Seq<char>) -> bool {
    !is_blank(event_id) && parse_room_identifier(room_id) is Some
}

/// The room a new room replaces.
#[derive(Debug)]
pub struct PreviousRoomDto {
    pub event_id: String,
    pub room_id: String,
}

impl PreviousRoomDto {
    pub fn validate(&self) -> (r: Result<(), RoomValidationError>)
        ensures
            r is Ok <==> is_valid_predecessor(self.event_id@, self.room_id@),
            r matches Err(e) ==> e is InvalidPredecessor,
    {
        if is_blank_str(self.event_id.as_str()) {
            return Err(RoomValidationError::InvalidPredecessor);
        }
        match RoomIdentifier::parse(self.room_id.as_str()) {
            Some(_) => Ok(()),
            None => Err(RoomValidationError::InvalidPredecessor),
        }
    }

    pub fn deep_clone(&self) -> (r: PreviousRoomDto)
        ensures
            r.event_id@ == self.event_id@,
            r.room_id@ == self.room_id@,
    {
        PreviousRoomDto { event_id: self.event_id.clone(), room_id: self.room_id.clone() }
    }
}

/// The JSON object of a predecessor: `event_id` and `room_id`.
pub open spec fn predecessor_json(event_id: Seq<char>, room_id: Seq<char>) -> Json {
    Json::Object(seq![("event_id"@, Json::Str(event_id)), ("room_id"@, Json::Str(room_id))])
}

impl PreviousRoomDto {
    pub fn to_json(&self) -> (r: JsonValue)
        ensures
            r@ == predecessor_json(self.event_id@, self.room_id@),
    {
        let mut entries: Vec<(String, JsonValue)> = Vec::new();
        entries.push((String::from_str("event_id"), JsonValue::Str(self.event_id.clone())));
        entries.push((String::from_str("room_id"), JsonValue::Str(self.room_id.clone())));
        proof {
            crate::json::lemma_object_view(entries);
            assert(entries_view(entries@) =~= seq![
                ("event_id"@, Json::Str(self.event_id@)),
                ("room_id"@, Json::Str(self.room_id@)),
            ]);
        }
        JsonValue::Object(entries)
    }
}

/// Every string in `values` is a well-formed user identifier.
pub open spec fn all_user_identifiers(values: Seq<String>) -> bool {
    forall|i: int| 0 <= i < values.len() ==> is_user_identifier(#[trigger] values[i]@)
}

/// Decides `all_user_identifiers`.
pub fn are_user_identifiers(values: &Vec<String>) -> (r: bool)
    ensures
        r == all_user_identifiers(values@),
{
    let mut i: usize = 0;
    while i < values.len()
        invariant
            i <= values@.len(),
            forall|k: int| 0 <= k < i ==> is_user_identifier(#[trigger] values@[k]@),
        decreases values.len() - i,
    {
        if UserIdentifier::parse(values[i].as_str()).is_none() {
            return false;
        }
        i = i + 1;
    }
    true
}

/// A copy of a list of strings.
pub fn clone_strings(values: &Vec<String>) -> (r: Vec<String>)
    ensures
        r@.len() == values@.len(),
        forall|i: int| 0 <= i < values@.len() ==> (#[trigger] r@[i])@ == values@[i]@,
{
    let mut out: Vec<String> = Vec::new();
    let mut i: usize = 0;
    while i < values.len()
        invariant
            i <= values@.len(),
            out@.len() == i,
            forall|k: int| 0 <= k < i ==> (#[trigger] out@[k])@ == values@[k]@,
        decreases values.len() - i,
    {
        out.push(values[i].clone());
        i = i + 1;
    }
    out
}

/// The `creation_content` of a create-room request. Keys that the request
/// schema does not name are kept in `extra_content`; `creator` and
/// `room_version` are accepted and ignored.
#[derive(Debug)]
pub struct CreationContentInfo {
    pub additional_creators: Option<Vec<String>>,
    pub federate: Option<bool>,
    pub predecessor: Option<PreviousRoomDto>,
    pub room_type: Option<String>,
    pub creator: Option<String>,
    pub room_version: Option<String>,
    pub extra_content: Vec<(String, JsonValue)>,
}

impl Default for CreationContentInfo {
    fn default() -> (r: Self)
        ensures
            r.additional_creators is None && r.federate is None && r.predecessor is None
                && r.room_type is None && r.creator is None && r.room_version is None
                && r.extra_content@.len() == 0,
    {
        CreationContentInfo {
            additional_creators: None,
            federate: None,
            predecessor: None,
            room_type: None,
            creator: None,
            room_version: None,
            extra_content: Vec::new(),
        }
    }
}

/// When a `creation_content` is accepted: its additional creators are user
/// identifiers, its predecessor is valid and its room type is not blank.
pub open spec fn creation_content_info_valid(info: CreationContentInfo) -> bool {
    &&& (info.additional_creators matches Some(v) ==> all_user_identifiers(v@))
    &&& (info.predecessor matches Some(p) ==> is_valid_predecessor(p.event_id@, p.room_id@))
    &&& (info.room_type matches Some(t) ==> !is_blank(t@))
}

/// The validated content of the room's `m.room.create` event.
#[derive(Debug)]
pub struct CreationContent {
    pub additional_creators: Vec<String>,
    pub federate: bool,
    pub predecessor: Option<PreviousRoomDto>,
    pub room_type: Option<String>,
    pub extra_content: Vec<(String, JsonValue)>,
}

impl Default for CreationContent {
    fn default() -> (r: Self)
        ensures
            r.additional_creators@.len() == 0,
            r.federate,
            r.predecessor is None,
            r.room_type is None,
            r.extra_content@.len() == 0,
    {
        CreationContent {
            additional_creators: Vec::new(),
            federate: true,
            predecessor: None,
            room_type: None,
            extra_content: Vec::new(),
        }
    }
}

/// The entries of the `m.room.create` content built from `c`: the extra
/// keys, then `additional_creators` (when there are any), `m.federate`,
/// `predecessor` and `type`, each set over what was there.
pub open spec fn creation_event_entries(c: CreationContent) -> Seq<(Seq<char>, Json)> {
    let base = entries_view(c.extra_content@);
    let with_creators = if c.additional_creators@.len() > 0 {
        entries_insert(
            base,
            "additional_creators"@,
            Json::Array(crate::json::strings_json(c.additional_creators@)),
        )
    } else {
        base
    };
    let with_federate = entries_insert(with_creators, "m.federate"@, Json::Bool(c.federate));
    let with_predecessor = match c.predecessor {
        Some(p) => entries_insert(
            with_federate,
            "predecessor"@,
            predecessor_json(p.event_id@, p.room_id@),
        ),
        None => with_federate,
    };
    match c.room_type {
        Some(t) => entries_insert(with_predecessor, "type"@, Json::Str(t@)),
        None => with_predecessor,
    }
}

/// The creation content that validating `info` gives: absent creators
/// are none, `m.federate` defaults to true, the rest is carried over.
pub open spec fn creation_content_validated_from(c: CreationContent, info: CreationContentInfo) -> bool {
    &&& c.additional_creators@ == (match info.additional_creators {
        Some(v) => v@,
        None => Seq::empty(),
    })
    &&& c.federate == (match info.federate {
        Some(b) => b,
        None => true,
    })
    &&& c.predecessor == info.predecessor
    &&& c.room_type == info.room_type
    &&& c.extra_content == info.extra_content
}

impl CreationContent {
    /// Validates a request's `creation_content`.
    pub fn try_from_creation_content_info(creation_content: CreationContentInfo) -> (r: Result<
        CreationContent,
        RoomsApplicationError,
    >)
        ensures
            r is Ok <==> creation_content_info_valid(creation_content),
            r matches Err(e) ==> e == RoomsApplicationError::InvalidParameter,
            r matches Ok(c) ==> creation_content_validated_from(c, creation_content),
    {
        let additional_creators = match creation_content.additional_creators {
            Some(v) => v,
            None => Vec::new(),
        };
        if !are_user_identifiers(&additional_creators) {
            return Err(RoomsApplicationError::InvalidParameter);
        }
        let federate = match creation_content.federate {
            Some(b) => b,
            None => true,
        };
        if let Some(p) = &creation_content.predecessor {
            if p.validate().is_err() {
                return Err(RoomsApplicationError::InvalidParameter);
            }
        }
        if let Some(t) = &creation_content.room_type {
            if is_blank_str(t.as_str()) {
                return Err(RoomsApplicationError::InvalidParameter);
            }
        }
        Ok(
            CreationContent {
                additional_creators,
                federate,
                predecessor: creation_content.predecessor,
                room_type: creation_content.room_type,
                extra_content: creation_content.extra_content,
            },
        )
    }

    /// The content of the `m.room.create` event, before the server sets
    /// `creator` and `room_version`.
    pub fn to_event_content_map(&self) -> (r: JsonValue)
        ensures
            r@ == Json::Object(creation_event_entries(*self)),
    {
        let entries = crate::json::clone_entries(&self.extra_content);
        proof {
            crate::json::lemma_object_view(entries);
        }
        let mut event_content = JsonValue::Object(entries);
        if self.additional_creators.len() > 0 {
            event_content.insert(
                "additional_creators",
                crate::json::string_array(&self.additional_creators),
            );
        }
        event_content.insert("m.federate", JsonValue::Bool(self.federate));
        match &self.predecessor {
            Some(p) => event_content.insert("predecessor", p.to_json()),
            None => {},
        }
        match &self.room_type {
            Some(t) => event_content.insert("type", JsonValue::Str(t.clone())),
            None => {},
        }
        event_content
    }
}

/// A state event that the client asks to set when the room is created.
#[derive(Debug)]
pub struct RoomStateEventInfo {
    pub content: JsonValue,
    pub state_key: Option<String>,
    pub event_type: String,
}

/// A create-room request as the client sends it.
#[derive(Debug)]
pub struct CreateRoomInfo {
    pub creation_content: Option<CreationContentInfo>,
    pub initial_state: Option<Vec<RoomStateEventInfo>>,
    pub invite: Option<Vec<String>>,
    pub invite_3pid: Option<Vec<InviteThirdPartyIdentifierInfo>>,
    pub is_direct: Option<bool>,
    pub name: Option<String>,
    pub power_level_content_override: Option<RoomPowerLevelsContentOverride>,
    pub preset: RoomPreset,
    pub room_alias_name: Option<String>,
    pub room_version: Option<String>,
    pub topic: Option<String>,
    pub visibility: RoomVisibility,
}

/// A create-room request that passed validation.
#[derive(Debug)]
pub struct ValidatedCreateRoomRequest {
    pub creation_content: CreationContent,
    pub initial_state: Vec<RoomStateEventInfo>,
    pub invite: Vec<UserIdentifier>,
    pub invite_3pid: Vec<InviteThirdPartyIdentifierInfo>,
    pub is_direct: bool,
    pub name: Option<String>,
    pub power_level_content_override: RoomPowerLevelsContentOverride,
    pub preset: RoomPreset,
    pub room_alias_name: Option<String>,
    pub room_version: RoomVersion,
    pub topic: Option<String>,
    pub visibility: RoomVisibility,
}

/// The invitees a request names; none when it names no list.
pub open spec fn requested_invitees(value: CreateRoomInfo) -> Seq<String> {
    match value.invite {
        Some(v) => v@,
        None => Seq::empty(),
    }
}

/// A room alias name in a create-room request: not blank, without `:` or NUL.
pub open spec fn is_acceptable_alias_name(a: Seq<char>) -> bool {
    !is_blank(a) && !a.contains(':') && !a.contains('\0')
}

/// When a create-room request is refused as an invalid parameter: its
/// creation content is invalid, an invitee is not a user identifier or not a
/// known user, a third-party invite has a blank field, or its alias name is
/// not acceptable.
pub open spec fn create_room_request_has_invalid_parameter(
    value: CreateRoomInfo,
    invitee_exists: Seq<bool>,
) -> bool {
    ||| (value.creation_content matches Some(c) && !creation_content_info_valid(c))
    ||| exists|i: int|
        0 <= i < requested_invitees(value).len() && !(is_user_identifier(
            #[trigger] requested_invitees(value)[i]@,
        ) && invitee_exists[i])
    ||| (value.invite_3pid matches Some(v) && exists|i: int|
        0 <= i < v@.len() && third_party_fields_blank(
            #[trigger] v@[i].id_server@,
            v@[i].id_access_token@,
            v@[i].medium@,
            v@[i].address@,
        ))
    ||| (value.room_alias_name matches Some(a) && !is_acceptable_alias_name(a@))
}

/// The room version a request asks for is supported: none, or `1`.
pub open spec fn is_requested_room_version_supported(version: Option<String>) -> bool {
    match version {
        Some(v) => v@ == "1"@,
        None => true,
    }
}

/// The invitees, parsed, when each is a known user identifier.
fn validate_invitees(invitees: &Vec<String>, invitee_exists: &Vec<bool>) -> (r: Option<
    Vec<UserIdentifier>,
>)
    requires
        invitee_exists@.len() == invitees@.len(),
    ensures
        r is Some <==> forall|i: int|
            0 <= i < invitees@.len() ==> is_user_identifier(#[trigger] invitees@[i]@)
                && invitee_exists@[i],
        r matches Some(v) ==> v@.len() == invitees@.len() && forall|i: int|
            0 <= i < invitees@.len() ==> (#[trigger] v@[i])@ == invitees@[i]@,
{
    let mut out: Vec<UserIdentifier> = Vec::new();
    let mut i: usize = 0;
    while i < invitees.len()
        invariant
            invitee_exists@.len() == invitees@.len(),
            i <= invitees@.len(),
            out@.len() == i,
            forall|k: int| 0 <= k < i ==> is_user_identifier(#[trigger] invitees@[k]@),
            forall|k: int| 0 <= k < i ==> #[trigger] invitee_exists@[k],
            forall|k: int| 0 <= k < i ==> (#[trigger] out@[k])@ == invitees@[k]@,
        decreases invitees.len() - i,
    {
        match UserIdentifier::parse(invitees[i].as_str()) {
            Some(u) => {
                if !invitee_exists[i] {
                    assert(!(is_user_identifier(invitees@[i as int]@) && invitee_exists@[i as int]));
                    return None;
                }
                assert(is_user_identifier(invitees@[i as int]@) && invitee_exists@[i as int]);
                out.push(u);
            },
            None => {
                assert(!(is_user_identifier(invitees@[i as int]@) && invitee_exists@[i as int]));
                return None;
            },
        }
        i = i + 1;
    }
    Some(out)
}

/// Whether one of the third-party invites has a blank field.
fn any_third_party_field_blank(invites: &Vec<InviteThirdPartyIdentifierInfo>) -> (r: bool)
    ensures
        r == exists|i: int|
            0 <= i < invites@.len() && third_party_fields_blank(
                #[trigger] invites@[i].id_server@,
                invites@[i].id_access_token@,
                invites@[i].medium@,
                invites@[i].address@,
            ),
{
    let mut i: usize = 0;
    while i < invites.len()
        invariant
            i <= invites@.len(),
            forall|k: int|
                0 <= k < i ==> !third_party_fields_blank(
                    #[trigger] invites@[k].id_server@,
                    invites@[k].id_access_token@,
                    invites@[k].medium@,
                    invites@[k].address@,
                ),
        decreases invites.len() - i,
    {
        if invites[i].has_empty_required_field() {
            return true;
        }
        i = i + 1;
    }
    false
}

impl ValidatedCreateRoomRequest {
    /// Validates a create-room request. `invitee_exists[i]` says whether the
    /// `i`-th invitee names a registered user; it is read only for invitees
    /// that are well-formed user identifiers.
    pub fn try_from_request(value: CreateRoomInfo, invitee_exists: &Vec<bool>) -> (r: Result<
        ValidatedCreateRoomRequest,
        RoomsApplicationError,
    >)
        requires
            invitee_exists@.len() == requested_invitees(value).len(),
        ensures
            r matches Err(e) ==> (e == RoomsApplicationError::InvalidParameter
                || e == RoomsApplicationError::UnsupportedRoomVersion),
            (r matches Err(e) && e == RoomsApplicationError::InvalidParameter)
                <==> create_room_request_has_invalid_parameter(value, invitee_exists@),
            (r matches Err(e) && e == RoomsApplicationError::UnsupportedRoomVersion) <==> (
            !create_room_request_has_invalid_parameter(value, invitee_exists@)
                && !is_requested_room_version_supported(value.room_version)),
            r matches Ok(v) ==> {
                &&& v.invite@.len() == requested_invitees(value).len()
                &&& forall|i: int|
                    0 <= i < v.invite@.len() ==> (#[trigger] v.invite@[i])@ == requested_invitees(
                        value,
                    )[i]@
                &&& v.initial_state@ == (match value.initial_state {
                    Some(s) => s@,
                    None => Seq::empty(),
                })
                &&& v.invite_3pid@ == (match value.invite_3pid {
                    Some(s) => s@,
                    None => Seq::empty(),
                })
                &&& v.is_direct == (match value.is_direct {
                    Some(b) => b,
                    None => false,
                })
                &&& match value.creation_content {
                    Some(info) => creation_content_validated_from(v.creation_content, info),
                    None => v.creation_content.additional_creators@.len() == 0
                        && v.creation_content.federate && v.creation_content.predecessor is None
                        && v.creation_content.room_type is None
                        && v.creation_content.extra_content@.len() == 0,
                }
                &&& v.name == value.name
                &&& v.preset == value.preset
                &&& v.room_alias_name matches Some(a) ==> value.room_alias_name matches Some(
                    b,
                ) && a@ == trim(b@)
                &&& v.room_alias_name is None <==> value.room_alias_name is None
                &&& v.room_version == RoomVersion::V1
                &&& v.topic == value.topic
                &&& v.visibility == value.visibility
                &&& (match value.power_level_content_override {
                    Some(o) => v.power_level_content_override == o,
                    None => v.power_level_content_override.ban is None
                        && v.power_level_content_override.events is None
                        && v.power_level_content_override.users is None,
                })
            },
    {
        let ghost given = value;
        let creation_content = match value.creation_content {
            Some(c) => c,
            None => CreationContentInfo::default(),
        };
        let creation_content = match CreationContent::try_from_creation_content_info(
            creation_content,
        ) {
            Ok(c) => c,
            Err(e) => return Err(e),
        };
        let invitees = match value.invite {
            Some(v) => v,
            None => Vec::new(),
        };
        let invite = match validate_invitees(&invitees, invitee_exists) {
            Some(v) => v,
            None => return Err(RoomsApplicationError::InvalidParameter),
        };
        let invite_3pid = match value.invite_3pid {
            Some(v) => v,
            None => Vec::new(),
        };
        if any_third_party_field_blank(&invite_3pid) {
            return Err(RoomsApplicationError::InvalidParameter);
        }
        let room_alias_name = match value.room_alias_name {
            Some(a) => {
                if is_blank_str(a.as_str()) || contains_char(a.as_str(), ':') || contains_char(
                    a.as_str(),
                    '\0',
                ) {
                    return Err(RoomsApplicationError::InvalidParameter);
                }
                Some(String::from_str(trim_str(a.as_str())))
            },
            None => None,
        };
        let room_version = match &value.room_version {
            Some(v) => {
                if crate::text::str_eq(v.as_str(), "1") {
                    RoomVersion::V1
                } else {
                    return Err(RoomsApplicationError::UnsupportedRoomVersion);
                }
            },
            None => RoomVersion::V1,
        };
        Ok(
            ValidatedCreateRoomRequest {
                creation_content,
                initial_state: match value.initial_state {
                    Some(s) => s,
                    None => Vec::new(),
                },
                invite,
                invite_3pid,
                is_direct: match value.is_direct {
                    Some(b) => b,
                    None => false,
                },
                name: value.name,
                power_level_content_override: match value.power_level_content_override {
                    Some(o) => o,
                    None => RoomPowerLevelsContentOverride::default(),
                },
                preset: value.preset,
                room_alias_name,
                room_version,
                topic: value.topic,
                visibility: value.visibility,
            },
        )
    }
}

/// The `creation_content` of a legacy create-room request.
#[derive(Debug)]
pub struct CreateRoomCreationContentDto {
    pub additional_creators: Option<Vec<String>>,
    pub federate: Option<bool>,
    pub predecessor: Option<PreviousRoomDto>,
    pub room_type: Option<String>,
    pub creator: Option<String>,
    pub room_version: Option<String>,
}

impl Default for CreateRoomCreationContentDto {
    fn default() -> (r: Self)
        ensures
            r.additional_creators is None && r.federate is None && r.predecessor is None
                && r.room_type is None && r.creator is None && r.room_version is None,
    {
        CreateRoomCreationContentDto {
            additional_creators: None,
            federate: None,
            predecessor: None,
            room_type: None,
            creator: None,
            room_version: None,
        }
    }
}

/// A validated legacy `creation_content`.
#[derive(Debug)]
pub struct ValidatedCreationContent {
    pub additional_creators: Vec<UserIdentifier>,
    pub federate: bool,
    pub predecessor: Option<PreviousRoomDto>,
    pub room_type: Option<String>,
}

impl Default for ValidatedCreationContent {
    fn default() -> (r: Self)
        ensures
            r.additional_creators@.len() == 0,
            r.federate,
            r.predecessor is None,
            r.room_type is None,
    {
        ValidatedCreationContent {
            additional_creators: Vec::new(),
            federate: true,
            predecessor: None,
            room_type: None,
        }
    }
}

/// Validates a legacy `creation_content`: every additional creator must be
/// a user identifier, then the predecessor must be valid, then a room type
/// must not be blank.
pub fn validate_creation_content(creation_content: CreateRoomCreationContentDto) -> (r: Result<
    ValidatedCreationContent,
    RoomValidationError,
>)
    ensures
        ({
            let creators = match creation_content.additional_creators {
                Some(v) => v@,
                None => Seq::empty(),
            };
            if !all_user_identifiers(creators) {
                r matches Err(e) && e is InvalidCreationContent
            } else if creation_content.predecessor matches Some(p) && !is_valid_predecessor(
                p.event_id@,
                p.room_id@,
            ) {
                r matches Err(e) && e is InvalidPredecessor
            } else if creation_content.room_type matches Some(t) && is_blank(t@) {
                r matches Err(e) && e is InvalidCreationContent
            } else {
                r matches Ok(c) && c.additional_creators@.len() == creators.len() && (forall|i: int|
                    0 <= i < creators.len() ==> (#[trigger] c.additional_creators@[i])@
                        == creators[i]@) && c.federate == (match creation_content.federate {
                    Some(b) => b,
                    None => true,
                }) && c.predecessor == creation_content.predecessor && c.room_type
                    == creation_content.room_type
            }
        }),
{
    let ghost expected = match &creation_content.additional_creators {
        Some(v) => v@,
        None => Seq::empty(),
    };
    let creators = match creation_content.additional_creators {
        Some(v) => v,
        None => Vec::new(),
    };
    let mut additional_creators: Vec<UserIdentifier> = Vec::new();
    let mut i: usize = 0;
    while i < creators.len()
        invariant
            creators@ == expected,
            expected == (match creation_content.additional_creators {
                Some(v) => v@,
                None => Seq::empty(),
            }),
            i <= creators@.len(),
            additional_creators@.len() == i,
            forall|k: int| 0 <= k < i ==> is_user_identifier(#[trigger] creators@[k]@),
            forall|k: int| 0 <= k < i ==> (#[trigger] additional_creators@[k])@ == creators@[k]@,
        decreases creators.len() - i,
    {
        match UserIdentifier::parse(creators[i].as_str()) {
            Some(u) => additional_creators.push(u),
            None => {
                assert(!is_user_identifier(creators@[i as int]@));
                return Err(RoomValidationError::InvalidCreationContent);
            },
        }
        i = i + 1;
    }
    if let Some(p) = &creation_content.predecessor {
        if p.validate().is_err() {
            return Err(RoomValidationError::InvalidPredecessor);
        }
    }
    if let Some(t) = &creation_content.room_type {
        if is_blank_str(t.as_str()) {
            return Err(RoomValidationError::InvalidCreationContent);
        }
    }
    Ok(
        ValidatedCreationContent {
            additional_creators,
            federate: match creation_content.federate {
                Some(b) => b,
                None => true,
            },
            predecessor: creation_content.predecessor,
            room_type: creation_content.room_type,
        },
    )
}

/// A user's power level.
#[derive(Debug)]
pub struct UserPowerLevel {
    pub user_id: String,
    pub level: i64,
}

/// The power levels of a room, with the defaults filled in.
#[derive(Debug)]
pub struct RoomPowerLevelsContent {
    pub ban: i64,
    pub events_default: i64,
    pub invite: i64,
    pub kick: i64,
    pub redact: i64,
    pub state_default: i64,
    pub users_default: i64,
    pub users: Vec<UserPowerLevel>,
    pub notifications_room: Option<i64>,
}

/// The `notifications` block of a power-levels event.
#[derive(Debug)]
pub struct RoomPowerLevelsNotificationsStateContent {
    pub room: Option<i64>,
}

/// The content of a power-levels event as a client sends it; the `users`
/// map is a list of (user, level) pairs with unique users.
#[derive(Debug)]
pub struct RoomPowerLevelsStateContent {
    pub ban: Option<i64>,
    pub events_default: Option<i64>,
    pub invite: Option<i64>,
    pub kick: Option<i64>,
    pub redact: Option<i64>,
    pub state_default: Option<i64>,
    pub users_default: Option<i64>,
    pub users: Option<Vec<(String, i64)>>,
    pub notifications: Option<RoomPowerLevelsNotificationsStateContent>,
}

pub open spec fn level_or(level: Option<i64>, default: i64) -> i64 {
    match level {
        Some(l) => l,
        None => default,
    }
}

impl RoomPowerLevelsStateContent {
    /// The power levels with the defaults of the Matrix specification: 50
    /// to ban, kick, redact and send state, 0 for everything else.
    pub fn into_domain(self) -> (r: RoomPowerLevelsContent)
        ensures
            r.ban == level_or(self.ban, 50),
            r.events_default == level_or(self.events_default, 0),
            r.invite == level_or(self.invite, 0),
            r.kick == level_or(self.kick, 50),
            r.redact == level_or(self.redact, 50),
            r.state_default == level_or(self.state_default, 50),
            r.users_default == level_or(self.users_default, 0),
            r.notifications_room == (match self.notifications {
                Some(n) => n.room,
                None => None,
            }),
            r.users@.len() == (match self.users {
                Some(u) => u@.len(),
                None => 0,
            }),
            forall|i: int|
                0 <= i < r.users@.len() ==> (#[trigger] r.users@[i]).user_id == self.users->Some_0@[i].0
                    && r.users@[i].level == self.users->Some_0@[i].1,
    {
        let pairs = match self.users {
            Some(u) => u,
            None => Vec::new(),
        };
        let ghost given = pairs@;
        let mut remaining = pairs;
        let mut reversed: Vec<UserPowerLevel> = Vec::new();
        while remaining.len() > 0
            invariant
                remaining@.len() + reversed@.len() == given.len(),
                forall|k: int| 0 <= k < remaining@.len() ==> #[trigger] remaining@[k] == given[k],
                forall|k: int|
                    0 <= k < reversed@.len() ==> (#[trigger] reversed@[k]).user_id == given[given.len()
                        - 1 - k].0 && reversed@[k].level == given[given.len() - 1 - k].1,
            decreases remaining.len(),
        {
            let (user_id, level) = remaining.pop().unwrap();
            reversed.push(UserPowerLevel { user_id, level });
        }
        let mut users: Vec<UserPowerLevel> = Vec::new();
        while reversed.len() > 0
            invariant
                reversed@.len() + users@.len() == given.len(),
                forall|k: int|
                    0 <= k < reversed@.len() ==> (#[trigger] reversed@[k]).user_id == given[given.len()
                        - 1 - k].0 && reversed@[k].level == given[given.len() - 1 - k].1,
                forall|k: int|
                    0 <= k < users@.len() ==> (#[trigger] users@[k]).user_id == given[k].0
                        && users@[k].level == given[k].1,
            decreases reversed.len(),
        {
            let u = reversed.pop().unwrap();
            users.push(u);
        }
        RoomPowerLevelsContent {
            ban: match self.ban {
                Some(l) => l,
                None => 50,
            },
            events_default: match self.events_default {
                Some(l) => l,
                None => 0,
            },
            invite: match self.invite {
                Some(l) => l,
                None => 0,
            },
            kick: match self.kick {
                Some(l) => l,
                None => 50,
            },
            redact: match self.redact {
                Some(l) => l,
                None => 50,
            },
            state_default: match self.state_default {
                Some(l) => l,
                None => 50,
            },
            users_default: match self.users_default {
                Some(l) => l,
                None => 0,
            },
            users,
            notifications_room: match self.notifications {
                Some(n) => n.room,
                None => None,
            },
        }
    }
}

/// A state event in the `initial_state` of a legacy create-room request.
#[derive(Debug)]
pub struct RawInitialStateEventDto {
    pub content: JsonValue,
    pub state_key: Option<String>,
    pub event_type: String,
}

/// An initial state event that passed validation.
#[derive(Debug)]
pub struct ValidatedInitialStateEventInput {
    pub event_type: StateEventKind,
    pub state_key: ValidatedStateKey,
    pub content: JsonValue,
}

/// The kind of a (trimmed) event type: a known kind, or a custom one.
pub open spec fn kind_of_type(event_type: Seq<char>) -> StateEventKind {
    match state_event_kind_named(trim(event_type)) {
        Some(k) => k,
        None => StateEventKind::Custom(arbitrary()),
    }
}

/// The name that an initial state event's trimmed type stands for.
pub open spec fn initial_state_kind_name(event_type: Seq<char>) -> Seq<char> {
    match state_event_kind_named(trim(event_type)) {
        Some(k) => state_event_kind_name(k),
        None => trim(event_type),
    }
}

/// The first initial state event that is refused, if any, and why: a
/// create event is refused, and so is content that is not an object or that
/// does not have the shape of the content of its kind.
pub open spec fn first_initial_state_event_fault(
    s: Seq<RawInitialStateEventDto>,
    i: int,
) -> Option<(int, bool)>
    decreases s.len() - i,
{
    if i < 0 || i >= s.len() {
        None
    } else if state_event_kind_named(trim(s[i].event_type@)) == Some(StateEventKind::RoomCreate) {
        Some((i, true))
    } else if !(s[i].content@ is Object) || !content_fits_event_type(
        trim(s[i].event_type@),
        s[i].content@,
    ) {
        Some((i, false))
    } else {
        first_initial_state_event_fault(s, i + 1)
    }
}

/// Validates the initial state of a legacy create-room request.
pub fn validate_initial_state(initial_state: Vec<RawInitialStateEventDto>) -> (r: Result<
    Vec<ValidatedInitialStateEventInput>,
    RoomValidationError,
>)
    ensures
        match first_initial_state_event_fault(initial_state@, 0) {
            None => r matches Ok(v) && v@.len() == initial_state@.len() && forall|i: int|
                0 <= i < v@.len() ==> state_event_kind_name((#[trigger] v@[i]).event_type)
                    == initial_state_kind_name(initial_state@[i].event_type@) && v@[i].content@
                    == initial_state@[i].content@ && v@[i].state_key@ == (match initial_state@[i].state_key {
                    Some(k) => k@,
                    None => Seq::empty(),
                }),
            Some((_, true)) => r matches Err(RoomValidationError::InitialStateContainsRoomCreate),
            Some((i, false)) => r matches Err(
                RoomValidationError::InvalidInitialStateEventContent { event_type },
            ) && event_type@ == initial_state_kind_name(initial_state@[i].event_type@),
        },
{
    let ghost given = initial_state@;
    let mut remaining = initial_state;
    let mut reversed: Vec<RawInitialStateEventDto> = Vec::new();
    while remaining.len() > 0
        invariant
            given == initial_state@,
            remaining@.len() + reversed@.len() == given.len(),
            forall|k: int| 0 <= k < remaining@.len() ==> #[trigger] remaining@[k] == given[k],
            forall|k: int|
                0 <= k < reversed@.len() ==> #[trigger] reversed@[k] == given[given.len() - 1
                    - k],
        decreases remaining.len(),
    {
        let e = remaining.pop().unwrap();
        reversed.push(e);
    }
    let mut validated: Vec<ValidatedInitialStateEventInput> = Vec::new();
    let mut i: usize = 0;
    let total: usize = reversed.len();
    while reversed.len() > 0
        invariant
            given == initial_state@,
            given.len() == total,
            reversed@.len() + i == given.len(),
            validated@.len() == i,
            forall|k: int|
                0 <= k < reversed@.len() ==> #[trigger] reversed@[k] == given[given.len() - 1
                    - k],
            first_initial_state_event_fault(given, 0) == first_initial_state_event_fault(
                given,
                i as int,
            ),
            forall|k: int|
                0 <= k < i ==> state_event_kind_name((#[trigger] validated@[k]).event_type)
                    == initial_state_kind_name(given[k].event_type@) && validated@[k].content@
                    == given[k].content@ && validated@[k].state_key@ == (match given[k].state_key {
                    Some(s) => s@,
                    None => Seq::empty(),
                }),
        decreases reversed.len(),
    {
        let raw = reversed.pop().unwrap();
        assert(raw == given[i as int]);
        let kind = StateEventKind::parse(trim_str(raw.event_type.as_str()));
        if let StateEventKind::RoomCreate = kind {
            return Err(RoomValidationError::InitialStateContainsRoomCreate);
        }
        if !raw.content.is_object() || !state_content_fits(&kind, &raw.content) {
            return Err(
                RoomValidationError::InvalidInitialStateEventContent {
                    event_type: String::from_str(kind.as_str()),
                },
            );
        }
        let state_key = ValidatedStateKey::parse(raw.state_key);
        validated.push(
            ValidatedInitialStateEventInput { event_type: kind, state_key, content: raw.content },
        );
        i = i + 1;
    }
    Ok(validated)
}

/// A legacy create-room request as the client sends it.
#[derive(Debug)]
pub struct CreateRoomRequestDto {
    pub creation_content: Option<CreateRoomCreationContentDto>,
    pub initial_state: Option<Vec<RawInitialStateEventDto>>,
    pub invite: Option<Vec<String>>,
    pub invite_3pid: Option<Vec<InviteThirdPartyDto>>,
    pub is_direct: Option<bool>,
    pub name: Option<String>,
    pub power_level_content_override: Option<RoomPowerLevelsOverrideDto>,
    pub preset: Option<RoomPreset>,
    pub room_alias_name: Option<String>,
    pub room_version: Option<String>,
    pub topic: Option<String>,
    pub visibility: Option<RoomVisibility>,
}

/// A legacy create-room request that passed validation.
#[derive(Debug)]
pub struct CreateRoomCommand {
    pub creation_content: ValidatedCreationContent,
    pub initial_state: Vec<ValidatedInitialStateEventInput>,
    pub invite: Vec<UserIdentifier>,
    pub invite_3pid: Vec<ValidatedThirdPartyInvite>,
    pub is_direct: bool,
    pub name: Option<ValidatedRoomName>,
    pub power_level_content_override: Option<RoomPowerLevelsOverrideDto>,
    pub preset: Option<RoomPreset>,
    pub room_alias_name: Option<ValidatedRoomAliasLocalPart>,
    pub room_version: Option<String>,
    pub topic: Option<ValidatedRoomTopic>,
    pub visibility: Option<RoomVisibility>,
}

/// A create-room request with its creator, every part validated and every
/// default filled in.
#[derive(Debug)]
pub struct ValidatedCreateRoomInput {
    pub creator: UserIdentifier,
    pub creation_content: ValidatedCreationContent,
    pub initial_state: Vec<ValidatedInitialStateEventInput>,
    pub invite: Vec<UserIdentifier>,
    pub invite_3pid: Vec<ValidatedThirdPartyInvite>,
    pub is_direct: bool,
    pub name: Option<ValidatedRoomName>,
    pub topic: Option<ValidatedRoomTopic>,
    pub power_level_content_override: RoomPowerLevelsOverrideDto,
    pub preset: RoomPreset,
    pub room_alias_name: Option<ValidatedRoomAliasLocalPart>,
    pub room_version: RoomVersion,
    pub visibility: RoomVisibility,
}

/// The members of an optional list, or none.
pub open spec fn listed<T>(o: Option<Vec<T>>) -> Seq<T> {
    match o {
        Some(v) => v@,
        None => Seq::empty(),
    }
}

/// The first invitee, from the `i`-th on, that is not a user identifier.
pub open spec fn first_invalid_invitee(invitees: Seq<String>, i: int) -> Option<int>
    decreases invitees.len() - i,
{
    if i < 0 || i >= invitees.len() {
        None
    } else if !is_user_identifier(invitees[i]@) {
        Some(i)
    } else {
        first_invalid_invitee(invitees, i + 1)
    }
}

/// Whether some third-party invite of the list has a blank field.
pub open spec fn some_third_party_blank(invites: Seq<InviteThirdPartyDto>) -> bool {
    exists|i: int|
        0 <= i < invites.len() && third_party_fields_blank(
            #[trigger] invites[i].id_server@,
            invites[i].id_access_token@,
            invites[i].medium@,
            invites[i].address@,
        )
}

/// A validated third-party invite carries the fields of the invite.
pub open spec fn third_party_validated_from(v: ValidatedThirdPartyInvite, d: InviteThirdPartyDto) -> bool {
    v.id_server@ == d.id_server@ && v.id_access_token@ == d.id_access_token@ && v.medium@
        == d.medium@ && v.address@ == d.address@
}

/// Why a legacy `creation_content` is refused, checked in this order: an
/// additional creator that is not a user identifier, an invalid
/// predecessor, a blank room type.
pub open spec fn legacy_creation_content_fault(c: Option<CreateRoomCreationContentDto>) -> Option<
    RoomValidationError,
> {
    match c {
        None => None,
        Some(c) => {
            let creators = match c.additional_creators {
                Some(v) => v@,
                None => Seq::empty(),
            };
            if !all_user_identifiers(creators) {
                Some(RoomValidationError::InvalidCreationContent)
            } else if c.predecessor matches Some(p) && !is_valid_predecessor(
                p.event_id@,
                p.room_id@,
            ) {
                Some(RoomValidationError::InvalidPredecessor)
            } else if c.room_type matches Some(t) && is_blank(t@) {
                Some(RoomValidationError::InvalidCreationContent)
            } else {
                None
            }
        },
    }
}

/// The validated creation content of an accepted legacy request.
pub open spec fn legacy_creation_content_from(
    v: ValidatedCreationContent,
    c: Option<CreateRoomCreationContentDto>,
) -> bool {
    match c {
        None => v.additional_creators@.len() == 0 && v.federate && v.predecessor is None
            && v.room_type is None,
        Some(c) => {
            let creators = match c.additional_creators {
                Some(x) => x@,
                None => Seq::empty(),
            };
            &&& v.additional_creators@.len() == creators.len()
            &&& forall|i: int|
                0 <= i < creators.len() ==> (#[trigger] v.additional_creators@[i])@ == creators[i]@
            &&& v.federate == (match c.federate {
                Some(b) => b,
                None => true,
            })
            &&& v.predecessor == c.predecessor
            &&& v.room_type == c.room_type
        },
    }
}

/// The command an accepted legacy request gives.
pub open spec fn legacy_command_from(c: CreateRoomCommand, value: CreateRoomRequestDto) -> bool {
    let initial = listed(value.initial_state);
    &&& c.invite@.len() == listed(value.invite).len()
    &&& forall|i: int| 0 <= i < c.invite@.len() ==> (#[trigger] c.invite@[i])@ == listed(value.invite)[i]@
    &&& c.invite_3pid@.len() == listed(value.invite_3pid).len()
    &&& forall|i: int|
        0 <= i < c.invite_3pid@.len() ==> third_party_validated_from(
            #[trigger] c.invite_3pid@[i],
            listed(value.invite_3pid)[i],
        )
    &&& c.is_direct == (value.is_direct == Some(true))
    &&& c.power_level_content_override == value.power_level_content_override
    &&& c.preset == value.preset
    &&& c.room_version == value.room_version
    &&& c.visibility == value.visibility
    &&& (match c.room_alias_name {
        Some(a) => value.room_alias_name matches Some(b) && a@ == trim(b@),
        None => value.room_alias_name is None,
    })
    &&& (match c.name {
        Some(a) => value.name matches Some(b) && a@ == trim(b@),
        None => value.name is None,
    })
    &&& (match c.topic {
        Some(a) => value.topic matches Some(b) && a@ == trim(b@),
        None => value.topic is None,
    })
    &&& legacy_creation_content_from(c.creation_content, value.creation_content)
    &&& c.initial_state@.len() == initial.len()
    &&& forall|i: int|
        0 <= i < initial.len() ==> state_event_kind_name((#[trigger] c.initial_state@[i]).event_type)
            == initial_state_kind_name(initial[i].event_type@) && c.initial_state@[i].content@
            == initial[i].content@ && c.initial_state@[i].state_key@ == (match initial[i].state_key {
            Some(k) => k@,
            None => Seq::empty(),
        })
}

impl CreateRoomCommand {
    /// Validates a legacy create-room request, failing at the first
    /// invalid invitee, third-party invite, alias, name, topic, creation
    /// content or initial state event, in that order.
    pub fn try_from_request(value: CreateRoomRequestDto) -> (r: Result<
        CreateRoomCommand,
        RoomValidationError,
    >)
        ensures
            match first_invalid_invitee(listed(value.invite), 0) {
                Some(k) => r matches Err(RoomValidationError::InvalidInviteUserIdentifier { user_id })
                    && user_id@ == listed(value.invite)[k]@,
                None => if some_third_party_blank(listed(value.invite_3pid)) {
                    r matches Err(e) && e is InvalidThirdPartyInvite
                } else if value.room_alias_name matches Some(a) && !is_alias_localpart(trim(a@)) {
                    r matches Err(e) && e is InvalidRoomAlias
                } else if value.name matches Some(n) && trim(n@).len() == 0 {
                    r matches Err(e) && e is InvalidRoomName
                } else if value.topic matches Some(t) && trim(t@).len() == 0 {
                    r matches Err(e) && e is InvalidRoomTopic
                } else if legacy_creation_content_fault(value.creation_content) is Some {
                    r matches Err(e) && Some(e) == legacy_creation_content_fault(
                        value.creation_content,
                    )
                } else {
                    match first_initial_state_event_fault(listed(value.initial_state), 0) {
                        Some((_, true)) => r matches Err(
                            RoomValidationError::InitialStateContainsRoomCreate,
                        ),
                        Some((i, false)) => r matches Err(
                            RoomValidationError::InvalidInitialStateEventContent { event_type },
                        ) && event_type@ == initial_state_kind_name(
                            listed(value.initial_state)[i].event_type@,
                        ),
                        None => r matches Ok(c) && legacy_command_from(c, value),
                    }
                },
            },
    {
        let ghost given = value;
        let ghost invitees = listed(value.invite);
        let invite_values = match value.invite {
            Some(v) => v,
            None => Vec::new(),
        };
        let mut invite: Vec<UserIdentifier> = Vec::new();
        let mut i: usize = 0;
        while i < invite_values.len()
            invariant
                invite_values@ == invitees,
                invitees == listed(given.invite),
                given == value,
                i <= invite_values@.len(),
                invite@.len() == i,
                first_invalid_invitee(invitees, 0) == first_invalid_invitee(invitees, i as int),
                forall|k: int| 0 <= k < i ==> (#[trigger] invite@[k])@ == invite_values@[k]@,
            decreases invite_values.len() - i,
        {
            match UserIdentifier::parse(invite_values[i].as_str()) {
                Some(u) => invite.push(u),
                None => {
                    assert(first_invalid_invitee(invitees, i as int) == Some(i as int));
                    return Err(
                        RoomValidationError::InvalidInviteUserIdentifier {
                            user_id: invite_values[i].clone(),
                        },
                    );
                },
            }
            i = i + 1;
        }
        assert(first_invalid_invitee(listed(given.invite), 0) is None);
        let ghost third_parties = listed(value.invite_3pid);
        let third_party_values = match value.invite_3pid {
            Some(v) => v,
            None => Vec::new(),
        };
        let ghost n = third_parties.len();
        let mut remaining = third_party_values;
        let mut reversed: Vec<ValidatedThirdPartyInvite> = Vec::new();
        while remaining.len() > 0
            invariant
                first_invalid_invitee(listed(given.invite), 0) is None,
                third_parties == listed(given.invite_3pid),
                given == value,
                n == third_parties.len(),
                remaining@.len() + reversed@.len() == n,
                forall|k: int| 0 <= k < remaining@.len() ==> #[trigger] remaining@[k] == third_parties[k],
                forall|j: int|
                    0 <= j < reversed@.len() ==> third_party_validated_from(
                        #[trigger] reversed@[j],
                        third_parties[n - 1 - j],
                    ) && !third_party_fields_blank(
                        third_parties[n - 1 - j].id_server@,
                        third_parties[n - 1 - j].id_access_token@,
                        third_parties[n - 1 - j].medium@,
                        third_parties[n - 1 - j].address@,
                    ),
            decreases remaining.len(),
        {
            let ghost at = remaining@.len() - 1;
            let candidate = remaining.pop().unwrap();
            assert(candidate == third_parties[at]);
            match validate_third_party_invite(candidate) {
                Ok(v) => {
                    assert(third_party_validated_from(v, third_parties[at]));
                    assert(n - 1 - reversed@.len() == at);
                    let ghost before = reversed@;
                    reversed.push(v);
                    assert forall|j: int| 0 <= j < reversed@.len() implies third_party_validated_from(
                        #[trigger] reversed@[j],
                        third_parties[n - 1 - j],
                    ) && !third_party_fields_blank(
                        third_parties[n - 1 - j].id_server@,
                        third_parties[n - 1 - j].id_access_token@,
                        third_parties[n - 1 - j].medium@,
                        third_parties[n - 1 - j].address@,
                    ) by {
                        if j < before.len() {
                            assert(reversed@[j] == before[j]);
                        }
                    }
                },
                Err(e) => {
                    assert(third_party_fields_blank(
                        third_parties[at].id_server@,
                        third_parties[at].id_access_token@,
                        third_parties[at].medium@,
                        third_parties[at].address@,
                    ));
                    assert(some_third_party_blank(third_parties));
                    return Err(e);
                },
            }
        }
        assert(!some_third_party_blank(third_parties)) by {
            assert forall|k: int| 0 <= k < n implies !third_party_fields_blank(
                #[trigger] third_parties[k].id_server@,
                third_parties[k].id_access_token@,
                third_parties[k].medium@,
                third_parties[k].address@,
            ) by {
                let j = n - 1 - k;
                assert(third_party_validated_from(reversed@[j], third_parties[n - 1 - j]));
                assert(third_parties[n - 1 - j] == third_parties[k]);
            }
        }
        let mut invite_3pid: Vec<ValidatedThirdPartyInvite> = Vec::new();
        while reversed.len() > 0
            invariant
                n == third_parties.len(),
                reversed@.len() + invite_3pid@.len() == n,
                forall|j: int|
                    0 <= j < reversed@.len() ==> third_party_validated_from(
                        #[trigger] reversed@[j],
                        third_parties[n - 1 - j],
                    ),
                forall|k: int|
                    0 <= k < invite_3pid@.len() ==> third_party_validated_from(
                        #[trigger] invite_3pid@[k],
                        third_parties[k],
                    ),
            decreases reversed.len(),
        {
            let ghost j = reversed@.len() - 1;
            let v = reversed.pop().unwrap();
            assert(third_party_validated_from(v, third_parties[n - 1 - j]));
            invite_3pid.push(v);
        }
        let room_alias_name = match value.room_alias_name {
            Some(a) => match ValidatedRoomAliasLocalPart::parse(a) {
                Some(v) => Some(v),
                None => return Err(RoomValidationError::InvalidRoomAlias),
            },
            None => None,
        };
        let name = match value.name {
            Some(n) => match ValidatedRoomName::parse(n) {
                Some(v) => Some(v),
                None => return Err(RoomValidationError::InvalidRoomName),
            },
            None => None,
        };
        let topic = match value.topic {
            Some(t) => match ValidatedRoomTopic::parse(t) {
                Some(v) => Some(v),
                None => return Err(RoomValidationError::InvalidRoomTopic),
            },
            None => None,
        };
        let creation_content = match validate_creation_content(
            match value.creation_content {
                Some(c) => c,
                None => CreateRoomCreationContentDto::default(),
            },
        ) {
            Ok(c) => c,
            Err(e) => return Err(e),
        };
        let initial_state = match validate_initial_state(
            match value.initial_state {
                Some(s) => s,
                None => Vec::new(),
            },
        ) {
            Ok(s) => s,
            Err(e) => return Err(e),
        };
        Ok(
            CreateRoomCommand {
                creation_content,
                initial_state,
                invite,
                invite_3pid,
                is_direct: match value.is_direct {
                    Some(b) => b,
                    None => false,
                },
                name,
                power_level_content_override: value.power_level_content_override,
                preset: value.preset,
                room_alias_name,
                room_version: value.room_version,
                topic,
                visibility: value.visibility,
            },
        )
    }
}

} // verus!
