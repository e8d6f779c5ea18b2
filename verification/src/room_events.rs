//! Room events as the room queries return them, and the rules that read,
//! filter and check them.
use vstd::prelude::*;

use crate::errors::RoomsApplicationError;
use crate::json::{entries_insert, json_as_str, json_get, Json, JsonValue};
use crate::room_access::DomainError;
use crate::text::{contains_seq, contains_str, str_eq, trim, trim_str};

verus! {

/// The kinds of state event the server knows by name; any other type is a
/// custom one.
#[derive(Debug, PartialEq, Eq)]
pub enum StateEventKind {
    RoomCreate,
    RoomMember,
    RoomPowerLevels,
    RoomJoinRules,
    RoomHistoryVisibility,
    RoomGuestAccess,
    RoomCanonicalAlias,
    RoomName,
    RoomTopic,
    ThirdPartyInvite,
    Custom(String),
}

/// The kind that an event type names.
pub open spec fn state_event_kind_named(name: Seq<char>) -> Option<StateEventKind> {
    if name == "m.room.create"@ {
        Some(StateEventKind::RoomCreate)
    } else if name == "m.room.member"@ {
        Some(StateEventKind::RoomMember)
    } else if name == "m.room.power_levels"@ {
        Some(StateEventKind::RoomPowerLevels)
    } else if name == "m.room.join_rules"@ {
        Some(StateEventKind::RoomJoinRules)
    } else if name == "m.room.history_visibility"@ {
        Some(StateEventKind::RoomHistoryVisibility)
    } else if name == "m.room.guest_access"@ {
        Some(StateEventKind::RoomGuestAccess)
    } else if name == "m.room.canonical_alias"@ {
        Some(StateEventKind::RoomCanonicalAlias)
    } else if name == "m.room.name"@ {
        Some(StateEventKind::RoomName)
    } else if name == "m.room.topic"@ {
        Some(StateEventKind::RoomTopic)
    } else if name == "m.room.third_party_invite"@ {
        Some(StateEventKind::ThirdPartyInvite)
    } else {
        None
    }
}

impl StateEventKind {
    /// The kind of an event type: a known one, or a custom kind.
    pub fn parse(value: &str) -> (r: StateEventKind)
        ensures
            match state_event_kind_named(value@) {
                Some(k) => r == k,
                None => r matches StateEventKind::Custom(s) && s@ == value@,
            },
    {
        if str_eq(value, "m.room.create") {
            StateEventKind::RoomCreate
        } else if str_eq(value, "m.room.member") {
            StateEventKind::RoomMember
        } else if str_eq(value, "m.room.power_levels") {
            StateEventKind::RoomPowerLevels
        } else if str_eq(value, "m.room.join_rules") {
            StateEventKind::RoomJoinRules
        } else if str_eq(value, "m.room.history_visibility") {
            StateEventKind::RoomHistoryVisibility
        } else if str_eq(value, "m.room.guest_access") {
            StateEventKind::RoomGuestAccess
        } else if str_eq(value, "m.room.canonical_alias") {
            StateEventKind::RoomCanonicalAlias
        } else if str_eq(value, "m.room.name") {
            StateEventKind::RoomName
        } else if str_eq(value, "m.room.topic") {
            StateEventKind::RoomTopic
        } else if str_eq(value, "m.room.third_party_invite") {
            StateEventKind::ThirdPartyInvite
        } else {
            StateEventKind::Custom(String::from_str(value))
        }
    }
}

/// The event type a kind stands for.
pub open spec fn state_event_kind_name(k: StateEventKind) -> Seq<char> {
    match k {
        StateEventKind::RoomCreate => "m.room.create"@,
        StateEventKind::RoomMember => "m.room.member"@,
        StateEventKind::RoomPowerLevels => "m.room.power_levels"@,
        StateEventKind::RoomJoinRules => "m.room.join_rules"@,
        StateEventKind::RoomHistoryVisibility => "m.room.history_visibility"@,
        StateEventKind::RoomGuestAccess => "m.room.guest_access"@,
        StateEventKind::RoomCanonicalAlias => "m.room.canonical_alias"@,
        StateEventKind::RoomName => "m.room.name"@,
        StateEventKind::RoomTopic => "m.room.topic"@,
        StateEventKind::ThirdPartyInvite => "m.room.third_party_invite"@,
        StateEventKind::Custom(s) => s@,
    }
}

impl StateEventKind {
    /// The event type of the kind.
    pub fn as_str(&self) -> (r: &str)
        ensures
            r@ == state_event_kind_name(*self),
    {
        match self {
            StateEventKind::RoomCreate => "m.room.create",
            StateEventKind::RoomMember => "m.room.member",
            StateEventKind::RoomPowerLevels => "m.room.power_levels",
            StateEventKind::RoomJoinRules => "m.room.join_rules",
            StateEventKind::RoomHistoryVisibility => "m.room.history_visibility",
            StateEventKind::RoomGuestAccess => "m.room.guest_access",
            StateEventKind::RoomCanonicalAlias => "m.room.canonical_alias",
            StateEventKind::RoomName => "m.room.name",
            StateEventKind::RoomTopic => "m.room.topic",
            StateEventKind::ThirdPartyInvite => "m.room.third_party_invite",
            StateEventKind::Custom(s) => s.as_str(),
        }
    }
}

/// A state event of a room.
#[derive(Debug)]
pub struct RoomStateEvent {
    pub content: JsonValue,
    pub event_id: String,
    pub origin_server_ts: i64,
    pub room_id: String,
    pub sender: String,
    pub state_key: String,
    pub event_type: String,
    pub unsigned: Option<JsonValue>,
}

/// What a state event holds.
pub struct StateEventView {
    pub content: Json,
    pub event_id: Seq<char>,
    pub origin_server_ts: int,
    pub room_id: Seq<char>,
    pub sender: Seq<char>,
    pub state_key: Seq<char>,
    pub event_type: Seq<char>,
    pub unsigned: Option<Json>,
}

pub open spec fn opt_json_view(o: Option<JsonValue>) -> Option<Json> {
    match o {
        Some(v) => Some(v@),
        None => None,
    }
}

impl View for RoomStateEvent {
    type V = StateEventView;

    open spec fn view(&self) -> StateEventView {
        StateEventView {
            content: self.content@,
            event_id: self.event_id@,
            origin_server_ts: self.origin_server_ts as int,
            room_id: self.room_id@,
            sender: self.sender@,
            state_key: self.state_key@,
            event_type: self.event_type@,
            unsigned: opt_json_view(self.unsigned),
        }
    }
}

fn clone_opt_json(o: &Option<JsonValue>) -> (r: Option<JsonValue>)
    ensures
        opt_json_view(r) == opt_json_view(*o),
{
    match o {
        Some(v) => Some(v.deep_clone()),
        None => None,
    }
}

impl Clone for RoomStateEvent {
    fn clone(&self) -> (r: Self)
        ensures
            r@ == self@,
    {
        RoomStateEvent {
            content: self.content.deep_clone(),
            event_id: self.event_id.clone(),
            origin_server_ts: self.origin_server_ts,
            room_id: self.room_id.clone(),
            sender: self.sender.clone(),
            state_key: self.state_key.clone(),
            event_type: self.event_type.clone(),
            unsigned: clone_opt_json(&self.unsigned),
        }
    }
}

/// An event of a room's timeline, at its place in the room's stream.
#[derive(Debug)]
pub struct RoomTimelineEvent {
    pub content: JsonValue,
    pub event_id: String,
    pub origin_server_ts: i64,
    pub room_id: String,
    pub sender: String,
    pub state_key: Option<String>,
    pub event_type: String,
    pub unsigned: Option<JsonValue>,
    pub stream_position: i64,
}

/// The string member `field` of an optional JSON value.
pub open spec fn string_field(value: Option<Json>, field: Seq<char>) -> Option<Seq<char>> {
    match value {
        Some(v) => match json_get(v, field) {
            Some(m) => json_as_str(m),
            None => None,
        },
        None => None,
    }
}

/// The string member `field` of an optional JSON value.
pub fn json_string_field(value: Option<&JsonValue>, field: &str) -> (r: Option<String>)
    ensures
        match r {
            Some(s) => string_field(
                match value {
                    Some(v) => Some(v@),
                    None => None,
                },
                field@,
            ) == Some(s@),
            None => string_field(
                match value {
                    Some(v) => Some(v@),
                    None => None,
                },
                field@,
            ) is None,
        },
{
    match value {
        Some(v) => match v.get(field) {
            Some(m) => match m.as_str() {
                Some(s) => Some(String::from_str(s)),
                None => None,
            },
            None => None,
        },
        None => None,
    }
}

/// The `history_visibility` that a timeline event sets, if it sets one.
pub fn history_visibility_from_timeline_event(event: &RoomTimelineEvent) -> (r: Option<String>)
    ensures
        match r {
            Some(s) => string_field(Some(event.content@), "history_visibility"@) == Some(s@),
            None => string_field(Some(event.content@), "history_visibility"@) is None,
        },
{
    json_string_field(Some(&event.content), "history_visibility")
}

/// The `membership` that a timeline event sets, if it sets one.
pub fn room_membership_from_timeline_event(event: &RoomTimelineEvent) -> (r: Option<String>)
    ensures
        match r {
            Some(s) => string_field(Some(event.content@), "membership"@) == Some(s@),
            None => string_field(Some(event.content@), "membership"@) is None,
        },
{
    json_string_field(Some(&event.content), "membership")
}

/// The first state event of `event_type` with the empty state key.
pub open spec fn first_state_content_index(
    events: Seq<RoomStateEvent>,
    event_type: Seq<char>,
    i: int,
) -> Option<int>
    decreases events.len() - i,
{
    if i < 0 || i >= events.len() {
        None
    } else if events[i].event_type@ == event_type && events[i].state_key@.len() == 0 {
        Some(i)
    } else {
        first_state_content_index(events, event_type, i + 1)
    }
}

/// The content of the room's `event_type` state, the one with the empty
/// state key.
pub fn room_state_content<'a>(state_events: &'a Vec<RoomStateEvent>, event_type: &str) -> (r:
    Option<&'a JsonValue>)
    ensures
        match first_state_content_index(state_events@, event_type@, 0) {
            Some(i) => r matches Some(c) && c@ == state_events@[i].content@,
            None => r is None,
        },
{
    let mut i: usize = 0;
    while i < state_events.len()
        invariant
            i <= state_events@.len(),
            first_state_content_index(state_events@, event_type@, 0) == first_state_content_index(
                state_events@,
                event_type@,
                i as int,
            ),
        decreases state_events.len() - i,
    {
        if str_eq(state_events[i].event_type.as_str(), event_type)
            && state_events[i].state_key.unicode_len() == 0 {
            return Some(&state_events[i].content);
        }
        i = i + 1;
    }
    None
}

/// The membership states a member listing can be filtered by.
#[derive(Clone, Copy, Debug, PartialEq, Eq, Structural)]
pub enum RoomMembershipFilter {
    Join,
    Invite,
    Leave,
    Ban,
    Knock,
}

/// The membership filter that a name stands for.
pub open spec fn membership_filter_named(name: Seq<char>) -> Option<RoomMembershipFilter> {
    if name == "join"@ {
        Some(RoomMembershipFilter::Join)
    } else if name == "invite"@ {
        Some(RoomMembershipFilter::Invite)
    } else if name == "leave"@ {
        Some(RoomMembershipFilter::Leave)
    } else if name == "ban"@ {
        Some(RoomMembershipFilter::Ban)
    } else if name == "knock"@ {
        Some(RoomMembershipFilter::Knock)
    } else {
        None
    }
}

impl RoomMembershipFilter {
    pub fn parse(value: &str) -> (r: Option<RoomMembershipFilter>)
        ensures
            r == membership_filter_named(value@),
    {
        if str_eq(value, "join") {
            Some(RoomMembershipFilter::Join)
        } else if str_eq(value, "invite") {
            Some(RoomMembershipFilter::Invite)
        } else if str_eq(value, "leave") {
            Some(RoomMembershipFilter::Leave)
        } else if str_eq(value, "ban") {
            Some(RoomMembershipFilter::Ban)
        } else if str_eq(value, "knock") {
            Some(RoomMembershipFilter::Knock)
        } else {
            None
        }
    }
}

/// The membership a member state event sets.
pub open spec fn event_membership(e: StateEventView) -> Option<RoomMembershipFilter> {
    match string_field(Some(e.content), "membership"@) {
        Some(m) => membership_filter_named(m),
        None => None,
    }
}

/// Whether a member listing keeps an event: a membership event whose
/// membership is the one asked for (if any) and not the one excluded (if
/// any).
pub open spec fn member_event_kept(
    e: StateEventView,
    membership: Option<RoomMembershipFilter>,
    not_membership: Option<RoomMembershipFilter>,
) -> bool {
    &&& e.event_type == "m.room.member"@
    &&& match event_membership(e) {
        Some(m) => (membership matches Some(x) ==> m == x) && (not_membership matches Some(y) ==> m
            != y),
        None => false,
    }
}

/// The events a member listing keeps, in order.
pub open spec fn kept_member_events(
    events: Seq<StateEventView>,
    membership: Option<RoomMembershipFilter>,
    not_membership: Option<RoomMembershipFilter>,
) -> Seq<StateEventView>
    decreases events.len(),
{
    if events.len() == 0 {
        Seq::empty()
    } else {
        let rest = kept_member_events(events.drop_last(), membership, not_membership);
        if member_event_kept(events.last(), membership, not_membership) {
            rest.push(events.last())
        } else {
            rest
        }
    }
}

pub open spec fn state_events_view(s: Seq<RoomStateEvent>) -> Seq<StateEventView> {
    Seq::new(s.len(), |i: int| s[i]@)
}

/// A page of room members.
#[derive(Debug)]
pub struct RoomMembersChunk {
    pub chunk: Vec<RoomStateEvent>,
}

/// The member events of a room's state, filtered by membership.
pub fn filter_member_events(
    events: &Vec<RoomStateEvent>,
    membership: Option<RoomMembershipFilter>,
    not_membership: Option<RoomMembershipFilter>,
) -> (r: RoomMembersChunk)
    ensures
        state_events_view(r.chunk@) == kept_member_events(
            state_events_view(events@),
            membership,
            not_membership,
        ),
{
    let mut chunk: Vec<RoomStateEvent> = Vec::new();
    let mut i: usize = 0;
    assert(state_events_view(events@).subrange(0, 0) =~= Seq::<StateEventView>::empty());
    assert(state_events_view(chunk@) =~= Seq::<StateEventView>::empty());
    while i < events.len()
        invariant
            i <= events@.len(),
            state_events_view(chunk@) == kept_member_events(
                state_events_view(events@).subrange(0, i as int),
                membership,
                not_membership,
            ),
        decreases events.len() - i,
    {
        let event = &events[i];
        let ghost ev = event@;
        let ghost prefix = state_events_view(events@).subrange(0, i as int + 1);
        assert(prefix.drop_last() =~= state_events_view(events@).subrange(0, i as int));
        assert(prefix.last() == ev);
        let keep = if str_eq(event.event_type.as_str(), "m.room.member") {
            match json_string_field(Some(&event.content), "membership") {
                Some(m) => match RoomMembershipFilter::parse(m.as_str()) {
                    Some(found) => {
                        let wanted = match membership {
                            Some(x) => found == x,
                            None => true,
                        };
                        let unwanted = match not_membership {
                            Some(y) => found == y,
                            None => false,
                        };
                        wanted && !unwanted
                    },
                    None => false,
                },
                None => false,
            }
        } else {
            false
        };
        assert(keep == member_event_kept(ev, membership, not_membership));
        if keep {
            let ghost before = state_events_view(chunk@);
            chunk.push(event.clone());
            assert(state_events_view(chunk@) =~= before.push(ev));
        }
        i = i + 1;
    }
    assert(state_events_view(events@).subrange(0, i as int) =~= state_events_view(events@));
    RoomMembersChunk { chunk }
}

/// The `format` query of a state lookup.
#[derive(Debug)]
pub struct GetRoomStateWithKeyFormatQuery {
    pub format: Option<String>,
}

impl GetRoomStateWithKeyFormatQuery {
    /// Whether the whole event is asked for (`event`) rather than its
    /// content (`content`, the default); any other format is refused.
    pub fn request_full_event(&self) -> (r: Result<bool, RoomsApplicationError>)
        ensures
            match self.format {
                None => r == Ok::<bool, RoomsApplicationError>(false),
                Some(f) => if f@ == "content"@ {
                    r == Ok::<bool, RoomsApplicationError>(false)
                } else if f@ == "event"@ {
                    r == Ok::<bool, RoomsApplicationError>(true)
                } else {
                    r == Err::<bool, _>(RoomsApplicationError::InvalidParameter)
                },
            },
    {
        match &self.format {
            None => Ok(false),
            Some(f) => if str_eq(f.as_str(), "content") {
                Ok(false)
            } else if str_eq(f.as_str(), "event") {
                Ok(true)
            } else {
                Err(RoomsApplicationError::InvalidParameter)
            },
        }
    }
}

/// The JSON object of a state event: `content`, `event_id`,
/// `origin_server_ts`, `room_id`, `sender`, `state_key`, `type`, and
/// `unsigned` when there is one.
pub open spec fn state_event_json(e: StateEventView) -> Json {
    let base = seq![
        ("content"@, e.content),
        ("event_id"@, Json::Str(e.event_id)),
        ("origin_server_ts"@, Json::Number(e.origin_server_ts)),
        ("room_id"@, Json::Str(e.room_id)),
        ("sender"@, Json::Str(e.sender)),
        ("state_key"@, Json::Str(e.state_key)),
        ("type"@, Json::Str(e.event_type)),
    ];
    Json::Object(
        match e.unsigned {
            Some(u) => base.push(("unsigned"@, u)),
            None => base,
        },
    )
}

/// A state event as a JSON object.
pub fn room_state_event_to_value(view: RoomStateEvent) -> (r: JsonValue)
    ensures
        r@ == state_event_json(view@),
{
    let ghost v = view@;
    let mut entries: Vec<(String, JsonValue)> = Vec::new();
    entries.push((String::from_str("content"), view.content));
    entries.push((String::from_str("event_id"), JsonValue::Str(view.event_id)));
    entries.push((String::from_str("origin_server_ts"), JsonValue::Int(view.origin_server_ts)));
    entries.push((String::from_str("room_id"), JsonValue::Str(view.room_id)));
    entries.push((String::from_str("sender"), JsonValue::Str(view.sender)));
    entries.push((String::from_str("state_key"), JsonValue::Str(view.state_key)));
    entries.push((String::from_str("type"), JsonValue::Str(view.event_type)));
    match view.unsigned {
        Some(u) => entries.push((String::from_str("unsigned"), u)),
        None => {},
    }
    let r = crate::creation_plan::object_of(entries);
    assert(crate::json::entries_view(entries@) =~= state_event_json(v)->Object_0);
    r
}

/// How a failed room write is answered: a taken alias is `RoomInUse`,
/// anything else an internal error.
pub open spec fn room_persistence_error(error: DomainError) -> RoomsApplicationError {
    match error {
        DomainError::AlreadyExists => RoomsApplicationError::RoomInUse,
        DomainError::InvalidRequest(reason) => if contains_seq(reason@, "room_aliases"@)
            || contains_seq(reason@, "alias_localpart"@) {
            RoomsApplicationError::RoomInUse
        } else {
            RoomsApplicationError::Internal
        },
        _ => RoomsApplicationError::Internal,
    }
}

pub fn map_room_persistence_error(error: DomainError, room_id: &str) -> (r: RoomsApplicationError)
    ensures
        r == room_persistence_error(error),
{
    match error {
        DomainError::AlreadyExists => RoomsApplicationError::RoomInUse,
        DomainError::InvalidRequest(reason) => {
            if contains_str(reason.as_str(), "room_aliases") || contains_str(
                reason.as_str(),
                "alias_localpart",
            ) {
                RoomsApplicationError::RoomInUse
            } else {
                RoomsApplicationError::Internal
            }
        },
        DomainError::NotFound | DomainError::InvalidCredentials => RoomsApplicationError::Internal,
    }
}

/// How a failed receipt write is answered: an unknown target is an invalid
/// parameter, anything else an internal error.
pub fn map_receipt_persistence_error(error: DomainError) -> (r: RoomsApplicationError)
    ensures
        r == (match error {
            DomainError::NotFound => RoomsApplicationError::InvalidParameter,
            _ => RoomsApplicationError::Internal,
        }),
{
    match error {
        DomainError::NotFound => RoomsApplicationError::InvalidParameter,
        _ => RoomsApplicationError::Internal,
    }
}


/// The relation an event's content declares under `m.relates_to`: its
/// `rel_type` and the related `event_id`, both strings, trimmed, and
/// neither blank; anything else declares none.
pub open spec fn event_relation(content: Json) -> Option<(Seq<char>, Seq<char>)> {
    match json_get(content, "m.relates_to"@) {
        Some(relation) => match (json_get(relation, "rel_type"@), json_get(relation, "event_id"@)) {
            (Some(Json::Str(t)), Some(Json::Str(e))) => if trim(t).len() > 0 && trim(e).len() > 0 {
                Some((trim(t), trim(e)))
            } else {
                None
            },
            _ => None,
        },
        None => None,
    }
}

/// The relation an event's content declares: its type (`m.thread` for an
/// event in a thread) and the event it relates to.
pub fn extract_event_relation(content: &JsonValue) -> (r: Option<(String, String)>)
    ensures
        match r {
            Some((t, e)) => event_relation(content@) == Some((t@, e@)),
            None => event_relation(content@) is None,
        },
{
    let relation = match content.get("m.relates_to") {
        Some(v) => v,
        None => return None,
    };
    let relation_type = match relation.get("rel_type") {
        Some(JsonValue::Str(t)) => trim_str(t.as_str()),
        _ => return None,
    };
    let related_event_id = match relation.get("event_id") {
        Some(JsonValue::Str(e)) => trim_str(e.as_str()),
        _ => return None,
    };
    if relation_type.unicode_len() == 0 || related_event_id.unicode_len() == 0 {
        return None;
    }
    Some((String::from_str(relation_type), String::from_str(related_event_id)))
}

} // verus!
