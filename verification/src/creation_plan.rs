//! The ordered list of state events that a new room starts with.
use vstd::prelude::*;

use crate::create_room::{
    InviteThirdPartyIdentifierInfo, RoomPowerLevelNotifications, RoomPowerLevelsContentOverride,
    RoomPreset, RoomStateEventInfo,
};
use crate::identifiers::{parse_room_identifier, RoomIdentifier, UserIdentifier};
use crate::versions::{version_name, RoomVersion};
use crate::json::{entries_insert, entries_view, json_get, Json, JsonValue};
use crate::text::{is_blank, is_blank_str, split_once, split_once_char, str_eq};

verus! {

/// One state event of a room creation plan, in its place `ordering`.
#[derive(Debug)]
pub struct CreateRoomStateEventPayload {
    pub content: JsonValue,
    pub event_type: String,
    pub ordering: i32,
    pub state_key: String,
}

/// What a planned state event holds.
pub struct PayloadView {
    pub content: Json,
    pub event_type: Seq<char>,
    pub ordering: int,
    pub state_key: Seq<char>,
}

impl View for CreateRoomStateEventPayload {
    type V = PayloadView;

    open spec fn view(&self) -> PayloadView {
        PayloadView {
            content: self.content@,
            event_type: self.event_type@,
            ordering: self.ordering as int,
            state_key: self.state_key@,
        }
    }
}

impl Clone for CreateRoomStateEventPayload {
    fn clone(&self) -> (r: Self)
        ensures
            r@ == self@,
    {
        CreateRoomStateEventPayload {
            content: self.content.deep_clone(),
            event_type: self.event_type.clone(),
            ordering: self.ordering,
            state_key: self.state_key.clone(),
        }
    }
}

/// The views of a list of planned events.
pub open spec fn payloads_view(s: Seq<CreateRoomStateEventPayload>) -> Seq<PayloadView> {
    Seq::new(s.len(), |i: int| s[i]@)
}

/// Two events set the same piece of room state: same type, same state key.
pub open spec fn same_state_slot(a: PayloadView, b: PayloadView) -> bool {
    a.event_type == b.event_type && a.state_key == b.state_key
}

/// A later event of `s` sets the same state as `s[i]`.
pub open spec fn slot_taken_later(s: Seq<PayloadView>, i: int) -> bool {
    exists|j: int| i < j < s.len() && #[trigger] same_state_slot(s[j], s[i])
}

/// The events of `s` from `i` on that no later event overrides, in order.
pub open spec fn collapsed_from(s: Seq<PayloadView>, i: int) -> Seq<PayloadView>
    decreases s.len() - i,
{
    if 0 <= i < s.len() {
        (if slot_taken_later(s, i) {
            Seq::empty()
        } else {
            seq![s[i]]
        }) + collapsed_from(s, i + 1)
    } else {
        Seq::empty()
    }
}

/// `s` with every event dropped that a later event of the same type and
/// state key overrides: the last write wins, and the survivors keep their
/// order.
pub open spec fn collapse_state_events(s: Seq<PayloadView>) -> Seq<PayloadView> {
    collapsed_from(s, 0)
}

/// Decides `slot_taken_later`.
fn is_slot_taken_later(events: &Vec<CreateRoomStateEventPayload>, i: usize) -> (r: bool)
    requires
        i < events@.len(),
    ensures
        r == slot_taken_later(payloads_view(events@), i as int),
{
    let ghost pv = payloads_view(events@);
    let n = events.len();
    let mut j: usize = i + 1;
    while j < events.len()
        invariant
            i < j <= events@.len(),
            pv == payloads_view(events@),
            forall|k: int| i < k < j ==> !#[trigger] same_state_slot(pv[k], pv[i as int]),
        decreases events.len() - j,
    {
        if str_eq(events[j].event_type.as_str(), events[i].event_type.as_str()) && str_eq(
            events[j].state_key.as_str(),
            events[i].state_key.as_str(),
        ) {
            assert(same_state_slot(pv[j as int], pv[i as int]));
            return true;
        }
        j = j + 1;
    }
    false
}

/// Drops each event that a later event of the same type and state key
/// overrides.
pub fn collapse_duplicate_state_events(events: Vec<CreateRoomStateEventPayload>) -> (r: Vec<
    CreateRoomStateEventPayload,
>)
    ensures
        payloads_view(r@) == collapse_state_events(payloads_view(events@)),
{
    let ghost pv = payloads_view(events@);
    let mut out: Vec<CreateRoomStateEventPayload> = Vec::new();
    let mut i: usize = 0;
    assert(payloads_view(out@) =~= Seq::<PayloadView>::empty());
    while i < events.len()
        invariant
            i <= events@.len(),
            pv == payloads_view(events@),
            payloads_view(out@) + collapsed_from(pv, i as int) == collapsed_from(pv, 0),
        decreases events.len() - i,
    {
        let ghost before = payloads_view(out@);
        let ghost rest = collapsed_from(pv, i as int + 1);
        if is_slot_taken_later(&events, i) {
            assert(collapsed_from(pv, i as int) =~= rest);
        } else {
            out.push(events[i].clone());
            assert(payloads_view(out@) =~= before + seq![pv[i as int]]);
            assert(collapsed_from(pv, i as int) =~= seq![pv[i as int]] + rest);
            assert(payloads_view(out@) + rest =~= before + (seq![pv[i as int]] + rest));
        }
        i = i + 1;
    }
    assert(collapsed_from(pv, i as int) =~= Seq::<PayloadView>::empty());
    assert(payloads_view(out@) =~= collapse_state_events(pv));
    out
}

/// Why a room could not be planned.
#[derive(Debug)]
pub enum RoomCreateContractError {
    InvalidHomeServerName { home_server_name: String },
    UnsupportedRoomVersion { room_version: String },
    InvalidGeneratedRoomIdentifier { room_id: String },
    InvalidRoomAlias,
    InvalidInviteUserIdentifier,
    InvalidInviteThirdPartyIdentifier,
    InvalidCreationContent,
    InvalidPowerLevelContentOverride,
    InvalidRoomCreateContent { reason: String },
    InvalidRoomStateEventType,
    EmptyRoomCreationEventPlan,
    InvalidRoomCreationEventOrder { expected: &'static str, received: String },
    RoomDomainAndCreatorDomainMismatch { room_domain: String, creator_domain: String },
    InvalidRoomStateEventContentType { event_type: String },
    InitialStateContainsRoomCreateEvent,
    InvalidRoomIdentifier { room_id: String, expected: &'static str },
}

/// What a `RoomCreateContractError` says.
pub enum ContractErrorView {
    InvalidHomeServerName { home_server_name: Seq<char> },
    UnsupportedRoomVersion { room_version: Seq<char> },
    InvalidGeneratedRoomIdentifier { room_id: Seq<char> },
    InvalidRoomAlias,
    InvalidInviteUserIdentifier,
    InvalidInviteThirdPartyIdentifier,
    InvalidCreationContent,
    InvalidPowerLevelContentOverride,
    InvalidRoomCreateContent { reason: Seq<char> },
    InvalidRoomStateEventType,
    EmptyRoomCreationEventPlan,
    InvalidRoomCreationEventOrder { expected: Seq<char>, received: Seq<char> },
    RoomDomainAndCreatorDomainMismatch { room_domain: Seq<char>, creator_domain: Seq<char> },
    InvalidRoomStateEventContentType { event_type: Seq<char> },
    InitialStateContainsRoomCreateEvent,
    InvalidRoomIdentifier { room_id: Seq<char>, expected: Seq<char> },
}

impl View for RoomCreateContractError {
    type V = ContractErrorView;

    open spec fn view(&self) -> ContractErrorView {
        match self {
            RoomCreateContractError::InvalidHomeServerName { home_server_name } =>
                ContractErrorView::InvalidHomeServerName { home_server_name: home_server_name@ },
            RoomCreateContractError::UnsupportedRoomVersion { room_version } =>
                ContractErrorView::UnsupportedRoomVersion { room_version: room_version@ },
            RoomCreateContractError::InvalidGeneratedRoomIdentifier { room_id } =>
                ContractErrorView::InvalidGeneratedRoomIdentifier { room_id: room_id@ },
            RoomCreateContractError::InvalidRoomAlias => ContractErrorView::InvalidRoomAlias,
            RoomCreateContractError::InvalidInviteUserIdentifier =>
                ContractErrorView::InvalidInviteUserIdentifier,
            RoomCreateContractError::InvalidInviteThirdPartyIdentifier =>
                ContractErrorView::InvalidInviteThirdPartyIdentifier,
            RoomCreateContractError::InvalidCreationContent =>
                ContractErrorView::InvalidCreationContent,
            RoomCreateContractError::InvalidPowerLevelContentOverride =>
                ContractErrorView::InvalidPowerLevelContentOverride,
            RoomCreateContractError::InvalidRoomCreateContent { reason } =>
                ContractErrorView::InvalidRoomCreateContent { reason: reason@ },
            RoomCreateContractError::InvalidRoomStateEventType =>
                ContractErrorView::InvalidRoomStateEventType,
            RoomCreateContractError::EmptyRoomCreationEventPlan =>
                ContractErrorView::EmptyRoomCreationEventPlan,
            RoomCreateContractError::InvalidRoomCreationEventOrder { expected, received } =>
                ContractErrorView::InvalidRoomCreationEventOrder {
                expected: expected@,
                received: received@,
            },
            RoomCreateContractError::RoomDomainAndCreatorDomainMismatch {
                room_domain,
                creator_domain,
            } => ContractErrorView::RoomDomainAndCreatorDomainMismatch {
                room_domain: room_domain@,
                creator_domain: creator_domain@,
            },
            RoomCreateContractError::InvalidRoomStateEventContentType { event_type } =>
                ContractErrorView::InvalidRoomStateEventContentType { event_type: event_type@ },
            RoomCreateContractError::InitialStateContainsRoomCreateEvent =>
                ContractErrorView::InitialStateContainsRoomCreateEvent,
            RoomCreateContractError::InvalidRoomIdentifier { room_id, expected } =>
                ContractErrorView::InvalidRoomIdentifier {
                room_id: room_id@,
                expected: expected@,
            },
        }
    }
}

/// The first fault of a planned event list, or none: it must begin with
/// the create event, the creator's membership and the power levels, and the
/// room must live on the creator's server.
pub open spec fn creation_order_fault(
    p: Seq<PayloadView>,
    room_id: Seq<char>,
    creator_user_id: Seq<char>,
) -> Option<ContractErrorView> {
    if p.len() == 0 {
        Some(ContractErrorView::EmptyRoomCreationEventPlan)
    } else if p[0].event_type != "m.room.create"@ {
        Some(
            ContractErrorView::InvalidRoomCreationEventOrder {
                expected: "m.room.create"@,
                received: p[0].event_type,
            },
        )
    } else if p.len() < 2 {
        Some(
            ContractErrorView::InvalidRoomCreationEventOrder {
                expected: "m.room.member"@,
                received: "missing"@,
            },
        )
    } else if p[1].event_type != "m.room.member"@ || p[1].state_key != creator_user_id {
        Some(
            ContractErrorView::InvalidRoomCreationEventOrder {
                expected: "creator m.room.member"@,
                received: p[1].event_type + seq![':'] + p[1].state_key,
            },
        )
    } else if p.len() < 3 {
        Some(
            ContractErrorView::InvalidRoomCreationEventOrder {
                expected: "m.room.power_levels"@,
                received: "missing"@,
            },
        )
    } else if p[2].event_type != "m.room.power_levels"@ {
        Some(
            ContractErrorView::InvalidRoomCreationEventOrder {
                expected: "m.room.power_levels"@,
                received: p[2].event_type,
            },
        )
    } else {
        match parse_room_identifier(room_id) {
            Some(v) => match v.server_name {
                Some(room_domain) => match split_once(creator_user_id, ':') {
                    Some((_, creator_domain)) => if room_domain != creator_domain {
                        Some(
                            ContractErrorView::RoomDomainAndCreatorDomainMismatch {
                                room_domain,
                                creator_domain,
                            },
                        )
                    } else {
                        None
                    },
                    None => Some(ContractErrorView::InvalidInviteUserIdentifier),
                },
                None => Some(ContractErrorView::InvalidGeneratedRoomIdentifier { room_id }),
            },
            None => Some(ContractErrorView::InvalidGeneratedRoomIdentifier { room_id }),
        }
    }
}

fn order_error(expected: &'static str, received: String) -> (r: RoomCreateContractError)
    ensures
        r@ == (ContractErrorView::InvalidRoomCreationEventOrder {
            expected: expected@,
            received: received@,
        }),
{
    RoomCreateContractError::InvalidRoomCreationEventOrder { expected, received }
}

/// Checks that a plan begins with the create event, the creator's join and
/// the power levels, and that the room and the creator share a server.
pub fn validate_room_creation_event_order(
    planned_events: &Vec<CreateRoomStateEventPayload>,
    room_id: &str,
    creator_user_id: &str,
) -> (r: Result<(), RoomCreateContractError>)
    ensures
        r is Ok <==> creation_order_fault(payloads_view(planned_events@), room_id@, creator_user_id@)
            is None,
        r matches Err(e) ==> creation_order_fault(
            payloads_view(planned_events@),
            room_id@,
            creator_user_id@,
        ) == Some(e@),
{
    let ghost pv = payloads_view(planned_events@);
    if planned_events.len() == 0 {
        return Err(RoomCreateContractError::EmptyRoomCreationEventPlan);
    }
    let first = &planned_events[0];
    assert(pv[0] == first@);
    if !str_eq(first.event_type.as_str(), "m.room.create") {
        return Err(order_error("m.room.create", first.event_type.clone()));
    }
    if planned_events.len() < 2 {
        return Err(order_error("m.room.member", String::from_str("missing")));
    }
    let second = &planned_events[1];
    assert(pv[1] == second@);
    if !str_eq(second.event_type.as_str(), "m.room.member") || !str_eq(
        second.state_key.as_str(),
        creator_user_id,
    ) {
        let received = second.event_type.clone().concat(":").concat(second.state_key.as_str());
        proof {
            reveal_strlit(":");
            assert(received@ =~= second.event_type@ + seq![':'] + second.state_key@);
        }
        return Err(order_error("creator m.room.member", received));
    }
    if planned_events.len() < 3 {
        return Err(order_error("m.room.power_levels", String::from_str("missing")));
    }
    let third = &planned_events[2];
    assert(pv[2] == third@);
    if !str_eq(third.event_type.as_str(), "m.room.power_levels") {
        return Err(order_error("m.room.power_levels", third.event_type.clone()));
    }
    let room_identifier = match RoomIdentifier::parse(room_id) {
        Some(id) => id,
        None => {
            return Err(
                RoomCreateContractError::InvalidGeneratedRoomIdentifier {
                    room_id: String::from_str(room_id),
                },
            )
        },
    };
    let room_domain = match room_identifier.server_name() {
        Some(d) => d,
        None => {
            return Err(
                RoomCreateContractError::InvalidGeneratedRoomIdentifier {
                    room_id: String::from_str(room_id),
                },
            )
        },
    };
    let creator_domain = match split_once_char(creator_user_id, ':') {
        Some((_, d)) => d,
        None => return Err(RoomCreateContractError::InvalidInviteUserIdentifier),
    };
    if !str_eq(room_domain, creator_domain) {
        return Err(
            RoomCreateContractError::RoomDomainAndCreatorDomainMismatch {
                room_domain: String::from_str(room_domain),
                creator_domain: String::from_str(creator_domain),
            },
        );
    }
    Ok(())
}

/// The place a planned event is given: its index, capped at `i32::MAX`.
pub open spec fn ordering_for_index(i: int) -> int {
    if i <= i32::MAX {
        i
    } else {
        i32::MAX as int
    }
}

/// `s` with each event numbered by its place.
pub open spec fn numbered_events(s: Seq<PayloadView>) -> Seq<PayloadView> {
    Seq::new(
        s.len(),
        |i: int|
            PayloadView {
                content: s[i].content,
                event_type: s[i].event_type,
                ordering: ordering_for_index(i),
                state_key: s[i].state_key,
            },
    )
}

/// Collapses overridden events, checks the order of what is left and
/// numbers the events by their place.
pub fn finalize_plan(
    planned_events: Vec<CreateRoomStateEventPayload>,
    room_id: &str,
    creator_user_id: &str,
) -> (r: Result<Vec<CreateRoomStateEventPayload>, RoomCreateContractError>)
    ensures
        ({
            let collapsed = collapse_state_events(payloads_view(planned_events@));
            match r {
                Ok(v) => creation_order_fault(collapsed, room_id@, creator_user_id@) is None
                    && payloads_view(v@) == numbered_events(collapsed),
                Err(e) => creation_order_fault(collapsed, room_id@, creator_user_id@) == Some(
                    e@,
                ),
            }
        }),
{
    let collapsed = collapse_duplicate_state_events(planned_events);
    match validate_room_creation_event_order(&collapsed, room_id, creator_user_id) {
        Ok(()) => {},
        Err(e) => return Err(e),
    }
    let ghost cv = payloads_view(collapsed@);
    let mut out: Vec<CreateRoomStateEventPayload> = Vec::new();
    let mut i: usize = 0;
    while i < collapsed.len()
        invariant
            i <= collapsed@.len(),
            cv == payloads_view(collapsed@),
            out@.len() == i,
            forall|k: int| 0 <= k < i ==> (#[trigger] out@[k])@ == numbered_events(cv)[k],
        decreases collapsed.len() - i,
    {
        let ordering: i32 = if i <= 2147483647 {
            i as i32
        } else {
            2147483647
        };
        let event = &collapsed[i];
        out.push(
            CreateRoomStateEventPayload {
                content: event.content.deep_clone(),
                event_type: event.event_type.clone(),
                ordering,
                state_key: event.state_key.clone(),
            },
        );
        i = i + 1;
    }
    assert(payloads_view(out@) =~= numbered_events(cv));
    Ok(out)
}

/// A planned event before it is numbered.
pub open spec fn planned_event(event_type: Seq<char>, state_key: Seq<char>, content: Json) -> PayloadView {
    PayloadView { content, event_type, ordering: 0, state_key }
}

/// A JSON object with the given members.
pub fn object_of(entries: Vec<(String, JsonValue)>) -> (r: JsonValue)
    ensures
        r@ == Json::Object(entries_view(entries@)),
{
    proof {
        crate::json::lemma_object_view(entries);
    }
    JsonValue::Object(entries)
}

/// A JSON object with one string member.
fn string_member_object(key: &str, value: &str) -> (r: JsonValue)
    ensures
        r@ == Json::Object(seq![(key@, Json::Str(value@))]),
{
    let mut entries: Vec<(String, JsonValue)> = Vec::new();
    entries.push((String::from_str(key), JsonValue::Str(String::from_str(value))));
    let r = object_of(entries);
    assert(entries_view(entries@) =~= seq![(key@, Json::Str(value@))]);
    r
}

/// Appends one planned event.
fn push_state_event(
    events: &mut Vec<CreateRoomStateEventPayload>,
    event_type: &str,
    state_key: &str,
    content: JsonValue,
)
    ensures
        payloads_view(final(events)@) == payloads_view(old(events)@).push(
            planned_event(event_type@, state_key@, content@),
        ),
{
    events.push(
        CreateRoomStateEventPayload {
            content,
            event_type: String::from_str(event_type),
            ordering: 0,
            state_key: String::from_str(state_key),
        },
    );
    assert(payloads_view(events@) =~= payloads_view(old(events)@).push(
        planned_event(event_type@, state_key@, content@),
    ));
}

/// The `additional_creators` list after the invitees that it lacks are
/// appended, each once, in order.
pub open spec fn add_missing_creators(creators: Seq<Json>, invitees: Seq<Seq<char>>) -> Seq<Json>
    decreases invitees.len(),
{
    if invitees.len() == 0 {
        creators
    } else {
        let next = if creators.contains(Json::Str(invitees[0])) {
            creators
        } else {
            creators.push(Json::Str(invitees[0]))
        };
        add_missing_creators(next, invitees.drop_first())
    }
}

/// `m.room.create` content with the invitees of a trusted private chat made
/// additional creators. A present `additional_creators` that is not an
/// array is left as it is.
pub open spec fn with_trusted_creators(content: Json, preset: RoomPreset, invitees: Seq<Seq<char>>) -> Json {
    if preset == RoomPreset::TrustedPrivateChat && invitees.len() > 0 {
        match content {
            Json::Object(es) => match json_get(content, "additional_creators"@) {
                None => Json::Object(
                    entries_insert(
                        es,
                        "additional_creators"@,
                        Json::Array(add_missing_creators(Seq::empty(), invitees)),
                    ),
                ),
                Some(Json::Array(a)) => Json::Object(
                    entries_insert(es, "additional_creators"@, Json::Array(add_missing_creators(a, invitees))),
                ),
                Some(_) => content,
            },
            _ => content,
        }
    } else {
        content
    }
}

/// The views of a list of strings.
pub open spec fn strings_view(s: Seq<String>) -> Seq<Seq<char>> {
    Seq::new(s.len(), |i: int| s[i]@)
}

/// Decides whether `items` holds the JSON string `value`.
fn contains_string(items: &Vec<JsonValue>, value: &str) -> (r: bool)
    ensures
        r == crate::json::items_view(items@).contains(Json::Str(value@)),
{
    let ghost iv = crate::json::items_view(items@);
    let mut i: usize = 0;
    while i < items.len()
        invariant
            i <= items@.len(),
            iv == crate::json::items_view(items@),
            forall|k: int| 0 <= k < i ==> iv[k] != Json::Str(value@),
        decreases items.len() - i,
    {
        match &items[i] {
            JsonValue::Str(s) => {
                if str_eq(s.as_str(), value) {
                    assert(iv[i as int] == Json::Str(value@));
                    return true;
                }
            },
            _ => {},
        }
        i = i + 1;
    }
    false
}

/// Appends the invitees that `items` lacks.
fn add_missing_creator_items(items: &mut Vec<JsonValue>, invitees: &Vec<String>)
    ensures
        crate::json::items_view(final(items)@) == add_missing_creators(
            crate::json::items_view(old(items)@),
            strings_view(invitees@),
        ),
{
    let ghost target = add_missing_creators(crate::json::items_view(items@), strings_view(invitees@));
    let mut i: usize = 0;
    assert(strings_view(invitees@).subrange(0, invitees@.len() as int) =~= strings_view(invitees@));
    while i < invitees.len()
        invariant
            i <= invitees@.len(),
            add_missing_creators(
                crate::json::items_view(items@),
                strings_view(invitees@).subrange(i as int, invitees@.len() as int),
            ) == target,
        decreases invitees.len() - i,
    {
        let ghost rest = strings_view(invitees@).subrange(i as int, invitees@.len() as int);
        assert(rest[0] == invitees@[i as int]@);
        assert(rest.drop_first() =~= strings_view(invitees@).subrange(
            i as int + 1,
            invitees@.len() as int,
        ));
        if !contains_string(items, invitees[i].as_str()) {
            let ghost before = crate::json::items_view(items@);
            items.push(JsonValue::Str(invitees[i].clone()));
            assert(crate::json::items_view(items@) =~= before.push(Json::Str(invitees@[i as int]@)));
        }
        i = i + 1;
    }
    assert(strings_view(invitees@).subrange(i as int, invitees@.len() as int) =~= Seq::<
        Seq<char>,
    >::empty());
}

/// Makes the invitees of a trusted private chat additional creators.
fn apply_trusted_creators(content: &mut JsonValue, preset: RoomPreset, invitees: &Vec<String>)
    ensures
        final(content)@ == with_trusted_creators(old(content)@, preset, strings_view(invitees@)),
{
    if preset != RoomPreset::TrustedPrivateChat || invitees.len() == 0 {
        return;
    }
    if !content.is_object() {
        return;
    }
    let updated: Option<JsonValue> = match content.get("additional_creators") {
        None => {
            let mut items: Vec<JsonValue> = Vec::new();
            proof {
                assert(crate::json::items_view(items@) =~= Seq::<Json>::empty());
            }
            add_missing_creator_items(&mut items, invitees);
            proof {
                crate::json::lemma_array_view(items);
            }
            Some(JsonValue::Array(items))
        },
        Some(JsonValue::Array(existing)) => {
            let mut items: Vec<JsonValue> = Vec::new();
            let mut k: usize = 0;
            while k < existing.len()
                invariant
                    k <= existing@.len(),
                    items@.len() == k,
                    forall|j: int| 0 <= j < k ==> (#[trigger] items@[j])@ == existing@[j]@,
                decreases existing.len() - k,
            {
                items.push(existing[k].deep_clone());
                k = k + 1;
            }
            proof {
                crate::json::lemma_array_view(*existing);
                assert(crate::json::items_view(items@) =~= crate::json::items_view(existing@));
            }
            add_missing_creator_items(&mut items, invitees);
            proof {
                crate::json::lemma_array_view(items);
            }
            Some(JsonValue::Array(items))
        },
        Some(_) => None,
    };
    match updated {
        Some(v) => content.insert("additional_creators", v),
        None => {},
    }
}

/// Object members from (key, level) pairs, set in order: a later pair with
/// the same key replaces an earlier one.
pub open spec fn pairs_entries(pairs: Seq<(String, i64)>) -> Seq<(Seq<char>, Json)>
    decreases pairs.len(),
{
    if pairs.len() == 0 {
        Seq::empty()
    } else {
        entries_insert(
            pairs_entries(pairs.drop_last()),
            pairs.last().0@,
            Json::Number(pairs.last().1 as int),
        )
    }
}

/// The object of (key, level) pairs.
fn pairs_object(pairs: &Vec<(String, i64)>) -> (r: JsonValue)
    ensures
        r@ == Json::Object(pairs_entries(pairs@)),
{
    let mut obj = JsonValue::new_object();
    let mut i: usize = 0;
    assert(pairs@.subrange(0, 0) =~= Seq::<(String, i64)>::empty());
    while i < pairs.len()
        invariant
            i <= pairs@.len(),
            obj@ == Json::Object(pairs_entries(pairs@.subrange(0, i as int))),
        decreases pairs.len() - i,
    {
        assert(pairs@.subrange(0, i as int + 1).drop_last() =~= pairs@.subrange(0, i as int));
        obj.insert(pairs[i].0.as_str(), JsonValue::Int(pairs[i].1));
        i = i + 1;
    }
    assert(pairs@.subrange(0, i as int) =~= pairs@);
    obj
}

/// `keys` each set to `value`, in order.
pub open spec fn insert_keys(es: Seq<(Seq<char>, Json)>, keys: Seq<Seq<char>>, value: Json) -> Seq<
    (Seq<char>, Json),
>
    decreases keys.len(),
{
    if keys.len() == 0 {
        es
    } else {
        entries_insert(insert_keys(es, keys.drop_last(), value), keys.last(), value)
    }
}

/// The `users` of the default power levels: the creator at 100 and, in a
/// trusted private chat, each invitee at 100 too.
pub open spec fn default_power_users(
    creator: Seq<char>,
    invitees: Seq<Seq<char>>,
    preset: RoomPreset,
) -> Seq<(Seq<char>, Json)> {
    let base = seq![(creator, Json::Number(100))];
    if preset == RoomPreset::TrustedPrivateChat {
        insert_keys(base, invitees, Json::Number(100))
    } else {
        base
    }
}

/// The default power levels.
pub open spec fn default_power_levels(
    creator: Seq<char>,
    invitees: Seq<Seq<char>>,
    preset: RoomPreset,
) -> Seq<(Seq<char>, Json)> {
    seq![
        ("ban"@, Json::Number(50)),
        ("events"@, Json::Object(Seq::empty())),
        ("events_default"@, Json::Number(0)),
        ("invite"@, Json::Number(0)),
        ("kick"@, Json::Number(50)),
        ("redact"@, Json::Number(50)),
        ("state_default"@, Json::Number(50)),
        ("users"@, Json::Object(default_power_users(creator, invitees, preset))),
        ("users_default"@, Json::Number(0)),
    ]
}

/// `key` set to a level when there is one.
pub open spec fn with_level(es: Seq<(Seq<char>, Json)>, key: Seq<char>, level: Option<i64>) -> Seq<
    (Seq<char>, Json),
> {
    match level {
        Some(n) => entries_insert(es, key, Json::Number(n as int)),
        None => es,
    }
}

/// The JSON of a `notifications` block: `{"room": level or null}`.
pub open spec fn notifications_json(n: RoomPowerLevelNotifications) -> Json {
    Json::Object(
        seq![
            ("room"@, match n.room {
                Some(level) => Json::Number(level as int),
                None => Json::Null,
            }),
        ],
    )
}

/// Power levels with what an override sets put over them.
pub open spec fn overridden_power_levels(
    es: Seq<(Seq<char>, Json)>,
    o: RoomPowerLevelsContentOverride,
) -> Seq<(Seq<char>, Json)> {
    let e1 = with_level(es, "ban"@, o.ban);
    let e2 = match o.events {
        Some(ev) => entries_insert(e1, "events"@, Json::Object(pairs_entries(ev@))),
        None => e1,
    };
    let e3 = with_level(e2, "events_default"@, o.events_default);
    let e4 = with_level(e3, "invite"@, o.invite);
    let e5 = with_level(e4, "kick"@, o.kick);
    let e6 = match o.notifications {
        Some(n) => entries_insert(e5, "notifications"@, notifications_json(n)),
        None => e5,
    };
    let e7 = with_level(e6, "redact"@, o.redact);
    let e8 = with_level(e7, "state_default"@, o.state_default);
    let e9 = match o.users {
        Some(u) => entries_insert(e8, "users"@, Json::Object(pairs_entries(u@))),
        None => e8,
    };
    with_level(e9, "users_default"@, o.users_default)
}

/// The content of the room's first `m.room.power_levels` event.
pub open spec fn power_levels_content(
    creator: Seq<char>,
    invitees: Seq<Seq<char>>,
    preset: RoomPreset,
    override_content: Option<RoomPowerLevelsContentOverride>,
) -> Json {
    let defaults = default_power_levels(creator, invitees, preset);
    Json::Object(
        match override_content {
            Some(o) => overridden_power_levels(defaults, o),
            None => defaults,
        },
    )
}

fn set_level(obj: &mut JsonValue, key: &str, level: Option<i64>)
    requires
        old(obj)@ is Object,
    ensures
        final(obj)@ == Json::Object(with_level(old(obj)@->Object_0, key@, level)),
{
    match level {
        Some(n) => obj.insert(key, JsonValue::Int(n)),
        None => {},
    }
}

fn notifications_object(n: &RoomPowerLevelNotifications) -> (r: JsonValue)
    ensures
        r@ == notifications_json(*n),
{
    let value = match n.room {
        Some(level) => JsonValue::Int(level),
        None => JsonValue::Null,
    };
    let mut entries: Vec<(String, JsonValue)> = Vec::new();
    entries.push((String::from_str("room"), value));
    let r = object_of(entries);
    assert(entries_view(entries@) =~= notifications_json(*n)->Object_0);
    r
}

/// Builds the power-levels content of a new room (see
/// `lemma_power_levels_defaults_and_overrides` for what it holds).
pub fn build_power_levels(
    creator: &str,
    invitees: &Vec<String>,
    preset: RoomPreset,
    override_content: &Option<RoomPowerLevelsContentOverride>,
) -> (r: JsonValue)
    ensures
        r@ == power_levels_content(creator@, strings_view(invitees@), preset, *override_content),
{
    let mut users = JsonValue::new_object();
    users.insert(creator, JsonValue::Int(100));
    assert(entries_insert(Seq::empty(), creator@, Json::Number(100)) =~= seq![
        (creator@, Json::Number(100)),
    ]);
    if preset == RoomPreset::TrustedPrivateChat {
        let ghost base = seq![(creator@, Json::Number(100))];
        let mut i: usize = 0;
        assert(strings_view(invitees@).subrange(0, 0) =~= Seq::<Seq<char>>::empty());
        while i < invitees.len()
            invariant
                i <= invitees@.len(),
                users@ == Json::Object(
                    insert_keys(
                        base,
                        strings_view(invitees@).subrange(0, i as int),
                        Json::Number(100),
                    ),
                ),
            decreases invitees.len() - i,
        {
            assert(strings_view(invitees@).subrange(0, i as int + 1).drop_last()
                =~= strings_view(invitees@).subrange(0, i as int));
            users.insert(invitees[i].as_str(), JsonValue::Int(100));
            i = i + 1;
        }
        assert(strings_view(invitees@).subrange(0, i as int) =~= strings_view(invitees@));
    }
    let mut entries: Vec<(String, JsonValue)> = Vec::new();
    entries.push((String::from_str("ban"), JsonValue::Int(50)));
    entries.push((String::from_str("events"), JsonValue::new_object()));
    entries.push((String::from_str("events_default"), JsonValue::Int(0)));
    entries.push((String::from_str("invite"), JsonValue::Int(0)));
    entries.push((String::from_str("kick"), JsonValue::Int(50)));
    entries.push((String::from_str("redact"), JsonValue::Int(50)));
    entries.push((String::from_str("state_default"), JsonValue::Int(50)));
    entries.push((String::from_str("users"), users));
    entries.push((String::from_str("users_default"), JsonValue::Int(0)));
    let mut power_levels = object_of(entries);
    assert(entries_view(entries@) =~= default_power_levels(creator@, strings_view(invitees@), preset));
    match override_content {
        Some(o) => {
            set_level(&mut power_levels, "ban", o.ban);
            match &o.events {
                Some(ev) => power_levels.insert("events", pairs_object(ev)),
                None => {},
            }
            set_level(&mut power_levels, "events_default", o.events_default);
            set_level(&mut power_levels, "invite", o.invite);
            set_level(&mut power_levels, "kick", o.kick);
            match &o.notifications {
                Some(n) => power_levels.insert("notifications", notifications_object(n)),
                None => {},
            }
            set_level(&mut power_levels, "redact", o.redact);
            set_level(&mut power_levels, "state_default", o.state_default);
            match &o.users {
                Some(u) => power_levels.insert("users", pairs_object(u)),
                None => {},
            }
            set_level(&mut power_levels, "users_default", o.users_default);
        },
        None => {},
    }
    power_levels
}

/// The canonical alias event, when the room gets an alias.
pub open spec fn alias_events(alias: Option<Seq<char>>, home_server_name: Seq<char>) -> Seq<PayloadView> {
    match alias {
        Some(a) => seq![
            planned_event(
                "m.room.canonical_alias"@,
                ""@,
                Json::Object(seq![("alias"@, Json::Str("#"@ + a + ":"@ + home_server_name))]),
            ),
        ],
        None => Seq::empty(),
    }
}

/// The join rule, history visibility and guest access that a preset sets.
pub open spec fn preset_events(preset: RoomPreset) -> Seq<PayloadView> {
    let join_rule = if preset == RoomPreset::PublicChat {
        "public"@
    } else {
        "invite"@
    };
    let guest_access = if preset == RoomPreset::PublicChat {
        "forbidden"@
    } else {
        "can_join"@
    };
    seq![
        planned_event(
            "m.room.join_rules"@,
            ""@,
            Json::Object(seq![("join_rule"@, Json::Str(join_rule))]),
        ),
        planned_event(
            "m.room.history_visibility"@,
            ""@,
            Json::Object(seq![("history_visibility"@, Json::Str("shared"@))]),
        ),
        planned_event(
            "m.room.guest_access"@,
            ""@,
            Json::Object(seq![("guest_access"@, Json::Str(guest_access))]),
        ),
    ]
}

/// Why an initial state event is refused, if it is: a blank type, the
/// create event, or content that is not an object.
pub open spec fn initial_state_event_fault(e: RoomStateEventInfo) -> Option<ContractErrorView> {
    if is_blank(e.event_type@) {
        Some(ContractErrorView::InvalidRoomStateEventType)
    } else if e.event_type@ == "m.room.create"@ {
        Some(ContractErrorView::InitialStateContainsRoomCreateEvent)
    } else if !(e.content@ is Object) {
        Some(ContractErrorView::InvalidRoomStateEventContentType { event_type: e.event_type@ })
    } else {
        None
    }
}

/// The fault of the first refused initial state event.
pub open spec fn first_initial_state_fault(s: Seq<RoomStateEventInfo>) -> Option<ContractErrorView>
    decreases s.len(),
{
    if s.len() == 0 {
        None
    } else {
        match initial_state_event_fault(s[0]) {
            Some(f) => Some(f),
            None => first_initial_state_fault(s.drop_first()),
        }
    }
}

/// A state key, the empty one when absent.
pub open spec fn state_key_or_empty(k: Option<String>) -> Seq<char> {
    match k {
        Some(s) => s@,
        None => ""@,
    }
}

/// The planned events of the initial state.
pub open spec fn initial_state_events(s: Seq<RoomStateEventInfo>) -> Seq<PayloadView> {
    Seq::new(
        s.len(),
        |i: int| planned_event(s[i].event_type@, state_key_or_empty(s[i].state_key), s[i].content@),
    )
}

/// The name and topic events.
pub open spec fn profile_events(name: Option<Seq<char>>, topic: Option<Seq<char>>) -> Seq<PayloadView> {
    (match name {
        Some(n) => seq![
            planned_event("m.room.name"@, ""@, Json::Object(seq![("name"@, Json::Str(n))])),
        ],
        None => Seq::empty(),
    }) + (match topic {
        Some(t) => seq![
            planned_event("m.room.topic"@, ""@, Json::Object(seq![("topic"@, Json::Str(t))])),
        ],
        None => Seq::empty(),
    })
}

/// The content of an invite membership.
pub open spec fn invite_content(is_direct: bool) -> Json {
    Json::Object(seq![("membership"@, Json::Str("invite"@)), ("is_direct"@, Json::Bool(is_direct))])
}

/// An invite membership for each invitee.
pub open spec fn invite_events(invitees: Seq<Seq<char>>, is_direct: bool) -> Seq<PayloadView> {
    Seq::new(
        invitees.len(),
        |i: int| planned_event("m.room.member"@, invitees[i], invite_content(is_direct)),
    )
}

/// The content of a third-party invite event.
pub open spec fn third_party_invite_content(invite: InviteThirdPartyIdentifierInfo) -> Json {
    Json::Object(
        seq![
            ("display_name"@, Json::Str(invite.address@)),
            (
                "key_validity_url"@,
                Json::Str(
                    "https://"@ + invite.id_server@ + "/_matrix/identity/api/v1/pubkey/isvalid"@,
                ),
            ),
            ("public_key"@, Json::Str(""@)),
            ("medium"@, Json::Str(invite.medium@)),
            ("id_server"@, Json::Str(invite.id_server@)),
        ],
    )
}

/// A third-party invite event for each invite, under the state key given
/// for it.
pub open spec fn third_party_invite_events(
    invites: Seq<InviteThirdPartyIdentifierInfo>,
    tokens: Seq<Seq<char>>,
) -> Seq<PayloadView> {
    Seq::new(
        invites.len(),
        |i: int|
            planned_event(
                "m.room.third_party_invite"@,
                tokens[i],
                third_party_invite_content(invites[i]),
            ),
    )
}

fn push_alias_event(
    events: &mut Vec<CreateRoomStateEventPayload>,
    alias: &Option<String>,
    home_server_name: &str,
)
    ensures
        payloads_view(final(events)@) == payloads_view(old(events)@) + alias_events(
            match *alias {
                Some(a) => Some(a@),
                None => None,
            },
            home_server_name@,
        ),
{
    match alias {
        Some(a) => {
            let text = String::from_str("#").concat(a.as_str()).concat(":").concat(
                home_server_name,
            );
            let content = string_member_object("alias", text.as_str());
            push_state_event(events, "m.room.canonical_alias", "", content);
        },
        None => {
            assert(payloads_view(events@) =~= payloads_view(events@) + Seq::<PayloadView>::empty());
        },
    }
}

fn push_preset_events(events: &mut Vec<CreateRoomStateEventPayload>, preset: RoomPreset)
    ensures
        payloads_view(final(events)@) == payloads_view(old(events)@) + preset_events(preset),
{
    let (join_rule, guest_access) = match preset {
        RoomPreset::PublicChat => ("public", "forbidden"),
        _ => ("invite", "can_join"),
    };
    push_state_event(events, "m.room.join_rules", "", string_member_object("join_rule", join_rule));
    push_state_event(
        events,
        "m.room.history_visibility",
        "",
        string_member_object("history_visibility", "shared"),
    );
    push_state_event(
        events,
        "m.room.guest_access",
        "",
        string_member_object("guest_access", guest_access),
    );
    assert(payloads_view(events@) =~= payloads_view(old(events)@) + preset_events(preset));
}

/// Checks one initial state event.
pub fn validate_initial_state_event(event: &RoomStateEventInfo) -> (r: Result<
    (),
    RoomCreateContractError,
>)
    ensures
        r is Ok <==> initial_state_event_fault(*event) is None,
        r matches Err(e) ==> initial_state_event_fault(*event) == Some(e@),
{
    if is_blank_str(event.event_type.as_str()) {
        return Err(RoomCreateContractError::InvalidRoomStateEventType);
    }
    if str_eq(event.event_type.as_str(), "m.room.create") {
        return Err(RoomCreateContractError::InitialStateContainsRoomCreateEvent);
    }
    if !event.content.is_object() {
        return Err(
            RoomCreateContractError::InvalidRoomStateEventContentType {
                event_type: event.event_type.clone(),
            },
        );
    }
    Ok(())
}

fn push_initial_state_events(
    events: &mut Vec<CreateRoomStateEventPayload>,
    initial_state: &Vec<RoomStateEventInfo>,
) -> (r: Result<(), RoomCreateContractError>)
    ensures
        r is Ok <==> first_initial_state_fault(initial_state@) is None,
        r matches Err(e) ==> first_initial_state_fault(initial_state@) == Some(e@),
        r is Ok ==> payloads_view(final(events)@) == payloads_view(old(events)@)
            + initial_state_events(initial_state@),
{
    let ghost start = payloads_view(events@);
    let mut i: usize = 0;
    assert(initial_state@.subrange(0, initial_state@.len() as int) =~= initial_state@);
    while i < initial_state.len()
        invariant
            i <= initial_state@.len(),
            first_initial_state_fault(initial_state@) == first_initial_state_fault(
                initial_state@.subrange(i as int, initial_state@.len() as int),
            ),
            payloads_view(events@) == start + initial_state_events(
                initial_state@.subrange(0, i as int),
            ),
        decreases initial_state.len() - i,
    {
        let ghost rest = initial_state@.subrange(i as int, initial_state@.len() as int);
        assert(rest[0] == initial_state@[i as int]);
        assert(rest.drop_first() =~= initial_state@.subrange(
            i as int + 1,
            initial_state@.len() as int,
        ));
        let event = &initial_state[i];
        match validate_initial_state_event(event) {
            Ok(()) => {},
            Err(e) => return Err(e),
        }
        let state_key = match &event.state_key {
            Some(k) => k.as_str(),
            None => "",
        };
        push_state_event(events, event.event_type.as_str(), state_key, event.content.deep_clone());
        assert(initial_state_events(initial_state@.subrange(0, i as int + 1)) =~= initial_state_events(
            initial_state@.subrange(0, i as int),
        ).push(planned_event(event.event_type@, state_key_or_empty(event.state_key), event.content@)));
        i = i + 1;
    }
    assert(initial_state@.subrange(0, i as int) =~= initial_state@);
    Ok(())
}

fn push_profile_events(
    events: &mut Vec<CreateRoomStateEventPayload>,
    name: &Option<String>,
    topic: &Option<String>,
)
    ensures
        payloads_view(final(events)@) == payloads_view(old(events)@) + profile_events(
            match *name {
                Some(n) => Some(n@),
                None => None,
            },
            match *topic {
                Some(t) => Some(t@),
                None => None,
            },
        ),
{
    match name {
        Some(n) => push_state_event(events, "m.room.name", "", string_member_object("name", n.as_str())),
        None => {},
    }
    match topic {
        Some(t) => push_state_event(events, "m.room.topic", "", string_member_object("topic", t.as_str())),
        None => {},
    }
    assert(payloads_view(events@) =~= payloads_view(old(events)@) + profile_events(
        match *name {
            Some(n) => Some(n@),
            None => None,
        },
        match *topic {
            Some(t) => Some(t@),
            None => None,
        },
    ));
}

fn push_invite_events(
    events: &mut Vec<CreateRoomStateEventPayload>,
    invitees: &Vec<String>,
    is_direct: bool,
)
    ensures
        payloads_view(final(events)@) == payloads_view(old(events)@) + invite_events(
            strings_view(invitees@),
            is_direct,
        ),
{
    let ghost start = payloads_view(events@);
    let mut i: usize = 0;
    while i < invitees.len()
        invariant
            i <= invitees@.len(),
            payloads_view(events@) == start + invite_events(
                strings_view(invitees@).subrange(0, i as int),
                is_direct,
            ),
        decreases invitees.len() - i,
    {
        let mut entries: Vec<(String, JsonValue)> = Vec::new();
        entries.push((String::from_str("membership"), JsonValue::Str(String::from_str("invite"))));
        entries.push((String::from_str("is_direct"), JsonValue::Bool(is_direct)));
        let content = object_of(entries);
        assert(entries_view(entries@) =~= invite_content(is_direct)->Object_0);
        push_state_event(events, "m.room.member", invitees[i].as_str(), content);
        assert(invite_events(strings_view(invitees@).subrange(0, i as int + 1), is_direct)
            =~= invite_events(strings_view(invitees@).subrange(0, i as int), is_direct).push(
            planned_event("m.room.member"@, invitees@[i as int]@, invite_content(is_direct)),
        ));
        i = i + 1;
    }
    assert(strings_view(invitees@).subrange(0, i as int) =~= strings_view(invitees@));
}

fn push_third_party_invite_events(
    events: &mut Vec<CreateRoomStateEventPayload>,
    invites: &Vec<InviteThirdPartyIdentifierInfo>,
    tokens: &Vec<String>,
)
    requires
        tokens@.len() == invites@.len(),
    ensures
        payloads_view(final(events)@) == payloads_view(old(events)@) + third_party_invite_events(
            invites@,
            strings_view(tokens@),
        ),
{
    let ghost start = payloads_view(events@);
    let mut i: usize = 0;
    while i < invites.len()
        invariant
            i <= invites@.len(),
            tokens@.len() == invites@.len(),
            payloads_view(events@) == start + third_party_invite_events(
                invites@.subrange(0, i as int),
                strings_view(tokens@).subrange(0, i as int),
            ),
        decreases invites.len() - i,
    {
        let invite = &invites[i];
        let url = String::from_str("https://").concat(invite.id_server.as_str()).concat(
            "/_matrix/identity/api/v1/pubkey/isvalid",
        );
        let mut entries: Vec<(String, JsonValue)> = Vec::new();
        entries.push((String::from_str("display_name"), JsonValue::Str(invite.address.clone())));
        entries.push((String::from_str("key_validity_url"), JsonValue::Str(url)));
        entries.push((String::from_str("public_key"), JsonValue::Str(String::from_str(""))));
        entries.push((String::from_str("medium"), JsonValue::Str(invite.medium.clone())));
        entries.push((String::from_str("id_server"), JsonValue::Str(invite.id_server.clone())));
        let content = object_of(entries);
        assert(entries_view(entries@) =~= third_party_invite_content(*invite)->Object_0);
        push_state_event(events, "m.room.third_party_invite", tokens[i].as_str(), content);
        assert(third_party_invite_events(
            invites@.subrange(0, i as int + 1),
            strings_view(tokens@).subrange(0, i as int + 1),
        ) =~= third_party_invite_events(
            invites@.subrange(0, i as int),
            strings_view(tokens@).subrange(0, i as int),
        ).push(
            planned_event(
                "m.room.third_party_invite"@,
                tokens@[i as int]@,
                third_party_invite_content(*invite),
            ),
        ));
        i = i + 1;
    }
    assert(invites@.subrange(0, i as int) =~= invites@);
    assert(strings_view(tokens@).subrange(0, i as int) =~= strings_view(tokens@));
}

/// What a room creation plan is built from.
pub struct PlanInputs {
    pub creator_user_id: Seq<char>,
    pub room_id: Seq<char>,
    pub home_server_name: Seq<char>,
    pub room_version: RoomVersion,
    pub preset: RoomPreset,
    pub invitees: Seq<Seq<char>>,
    pub third_party_invitees: Seq<InviteThirdPartyIdentifierInfo>,
    pub is_direct: Option<bool>,
    pub name: Option<Seq<char>>,
    pub topic: Option<Seq<char>>,
    pub room_alias_name: Option<Seq<char>>,
    pub initial_state: Option<Seq<RoomStateEventInfo>>,
    pub power_level_content_override: Option<RoomPowerLevelsContentOverride>,
    pub room_create_event_content: Option<Json>,
}

pub open spec fn opt_view(o: Option<String>) -> Option<Seq<char>> {
    match o {
        Some(s) => Some(s@),
        None => None,
    }
}

/// The events of a plan before overridden ones are dropped, with the
/// third-party invites under `tokens`.
pub open spec fn raw_plan(b: PlanInputs, create_content: Json, tokens: Seq<Seq<char>>) -> Seq<
    PayloadView,
> {
    seq![
        planned_event("m.room.create"@, ""@, create_content),
        planned_event(
            "m.room.member"@,
            b.creator_user_id,
            Json::Object(seq![("membership"@, Json::Str("join"@))]),
        ),
        planned_event(
            "m.room.power_levels"@,
            ""@,
            power_levels_content(
                b.creator_user_id,
                b.invitees,
                b.preset,
                b.power_level_content_override,
            ),
        ),
    ] + alias_events(b.room_alias_name, b.home_server_name) + preset_events(b.preset)
        + initial_state_events(
        match b.initial_state {
            Some(s) => s,
            None => Seq::empty(),
        },
    ) + profile_events(b.name, b.topic) + invite_events(
        b.invitees,
        match b.is_direct {
            Some(d) => d,
            None => false,
        },
    ) + third_party_invite_events(b.third_party_invitees, tokens)
}

/// What building a plan gives, with the third-party invites under `tokens`:
/// the refused creation content or initial state event, a fault in the
/// order of what is left once overridden events are dropped, or those
/// events numbered by their place.
pub open spec fn plan_outcome(b: PlanInputs, tokens: Seq<Seq<char>>) -> Result<
    Seq<PayloadView>,
    ContractErrorView,
> {
    match b.room_create_event_content {
        None => Err(ContractErrorView::InvalidCreationContent),
        Some(c) => match first_initial_state_fault(
            match b.initial_state {
                Some(s) => s,
                None => Seq::empty(),
            },
        ) {
            Some(f) => Err(f),
            None => {
                let collapsed = collapse_state_events(
                    raw_plan(b, with_trusted_creators(c, b.preset, b.invitees), tokens),
                );
                match creation_order_fault(collapsed, b.room_id, b.creator_user_id) {
                    Some(f) => Err(f),
                    None => Ok(numbered_events(collapsed)),
                }
            },
        }
    }
}

/// The view of what building a plan returned.
pub open spec fn plan_result_view(r: Result<Vec<CreateRoomStateEventPayload>, RoomCreateContractError>) -> Result<
    Seq<PayloadView>,
    ContractErrorView,
> {
    match r {
        Ok(v) => Ok(payloads_view(v@)),
        Err(e) => Err(e@),
    }
}

/// The state key of a third-party invite event: `invite_` and 32
/// lower-case hexadecimal digits.
pub open spec fn is_invite_token(t: Seq<char>) -> bool {
    &&& t.len() == "invite_"@.len() + 32
    &&& t.subrange(0, "invite_"@.len() as int) == "invite_"@
    &&& forall|i: int|
        "invite_"@.len() <= i < t.len() ==> ('0' <= #[trigger] t[i] <= '9' || 'a' <= t[i] <= 'f')
}

/// A fresh state key for a third-party invite event.
fn new_invite_token() -> (r: String)
    ensures
        is_invite_token(r@),
{
    let uuid = crate::identifiers::new_simple_uuid();
    let prefix = String::from_str("invite_");
    let r = prefix.concat(uuid.as_str());
    assert(r@.subrange(0, "invite_"@.len() as int) =~= "invite_"@);
    assert forall|i: int| "invite_"@.len() <= i < r@.len() implies ('0' <= #[trigger] r@[i] <= '9'
        || 'a' <= r@[i] <= 'f') by {
        assert(r@[i] == uuid@[i - "invite_"@.len()]);
    }
    r
}

/// Collects what the first state events of a new room are made from.
pub struct RoomCreationPlanBuilder {
    creator_user_id: String,
    room_id: String,
    home_server_name: String,
    room_version: RoomVersion,
    preset: RoomPreset,
    invitees: Vec<String>,
    third_party_invitees: Vec<InviteThirdPartyIdentifierInfo>,
    is_direct: Option<bool>,
    name: Option<String>,
    topic: Option<String>,
    room_alias_name: Option<String>,
    initial_state: Option<Vec<RoomStateEventInfo>>,
    power_level_content_override: Option<RoomPowerLevelsContentOverride>,
    room_create_event_content: Option<JsonValue>,
}

impl View for RoomCreationPlanBuilder {
    type V = PlanInputs;

    closed spec fn view(&self) -> PlanInputs {
        PlanInputs {
            creator_user_id: self.creator_user_id@,
            room_id: self.room_id@,
            home_server_name: self.home_server_name@,
            room_version: self.room_version,
            preset: self.preset,
            invitees: strings_view(self.invitees@),
            third_party_invitees: self.third_party_invitees@,
            is_direct: self.is_direct,
            name: opt_view(self.name),
            topic: opt_view(self.topic),
            room_alias_name: opt_view(self.room_alias_name),
            initial_state: match self.initial_state {
                Some(s) => Some(s@),
                None => None,
            },
            power_level_content_override: self.power_level_content_override,
            room_create_event_content: match self.room_create_event_content {
                Some(c) => Some(c@),
                None => None,
            },
        }
    }
}

impl RoomCreationPlanBuilder {
    /// A plan for `room_id`, created by `creator_user_id` on
    /// `home_server_name`, as a private chat with nothing else set.
    pub fn new(
        creator_user_id: &UserIdentifier,
        room_id: &str,
        home_server_name: &str,
        room_version: RoomVersion,
    ) -> (r: Self)
        ensures
            r@ == (PlanInputs {
                creator_user_id: creator_user_id@,
                room_id: room_id@,
                home_server_name: home_server_name@,
                room_version,
                preset: RoomPreset::PrivateChat,
                invitees: Seq::empty(),
                third_party_invitees: Seq::empty(),
                is_direct: None,
                name: None,
                topic: None,
                room_alias_name: None,
                initial_state: None,
                power_level_content_override: None,
                room_create_event_content: None,
            }),
    {
        let r = RoomCreationPlanBuilder {
            creator_user_id: String::from_str(creator_user_id.as_str()),
            room_id: String::from_str(room_id),
            home_server_name: String::from_str(home_server_name),
            room_version,
            preset: RoomPreset::PrivateChat,
            invitees: Vec::new(),
            third_party_invitees: Vec::new(),
            is_direct: None,
            name: None,
            topic: None,
            room_alias_name: None,
            initial_state: None,
            power_level_content_override: None,
            room_create_event_content: None,
        };
        assert(strings_view(r.invitees@) =~= Seq::<Seq<char>>::empty());
        assert(r.third_party_invitees@ =~= Seq::<InviteThirdPartyIdentifierInfo>::empty());
        r
    }

    /// Sets the `m.room.create` content; the server's own `creator` and
    /// `room_version` replace whatever the client put there.
    pub fn with_room_create_event_content(self, creation_content: JsonValue) -> (r: Self)
        requires
            creation_content@ is Object,
        ensures
            r@ == (PlanInputs {
                room_create_event_content: Some(
                    Json::Object(
                        entries_insert(
                            entries_insert(
                                creation_content@->Object_0,
                                "creator"@,
                                Json::Str(self@.creator_user_id),
                            ),
                            "room_version"@,
                            Json::Str(version_name(self@.room_version)),
                        ),
                    ),
                ),
                ..self@
            }),
    {
        let mut content = creation_content;
        content.insert("creator", JsonValue::Str(self.creator_user_id.clone()));
        content.insert(
            "room_version",
            JsonValue::Str(String::from_str(self.room_version.as_str())),
        );
        RoomCreationPlanBuilder { room_create_event_content: Some(content), ..self }
    }

    pub fn with_preset(self, preset: RoomPreset) -> (r: Self)
        ensures
            r@ == (PlanInputs { preset, ..self@ }),
    {
        RoomCreationPlanBuilder { preset, ..self }
    }

    pub fn with_invitees(
        self,
        invitees: Vec<String>,
        third_party_invitees: Vec<InviteThirdPartyIdentifierInfo>,
        is_direct: Option<bool>,
    ) -> (r: Self)
        ensures
            r@ == (PlanInputs {
                invitees: strings_view(invitees@),
                third_party_invitees: third_party_invitees@,
                is_direct,
                ..self@
            }),
    {
        RoomCreationPlanBuilder { invitees, third_party_invitees, is_direct, ..self }
    }

    pub fn with_alias(self, room_alias_name: Option<String>) -> (r: Self)
        ensures
            r@ == (PlanInputs { room_alias_name: opt_view(room_alias_name), ..self@ }),
    {
        RoomCreationPlanBuilder { room_alias_name, ..self }
    }

    pub fn with_profile(self, name: Option<String>, topic: Option<String>) -> (r: Self)
        ensures
            r@ == (PlanInputs { name: opt_view(name), topic: opt_view(topic), ..self@ }),
    {
        RoomCreationPlanBuilder { name, topic, ..self }
    }

    pub fn with_initial_state(self, initial_state: Option<Vec<RoomStateEventInfo>>) -> (r: Self)
        ensures
            r@ == (PlanInputs {
                initial_state: match initial_state {
                    Some(s) => Some(s@),
                    None => None,
                },
                ..self@
            }),
    {
        RoomCreationPlanBuilder { initial_state, ..self }
    }

    pub fn with_power_level_override(
        self,
        override_content: Option<RoomPowerLevelsContentOverride>,
    ) -> (r: Self)
        ensures
            r@ == (PlanInputs { power_level_content_override: override_content, ..self@ }),
    {
        RoomCreationPlanBuilder { power_level_content_override: override_content, ..self }
    }

    /// Builds the plan with the third-party invite events under the given
    /// state keys, one for each third-party invitee.
    pub fn build_with_invite_tokens(self, tokens: Vec<String>) -> (r: Result<
        Vec<CreateRoomStateEventPayload>,
        RoomCreateContractError,
    >)
        requires
            tokens@.len() == self@.third_party_invitees.len(),
        ensures
            plan_result_view(r) == plan_outcome(self@, strings_view(tokens@)),
    {
        let ghost b = self@;
        let mut create_content = match self.room_create_event_content {
            Some(c) => c,
            None => return Err(RoomCreateContractError::InvalidCreationContent),
        };
        apply_trusted_creators(&mut create_content, self.preset, &self.invitees);
        let mut events: Vec<CreateRoomStateEventPayload> = Vec::new();
        push_state_event(&mut events, "m.room.create", "", create_content);
        let mut join: Vec<(String, JsonValue)> = Vec::new();
        join.push((String::from_str("membership"), JsonValue::Str(String::from_str("join"))));
        let join_content = object_of(join);
        assert(entries_view(join@) =~= seq![("membership"@, Json::Str("join"@))]);
        push_state_event(&mut events, "m.room.member", self.creator_user_id.as_str(), join_content);
        let power_levels = build_power_levels(
            self.creator_user_id.as_str(),
            &self.invitees,
            self.preset,
            &self.power_level_content_override,
        );
        push_state_event(&mut events, "m.room.power_levels", "", power_levels);
        push_alias_event(&mut events, &self.room_alias_name, self.home_server_name.as_str());
        push_preset_events(&mut events, self.preset);
        let initial_state = match self.initial_state {
            Some(s) => s,
            None => Vec::new(),
        };
        match push_initial_state_events(&mut events, &initial_state) {
            Ok(()) => {},
            Err(e) => return Err(e),
        }
        push_profile_events(&mut events, &self.name, &self.topic);
        let is_direct = match self.is_direct {
            Some(d) => d,
            None => false,
        };
        push_invite_events(&mut events, &self.invitees, is_direct);
        push_third_party_invite_events(&mut events, &self.third_party_invitees, &tokens);
        let ghost create = with_trusted_creators(
            b.room_create_event_content->Some_0,
            b.preset,
            b.invitees,
        );
        assert(payloads_view(events@) =~= raw_plan(b, create, strings_view(tokens@)));
        finalize_plan(events, self.room_id.as_str(), self.creator_user_id.as_str())
    }

    /// Builds the plan; each third-party invite event gets a fresh state key.
    pub fn build(self) -> (r: Result<Vec<CreateRoomStateEventPayload>, RoomCreateContractError>)
        ensures
            exists|tokens: Seq<Seq<char>>|
                tokens.len() == self@.third_party_invitees.len() && (forall|i: int|
                    0 <= i < tokens.len() ==> is_invite_token(#[trigger] tokens[i]))
                    && plan_result_view(r) == plan_outcome(self@, tokens),
    {
        let mut tokens: Vec<String> = Vec::new();
        let mut i: usize = 0;
        while i < self.third_party_invitees.len()
            invariant
                i <= self.third_party_invitees@.len(),
                tokens@.len() == i,
                forall|k: int| 0 <= k < i ==> is_invite_token(#[trigger] tokens@[k]@),
            decreases self.third_party_invitees.len() - i,
        {
            tokens.push(new_invite_token());
            i = i + 1;
        }
        let ghost tv = strings_view(tokens@);
        assert forall|k: int| 0 <= k < tv.len() implies is_invite_token(#[trigger] tv[k]) by {
            assert(tv[k] == tokens@[k]@);
        }
        self.build_with_invite_tokens(tokens)
    }
}

proof fn lemma_collapsed_from_sources(s: Seq<PayloadView>, i: int)
    requires
        0 <= i,
    ensures
        forall|m: int|
            0 <= m < collapsed_from(s, i).len() ==> exists|k: int|
                i <= k < s.len() && s[k] == #[trigger] collapsed_from(s, i)[m] && !slot_taken_later(
                    s,
                    k,
                ),
    decreases s.len() - i,
{
    if i < s.len() {
        lemma_collapsed_from_sources(s, i + 1);
        let rest = collapsed_from(s, i + 1);
        let c = collapsed_from(s, i);
        if slot_taken_later(s, i) {
            assert(c =~= rest);
        } else {
            assert(c =~= seq![s[i]] + rest);
            assert forall|m: int| 0 <= m < c.len() implies exists|k: int|
                i <= k < s.len() && s[k] == #[trigger] c[m] && !slot_taken_later(s, k) by {
                if m == 0 {
                    assert(s[i] == c[0]);
                } else {
                    assert(c[m] == rest[m - 1]);
                }
            }
        }
    }
}

proof fn lemma_collapsed_from_unique(s: Seq<PayloadView>, i: int)
    requires
        0 <= i,
    ensures
        forall|a: int, b: int|
            0 <= a < b < collapsed_from(s, i).len() ==> !same_state_slot(
                #[trigger] collapsed_from(s, i)[a],
                #[trigger] collapsed_from(s, i)[b],
            ),
    decreases s.len() - i,
{
    if i < s.len() {
        lemma_collapsed_from_unique(s, i + 1);
        lemma_collapsed_from_sources(s, i + 1);
        let rest = collapsed_from(s, i + 1);
        let c = collapsed_from(s, i);
        if slot_taken_later(s, i) {
            assert(c =~= rest);
        } else {
            assert(c =~= seq![s[i]] + rest);
            assert forall|a: int, b: int| 0 <= a < b < c.len() implies !same_state_slot(
                #[trigger] c[a],
                #[trigger] c[b],
            ) by {
                if a == 0 {
                    assert(c[b] == rest[b - 1]);
                    let k = choose|k: int|
                        i + 1 <= k < s.len() && s[k] == #[trigger] rest[b - 1] && !slot_taken_later(
                            s,
                            k,
                        );
                    if same_state_slot(c[a], c[b]) {
                        assert(same_state_slot(s[k], s[i]));
                        assert(slot_taken_later(s, i));
                    }
                } else {
                    assert(c[a] == rest[a - 1]);
                    assert(c[b] == rest[b - 1]);
                }
            }
        }
    }
}

proof fn lemma_collapsed_from_keeps_last(s: Seq<PayloadView>, i: int, k: int)
    requires
        0 <= i <= k < s.len(),
        !slot_taken_later(s, k),
    ensures
        collapsed_from(s, i).contains(s[k]),
    decreases k - i,
{
    let rest = collapsed_from(s, i + 1);
    let c = collapsed_from(s, i);
    if i == k {
        assert(c =~= seq![s[k]] + rest);
        assert(c[0] == s[k]);
    } else {
        lemma_collapsed_from_keeps_last(s, i + 1, k);
        let m = choose|m: int| 0 <= m < rest.len() && rest[m] == s[k];
        if slot_taken_later(s, i) {
            assert(c =~= rest);
        } else {
            assert(c =~= seq![s[i]] + rest);
            assert(c[m + 1] == s[k]);
        }
    }
}

proof fn lemma_collapsed_from_len(s: Seq<PayloadView>, i: int)
    requires
        0 <= i <= s.len(),
    ensures
        collapsed_from(s, i).len() <= s.len() - i,
    decreases s.len() - i,
{
    if i < s.len() {
        lemma_collapsed_from_len(s, i + 1);
    }
}

proof fn lemma_collapsed_from_distinct(t: Seq<PayloadView>, i: int)
    requires
        0 <= i <= t.len(),
        forall|a: int, b: int| 0 <= a < b < t.len() ==> !same_state_slot(#[trigger] t[a], #[trigger] t[b]),
    ensures
        collapsed_from(t, i) == t.subrange(i, t.len() as int),
    decreases t.len() - i,
{
    if i < t.len() {
        lemma_collapsed_from_distinct(t, i + 1);
        assert(!slot_taken_later(t, i)) by {
            if slot_taken_later(t, i) {
                let j = choose|j: int| i < j < t.len() && #[trigger] same_state_slot(t[j], t[i]);
                assert(!same_state_slot(t[i], t[j]));
            }
        }
        assert(collapsed_from(t, i) =~= t.subrange(i, t.len() as int));
    } else {
        assert(collapsed_from(t, i) =~= t.subrange(i, t.len() as int));
    }
}

/// Collapsing never makes a plan longer, and collapsing a collapsed plan
/// changes nothing.
pub proof fn lemma_collapse_shrinks_and_settles(s: Seq<PayloadView>)
    ensures
        collapse_state_events(s).len() <= s.len(),
        collapse_state_events(collapse_state_events(s)) == collapse_state_events(s),
{
    lemma_collapsed_from_len(s, 0);
    lemma_collapsed_from_unique(s, 0);
    let c = collapse_state_events(s);
    lemma_collapsed_from_distinct(c, 0);
    assert(c.subrange(0, c.len() as int) =~= c);
}

/// Collapsing keeps, for each piece of state (event type and state key),
/// exactly the last event that sets it: no two events left set the same
/// state, and an event is left exactly when no later event overrides it.
pub proof fn lemma_collapse_last_write_wins(s: Seq<PayloadView>)
    ensures
        forall|a: int, b: int|
            0 <= a < b < collapse_state_events(s).len() ==> !same_state_slot(
                #[trigger] collapse_state_events(s)[a],
                #[trigger] collapse_state_events(s)[b],
            ),
        forall|x: PayloadView|
            #[trigger] collapse_state_events(s).contains(x) <==> exists|k: int|
                0 <= k < s.len() && s[k] == x && !slot_taken_later(s, k),
{
    lemma_collapsed_from_unique(s, 0);
    lemma_collapsed_from_sources(s, 0);
    let c = collapse_state_events(s);
    assert forall|x: PayloadView| #[trigger] c.contains(x) <==> exists|k: int|
        0 <= k < s.len() && s[k] == x && !slot_taken_later(s, k) by {
        if c.contains(x) {
            let m = choose|m: int| 0 <= m < c.len() && c[m] == x;
            assert(c[m] == x);
        }
        if exists|k: int| 0 <= k < s.len() && s[k] == x && !slot_taken_later(s, k) {
            let k = choose|k: int| 0 <= k < s.len() && s[k] == x && !slot_taken_later(s, k);
            lemma_collapsed_from_keeps_last(s, 0, k);
        }
    }
}

/// No piece of state is lost by collapsing: whatever an event of the plan
/// sets, some event of the collapsed plan sets too.
pub proof fn lemma_collapse_keeps_every_slot(s: Seq<PayloadView>, k: int)
    requires
        0 <= k < s.len(),
    ensures
        exists|x: PayloadView| #[trigger] collapse_state_events(s).contains(x) && same_state_slot(x, s[k]),
    decreases s.len() - k,
{
    if slot_taken_later(s, k) {
        let j = choose|j: int| k < j < s.len() && #[trigger] same_state_slot(s[j], s[k]);
        lemma_collapse_keeps_every_slot(s, j);
        let x = choose|x: PayloadView| #[trigger] collapse_state_events(s).contains(x) && same_state_slot(x, s[j]);
        assert(same_state_slot(x, s[k]));
    } else {
        lemma_collapsed_from_keeps_last(s, 0, k);
        assert(same_state_slot(s[k], s[k]));
    }
}

/// A plan that builds begins with the create event, then the creator's
/// join, then the power levels, and every event carries its place (as
/// far as an `i32` counts).
pub proof fn lemma_built_plan_shape(b: PlanInputs, tokens: Seq<Seq<char>>)
    requires
        plan_outcome(b, tokens) is Ok,
    ensures
        ({
            let events = plan_outcome(b, tokens)->Ok_0;
            &&& events.len() >= 3
            &&& events[0].event_type == "m.room.create"@
            &&& events[1].event_type == "m.room.member"@
            &&& events[1].state_key == b.creator_user_id
            &&& events[2].event_type == "m.room.power_levels"@
            &&& forall|i: int| 0 <= i < events.len() && i <= i32::MAX ==> #[trigger] events[i].ordering == i
        }),
{
}


/// An override that sets nothing.
pub open spec fn no_power_levels_override() -> RoomPowerLevelsContentOverride {
    RoomPowerLevelsContentOverride {
        ban: None,
        events: None,
        events_default: None,
        invite: None,
        kick: None,
        notifications: None,
        redact: None,
        state_default: None,
        users: None,
        users_default: None,
    }
}

/// A level as JSON: the one given, else `default`.
pub open spec fn level_or(level: Option<i64>, default: int) -> Json {
    Json::Number(
        match level {
            Some(n) => n as int,
            None => default,
        },
    )
}

proof fn lemma_insert_gets(es: Seq<(Seq<char>, Json)>, key: Seq<char>, value: Json)
    ensures
        forall|other: Seq<char>|
            #[trigger] crate::json::entries_get(entries_insert(es, key, value), other) == if other == key {
                Some(value)
            } else {
                crate::json::entries_get(es, other)
            },
{
    assert forall|other: Seq<char>|
        #[trigger] crate::json::entries_get(entries_insert(es, key, value), other) == if other == key {
            Some(value)
        } else {
            crate::json::entries_get(es, other)
        } by {
        crate::json::lemma_entries_get_insert(es, key, value, other);
    }
}

proof fn lemma_with_level_gets(es: Seq<(Seq<char>, Json)>, key: Seq<char>, level: Option<i64>)
    ensures
        forall|other: Seq<char>|
            #[trigger] crate::json::entries_get(with_level(es, key, level), other) == if other == key
                && level is Some {
                Some(Json::Number(level->Some_0 as int))
            } else {
                crate::json::entries_get(es, other)
            },
{
    if let Some(n) = level {
        lemma_insert_gets(es, key, Json::Number(n as int));
    }
}

/// The first power levels of a room: `ban`, `kick`, `redact` and
/// `state_default` are the override's or 50; `events_default`, `invite`
/// and `users_default` the override's or 0; `events` the override's or
/// none; `users` the override's (in place of the defaults) or the creator
/// at 100, with every invitee at 100 too in a trusted private chat; and a
/// `notifications` block exactly when the override has one.
pub proof fn lemma_power_levels_defaults_and_overrides(
    creator: Seq<char>,
    invitees: Seq<Seq<char>>,
    preset: RoomPreset,
    override_content: Option<RoomPowerLevelsContentOverride>,
)
    ensures
        ({
            let content = power_levels_content(creator, invitees, preset, override_content);
            let o = match override_content {
                Some(o) => o,
                None => no_power_levels_override(),
            };
            &&& json_get(content, "ban"@) == Some(level_or(o.ban, 50))
            &&& json_get(content, "kick"@) == Some(level_or(o.kick, 50))
            &&& json_get(content, "redact"@) == Some(level_or(o.redact, 50))
            &&& json_get(content, "state_default"@) == Some(level_or(o.state_default, 50))
            &&& json_get(content, "events_default"@) == Some(level_or(o.events_default, 0))
            &&& json_get(content, "invite"@) == Some(level_or(o.invite, 0))
            &&& json_get(content, "users_default"@) == Some(level_or(o.users_default, 0))
            &&& json_get(content, "events"@) == Some(
                Json::Object(
                    match o.events {
                        Some(ev) => pairs_entries(ev@),
                        None => Seq::empty(),
                    },
                ),
            )
            &&& json_get(content, "users"@) == Some(
                Json::Object(
                    match o.users {
                        Some(u) => pairs_entries(u@),
                        None => default_power_users(creator, invitees, preset),
                    },
                ),
            )
            &&& json_get(content, "notifications"@) == match o.notifications {
                Some(n) => Some(notifications_json(n)),
                None => None,
            }
        }),
{
    reveal_strlit("ban");
    reveal_strlit("events");
    reveal_strlit("events_default");
    reveal_strlit("invite");
    reveal_strlit("kick");
    reveal_strlit("notifications");
    reveal_strlit("redact");
    reveal_strlit("state_default");
    reveal_strlit("users");
    reveal_strlit("users_default");
    let defaults = default_power_levels(creator, invitees, preset);
    assert(defaults.len() == 9);
    assert("ban"@.len() == 3 && "ban"@[0] == 'b');
    assert("events"@.len() == 6 && "events"@[0] == 'e');
    assert("events_default"@.len() == 14 && "events_default"@[0] == 'e');
    assert("invite"@.len() == 6 && "invite"@[0] == 'i');
    assert("kick"@.len() == 4 && "kick"@[0] == 'k');
    assert("notifications"@.len() == 13 && "notifications"@[0] == 'n');
    assert("redact"@.len() == 6 && "redact"@[0] == 'r');
    assert("state_default"@.len() == 13 && "state_default"@[0] == 's');
    assert("users"@.len() == 5 && "users"@[0] == 'u');
    assert("users_default"@.len() == 13 && "users_default"@[0] == 'u');
    assert forall|i: int| 0 <= i < 9 implies #[trigger] defaults[i].0 != "notifications"@ by {
        assert(defaults[i].0 == seq!["ban"@, "events"@, "events_default"@, "invite"@, "kick"@, "redact"@, "state_default"@, "users"@, "users_default"@][i]);
    }
    crate::json::lemma_entries_get_absent(defaults, "notifications"@);
    crate::json::lemma_entries_get_first(defaults, "ban"@, 0);
    crate::json::lemma_entries_get_first(defaults, "events"@, 1);
    crate::json::lemma_entries_get_first(defaults, "events_default"@, 2);
    crate::json::lemma_entries_get_first(defaults, "invite"@, 3);
    crate::json::lemma_entries_get_first(defaults, "kick"@, 4);
    crate::json::lemma_entries_get_first(defaults, "redact"@, 5);
    crate::json::lemma_entries_get_first(defaults, "state_default"@, 6);
    crate::json::lemma_entries_get_first(defaults, "users"@, 7);
    crate::json::lemma_entries_get_first(defaults, "users_default"@, 8);
    if let Some(o) = override_content {
        let e1 = with_level(defaults, "ban"@, o.ban);
        lemma_with_level_gets(defaults, "ban"@, o.ban);
        let e2 = match o.events {
            Some(ev) => entries_insert(e1, "events"@, Json::Object(pairs_entries(ev@))),
            None => e1,
        };
        if let Some(ev) = o.events {
            lemma_insert_gets(e1, "events"@, Json::Object(pairs_entries(ev@)));
        }
        let e3 = with_level(e2, "events_default"@, o.events_default);
        lemma_with_level_gets(e2, "events_default"@, o.events_default);
        let e4 = with_level(e3, "invite"@, o.invite);
        lemma_with_level_gets(e3, "invite"@, o.invite);
        let e5 = with_level(e4, "kick"@, o.kick);
        lemma_with_level_gets(e4, "kick"@, o.kick);
        let e6 = match o.notifications {
            Some(n) => entries_insert(e5, "notifications"@, notifications_json(n)),
            None => e5,
        };
        if let Some(n) = o.notifications {
            lemma_insert_gets(e5, "notifications"@, notifications_json(n));
        }
        let e7 = with_level(e6, "redact"@, o.redact);
        lemma_with_level_gets(e6, "redact"@, o.redact);
        let e8 = with_level(e7, "state_default"@, o.state_default);
        lemma_with_level_gets(e7, "state_default"@, o.state_default);
        let e9 = match o.users {
            Some(u) => entries_insert(e8, "users"@, Json::Object(pairs_entries(u@))),
            None => e8,
        };
        if let Some(u) = o.users {
            lemma_insert_gets(e8, "users"@, Json::Object(pairs_entries(u@)));
        }
        lemma_with_level_gets(e9, "users_default"@, o.users_default);
        assert(overridden_power_levels(defaults, o) == with_level(e9, "users_default"@, o.users_default));
    }
}

/// A preset sets, in order, the join rule, the history visibility and the
/// guest access of the new room, each as a state event with the empty state
/// key. Only a public chat is open to anyone (`public` join rule, guests
/// `forbidden`); every other preset (private chat, trusted private chat)
/// makes the room invite-only with guests who `can_join`. History is
/// `shared` under every preset.
pub proof fn lemma_preset_join_rules_and_guest_access(preset: RoomPreset)
    ensures
        ({
            let es = preset_events(preset);
            let rule = json_get(es[0].content, "join_rule"@);
            let guests = json_get(es[2].content, "guest_access"@);
            &&& es.len() == 3
            &&& es[0].event_type == "m.room.join_rules"@ && es[0].state_key == ""@
            &&& es[1].event_type == "m.room.history_visibility"@ && es[1].state_key == ""@
            &&& es[2].event_type == "m.room.guest_access"@ && es[2].state_key == ""@
            &&& json_get(es[1].content, "history_visibility"@) == Some(Json::Str("shared"@))
            &&& (rule == Some(Json::Str("public"@)) <==> preset == RoomPreset::PublicChat)
            &&& (preset != RoomPreset::PublicChat ==> rule == Some(Json::Str("invite"@))
                && guests == Some(Json::Str("can_join"@)))
            &&& (preset == RoomPreset::PublicChat ==> guests == Some(Json::Str("forbidden"@)))
        }),
{
    reveal_strlit("public");
    reveal_strlit("invite");
    assert("public"@.len() == 6 && "invite"@.len() == 6 && "public"@[0] != "invite"@[0]);
}

} // verus!
