//! Whether the content of a state or message event has the shape its kind
//! asks for: the fields each kind reads, with the JSON types they must have.
//!
//! The shapes follow what serde's derived `Deserialize` accepts, through
//! `serde_json::from_value`, for the content struct of each kind: a struct
//! as an object or as a list of its fields in order, an `Option` field as
//! absent or null, a unit enum variant as its name or as a one-member
//! object with a null value. They are written here from that behaviour;
//! nothing in this crate runs serde to check them against it.
use vstd::prelude::*;

use crate::json::{json_get, Json, JsonValue};
use crate::room_events::{state_event_kind_named, StateEventKind};
use crate::text::{is_blank, is_blank_str, str_eq};

verus! {

/// Whether a content fits the kind that an event type names; a type that
/// names no known kind is a custom one, which takes any content.
pub open spec fn content_fits_event_type(name: Seq<char>, content: Json) -> bool {
    match state_event_kind_named(name) {
        Some(k) => state_content_fits_kind(k, content),
        None => true,
    }
}

/// A number that fits `i64`.
pub open spec fn fits_i64(j: Json) -> bool {
    j matches Json::Number(n) && i64::MIN <= n <= i64::MAX
}

/// A field that must be there and be a string.
pub open spec fn required_string(m: Option<Json>) -> bool {
    m matches Some(j) && j is Str
}

/// A field that may be absent or null, and is a string otherwise.
pub open spec fn optional_string(m: Option<Json>) -> bool {
    match m {
        None => true,
        Some(Json::Null) => true,
        Some(j) => j is Str,
    }
}

/// A field that may be absent or null, and is a boolean otherwise.
pub open spec fn optional_bool(m: Option<Json>) -> bool {
    match m {
        None => true,
        Some(Json::Null) => true,
        Some(j) => j is Bool,
    }
}

/// A field that may be absent or null, and is an `i64` number otherwise.
pub open spec fn optional_level(m: Option<Json>) -> bool {
    match m {
        None => true,
        Some(Json::Null) => true,
        Some(j) => fits_i64(j),
    }
}

/// A list of strings.
pub open spec fn string_list(j: Json) -> bool {
    j matches Json::Array(items) && forall|i: int| 0 <= i < items.len() ==> (#[trigger] items[i]) is Str
}

/// An object whose every member is an `i64` number.
pub open spec fn level_map(j: Json) -> bool {
    match j {
        Json::Object(es) => forall|i: int| 0 <= i < es.len() ==> fits_i64(#[trigger] es[i].1),
        _ => false,
    }
}

/// A struct's fields as serde's derived `Deserialize` reads them from a
/// JSON value (as this crate states that behaviour, unchecked against
/// serde): an object, or a list of exactly `n` values, one per field in
/// declaration order.
pub open spec fn record_form(j: Json, n: int) -> bool {
    j is Object || (j matches Json::Array(items) && items.len() == n)
}

/// The value of the field named `key`, declared at place `at`: the member
/// of an object, or the `at`-th value of a list.
pub open spec fn field(j: Json, key: Seq<char>, at: int) -> Option<Json> {
    match j {
        Json::Object(_) => json_get(j, key),
        Json::Array(items) => if 0 <= at < items.len() {
            Some(items[at])
        } else {
            None
        },
        _ => None,
    }
}

/// A predecessor: `event_id` and `room_id` strings.
pub open spec fn predecessor_shape(j: Json) -> bool {
    &&& record_form(j, 2)
    &&& required_string(field(j, "event_id"@, 0))
    &&& required_string(field(j, "room_id"@, 1))
}

/// A notifications block: an optional `room` level.
pub open spec fn notifications_shape(j: Json) -> bool {
    record_form(j, 1) && optional_level(field(j, "room"@, 0))
}

/// The membership names.
pub open spec fn is_membership_name(s: Seq<char>) -> bool {
    s == "join"@ || s == "invite"@ || s == "leave"@ || s == "ban"@ || s == "knock"@
}

/// A membership: its name, or an object whose one member is the name with
/// a null value (the two forms in which serde's derived `Deserialize` reads
/// a unit enum variant from a JSON value, as this crate states it).
pub open spec fn membership_shape(j: Json) -> bool {
    match j {
        Json::Str(s) => is_membership_name(s),
        Json::Object(es) => es.len() == 1 && is_membership_name(es[0].0) && es[0].1 is Null,
        _ => false,
    }
}

/// A field that may be absent or null, and has the shape `p` otherwise.
pub open spec fn optional_shape(m: Option<Json>, p: spec_fn(Json) -> bool) -> bool {
    match m {
        None => true,
        Some(Json::Null) => true,
        Some(j) => p(j),
    }
}

/// Whether a content has the fields its kind reads, with their types, as
/// serde decodes the kind's content struct: an object (other members are
/// not looked at) or a list of exactly its fields in order. A custom kind
/// takes any content as it is.
pub open spec fn state_content_fits_kind(kind: StateEventKind, c: Json) -> bool {
    match kind {
        StateEventKind::RoomCreate => {
            &&& record_form(c, 6)
            &&& optional_string(field(c, "creator"@, 0))
            &&& optional_string(field(c, "room_version"@, 1))
            &&& optional_bool(field(c, "m.federate"@, 2))
            &&& optional_string(field(c, "type"@, 3))
            &&& optional_shape(field(c, "predecessor"@, 4), |j: Json| predecessor_shape(j))
            &&& optional_shape(field(c, "additional_creators"@, 5), |j: Json| string_list(j))
        },
        StateEventKind::RoomMember => {
            &&& record_form(c, 2)
            &&& field(c, "membership"@, 0) matches Some(m) && membership_shape(m)
            &&& optional_bool(field(c, "is_direct"@, 1))
        },
        StateEventKind::RoomPowerLevels => {
            &&& record_form(c, 9)
            &&& optional_level(field(c, "ban"@, 0))
            &&& optional_level(field(c, "events_default"@, 1))
            &&& optional_level(field(c, "invite"@, 2))
            &&& optional_level(field(c, "kick"@, 3))
            &&& optional_level(field(c, "redact"@, 4))
            &&& optional_level(field(c, "state_default"@, 5))
            &&& optional_level(field(c, "users_default"@, 6))
            &&& optional_shape(field(c, "users"@, 7), |j: Json| level_map(j))
            &&& optional_shape(field(c, "notifications"@, 8), |j: Json| notifications_shape(j))
        },
        StateEventKind::RoomJoinRules => record_form(c, 1) && required_string(
            field(c, "join_rule"@, 0),
        ),
        StateEventKind::RoomHistoryVisibility => record_form(c, 1) && required_string(
            field(c, "history_visibility"@, 0),
        ),
        StateEventKind::RoomGuestAccess => record_form(c, 1) && required_string(
            field(c, "guest_access"@, 0),
        ),
        StateEventKind::RoomCanonicalAlias => record_form(c, 1) && required_string(
            field(c, "alias"@, 0),
        ),
        StateEventKind::RoomName => record_form(c, 1) && required_string(field(c, "name"@, 0)),
        StateEventKind::RoomTopic => record_form(c, 1) && required_string(field(c, "topic"@, 0)),
        StateEventKind::ThirdPartyInvite => {
            &&& record_form(c, 5)
            &&& required_string(field(c, "display_name"@, 0))
            &&& required_string(field(c, "key_validity_url"@, 1))
            &&& required_string(field(c, "public_key"@, 2))
            &&& required_string(field(c, "medium"@, 3))
            &&& required_string(field(c, "id_server"@, 4))
        },
        StateEventKind::Custom(_) => true,
    }
}

/// A string field that is there and not blank.
pub open spec fn filled_string(m: Option<Json>) -> bool {
    m matches Some(Json::Str(s)) && !is_blank(s)
}

/// Whether the content of a message event fits its type: a message needs a
/// `body` and a `msgtype` that are not blank, a redaction a `redacts` that
/// is not blank and an optional string `reason` (each as serde decodes the
/// content struct); any other type takes any content.
pub open spec fn message_content_fits(event_type: Seq<char>, c: Json) -> bool {
    if event_type == "m.room.message"@ {
        &&& record_form(c, 2)
        &&& filled_string(field(c, "body"@, 0))
        &&& filled_string(field(c, "msgtype"@, 1))
    } else if event_type == "m.room.redaction"@ {
        &&& record_form(c, 2)
        &&& filled_string(field(c, "redacts"@, 0))
        &&& optional_string(field(c, "reason"@, 1))
    } else {
        true
    }
}

/// What a message event's content must hold, for object contents: a
/// redaction is accepted exactly when `redacts` is a string that is not
/// blank and `reason`, when given and not null, is a string (any string);
/// a message exactly when `body` and `msgtype` are strings that are not
/// blank; an event of any other type is accepted whatever its content.
pub proof fn lemma_message_content_rules(event_type: Seq<char>, c: Json)
    requires
        c is Object,
    ensures
        event_type == "m.room.redaction"@ ==> (message_content_fits(event_type, c) <==> ((
        json_get(c, "redacts"@) matches Some(Json::Str(r)) && !is_blank(r)) && match json_get(
            c,
            "reason"@,
        ) {
            None => true,
            Some(Json::Null) => true,
            Some(Json::Str(_)) => true,
            Some(_) => false,
        })),
        event_type == "m.room.message"@ ==> (message_content_fits(event_type, c) <==> ((json_get(
            c,
            "body"@,
        ) matches Some(Json::Str(b)) && !is_blank(b)) && (json_get(
            c,
            "msgtype"@,
        ) matches Some(Json::Str(t)) && !is_blank(t)))),
        event_type != "m.room.redaction"@ && event_type != "m.room.message"@ ==> message_content_fits(
            event_type,
            c,
        ),
{
    reveal_strlit("m.room.redaction");
    reveal_strlit("m.room.message");
    assert("m.room.redaction"@.len() == 16 && "m.room.message"@.len() == 14);
}

/// The view of a field that may be missing.
pub open spec fn viewed(m: Option<&JsonValue>) -> Option<Json> {
    match m {
        Some(v) => Some(v@),
        None => None,
    }
}

fn is_record(j: &JsonValue, n: usize) -> (r: bool)
    ensures
        r == record_form(j@, n as int),
{
    match j {
        JsonValue::Object(_) => true,
        JsonValue::Array(items) => {
            proof {
                crate::json::lemma_array_view(*items);
            }
            items.len() == n
        },
        _ => false,
    }
}

fn field_of<'a>(j: &'a JsonValue, key: &str, at: usize) -> (r: Option<&'a JsonValue>)
    ensures
        viewed(r) == field(j@, key@, at as int),
{
    match j {
        JsonValue::Object(_) => j.get(key),
        JsonValue::Array(items) => {
            proof {
                crate::json::lemma_array_view(*items);
            }
            if at < items.len() {
                Some(&items[at])
            } else {
                None
            }
        },
        _ => None,
    }
}

fn is_i64(j: &JsonValue) -> (r: bool)
    ensures
        r == fits_i64(j@),
{
    match j {
        JsonValue::Int(_) => true,
        JsonValue::UInt(u) => *u <= 9223372036854775807u64,
        _ => false,
    }
}

fn is_str(j: &JsonValue) -> (r: bool)
    ensures
        r == (j@ is Str),
{
    match j {
        JsonValue::Str(_) => true,
        _ => false,
    }
}

fn is_null(j: &JsonValue) -> (r: bool)
    ensures
        r == (j@ is Null),
{
    match j {
        JsonValue::Null => true,
        _ => false,
    }
}

fn required_str(m: Option<&JsonValue>) -> (r: bool)
    ensures
        r == required_string(viewed(m)),
{
    match m {
        Some(v) => is_str(v),
        None => false,
    }
}

fn filled_str(m: Option<&JsonValue>) -> (r: bool)
    ensures
        r == filled_string(viewed(m)),
{
    match m {
        Some(JsonValue::Str(s)) => !is_blank_str(s.as_str()),
        _ => false,
    }
}

fn optional_str(m: Option<&JsonValue>) -> (r: bool)
    ensures
        r == optional_string(viewed(m)),
{
    match m {
        Some(v) => is_null(v) || is_str(v),
        None => true,
    }
}

fn optional_flag(m: Option<&JsonValue>) -> (r: bool)
    ensures
        r == optional_bool(viewed(m)),
{
    match m {
        Some(JsonValue::Null) => true,
        Some(JsonValue::Bool(_)) => true,
        Some(_) => false,
        None => true,
    }
}

fn optional_int(m: Option<&JsonValue>) -> (r: bool)
    ensures
        r == optional_level(viewed(m)),
{
    match m {
        Some(v) => is_null(v) || is_i64(v),
        None => true,
    }
}

fn is_string_list(j: &JsonValue) -> (r: bool)
    ensures
        r == string_list(j@),
{
    match j {
        JsonValue::Array(items) => {
            let ghost view = j@->Array_0;
            assert(view.len() == items@.len());
            let mut i: usize = 0;
            while i < items.len()
                invariant
                    i <= items@.len(),
                    view == j@->Array_0,
                    view.len() == items@.len(),
                    forall|k: int| 0 <= k < items@.len() ==> view[k] == (#[trigger] items@[k])@,
                    forall|k: int| 0 <= k < i ==> (#[trigger] view[k]) is Str,
                decreases items.len() - i,
            {
                if !is_str(&items[i]) {
                    assert(!(view[i as int] is Str));
                    return false;
                }
                i = i + 1;
            }
            true
        },
        _ => false,
    }
}

proof fn lemma_level_map_needs_each(s: Seq<(Seq<char>, Json)>, i: int)
    requires
        0 <= i < s.len(),
        !fits_i64(s[i].1),
    ensures
        !level_map(Json::Object(s)),
{
    let j = Json::Object(s);
    assert(j matches Json::Object(es) && es == s);
    if level_map(j) {
        assert(forall|k: int| 0 <= k < s.len() ==> fits_i64(#[trigger] s[k].1));
        assert(fits_i64(s[i].1));
    }
}

fn is_level_map(j: &JsonValue) -> (r: bool)
    ensures
        r == level_map(j@),
{
    match j {
        JsonValue::Object(entries) => {
            let ghost view = crate::json::entries_view(entries@);
            proof {
                crate::json::lemma_object_view(*entries);
            }
            assert(j@ == Json::Object(view));
            let mut i: usize = 0;
            while i < entries.len()
                invariant
                    i <= entries@.len(),
                    view == crate::json::entries_view(entries@),
                    j@ == Json::Object(view),
                    forall|k: int| 0 <= k < i ==> fits_i64((#[trigger] view[k]).1),
                decreases entries.len() - i,
            {
                if !is_i64(&entries[i].1) {
                    assert(!fits_i64(view[i as int].1));
                    proof {
                        lemma_level_map_needs_each(view, i as int);
                    }
                    return false;
                }
                i = i + 1;
            }
            true
        },
        _ => false,
    }
}

fn is_predecessor(j: &JsonValue) -> (r: bool)
    ensures
        r == predecessor_shape(j@),
{
    is_record(j, 2) && required_str(field_of(j, "event_id", 0)) && required_str(
        field_of(j, "room_id", 1),
    )
}

fn is_notifications(j: &JsonValue) -> (r: bool)
    ensures
        r == notifications_shape(j@),
{
    is_record(j, 1) && optional_int(field_of(j, "room", 0))
}

fn is_membership_str(s: &str) -> (r: bool)
    ensures
        r == is_membership_name(s@),
{
    str_eq(s, "join") || str_eq(s, "invite") || str_eq(s, "leave") || str_eq(s, "ban") || str_eq(
        s,
        "knock",
    )
}

fn is_membership(j: &JsonValue) -> (r: bool)
    ensures
        r == membership_shape(j@),
{
    match j {
        JsonValue::Str(s) => is_membership_str(s.as_str()),
        JsonValue::Object(entries) => {
            let ghost view = crate::json::entries_view(entries@);
            proof {
                crate::json::lemma_object_view(*entries);
            }
            assert(j@ == Json::Object(view));
            entries.len() == 1 && is_membership_str(entries[0].0.as_str()) && is_null(&entries[0].1)
        },
        _ => false,
    }
}

fn optional_predecessor(m: Option<&JsonValue>) -> (r: bool)
    ensures
        r == optional_shape(viewed(m), |j: Json| predecessor_shape(j)),
{
    match m {
        Some(v) => is_null(v) || is_predecessor(v),
        None => true,
    }
}

fn optional_string_list(m: Option<&JsonValue>) -> (r: bool)
    ensures
        r == optional_shape(viewed(m), |j: Json| string_list(j)),
{
    match m {
        Some(v) => is_null(v) || is_string_list(v),
        None => true,
    }
}

fn optional_level_map(m: Option<&JsonValue>) -> (r: bool)
    ensures
        r == optional_shape(viewed(m), |j: Json| level_map(j)),
{
    match m {
        Some(v) => is_null(v) || is_level_map(v),
        None => true,
    }
}

fn optional_notifications(m: Option<&JsonValue>) -> (r: bool)
    ensures
        r == optional_shape(viewed(m), |j: Json| notifications_shape(j)),
{
    match m {
        Some(v) => is_null(v) || is_notifications(v),
        None => true,
    }
}

/// Decides whether a content has the fields its kind reads, with their
/// types, as serde decodes the kind's content struct; a custom kind takes
/// any content.
pub fn state_content_fits(kind: &StateEventKind, content: &JsonValue) -> (r: bool)
    ensures
        r == state_content_fits_kind(*kind, content@),
{
    let c = content;
    match kind {
        StateEventKind::RoomCreate => is_record(c, 6) && optional_str(field_of(c, "creator", 0))
            && optional_str(field_of(c, "room_version", 1)) && optional_flag(
            field_of(c, "m.federate", 2),
        ) && optional_str(field_of(c, "type", 3)) && optional_predecessor(
            field_of(c, "predecessor", 4),
        ) && optional_string_list(field_of(c, "additional_creators", 5)),
        StateEventKind::RoomMember => is_record(c, 2) && (match field_of(c, "membership", 0) {
            Some(m) => is_membership(m),
            None => false,
        }) && optional_flag(field_of(c, "is_direct", 1)),
        StateEventKind::RoomPowerLevels => is_record(c, 9) && optional_int(field_of(c, "ban", 0))
            && optional_int(field_of(c, "events_default", 1)) && optional_int(
            field_of(c, "invite", 2),
        ) && optional_int(field_of(c, "kick", 3)) && optional_int(field_of(c, "redact", 4))
            && optional_int(field_of(c, "state_default", 5)) && optional_int(
            field_of(c, "users_default", 6),
        ) && optional_level_map(field_of(c, "users", 7)) && optional_notifications(
            field_of(c, "notifications", 8),
        ),
        StateEventKind::RoomJoinRules => is_record(c, 1) && required_str(
            field_of(c, "join_rule", 0),
        ),
        StateEventKind::RoomHistoryVisibility => is_record(c, 1) && required_str(
            field_of(c, "history_visibility", 0),
        ),
        StateEventKind::RoomGuestAccess => is_record(c, 1) && required_str(
            field_of(c, "guest_access", 0),
        ),
        StateEventKind::RoomCanonicalAlias => is_record(c, 1) && required_str(
            field_of(c, "alias", 0),
        ),
        StateEventKind::RoomName => is_record(c, 1) && required_str(field_of(c, "name", 0)),
        StateEventKind::RoomTopic => is_record(c, 1) && required_str(field_of(c, "topic", 0)),
        StateEventKind::ThirdPartyInvite => is_record(c, 5) && required_str(
            field_of(c, "display_name", 0),
        ) && required_str(field_of(c, "key_validity_url", 1)) && required_str(
            field_of(c, "public_key", 2),
        ) && required_str(field_of(c, "medium", 3)) && required_str(field_of(c, "id_server", 4)),
        StateEventKind::Custom(_) => true,
    }
}

/// Decides whether the content of a message event fits its type.
pub fn message_content_fits_type(event_type: &str, content: &JsonValue) -> (r: bool)
    ensures
        r == message_content_fits(event_type@, content@),
{
    let c = content;
    if str_eq(event_type, "m.room.message") {
        is_record(c, 2) && filled_str(field_of(c, "body", 0)) && filled_str(
            field_of(c, "msgtype", 1),
        )
    } else if str_eq(event_type, "m.room.redaction") {
        is_record(c, 2) && filled_str(field_of(c, "redacts", 0)) && optional_str(
            field_of(c, "reason", 1),
        )
    } else {
        true
    }
}

} // verus!
