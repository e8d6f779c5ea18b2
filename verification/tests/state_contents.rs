use gridstack::create_room::{validate_initial_state, RawInitialStateEventDto};
use gridstack::errors::{RoomValidationError, RoomsApplicationError};
use gridstack::json::{parse_json_text, JsonValue};
use gridstack::room_events::StateEventKind;
use gridstack::room_writes::SetRoomStateWithKeyUseCase;
use gridstack::state_contents::state_content_fits;

fn json(text: &str) -> JsonValue {
    parse_json_text(text).expect("valid JSON")
}

fn fits(kind: StateEventKind, text: &str) -> bool {
    state_content_fits(&kind, &json(text))
}

#[test]
fn simple_kinds_need_their_string_field() {
    assert!(fits(StateEventKind::RoomName, r#"{"name": "Lounge"}"#));
    assert!(!fits(StateEventKind::RoomName, r#"{"name": 5}"#));
    assert!(!fits(StateEventKind::RoomName, r#"{}"#));
    assert!(fits(StateEventKind::RoomTopic, r#"{"topic": "t", "extra": [1]}"#));
    assert!(fits(StateEventKind::RoomJoinRules, r#"{"join_rule": "public"}"#));
    assert!(!fits(StateEventKind::RoomJoinRules, r#"{"join_rule": null}"#));
    assert!(fits(StateEventKind::RoomHistoryVisibility, r#"{"history_visibility": "shared"}"#));
    assert!(fits(StateEventKind::RoomGuestAccess, r#"{"guest_access": "can_join"}"#));
    assert!(!fits(StateEventKind::RoomCanonicalAlias, r#"{"alt_aliases": []}"#));
    assert!(fits(StateEventKind::RoomCanonicalAlias, r##"{"alias": "#a:example.org"}"##));
    assert!(fits(StateEventKind::Custom("org.example.x".to_string()), r#"{"anything": 1}"#));
    assert!(fits(StateEventKind::Custom("org.example.x".to_string()), r#"[1]"#));
    assert!(fits(StateEventKind::Custom("org.example.x".to_string()), r#"null"#));
    assert!(!fits(StateEventKind::RoomName, r#""Lounge""#));
}

#[test]
fn fields_may_come_as_a_list_in_declared_order() {
    assert!(fits(StateEventKind::RoomName, r#"["Lounge"]"#));
    assert!(!fits(StateEventKind::RoomName, r#"["Lounge", "extra"]"#));
    assert!(!fits(StateEventKind::RoomName, r#"[]"#));
    assert!(fits(StateEventKind::RoomMember, r#"["join", null]"#));
    assert!(!fits(StateEventKind::RoomMember, r#"["join"]"#));
    assert!(fits(
        StateEventKind::RoomCreate,
        r#"[null, "1", true, null, ["$e", "!r:x"], ["@b:x"]]"#
    ));
    assert!(!fits(StateEventKind::RoomCreate, r#"[null, "1", true, null, ["$e"], null]"#));
}

#[test]
fn member_content_shapes() {
    assert!(fits(StateEventKind::RoomMember, r#"{"membership": "join"}"#));
    assert!(fits(StateEventKind::RoomMember, r#"{"membership": "knock", "is_direct": true}"#));
    assert!(fits(StateEventKind::RoomMember, r#"{"membership": {"ban": null}}"#));
    assert!(!fits(StateEventKind::RoomMember, r#"{"membership": "joined"}"#));
    assert!(!fits(StateEventKind::RoomMember, r#"{"membership": "join", "is_direct": "yes"}"#));
    assert!(!fits(StateEventKind::RoomMember, r#"{}"#));
}

#[test]
fn power_levels_and_create_shapes() {
    assert!(fits(
        StateEventKind::RoomPowerLevels,
        r#"{"ban": 50, "users": {"@a:x": 100}, "notifications": {"room": 50}}"#
    ));
    assert!(fits(StateEventKind::RoomPowerLevels, r#"{"kick": null, "notifications": [20]}"#));
    assert!(!fits(StateEventKind::RoomPowerLevels, r#"{"ban": "50"}"#));
    assert!(!fits(StateEventKind::RoomPowerLevels, r#"{"users": {"@a:x": 1.5}}"#));
    assert!(!fits(StateEventKind::RoomPowerLevels, r#"{"invite": 9223372036854775808}"#));
    assert!(fits(StateEventKind::RoomCreate, r#"{"creator": "@a:x", "m.federate": false}"#));
    assert!(fits(
        StateEventKind::RoomCreate,
        r#"{"predecessor": {"event_id": "$e", "room_id": "!r:x"}, "additional_creators": ["@b:x"]}"#
    ));
    assert!(!fits(StateEventKind::RoomCreate, r#"{"predecessor": {"event_id": "$e"}}"#));
    assert!(!fits(StateEventKind::RoomCreate, r#"{"additional_creators": [1]}"#));
    assert!(fits(
        StateEventKind::ThirdPartyInvite,
        r#"{"display_name": "d", "key_validity_url": "u", "public_key": "k", "medium": "email", "id_server": "s"}"#
    ));
    assert!(!fits(StateEventKind::ThirdPartyInvite, r#"{"display_name": "d"}"#));
}

#[test]
fn set_state_refuses_content_of_the_wrong_shape() {
    let use_case = SetRoomStateWithKeyUseCase::new("!r:example.org".to_string(), "example.org".to_string());
    assert_eq!(use_case.check_content("m.room.name", &json(r#"{"name": "n"}"#)), Ok(()));
    assert_eq!(
        use_case.check_content("m.room.name", &json(r#"{"name": false}"#)),
        Err(RoomsApplicationError::InvalidRoomState)
    );
    assert_eq!(use_case.check_content("org.example.note", &json(r#"{"x": 1}"#)), Ok(()));
}

#[test]
fn legacy_initial_state_content_is_decoded_by_kind() {
    let event = |event_type: &str, content: &str| RawInitialStateEventDto {
        content: json(content),
        state_key: None,
        event_type: event_type.to_string(),
    };
    let ok = validate_initial_state(vec![event("m.room.topic", r#"{"topic": "t"}"#)]);
    assert!(matches!(ok, Ok(v) if v.len() == 1));
    let refused = validate_initial_state(vec![
        event("m.room.topic", r#"{"topic": "t"}"#),
        event(" m.room.join_rules ", r#"{"join_rule": 3}"#),
    ]);
    assert!(matches!(
        refused,
        Err(RoomValidationError::InvalidInitialStateEventContent { event_type }) if event_type == "m.room.join_rules"
    ));
}
