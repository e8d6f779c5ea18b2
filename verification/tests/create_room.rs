use gridstack::create_room::{
    CreateRoomInfo, CreationContent, CreationContentInfo, InviteThirdPartyIdentifierInfo,
    PreviousRoomDto, RoomPowerLevelsContentOverride, RoomPreset, RoomStateEventInfo,
    RoomVisibility, ValidatedCreateRoomRequest,
};
use gridstack::creation_plan::{build_power_levels, CreateRoomStateEventPayload, RoomCreateContractError};
use gridstack::errors::RoomsApplicationError;
use gridstack::identifiers::{ServerName, UserIdentifier};
use gridstack::json::JsonValue;
use gridstack::room::Room;
use gridstack::versions::RoomVersion;

fn creator_user_id() -> UserIdentifier {
    UserIdentifier::parse("@alice:example.org").expect("valid creator user id")
}

fn home_server_name() -> ServerName {
    ServerName::try_new("example.org").expect("valid homeserver name")
}

fn object(entries: Vec<(&str, JsonValue)>) -> JsonValue {
    JsonValue::Object(
        entries
            .into_iter()
            .map(|(k, v)| (k.to_owned(), v))
            .collect(),
    )
}

fn string(s: &str) -> JsonValue {
    JsonValue::Str(s.to_owned())
}

fn base_create_room_info() -> ValidatedCreateRoomRequest {
    ValidatedCreateRoomRequest {
        creation_content: CreationContent::default(),
        initial_state: Vec::new(),
        invite: Vec::new(),
        invite_3pid: Vec::new(),
        is_direct: false,
        name: None,
        power_level_content_override: RoomPowerLevelsContentOverride::default(),
        preset: RoomPreset::PrivateChat,
        room_alias_name: None,
        room_version: RoomVersion::V1,
        topic: None,
        visibility: RoomVisibility::Private,
    }
}

fn events_of(
    info: ValidatedCreateRoomRequest,
) -> Vec<CreateRoomStateEventPayload> {
    Room::try_create_contract(&creator_user_id(), info, &home_server_name())
        .expect("room creation plan")
        .persistence_payload
        .initial_state
}

#[test]
fn create_room_contract_rejects_non_v1_room_version() {
    let mut create_room_info = base_create_room_info();
    create_room_info.room_version = RoomVersion::V12;

    let error =
        Room::try_create_contract(&creator_user_id(), create_room_info, &home_server_name())
            .expect_err("non-v1 room creation must be rejected");
    assert!(matches!(
        error,
        RoomCreateContractError::UnsupportedRoomVersion { .. }
    ));
}

#[test]
fn create_room_contract_allows_custom_initial_state_event_type() {
    let mut create_room_info = base_create_room_info();
    create_room_info.initial_state = vec![RoomStateEventInfo {
        content: object(vec![("enabled", JsonValue::Bool(true))]),
        state_key: None,
        event_type: "com.example.custom".to_owned(),
    }];

    let contract =
        Room::try_create_contract(&creator_user_id(), create_room_info, &home_server_name())
            .expect("custom state event type with object content should be accepted");
    assert!(
        contract
            .persistence_payload
            .initial_state
            .iter()
            .any(|event| event.event_type == "com.example.custom")
    );
}

#[test]
fn create_room_contract_rejects_non_object_initial_state_content() {
    let mut create_room_info = base_create_room_info();
    create_room_info.initial_state = vec![RoomStateEventInfo {
        content: string("invalid"),
        state_key: None,
        event_type: "m.room.topic".to_owned(),
    }];

    let error =
        Room::try_create_contract(&creator_user_id(), create_room_info, &home_server_name())
            .expect_err("non-object initial_state content must be rejected");
    assert!(matches!(
        error,
        RoomCreateContractError::InvalidRoomStateEventContentType { .. }
    ));
}

#[test]
fn create_room_contract_rejects_m_room_create_in_initial_state() {
    let mut create_room_info = base_create_room_info();
    create_room_info.initial_state = vec![RoomStateEventInfo {
        content: object(vec![]),
        state_key: Some(String::new()),
        event_type: "m.room.create".to_owned(),
    }];

    let error =
        Room::try_create_contract(&creator_user_id(), create_room_info, &home_server_name())
            .expect_err("m.room.create in initial_state must be rejected");
    assert!(matches!(
        error,
        RoomCreateContractError::InitialStateContainsRoomCreateEvent
    ));
}

#[test]
fn create_room_contract_overrides_client_creator_and_room_version() {
    let mut create_room_info = base_create_room_info();
    create_room_info.creation_content.extra_content = vec![
        ("creator".to_owned(), string("not-a-valid-user-id")),
        ("room_version".to_owned(), string("12")),
    ];

    let contract =
        Room::try_create_contract(&creator_user_id(), create_room_info, &home_server_name())
            .expect("server-owned creator and room_version keys must be overridden");
    let create_event = &contract.persistence_payload.initial_state[0];
    assert_eq!(create_event.event_type, "m.room.create");
    assert_eq!(
        create_event.content.get("creator").and_then(|v| v.as_str()),
        Some("@alice:example.org")
    );
    assert_eq!(
        create_event.content.get("room_version").and_then(|v| v.as_str()),
        Some("1")
    );
}

#[test]
fn create_room_contract_allows_additional_creators_in_v1_when_prevalidated() {
    let mut create_room_info = base_create_room_info();
    create_room_info.creation_content.additional_creators = vec!["@bob:example.org".to_owned()];

    Room::try_create_contract(&creator_user_id(), create_room_info, &home_server_name())
        .expect("prevalidated additional_creators should pass for v1 contract build");
}

#[test]
fn create_room_contract_collapses_duplicate_state_keys_with_last_write_wins() {
    let mut create_room_info = base_create_room_info();
    create_room_info.initial_state = vec![
        RoomStateEventInfo {
            content: object(vec![("guest_access", string("can_join"))]),
            state_key: Some(String::new()),
            event_type: "m.room.guest_access".to_owned(),
        },
        RoomStateEventInfo {
            content: object(vec![("history_visibility", string("invited"))]),
            state_key: Some(String::new()),
            event_type: "m.room.history_visibility".to_owned(),
        },
    ];

    let contract =
        Room::try_create_contract(&creator_user_id(), create_room_info, &home_server_name())
            .expect("duplicate preset and initial_state keys must be collapsed");
    let duplicate_guest_access_events = contract
        .persistence_payload
        .initial_state
        .iter()
        .filter(|event| event.event_type == "m.room.guest_access" && event.state_key.is_empty())
        .count();
    let duplicate_history_visibility_events = contract
        .persistence_payload
        .initial_state
        .iter()
        .filter(|event| {
            event.event_type == "m.room.history_visibility" && event.state_key.is_empty()
        })
        .count();

    assert_eq!(duplicate_guest_access_events, 1);
    assert_eq!(duplicate_history_visibility_events, 1);
}

#[test]
fn default_plan_starts_with_create_member_power_levels_and_is_numbered() {
    let events = events_of(base_create_room_info());
    let types: Vec<&str> = events.iter().map(|e| e.event_type.as_str()).collect();
    assert_eq!(
        types,
        vec![
            "m.room.create",
            "m.room.member",
            "m.room.power_levels",
            "m.room.join_rules",
            "m.room.history_visibility",
            "m.room.guest_access",
        ]
    );
    assert_eq!(events[1].state_key, "@alice:example.org");
    for (index, event) in events.iter().enumerate() {
        assert_eq!(event.ordering, index as i32);
    }
    assert_eq!(
        events[3].content.get("join_rule").and_then(|v| v.as_str()),
        Some("invite")
    );
    let users = events[2].content.get("users").expect("users");
    assert_eq!(users.get("@alice:example.org").and_then(|v| v.as_u64()), Some(100));
}

#[test]
fn later_initial_state_overrides_preset_value() {
    let mut info = base_create_room_info();
    info.initial_state = vec![RoomStateEventInfo {
        content: object(vec![("history_visibility", string("invited"))]),
        state_key: None,
        event_type: "m.room.history_visibility".to_owned(),
    }];
    let events = events_of(info);
    let visibility: Vec<&CreateRoomStateEventPayload> = events
        .iter()
        .filter(|e| e.event_type == "m.room.history_visibility")
        .collect();
    assert_eq!(visibility.len(), 1);
    assert_eq!(
        visibility[0].content.get("history_visibility").and_then(|v| v.as_str()),
        Some("invited")
    );
}

#[test]
fn public_chat_with_alias_name_topic_and_invites() {
    let mut info = base_create_room_info();
    info.preset = RoomPreset::PublicChat;
    info.room_alias_name = Some("lobby".to_owned());
    info.name = Some("Lobby".to_owned());
    info.topic = Some("Talk".to_owned());
    info.invite = vec![UserIdentifier::parse("@bob:example.org").unwrap()];
    info.is_direct = true;
    info.invite_3pid = vec![InviteThirdPartyIdentifierInfo {
        id_server: "id.example.org".to_owned(),
        id_access_token: "token".to_owned(),
        medium: "email".to_owned(),
        address: "carol@example.org".to_owned(),
    }];
    let events = events_of(info);
    let alias = events
        .iter()
        .find(|e| e.event_type == "m.room.canonical_alias")
        .expect("alias event");
    assert_eq!(
        alias.content.get("alias").and_then(|v| v.as_str()),
        Some("#lobby:example.org")
    );
    let join_rules = events.iter().find(|e| e.event_type == "m.room.join_rules").unwrap();
    assert_eq!(
        join_rules.content.get("join_rule").and_then(|v| v.as_str()),
        Some("public")
    );
    let invite = events
        .iter()
        .find(|e| e.event_type == "m.room.member" && e.state_key == "@bob:example.org")
        .expect("invite event");
    assert_eq!(
        invite.content.get("membership").and_then(|v| v.as_str()),
        Some("invite")
    );
    assert_eq!(invite.content.get("is_direct").and_then(|v| v.as_bool()), Some(true));
    let third_party = events
        .iter()
        .find(|e| e.event_type == "m.room.third_party_invite")
        .expect("third-party invite event");
    assert!(third_party.state_key.starts_with("invite_"));
    assert_eq!(third_party.state_key.len(), "invite_".len() + 32);
    assert_eq!(
        third_party.content.get("key_validity_url").and_then(|v| v.as_str()),
        Some("https://id.example.org/_matrix/identity/api/v1/pubkey/isvalid")
    );
    let last_types: Vec<&str> = events.iter().map(|e| e.event_type.as_str()).collect();
    assert_eq!(
        &last_types[last_types.len() - 4..],
        &["m.room.name", "m.room.topic", "m.room.member", "m.room.third_party_invite"]
    );
}

#[test]
fn trusted_private_chat_makes_invitees_creators() {
    let mut info = base_create_room_info();
    info.preset = RoomPreset::TrustedPrivateChat;
    info.invite = vec![UserIdentifier::parse("@bob:example.org").unwrap()];
    let events = events_of(info);
    let additional = events[0]
        .content
        .get("additional_creators")
        .and_then(|v| v.as_array())
        .expect("additional creators");
    assert_eq!(additional.len(), 1);
    assert_eq!(additional[0].as_str(), Some("@bob:example.org"));
    let users = events[2].content.get("users").unwrap();
    assert_eq!(users.get("@bob:example.org").and_then(|v| v.as_u64()), Some(100));
}

#[test]
fn overriding_power_levels_moves_them_out_of_third_place() {
    let mut info = base_create_room_info();
    info.initial_state = vec![RoomStateEventInfo {
        content: object(vec![]),
        state_key: None,
        event_type: "m.room.power_levels".to_owned(),
    }];
    let error = Room::try_create_contract(&creator_user_id(), info, &home_server_name())
        .expect_err("power levels no longer third");
    assert!(matches!(
        error,
        RoomCreateContractError::InvalidRoomCreationEventOrder { .. }
    ));
}

#[test]
fn blank_initial_state_type_is_refused() {
    let mut info = base_create_room_info();
    info.initial_state = vec![RoomStateEventInfo {
        content: object(vec![]),
        state_key: None,
        event_type: "  ".to_owned(),
    }];
    let error = Room::try_create_contract(&creator_user_id(), info, &home_server_name())
        .expect_err("blank type");
    assert!(matches!(error, RoomCreateContractError::InvalidRoomStateEventType));
}

#[test]
fn creator_on_other_server_is_refused() {
    let creator = UserIdentifier::parse("@alice:other.org").unwrap();
    let error = Room::try_create_contract(&creator, base_create_room_info(), &home_server_name())
        .expect_err("domain mismatch");
    assert!(matches!(
        error,
        RoomCreateContractError::RoomDomainAndCreatorDomainMismatch { .. }
    ));
}

fn request(version: Option<&str>) -> CreateRoomInfo {
    CreateRoomInfo {
        creation_content: None,
        initial_state: None,
        invite: Some(vec!["@bob:example.org".to_owned()]),
        invite_3pid: None,
        is_direct: None,
        name: Some("Room".to_owned()),
        power_level_content_override: None,
        preset: RoomPreset::default(),
        room_alias_name: Some("  lobby ".to_owned()),
        room_version: version.map(|v| v.to_owned()),
        topic: None,
        visibility: RoomVisibility::default(),
    }
}

#[test]
fn create_room_request_validation() {
    let ok = ValidatedCreateRoomRequest::try_from_request(request(Some("1")), &vec![true])
        .expect("valid request");
    assert_eq!(ok.room_version, RoomVersion::V1);
    assert_eq!(ok.room_alias_name.as_deref(), Some("lobby"));
    assert_eq!(ok.invite[0].as_str(), "@bob:example.org");
    assert!(!ok.is_direct);
    assert_eq!(ok.preset, RoomPreset::PrivateChat);

    let unknown_user = ValidatedCreateRoomRequest::try_from_request(request(None), &vec![false]);
    assert_eq!(unknown_user.err(), Some(RoomsApplicationError::InvalidParameter));

    let version = ValidatedCreateRoomRequest::try_from_request(request(Some("2")), &vec![true]);
    assert_eq!(version.err(), Some(RoomsApplicationError::UnsupportedRoomVersion));

    let mut bad_alias = request(None);
    bad_alias.room_alias_name = Some("a:b".to_owned());
    assert_eq!(
        ValidatedCreateRoomRequest::try_from_request(bad_alias, &vec![true]).err(),
        Some(RoomsApplicationError::InvalidParameter)
    );

    let mut bad_predecessor = request(None);
    bad_predecessor.creation_content = Some(CreationContentInfo {
        predecessor: Some(PreviousRoomDto {
            event_id: " ".to_owned(),
            room_id: "!old:example.org".to_owned(),
        }),
        ..CreationContentInfo::default()
    });
    assert_eq!(
        ValidatedCreateRoomRequest::try_from_request(bad_predecessor, &vec![true]).err(),
        Some(RoomsApplicationError::InvalidParameter)
    );
}

#[test]
fn creation_content_map_sets_federate_and_type() {
    let content = CreationContent {
        additional_creators: vec![],
        federate: false,
        predecessor: Some(PreviousRoomDto {
            event_id: "$e".to_owned(),
            room_id: "!old:example.org".to_owned(),
        }),
        room_type: Some("m.space".to_owned()),
        extra_content: vec![("type".to_owned(), string("other"))],
    };
    let map = content.to_event_content_map();
    assert_eq!(map.get("m.federate").and_then(|v| v.as_bool()), Some(false));
    assert_eq!(map.get("type").and_then(|v| v.as_str()), Some("m.space"));
    assert_eq!(
        map.get("predecessor")
            .and_then(|p| p.get("room_id"))
            .and_then(|v| v.as_str()),
        Some("!old:example.org")
    );
    assert!(map.get("additional_creators").is_none());
}

fn level_field<'a>(content: &'a JsonValue, key: &str) -> Option<&'a JsonValue> {
    match content {
        JsonValue::Object(entries) => entries.iter().find(|(k, _)| k == key).map(|(_, v)| v),
        other => panic!("unexpected {other:?}"),
    }
}
fn level_entries(v: Option<&JsonValue>) -> Vec<(String, i64)> {
    match v {
        Some(JsonValue::Object(entries)) => entries
            .iter()
            .map(|(k, v)| match v {
                JsonValue::Int(n) => (k.clone(), *n),
                other => panic!("unexpected {other:?}"),
            })
            .collect(),
        other => panic!("unexpected {other:?}"),
    }
}

#[test]
fn power_levels_defaults_and_overrides_on_values() {
    let invitees = vec!["@bob:example.org".to_owned()];
    let plain = build_power_levels("@alice:example.org", &invitees, RoomPreset::TrustedPrivateChat, &None);
    assert!(matches!(level_field(&plain, "ban"), Some(JsonValue::Int(50))));
    assert!(matches!(level_field(&plain, "invite"), Some(JsonValue::Int(0))));
    assert!(level_field(&plain, "notifications").is_none());
    assert_eq!(
        level_entries(level_field(&plain, "users")),
        vec![("@alice:example.org".to_owned(), 100), ("@bob:example.org".to_owned(), 100)]
    );
    let mut o = RoomPowerLevelsContentOverride::default();
    o.ban = Some(75);
    o.users = Some(vec![("@carol:example.org".to_owned(), 10)]);
    let overridden = build_power_levels("@alice:example.org", &invitees, RoomPreset::PrivateChat, &Some(o));
    assert!(matches!(level_field(&overridden, "ban"), Some(JsonValue::Int(75))));
    assert!(matches!(level_field(&overridden, "kick"), Some(JsonValue::Int(50))));
    assert_eq!(level_entries(level_field(&overridden, "users")), vec![("@carol:example.org".to_owned(), 10)]);
}
