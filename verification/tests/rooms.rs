use gridstack::errors::RoomsApplicationError;
use gridstack::json::JsonValue;
use gridstack::room_access::{
    parse_supported_room_version, require_room_identifier, require_room_state_read_access,
    DomainError, GetJoinedMembersUseCase, InviteUserCommand, InviteUserUseCase, JoinRoomCommand,
    JoinRoomUseCase, JoinedRoomMemberProfile, LeaveRoomCommand, LeaveRoomUseCase, MembershipEvent,
    MembershipStep,
    RoomJoinContext,
};
use gridstack::room_events::{
    extract_event_relation, filter_member_events, map_receipt_persistence_error, map_room_persistence_error,
    room_state_event_to_value, GetRoomStateWithKeyFormatQuery, RoomMembershipFilter, RoomStateEvent,
    StateEventKind,
};
use gridstack::room_queries::{
    encode_stream_token, map_public_room_chunk, parse_public_rooms_offset,
    parse_room_stream_position_token, public_rooms_page_batches, GetPublicRoomsCommand,
    GetPublicRoomsQuery, GetRoomMessagesCommand, GetRoomMessagesQuery, PublicRoomRosterEntry,
    RoomMessageDirection,
};
use gridstack::room_writes::{
    canonical_alias_list, check_receipt_event_id, parse_room_alias_localpart_for_local_server,
    validate_receipt_thread_id, RoomReceiptType, SendRoomMessageEventUseCase, SendStep,
    SetReadMarkersCommand, SetReadMarkersRequestDto, SetReadMarkersUseCase,
    SetRoomStateWithKeyUseCase,
};
use gridstack::identifiers::{RoomIdentifier, RoomIdentifierValidationError, UserIdentifier};
use gridstack::room::Room;
use gridstack::versions::RoomVersion;

fn context(membership: Option<&str>, visibility: Option<&str>) -> RoomJoinContext {
    RoomJoinContext {
        room_version: None,
        visibility: visibility.map(str::to_owned),
        membership_state: membership.map(str::to_owned),
    }
}

fn membership(sender: &str, state_key: &str, membership: &str) -> MembershipEvent {
    MembershipEvent {
        room_id: "!room:example.org".to_owned(),
        sender: sender.to_owned(),
        state_key: state_key.to_owned(),
        membership: membership.to_owned(),
    }
}

fn obj(entries: Vec<(&str, JsonValue)>) -> JsonValue {
    JsonValue::Object(entries.into_iter().map(|(k, v)| (k.to_owned(), v)).collect())
}

fn state_event(event_type: &str, state_key: &str, content: JsonValue) -> RoomStateEvent {
    RoomStateEvent {
        content,
        event_id: "$e".to_owned(),
        origin_server_ts: 5,
        room_id: "!r:example.org".to_owned(),
        sender: "@a:example.org".to_owned(),
        state_key: state_key.to_owned(),
        event_type: event_type.to_owned(),
        unsigned: None,
    }
}

#[test]
fn join_decisions() {
    let use_case = JoinRoomUseCase::new(
        "!room:example.org".to_owned(),
        JoinRoomCommand { reason: None, third_party_signed: None },
    );
    assert_eq!(use_case.check_request(), Ok(()));
    let me = UserIdentifier::parse("@me:example.org").unwrap();
    assert_eq!(use_case.execute(&me, Ok(Some(context(Some("join"), None))), "1"), Ok(MembershipStep::AlreadyDone));
    assert_eq!(
        use_case.execute(&me, Ok(Some(context(None, Some("public")))), "1"),
        Ok(MembershipStep::Append {
            room_version: RoomVersion::V1,
            event: membership("@me:example.org", "@me:example.org", "join"),
        })
    );
    assert_eq!(
        use_case.execute(&me, Ok(Some(context(Some("leave"), Some("private")))), "1"),
        Err(RoomsApplicationError::Forbidden)
    );
    assert_eq!(use_case.execute(&me, Ok(None), "1"), Err(RoomsApplicationError::Forbidden));
    assert_eq!(use_case.execute(&me, Err(DomainError::NotFound), "1"), Err(RoomsApplicationError::Internal));
    assert_eq!(
        use_case.execute(&me, Ok(Some(context(Some("invite"), None))), "7"),
        Err(RoomsApplicationError::Internal)
    );
    let bad = JoinRoomUseCase::new("room".to_owned(), JoinRoomCommand { reason: None, third_party_signed: None });
    assert_eq!(bad.check_request(), Err(RoomsApplicationError::Forbidden));
}

#[test]
fn leave_and_invite_decisions() {
    let leave = LeaveRoomUseCase::new("!room:example.org".to_owned(), LeaveRoomCommand { reason: None });
    let me = UserIdentifier::parse("@me:example.org").unwrap();
    assert_eq!(leave.execute(&me, Ok(Some(context(Some("leave"), None))), "1"), Ok(MembershipStep::AlreadyDone));
    assert_eq!(
        leave.execute(&me, Ok(Some(context(Some("invite"), None))), "2"),
        Ok(MembershipStep::Append {
            room_version: RoomVersion::V2,
            event: membership("@me:example.org", "@me:example.org", "leave"),
        })
    );
    assert_eq!(leave.execute(&me, Ok(Some(context(Some("ban"), None))), "1"), Err(RoomsApplicationError::Forbidden));

    let alice = UserIdentifier::parse("@alice:example.org").unwrap();
    let invite = InviteUserUseCase::new("!room:example.org".to_owned(), alice.clone());
    assert_eq!(invite.check_inviter(Ok(Some(context(Some("join"), None))), "1"), Ok(RoomVersion::V1));
    assert_eq!(invite.check_inviter(Ok(Some(context(Some("invite"), None))), "1"), Err(RoomsApplicationError::Forbidden));
    let self_invite = InviteUserCommand::MatrixUser { invited_user_id: alice, reason: None };
    assert_eq!(invite.check_invitee(&self_invite, true), Err(RoomsApplicationError::Forbidden));
    let bob = InviteUserCommand::MatrixUser {
        invited_user_id: UserIdentifier::parse("@bob:example.org").unwrap(),
        reason: None,
    };
    assert_eq!(invite.check_invitee(&bob, false), Err(RoomsApplicationError::InvalidParameter));
    assert_eq!(invite.check_invitee(&bob, true), Ok(()));
    assert_eq!(
        invite.execute(&bob, true, Ok(Some(context(Some("ban"), None))), RoomVersion::V1),
        Err(RoomsApplicationError::Forbidden)
    );
    assert_eq!(
        invite.execute(&bob, true, Ok(Some(context(Some("leave"), None))), RoomVersion::V1),
        Ok(MembershipStep::Append {
            room_version: RoomVersion::V1,
            event: membership("@alice:example.org", "@bob:example.org", "invite"),
        })
    );
    assert_eq!(
        invite.execute(&self_invite, true, Ok(Some(context(None, None))), RoomVersion::V1),
        Err(RoomsApplicationError::Forbidden)
    );
    let third_party = InviteUserCommand::ThirdPartyIdentifier {
        id_server: "id.example.org".to_owned(),
        medium: "email".to_owned(),
        address: "a@example.org".to_owned(),
    };
    assert_eq!(
        invite.execute(&third_party, false, Ok(Some(context(None, None))), RoomVersion::V1),
        Err(RoomsApplicationError::Forbidden)
    );
}

#[test]
fn read_access_and_members() {
    assert_eq!(require_room_state_read_access(Ok(Some(context(Some("leave"), None)))), Ok(()));
    assert_eq!(
        require_room_state_read_access(Ok(Some(context(Some("invite"), None)))),
        Err(RoomsApplicationError::Forbidden)
    );
    assert_eq!(require_room_identifier("!a:example.org"), Ok(()));
    assert_eq!(parse_supported_room_version("2"), Some(RoomVersion::V2));
    assert_eq!(parse_supported_room_version("3"), None);

    let members = GetJoinedMembersUseCase::new("!a:example.org".to_owned());
    let profiles = vec![
        JoinedRoomMemberProfile { user_id: "@a:example.org".to_owned(), display_name: None, avatar_url: None },
        JoinedRoomMemberProfile { user_id: "@b:example.org".to_owned(), display_name: Some("B".to_owned()), avatar_url: None },
    ];
    assert_eq!(members.check_member_access(&profiles, &vec![Ok(false), Ok(true)]), Ok(()));
    assert_eq!(
        members.check_member_access(&profiles, &vec![Ok(false), Ok(false)]),
        Err(RoomsApplicationError::Forbidden)
    );
    assert_eq!(
        members.check_member_access(&profiles, &vec![Err(()), Ok(true)]),
        Err(RoomsApplicationError::Internal)
    );
    let listing = members.list_members(profiles);
    assert_eq!(listing.joined.len(), 2);
    assert_eq!(listing.joined[1].0, "@b:example.org");
    assert_eq!(listing.joined[1].1.display_name.as_deref(), Some("B"));
}

#[test]
fn member_listing_filters() {
    let events = vec![
        state_event("m.room.member", "@a:example.org", obj(vec![("membership", JsonValue::Str("join".to_owned()))])),
        state_event("m.room.member", "@b:example.org", obj(vec![("membership", JsonValue::Str("leave".to_owned()))])),
        state_event("m.room.name", "", obj(vec![("name", JsonValue::Str("x".to_owned()))])),
    ];
    let all = filter_member_events(&events, None, None);
    assert_eq!(all.chunk.len(), 2);
    let joined = filter_member_events(&events, Some(RoomMembershipFilter::Join), None);
    assert_eq!(joined.chunk.len(), 1);
    assert_eq!(joined.chunk[0].state_key, "@a:example.org");
    let not_joined = filter_member_events(&events, None, Some(RoomMembershipFilter::Join));
    assert_eq!(not_joined.chunk.len(), 1);
    assert_eq!(not_joined.chunk[0].state_key, "@b:example.org");
}

#[test]
fn state_values_and_errors() {
    let value = room_state_event_to_value(state_event("m.room.name", "", obj(vec![])));
    assert_eq!(value.get("type").and_then(|v| v.as_str()), Some("m.room.name"));
    assert_eq!(value.get("origin_server_ts").and_then(|v| v.as_u64()), Some(5));
    assert!(value.get("unsigned").is_none());
    let query = GetRoomStateWithKeyFormatQuery { format: Some("event".to_owned()) };
    assert_eq!(query.request_full_event(), Ok(true));
    let query = GetRoomStateWithKeyFormatQuery { format: Some("other".to_owned()) };
    assert_eq!(query.request_full_event(), Err(RoomsApplicationError::InvalidParameter));
    assert_eq!(
        map_room_persistence_error(DomainError::InvalidRequest("duplicate key in room_aliases".to_owned()), "!r:x"),
        RoomsApplicationError::RoomInUse
    );
    assert_eq!(
        map_room_persistence_error(DomainError::InvalidRequest("other".to_owned()), "!r:x"),
        RoomsApplicationError::Internal
    );
    assert_eq!(map_room_persistence_error(DomainError::AlreadyExists, "!r:x"), RoomsApplicationError::RoomInUse);
    assert_eq!(map_receipt_persistence_error(DomainError::NotFound), RoomsApplicationError::InvalidParameter);
    assert_eq!(StateEventKind::parse("m.room.topic"), StateEventKind::RoomTopic);
    assert_eq!(StateEventKind::parse("com.example"), StateEventKind::Custom("com.example".to_owned()));
}

#[test]
fn public_room_directory() {
    assert_eq!(parse_public_rooms_offset(None), Ok(0));
    assert_eq!(parse_public_rooms_offset(Some(" 20 ")), Ok(20));
    assert_eq!(parse_public_rooms_offset(Some("  ")), Err(RoomsApplicationError::InvalidParameter));
    assert_eq!(parse_public_rooms_offset(Some("-1")), Err(RoomsApplicationError::InvalidParameter));
    assert_eq!(
        public_rooms_page_batches(10, 5, 5, 30),
        (Some("15".to_owned()), Some("5".to_owned()))
    );
    assert_eq!(public_rooms_page_batches(0, 5, 5, 5), (None, None));
    assert_eq!(public_rooms_page_batches(3, 2, 10, 100), (Some("5".to_owned()), Some("0".to_owned())));
    let command = GetPublicRoomsCommand::try_from_query(GetPublicRoomsQuery { limit: None, server: None, since: None }).unwrap();
    assert_eq!(command.limit, 10);
    assert!(GetPublicRoomsCommand::try_from_query(GetPublicRoomsQuery { limit: Some(-1), server: None, since: None }).is_err());
    let state = vec![
        state_event("m.room.history_visibility", "", obj(vec![("history_visibility", JsonValue::Str("world_readable".to_owned()))])),
        state_event("m.room.topic", "x", obj(vec![("topic", JsonValue::Str("ignored".to_owned()))])),
    ];
    let chunk = map_public_room_chunk(
        PublicRoomRosterEntry {
            room_id: "!r:example.org".to_owned(),
            num_joined_members: 3,
            fallback_name: Some("Fallback".to_owned()),
            fallback_topic: None,
        },
        &state,
    );
    assert!(chunk.world_readable);
    assert!(!chunk.guest_can_join);
    assert_eq!(chunk.name.as_deref(), Some("Fallback"));
    assert_eq!(chunk.topic, None);
}

#[test]
fn message_pagination_tokens() {
    assert_eq!(parse_room_stream_position_token("12"), Ok(12));
    assert_eq!(parse_room_stream_position_token("s42_0_0"), Ok(42));
    assert_eq!(parse_room_stream_position_token("t7x9"), Ok(7));
    assert_eq!(parse_room_stream_position_token("abc"), Err(RoomsApplicationError::InvalidParameter));
    assert_eq!(encode_stream_token(42), "s42_0_0");
    assert_eq!(parse_room_stream_position_token(&encode_stream_token(9000)), Ok(9000));
    let query = GetRoomMessagesQuery { from_token: None, to_token: None, dir: Some("b".to_owned()), limit: Some(5), filter: None };
    let command = GetRoomMessagesCommand::try_from_query(query, None).unwrap();
    assert_eq!(command.direction, RoomMessageDirection::Backward);
    assert_eq!(command.limit, 5);
    let query = GetRoomMessagesQuery { from_token: None, to_token: None, dir: Some("x".to_owned()), limit: None, filter: None };
    assert!(GetRoomMessagesCommand::try_from_query(query, None).is_err());
    let query = GetRoomMessagesQuery { from_token: None, to_token: None, dir: Some("f".to_owned()), limit: None, filter: Some("{".to_owned()) };
    assert!(GetRoomMessagesCommand::try_from_query(query, Some(Err(()))).is_err());
}

#[test]
fn receipts_and_aliases() {
    assert_eq!(RoomReceiptType::parse("m.read.private"), Some(RoomReceiptType::ReadPrivate));
    assert_eq!(RoomReceiptType::FullyRead.as_str(), "m.fully_read");
    assert_eq!(validate_receipt_thread_id(RoomReceiptType::Read, Some(" main ")), Ok(Some("main".to_owned())));
    assert_eq!(validate_receipt_thread_id(RoomReceiptType::Read, Some("$t")), Ok(Some("$t".to_owned())));
    assert_eq!(validate_receipt_thread_id(RoomReceiptType::Read, Some("x")), Err(RoomsApplicationError::InvalidParameter));
    assert_eq!(validate_receipt_thread_id(RoomReceiptType::FullyRead, Some("main")), Err(RoomsApplicationError::InvalidParameter));
    assert_eq!(validate_receipt_thread_id(RoomReceiptType::Read, None), Ok(None));
    assert_eq!(check_receipt_event_id(" $e "), Ok("$e".to_owned()));
    assert_eq!(check_receipt_event_id("e"), Err(RoomsApplicationError::InvalidParameter));
    assert_eq!(parse_room_alias_localpart_for_local_server("#a:example.org", "example.org"), Some("a"));
    assert_eq!(parse_room_alias_localpart_for_local_server("#a:other.org", "example.org"), None);
    assert_eq!(parse_room_alias_localpart_for_local_server("a:example.org", "example.org"), None);
    let content = obj(vec![
        ("alias", JsonValue::Str("#a:example.org".to_owned())),
        ("alt_aliases", JsonValue::Array(vec![JsonValue::Str("#b:example.org".to_owned())])),
    ]);
    assert_eq!(canonical_alias_list(&content), Ok(vec!["#a:example.org".to_owned(), "#b:example.org".to_owned()]));
    let bad = obj(vec![("alt_aliases", JsonValue::Array(vec![JsonValue::Int(1)]))]);
    assert_eq!(canonical_alias_list(&bad), Err(RoomsApplicationError::InvalidParameter));
    let writer = SetRoomStateWithKeyUseCase::new("!r:example.org".to_owned(), "example.org".to_owned());
    assert_eq!(writer.aliases_to_check("m.room.canonical_alias", &content), Ok(vec!["a".to_owned(), "b".to_owned()]));
    assert_eq!(writer.check_request(&JsonValue::Null), Err(RoomsApplicationError::InvalidParameter));
    let sender = SendRoomMessageEventUseCase::new("!r:example.org".to_owned());
    assert_eq!(sender.check_request("m.room.message", "t1", &obj(vec![])), Ok(()));
    assert_eq!(sender.check_request("m.room.topic", "t1", &obj(vec![])), Err(RoomsApplicationError::InvalidParameter));
    assert_eq!(sender.check_request(" ", "t1", &obj(vec![])), Err(RoomsApplicationError::InvalidParameter));
}

#[test]
fn joined_members_answer() {
    let use_case = GetJoinedMembersUseCase::new("!room:example.org".to_string());
    let profiles = || {
        vec![
            JoinedRoomMemberProfile { user_id: "@a:example.org".into(), display_name: Some("A".into()), avatar_url: None },
            JoinedRoomMemberProfile { user_id: "@b:example.org".into(), display_name: None, avatar_url: None },
        ]
    };
    let joined = use_case
        .execute(Ok(Some(context(Some("join"), None))), Ok(profiles()), &vec![Ok(false), Ok(false)])
        .unwrap();
    assert_eq!(joined.joined.len(), 2);
    assert_eq!(joined.joined[0].0, "@a:example.org");
    assert_eq!(joined.joined[0].1.display_name.as_deref(), Some("A"));
    assert_eq!(
        use_case.execute(Ok(None), Ok(profiles()), &vec![Ok(false), Ok(false)]).err(),
        Some(RoomsApplicationError::Forbidden)
    );
    assert!(use_case.execute(Ok(None), Ok(profiles()), &vec![Ok(false), Ok(true)]).is_ok());
    assert_eq!(
        use_case.execute(Ok(None), Ok(profiles()), &vec![Err(()), Ok(true)]).err(),
        Some(RoomsApplicationError::Internal)
    );
    assert_eq!(
        use_case.execute(Err(DomainError::NotFound), Ok(profiles()), &vec![Ok(true), Ok(true)]).err(),
        Some(RoomsApplicationError::Internal)
    );
    assert_eq!(
        use_case.execute(Ok(Some(context(Some("join"), None))), Err(DomainError::NotFound), &Vec::new()).err(),
        Some(RoomsApplicationError::Internal)
    );
}

#[test]
fn send_with_a_used_transaction_id_writes_nothing() {
    let sender = SendRoomMessageEventUseCase::new("!r:example.org".to_owned());
    let message = obj(vec![
        ("body", JsonValue::Str("hello".to_owned())),
        ("msgtype", JsonValue::Str("m.text".to_owned())),
    ]);
    assert_eq!(
        sender.execute("m.room.message", &message, Ok(Some("$old".to_owned())), Ok(None), "1"),
        Ok(SendStep::Existing { event_id: "$old".to_owned() })
    );
    assert_eq!(
        sender.execute("m.room.message", &message, Ok(None), Ok(Some(context(Some("join"), None))), "1"),
        Ok(SendStep::Append { room_version: RoomVersion::V1 })
    );
    assert_eq!(
        sender.execute("m.room.message", &message, Ok(None), Ok(Some(context(Some("leave"), None))), "1"),
        Err(RoomsApplicationError::Forbidden)
    );
    assert_eq!(
        sender.execute("m.room.message", &message, Err(DomainError::NotFound), Ok(None), "1"),
        Err(RoomsApplicationError::Internal)
    );
    let blank_body = obj(vec![
        ("body", JsonValue::Str("  ".to_owned())),
        ("msgtype", JsonValue::Str("m.text".to_owned())),
    ]);
    assert_eq!(
        sender.execute("m.room.message", &blank_body, Ok(None), Ok(Some(context(Some("join"), None))), "1"),
        Err(RoomsApplicationError::InvalidRoomState)
    );
    assert_eq!(
        sender.check_content("m.room.redaction", &obj(vec![("redacts", JsonValue::Str("".to_owned()))])),
        Err(RoomsApplicationError::InvalidRoomState)
    );
    assert_eq!(
        sender.check_content("m.room.redaction", &obj(vec![("redacts", JsonValue::Str("$e".to_owned()))])),
        Ok(())
    );
    assert_eq!(sender.check_content("org.example.custom", &JsonValue::Null), Ok(()));
}

#[test]
fn read_markers_are_all_checked_before_any_is_stored() {
    let use_case = SetReadMarkersUseCase::new(
        "!r:example.org".to_owned(),
        SetReadMarkersCommand::from_request(SetReadMarkersRequestDto {
            fully_read_event_id: Some(" $a ".to_owned()),
            read_event_id: Some("$b".to_owned()),
            private_read_event_id: None,
        }),
    );
    let markers = use_case.execute(vec![Ok(true), Ok(true)]).unwrap();
    assert_eq!(
        markers,
        vec![(RoomReceiptType::FullyRead, "$a".to_owned()), (RoomReceiptType::Read, "$b".to_owned())]
    );
    assert_eq!(use_case.execute(vec![Ok(true), Ok(false)]), Err(RoomsApplicationError::InvalidParameter));
    assert_eq!(use_case.execute(vec![Err(DomainError::NotFound), Ok(true)]), Err(RoomsApplicationError::Internal));
    let bad_id = SetReadMarkersUseCase::new(
        "!r:example.org".to_owned(),
        SetReadMarkersCommand::from_request(SetReadMarkersRequestDto {
            fully_read_event_id: None,
            read_event_id: Some("$b".to_owned()),
            private_read_event_id: Some("nope".to_owned()),
        }),
    );
    assert_eq!(bad_id.execute(vec![Ok(true), Ok(true)]), Err(RoomsApplicationError::InvalidParameter));
}

#[test]
fn room_identifier_text_and_room_errors() {
    let with_server = RoomIdentifier::parse("!abc:example.org").unwrap();
    assert_eq!(with_server.as_str(), "!abc:example.org");
    assert_eq!(with_server.localpart(), "abc");
    let domain_less = RoomIdentifier::parse_domain_less("!abc").unwrap();
    assert_eq!(domain_less.as_str(), "!abc");
    assert!(Room::new(&domain_less, RoomVersion::V1).is_err());
    match Room::new(&domain_less, RoomVersion::V2) {
        Err(RoomIdentifierValidationError::InvalidStructure { room_id, expected }) => {
            assert_eq!(room_id, "!abc");
            assert_eq!(expected, "room IDs must use the `!localpart:server.name` format");
        }
        other => panic!("unexpected {other:?}"),
    }
}

#[test]
fn event_relations_are_read_from_content() {
    let thread = obj(vec![(
        "m.relates_to",
        obj(vec![
            ("rel_type", JsonValue::Str(" m.thread ".to_owned())),
            ("event_id", JsonValue::Str("$root".to_owned())),
        ]),
    )]);
    assert_eq!(extract_event_relation(&thread), Some(("m.thread".to_owned(), "$root".to_owned())));
    let blank = obj(vec![(
        "m.relates_to",
        obj(vec![("rel_type", JsonValue::Str("m.thread".to_owned())), ("event_id", JsonValue::Str(" ".to_owned()))]),
    )]);
    assert_eq!(extract_event_relation(&blank), None);
    assert_eq!(extract_event_relation(&obj(vec![])), None);
    assert_eq!(extract_event_relation(&JsonValue::Null), None);
}
