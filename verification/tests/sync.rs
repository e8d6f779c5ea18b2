use gridstack::json::JsonValue;
use gridstack::sync::{
    build_room_sync_entry, build_sync_request, encode_sync_token, parse_sync_filter, parse_sync_filter_text,
    parse_sync_stream_position, parse_timeline_limit_from_filter, presence_for_sync,
    read_string_array, RoomSyncEntry, StateEventRecord, SyncBatch, SyncFilterConstraints,
    SyncFilterSelection, SyncQueryInfo, SyncRoomsBatch, SyncSetPresence, TimelineEventRecord,
};
use gridstack::errors::SyncronizationApplicationError;
use gridstack::json::parse_json_text;
use gridstack::sync::{
    account_data_event, file_synced_rooms, fully_read_events_for_sync, resolve_sync_filter_constraints,
    stream_position_content, to_device_events_for_sync, ToDeviceRecord, receipt_events_for_sync, ReadMarkerRecord, ReceiptRecord,
    UserRoomMembershipRecord,
};

fn obj(entries: Vec<(&str, JsonValue)>) -> JsonValue {
    JsonValue::Object(entries.into_iter().map(|(k, v)| (k.to_owned(), v)).collect())
}

fn strs(values: &[&str]) -> JsonValue {
    JsonValue::Array(values.iter().map(|v| JsonValue::Str((*v).to_owned())).collect())
}

fn timeline(event_type: &str, sender: &str, content: JsonValue) -> TimelineEventRecord {
    TimelineEventRecord {
        event_id: format!("${event_type}"),
        event_type: event_type.to_owned(),
        sender_user_id: sender.to_owned(),
        state_key: None,
        origin_server_ts: 7,
        content_json: content,
        unsigned_json: None,
        stream_position: 1,
    }
}

#[test]
fn sync_tokens_round_trip() {
    for position in [0i64, 5, 1234, -3, i64::MAX, i64::MIN] {
        let token = encode_sync_token(position);
        assert_eq!(parse_sync_stream_position(&token), Ok(position));
    }
    assert_eq!(encode_sync_token(42), "s42_0_0_0_0_0_0_0_0");
    assert_eq!(parse_sync_stream_position("s17"), Ok(17));
    assert_eq!(
        parse_sync_stream_position("17_0"),
        Err(SyncronizationApplicationError::InvalidParameter)
    );
    assert_eq!(
        parse_sync_stream_position("sx_0"),
        Err(SyncronizationApplicationError::InvalidParameter)
    );
}

#[test]
fn sync_filter_parameter() {
    let inline = parse_sync_filter("  {\"room\":{}} ", Some(obj(vec![("room", obj(vec![]))])));
    assert!(matches!(inline, Ok(SyncFilterSelection::InlineFilterDefinition(_))));
    let stored = parse_sync_filter(" 66 ", None);
    match stored {
        Ok(SyncFilterSelection::StoredFilterIdentifier(id)) => assert_eq!(id, "66"),
        _ => panic!("stored filter expected"),
    }
    assert_eq!(
        parse_sync_filter("{", None).err(),
        Some(SyncronizationApplicationError::InvalidParameter)
    );
    assert_eq!(
        parse_sync_filter("   ", None).err(),
        Some(SyncronizationApplicationError::InvalidParameter)
    );
    assert_eq!(
        parse_sync_filter("{}", Some(JsonValue::Array(vec![]))).err(),
        Some(SyncronizationApplicationError::InvalidParameter)
    );
}

#[test]
fn timeline_limit_comes_from_inline_filter() {
    let filter = SyncFilterSelection::InlineFilterDefinition(obj(vec![(
        "room",
        obj(vec![("timeline", obj(vec![("limit", JsonValue::UInt(3))]))]),
    )]));
    assert_eq!(parse_timeline_limit_from_filter(Some(&filter)), Ok(Some(3)));
    assert_eq!(parse_timeline_limit_from_filter(None), Ok(None));
    let query = SyncQueryInfo {
        filter: None,
        since: Some("s4".to_owned()),
        full_state: None,
        set_presence: Some(SyncSetPresence::Offline),
        timeout: Some(30),
        use_state_after: None,
    };
    let request = build_sync_request(query, Some(filter)).expect("request");
    assert_eq!(request.timeline_limit, 3);
    assert_eq!(request.timeout_milliseconds, 30);
    assert!(!request.full_state);
    assert_eq!(presence_for_sync(request.set_presence), "offline");
    assert_eq!(presence_for_sync(None), "online");
}

#[test]
fn string_arrays_skip_non_strings() {
    let value = JsonValue::Array(vec![
        JsonValue::Str("a".to_owned()),
        JsonValue::Int(3),
        JsonValue::Str("b".to_owned()),
    ]);
    assert_eq!(read_string_array(Some(&value)), Some(vec!["a".to_owned(), "b".to_owned()]));
    assert_eq!(read_string_array(Some(&JsonValue::Array(vec![JsonValue::Null]))), None);
    assert_eq!(read_string_array(None), None);
}

#[test]
fn room_filters() {
    let filter = obj(vec![(
        "room",
        obj(vec![
            ("rooms", strs(&["!a:example.org", "!b:example.org"])),
            ("not_rooms", strs(&["!b:example.org"])),
            ("timeline", obj(vec![("types", strs(&["m.room.message"])), ("contains_url", JsonValue::Bool(true))])),
        ]),
    )]);
    let constraints = SyncFilterConstraints::from_json(&filter);
    assert!(constraints.room_allows("!a:example.org", "join"));
    assert!(!constraints.room_allows("!b:example.org", "join"));
    assert!(!constraints.room_allows("!c:example.org", "join"));
    assert!(!constraints.room_allows("!a:example.org", "leave"));
    assert!(constraints.timeline_allows(&timeline(
        "m.room.message",
        "@a:example.org",
        obj(vec![("url", JsonValue::Str("mxc://x".to_owned()))])
    )));
    assert!(!constraints.timeline_allows(&timeline("m.room.message", "@a:example.org", obj(vec![]))));
    assert!(!constraints.timeline_allows(&timeline("m.room.topic", "@a:example.org", obj(vec![("url", JsonValue::Null)]))));
    let default = SyncFilterConstraints::default();
    assert!(default.room_allows("!x:example.org", "invite"));
    assert!(!default.room_allows("!x:example.org", "ban"));
}

#[test]
fn room_entries_and_batch() {
    let constraints = SyncFilterConstraints::default();
    let events = vec![timeline("m.room.message", "@a:example.org", obj(vec![])), timeline("m.room.message", "@b:example.org", obj(vec![]))];
    let state = vec![StateEventRecord {
        event_id: "$s".to_owned(),
        event_type: "m.room.name".to_owned(),
        sender_user_id: "@a:example.org".to_owned(),
        state_key: Some(String::new()),
        origin_server_ts: 1,
        content_json: obj(vec![("name", JsonValue::Str("Room".to_owned()))]),
        unsigned_json: None,
    }];
    let entry: RoomSyncEntry = build_room_sync_entry(&events, &state, 2, 9, vec![], vec![], &constraints);
    let timeline_json = entry.entry.get("timeline").expect("timeline");
    assert_eq!(timeline_json.get("limited").and_then(|v| v.as_bool()), Some(true));
    assert_eq!(timeline_json.get("prev_batch").and_then(|v| v.as_str()), Some("s9_0_0_0_0_0_0_0_0"));
    assert_eq!(timeline_json.get("events").and_then(|v| v.as_array()).map(|v| v.len()), Some(2));
    assert_eq!(entry.state_events.len(), 1);
    let mut rooms = SyncRoomsBatch::new();
    rooms.add_room("!i:example.org", "invite", entry);
    let invite = rooms.invite.get("!i:example.org").expect("invite entry");
    let invite_events = invite.get("invite_state").and_then(|v| v.get("events")).and_then(|v| v.as_array()).expect("events");
    assert_eq!(invite_events.len(), 1);
    let batch = SyncBatch::assemble(12, rooms, vec![], vec![], vec![]);
    assert_eq!(batch.next_batch, "s12_0_0_0_0_0_0_0_0");
    assert_eq!(batch.device_one_time_keys_count.get("signed_curve25519").and_then(|v| v.as_u64()), Some(0));
}

#[test]
fn sync_filter_text_is_parsed_as_json() {
    match parse_sync_filter_text("  {\"room\":{\"timeline\":{\"limit\":5}}} ") {
        Ok(SyncFilterSelection::InlineFilterDefinition(JsonValue::Object(entries))) => {
            assert_eq!(entries.len(), 1);
            assert_eq!(entries[0].0, "room");
            match &entries[0].1 {
                JsonValue::Object(room) => {
                    assert_eq!(room[0].0, "timeline");
                    match &room[0].1 {
                        JsonValue::Object(t) => {
                            assert_eq!(t[0].0, "limit");
                            assert!(matches!(t[0].1, JsonValue::Int(5)));
                        }
                        other => panic!("unexpected {other:?}"),
                    }
                }
                other => panic!("unexpected {other:?}"),
            }
        }
        other => panic!("unexpected {other:?}"),
    }
    match parse_sync_filter_text(" 66 ") {
        Ok(SyncFilterSelection::StoredFilterIdentifier(id)) => assert_eq!(id, "66"),
        other => panic!("unexpected {other:?}"),
    }
    assert_eq!(parse_sync_filter_text("{not json").err(), Some(SyncronizationApplicationError::InvalidParameter));
    assert_eq!(parse_sync_filter_text("   ").err(), Some(SyncronizationApplicationError::InvalidParameter));
    assert_eq!(parse_sync_filter_text("{} x").err(), Some(SyncronizationApplicationError::InvalidParameter));
}

#[test]
fn json_text_values() {
    assert!(parse_json_text("nope").is_none());
    match parse_json_text("[1, -2, 18446744073709551615, 1.5, \"a\", true, null]") {
        Some(JsonValue::Array(items)) => {
            assert!(matches!(items[0], JsonValue::Int(1)));
            assert!(matches!(items[1], JsonValue::Int(-2)));
            assert!(matches!(items[2], JsonValue::UInt(u64::MAX)));
            assert!(matches!(&items[3], JsonValue::Float(t) if t == "1.5"));
            assert!(matches!(&items[4], JsonValue::Str(t) if t == "a"));
            assert!(matches!(items[5], JsonValue::Bool(true)));
            assert!(matches!(items[6], JsonValue::Null));
        }
        other => panic!("unexpected {other:?}"),
    }
}

#[test]
fn synced_rooms_are_filed_by_membership() {
    let entry = || RoomSyncEntry { entry: obj(vec![("x", JsonValue::Bool(true))]), state_events: vec![] };
    let record = |room: &str, membership: &str| UserRoomMembershipRecord {
        room_id: room.to_owned(),
        membership: membership.to_owned(),
    };
    let default = SyncFilterConstraints::default();
    let rooms = vec![
        (record("!a:x", "join"), entry()),
        (record("!b:x", "invite"), entry()),
        (record("!c:x", "leave"), entry()),
        (record("!d:x", "knock"), entry()),
    ];
    let batch = file_synced_rooms(&default, rooms);
    let keys = |v: &JsonValue| match v {
        JsonValue::Object(entries) => entries.iter().map(|(k, _)| k.clone()).collect::<Vec<_>>(),
        other => panic!("unexpected {other:?}"),
    };
    assert_eq!(keys(&batch.join), vec!["!a:x".to_owned()]);
    assert_eq!(keys(&batch.invite), vec!["!b:x".to_owned()]);
    assert!(keys(&batch.leave).is_empty());
    assert!(keys(&batch.knock).is_empty());

    let with_leave = SyncFilterConstraints::from_json(&obj(vec![("room", obj(vec![("include_leave", JsonValue::Bool(true))]))]));
    let batch = file_synced_rooms(&with_leave, vec![(record("!c:x", "leave"), entry()), (record("!e:x", "ban"), entry())]);
    assert_eq!(keys(&batch.leave), vec!["!c:x".to_owned(), "!e:x".to_owned()]);
}

#[test]
fn sync_answer_carries_token_and_filed_rooms() {
    let entry = || RoomSyncEntry { entry: obj(vec![]), state_events: vec![] };
    let record = |room: &str, membership: &str| UserRoomMembershipRecord {
        room_id: room.to_owned(),
        membership: membership.to_owned(),
    };
    let only_a = SyncFilterConstraints::from_json(&obj(vec![(
        "room",
        obj(vec![("rooms", JsonValue::Array(vec![JsonValue::Str("!a:x".to_owned())]))]),
    )]));
    let batch = SyncBatch::answer(
        &only_a,
        42,
        vec![(record("!a:x", "join"), entry()), (record("!b:x", "join"), entry())],
        vec![],
        vec![],
        vec![],
    );
    assert_eq!(batch.next_batch, "s42_0_0_0_0_0_0_0_0");
    match &batch.rooms.join {
        JsonValue::Object(entries) => {
            assert_eq!(entries.len(), 1);
            assert_eq!(entries[0].0, "!a:x");
        }
        other => panic!("unexpected {other:?}"),
    }
    assert!(matches!(&batch.rooms.knock, JsonValue::Object(e) if e.is_empty()));
}


fn receipt(event_id: &str, receipt_type: &str, user_id: &str, thread_id: &str, position: i64) -> ReceiptRecord {
    ReceiptRecord {
        event_id: event_id.to_owned(),
        receipt_type: receipt_type.to_owned(),
        user_id: user_id.to_owned(),
        thread_id: thread_id.to_owned(),
        receipt_ts: 100 + position,
        stream_position: position,
    }
}

#[test]
fn sync_shows_public_receipts_and_own_private_ones() {
    let rows = vec![
        receipt("$a", "m.read", "@bob:x", "", 1),
        receipt("$b", "m.read", "@bob:x", "t1", 5),
        receipt("$c", "m.read.private", "@bob:x", "", 6),
        receipt("$d", "m.read.private", "@me:x", "", 7),
    ];
    let events = receipt_events_for_sync(&rows, "@me:x", 2);
    assert_eq!(events.len(), 2);
    let expected_b = parse_json_text(
        r#"{"type": "m.receipt", "content": {"$b": {"m.read": {"@bob:x": {"ts": 105, "thread_id": "t1"}}}}}"#,
    )
    .unwrap();
    assert_eq!(format!("{:?}", sorted(&events[0])), format!("{:?}", sorted(&expected_b)));
    let expected_d = parse_json_text(
        r#"{"type": "m.receipt", "content": {"$d": {"m.read.private": {"@me:x": {"ts": 107}}}}}"#,
    )
    .unwrap();
    assert_eq!(format!("{:?}", sorted(&events[1])), format!("{:?}", sorted(&expected_d)));
}

fn sorted(value: &JsonValue) -> JsonValue {
    match value {
        JsonValue::Object(entries) => {
            let mut entries: Vec<(String, JsonValue)> =
                entries.iter().map(|(k, v)| (k.clone(), sorted(v))).collect();
            entries.sort_by(|a, b| a.0.cmp(&b.0));
            JsonValue::Object(entries)
        }
        JsonValue::Array(items) => JsonValue::Array(items.iter().map(sorted).collect()),
        JsonValue::Str(s) => JsonValue::Str(s.clone()),
        JsonValue::Int(n) => JsonValue::Int(*n),
        JsonValue::UInt(n) => JsonValue::UInt(*n),
        JsonValue::Bool(b) => JsonValue::Bool(*b),
        JsonValue::Float(f) => JsonValue::Float(f.clone()),
        JsonValue::Null => JsonValue::Null,
    }
}

#[test]
fn sync_shows_fully_read_markers() {
    let markers = vec![
        ReadMarkerRecord { fully_read_event_id: "$a".to_owned(), stream_position: 3 },
        ReadMarkerRecord { fully_read_event_id: "$b".to_owned(), stream_position: 9 },
        ReadMarkerRecord { fully_read_event_id: "$c".to_owned(), stream_position: 5 },
    ];
    let full = fully_read_events_for_sync(&markers, 0, true);
    let expected = parse_json_text(r#"{"type": "m.fully_read", "content": {"event_id": "$b"}}"#).unwrap();
    assert_eq!(full.len(), 1);
    assert_eq!(format!("{:?}", sorted(&full[0])), format!("{:?}", sorted(&expected)));
    let since = fully_read_events_for_sync(&markers, 4, false);
    assert_eq!(since.len(), 2);
    assert!(fully_read_events_for_sync(&vec![], 0, true).is_empty());
}

#[test]
fn filters_resolve_to_what_the_definition_sets() {
    let definition = parse_json_text(
        r#"{"room": {"timeline": {"types": ["m.room.message"]}, "state": {"not_senders": ["@x:y"]}, "include_leave": true}}"#,
    )
    .unwrap();
    let inline = resolve_sync_filter_constraints(
        Some(SyncFilterSelection::InlineFilterDefinition(definition)),
        None,
    )
    .unwrap();
    assert!(inline.include_leave);
    assert_eq!(inline.timeline_filter.types, Some(vec!["m.room.message".to_owned()]));
    assert_eq!(inline.timeline_filter.not_senders, None);
    assert_eq!(inline.state_filter.not_senders, Some(vec!["@x:y".to_owned()]));
    assert_eq!(inline.state_filter.types, None);
    let stored = parse_json_text(r#"{"room": {"rooms": ["!a:x"]}}"#).unwrap();
    let found = resolve_sync_filter_constraints(
        Some(SyncFilterSelection::StoredFilterIdentifier("7".to_owned())),
        Some(Ok(Some(stored))),
    )
    .unwrap();
    assert_eq!(found.rooms, Some(vec!["!a:x".to_owned()]));
    assert!(!found.include_leave);
    assert!(resolve_sync_filter_constraints(
        Some(SyncFilterSelection::StoredFilterIdentifier("7".to_owned())),
        Some(Ok(None)),
    )
    .is_err());
}

#[test]
fn filed_rooms_carry_their_entries() {
    let record = |room: &str, membership: &str| UserRoomMembershipRecord {
        room_id: room.to_owned(),
        membership: membership.to_owned(),
    };
    let state_event = JsonValue::Str("s".to_owned());
    let rooms = vec![
        (record("!a:x", "join"), RoomSyncEntry { entry: obj(vec![("n", JsonValue::Int(1))]), state_events: vec![] }),
        (
            record("!b:x", "invite"),
            RoomSyncEntry { entry: obj(vec![("n", JsonValue::Int(2))]), state_events: vec![state_event] },
        ),
    ];
    let batch = file_synced_rooms(&SyncFilterConstraints::default(), rooms);
    let expected_join = parse_json_text(r#"{"!a:x": {"n": 1}}"#).unwrap();
    assert_eq!(format!("{:?}", sorted(&batch.join)), format!("{:?}", sorted(&expected_join)));
    let expected_invite = parse_json_text(r#"{"!b:x": {"invite_state": {"events": ["s"]}}}"#).unwrap();
    assert_eq!(format!("{:?}", sorted(&batch.invite)), format!("{:?}", sorted(&expected_invite)));
}

#[test]
fn to_device_and_account_data_events() {
    let records = vec![
        ToDeviceRecord { stream_position: 3, user_id: "@me:x".to_owned(), event_type: "a".to_owned(), content: obj(vec![]) },
        ToDeviceRecord { stream_position: 8, user_id: "@other:x".to_owned(), event_type: "b".to_owned(), content: obj(vec![]) },
        ToDeviceRecord { stream_position: 9, user_id: "@me:x".to_owned(), event_type: "c".to_owned(), content: obj(vec![]) },
    ];
    let events = to_device_events_for_sync(&records, "@me:x", 4);
    let expected = parse_json_text(r#"{"type": "c", "sender": "@me:x", "content": {}}"#).unwrap();
    assert_eq!(events.len(), 1);
    assert_eq!(format!("{:?}", sorted(&events[0])), format!("{:?}", sorted(&expected)));
    let data = account_data_event("org.example", stream_position_content(5));
    let expected = parse_json_text(r#"{"type": "org.example", "content": {"stream_position": 5}}"#).unwrap();
    assert_eq!(format!("{:?}", sorted(&data)), format!("{:?}", sorted(&expected)));
}
