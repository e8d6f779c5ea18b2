use gridstack::json::JsonValue;
use gridstack::state_rows::{
    ordered_state_event_rows, CurrentStateUpdate, EventContentRow, EventWriteContract,
    OrderedStateEventRow,
};

fn content(name: &str) -> JsonValue {
    JsonValue::Object(vec![("name".to_string(), JsonValue::Str(name.to_string()))])
}

fn content_name(row: &OrderedStateEventRow) -> String {
    match &row.content {
        JsonValue::Object(entries) => match &entries[0].1 {
            JsonValue::Str(s) => s.clone(),
            other => panic!("unexpected content {other:?}"),
        },
        other => panic!("unexpected content {other:?}"),
    }
}

fn update(event_type: &str, state_key: &str, event_id: &str) -> CurrentStateUpdate {
    CurrentStateUpdate {
        room_id: "!room:example.org".to_string(),
        event_type: event_type.to_string(),
        state_key: state_key.to_string(),
        event_id: event_id.to_string(),
    }
}

fn row(event_id: &str, name: &str) -> EventContentRow {
    EventContentRow { event_id: event_id.to_string(), content: content(name) }
}

#[test]
fn latest_write_of_each_key_wins_and_orders_rows() {
    let batch = vec![
        EventWriteContract {
            event_rows: vec![row("$a", "create"), row("$b", "first name")],
            current_state_updates: vec![
                update("m.room.create", "", "$a"),
                update("m.room.name", "", "$b"),
            ],
        },
        EventWriteContract {
            event_rows: vec![row("$c", "second name"), row("$d", "topic")],
            current_state_updates: vec![
                update("m.room.topic", "", "$d"),
                update("m.room.name", "", "$c"),
            ],
        },
    ];
    let rows = ordered_state_event_rows(&batch);
    let keys: Vec<(&str, i32)> = rows.iter().map(|r| (r.event_type.as_str(), r.ordering)).collect();
    assert_eq!(keys, vec![("m.room.create", 0), ("m.room.topic", 1), ("m.room.name", 2)]);
    assert_eq!(content_name(&rows[2]), "second name");
    assert_eq!(content_name(&rows[1]), "topic");
}

#[test]
fn update_without_its_event_writes_nothing() {
    let batch = vec![EventWriteContract {
        event_rows: vec![row("$a", "create")],
        current_state_updates: vec![
            update("m.room.create", "", "$a"),
            update("m.room.name", "", "$missing"),
        ],
    }];
    let rows = ordered_state_event_rows(&batch);
    assert_eq!(rows.len(), 1);
    assert_eq!(rows[0].event_type, "m.room.create");
    assert_eq!(rows[0].ordering, 0);
}

#[test]
fn events_are_found_only_in_their_own_write() {
    let batch = vec![
        EventWriteContract { event_rows: vec![row("$a", "create")], current_state_updates: Vec::new() },
        EventWriteContract {
            event_rows: Vec::new(),
            current_state_updates: vec![update("m.room.create", "", "$a")],
        },
    ];
    assert!(ordered_state_event_rows(&batch).is_empty());
}

#[test]
fn state_keys_tell_members_apart() {
    let batch = vec![EventWriteContract {
        event_rows: vec![row("$a", "alice"), row("$b", "bob"), row("$a", "duplicate id")],
        current_state_updates: vec![
            update("m.room.member", "@alice:example.org", "$a"),
            update("m.room.member", "@bob:example.org", "$b"),
        ],
    }];
    let rows = ordered_state_event_rows(&batch);
    assert_eq!(rows.len(), 2);
    assert_eq!(rows[0].state_key, "@alice:example.org");
    assert_eq!(content_name(&rows[0]), "alice");
    assert_eq!(rows[1].state_key, "@bob:example.org");
}

#[test]
fn empty_batch_has_no_rows() {
    assert!(ordered_state_event_rows(&Vec::new()).is_empty());
}
