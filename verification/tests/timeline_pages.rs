use gridstack::json::JsonValue;
use gridstack::room_events::RoomTimelineEvent;
use gridstack::room_queries::RoomEventFilter;
use gridstack::timeline_pages::{highest_stream_position, page_takes, select_room_messages_page};

fn event(position: i64, event_type: &str, sender: &str, with_url: bool) -> RoomTimelineEvent {
    let mut entries = vec![("body".to_string(), JsonValue::Str("hello".to_string()))];
    if with_url {
        entries.push(("url".to_string(), JsonValue::Str("mxc://example.org/a".to_string())));
    }
    RoomTimelineEvent {
        content: JsonValue::Object(entries),
        event_id: format!("$e{position}"),
        origin_server_ts: 1000 + position,
        room_id: "!room:example.org".to_string(),
        sender: sender.to_string(),
        state_key: None,
        event_type: event_type.to_string(),
        unsigned: None,
        stream_position: position,
    }
}

fn timeline() -> Vec<RoomTimelineEvent> {
    vec![
        event(1, "m.room.create", "@alice:example.org", false),
        event(2, "m.room.member", "@alice:example.org", false),
        event(3, "m.room.message", "@alice:example.org", false),
        event(4, "m.room.message", "@bob:example.org", true),
        event(5, "m.room.message", "@alice:example.org", false),
    ]
}

fn positions(chunk: &[RoomTimelineEvent]) -> Vec<i64> {
    chunk.iter().map(|e| e.stream_position).collect()
}

fn no_filter() -> RoomEventFilter {
    RoomEventFilter { types: None, not_types: None, senders: None, not_senders: None, contains_url: None }
}

#[test]
fn backward_page_starts_at_newest_event() {
    let page = select_room_messages_page(timeline(), None, None, 2, true, None);
    assert_eq!(page.start, "5");
    assert_eq!(positions(&page.chunk), vec![5, 4]);
    assert_eq!(page.end.as_deref(), Some("3"));
    assert!(page.state.is_empty());
}

#[test]
fn forward_page_starts_at_zero() {
    let page = select_room_messages_page(timeline(), None, None, 3, false, None);
    assert_eq!(page.start, "0");
    assert_eq!(positions(&page.chunk), vec![1, 2, 3]);
    assert_eq!(page.end.as_deref(), Some("4"));
}

#[test]
fn backward_page_stops_after_to() {
    let page = select_room_messages_page(timeline(), Some(5), Some(2), 10, true, None);
    assert_eq!(page.start, "5");
    assert_eq!(positions(&page.chunk), vec![5, 4, 3]);
    assert_eq!(page.end.as_deref(), Some("2"));
}

#[test]
fn forward_page_from_position_stops_before_to() {
    let page = select_room_messages_page(timeline(), Some(2), Some(4), 10, false, None);
    assert_eq!(page.start, "2");
    assert_eq!(positions(&page.chunk), vec![2, 3]);
    assert_eq!(page.end.as_deref(), Some("4"));
}

#[test]
fn empty_timeline_gives_empty_page() {
    let page = select_room_messages_page(Vec::new(), None, None, 10, true, None);
    assert_eq!(page.start, "0");
    assert!(page.chunk.is_empty());
    assert_eq!(page.end, None);
}

#[test]
fn zero_limit_gives_no_events() {
    let page = select_room_messages_page(timeline(), None, None, 0, true, None);
    assert_eq!(page.start, "5");
    assert!(page.chunk.is_empty());
    assert_eq!(page.end, None);
}

#[test]
fn type_filter_keeps_listed_types() {
    let filter = RoomEventFilter { types: Some(vec!["m.room.message".to_string()]), ..no_filter() };
    let page = select_room_messages_page(timeline(), None, None, 10, false, Some(&filter));
    assert_eq!(positions(&page.chunk), vec![3, 4, 5]);
    assert_eq!(page.end.as_deref(), Some("6"));
}

#[test]
fn empty_type_list_does_not_constrain() {
    let filter = RoomEventFilter { types: Some(Vec::new()), ..no_filter() };
    let page = select_room_messages_page(timeline(), None, None, 10, false, Some(&filter));
    assert_eq!(positions(&page.chunk), vec![1, 2, 3, 4, 5]);
}

#[test]
fn sender_filters_and_url_filter() {
    let not_alice = RoomEventFilter { not_senders: Some(vec!["@alice:example.org".to_string()]), ..no_filter() };
    let page = select_room_messages_page(timeline(), None, None, 10, true, Some(&not_alice));
    assert_eq!(positions(&page.chunk), vec![4]);

    let with_url = RoomEventFilter { contains_url: Some(true), ..no_filter() };
    let page = select_room_messages_page(timeline(), None, None, 10, true, Some(&with_url));
    assert_eq!(positions(&page.chunk), vec![4]);

    let without_url = RoomEventFilter { contains_url: Some(false), ..no_filter() };
    let page = select_room_messages_page(timeline(), None, None, 10, true, Some(&without_url));
    assert_eq!(positions(&page.chunk), vec![5, 3, 2, 1]);

    let bob_only = RoomEventFilter {
        senders: Some(vec!["@bob:example.org".to_string()]),
        not_types: Some(vec!["m.room.member".to_string()]),
        ..no_filter()
    };
    assert!(page_takes(&event(7, "m.room.message", "@bob:example.org", false), 9, None, true, Some(&bob_only)));
    assert!(!page_takes(&event(7, "m.room.member", "@bob:example.org", false), 9, None, true, Some(&bob_only)));
}

#[test]
fn backward_pages_come_newest_first() {
    let page = select_room_messages_page(timeline(), None, None, 10, true, None);
    let chunk = positions(&page.chunk);
    assert!(chunk.windows(2).all(|pair| pair[0] > pair[1]));
    let page = select_room_messages_page(timeline(), None, None, 10, false, None);
    let chunk = positions(&page.chunk);
    assert!(chunk.windows(2).all(|pair| pair[0] < pair[1]));
}

#[test]
fn end_position_saturates_at_the_edges() {
    let events = vec![event(i64::MAX, "m.room.message", "@alice:example.org", false)];
    let page = select_room_messages_page(events, Some(i64::MAX - 1), None, 1, false, None);
    assert_eq!(page.end.as_deref(), Some(i64::MAX.to_string().as_str()));
    let events = vec![event(i64::MIN, "m.room.message", "@alice:example.org", false)];
    let page = select_room_messages_page(events, Some(0), None, 1, true, None);
    assert_eq!(page.end.as_deref(), Some(i64::MIN.to_string().as_str()));
}

#[test]
fn highest_position_is_the_maximum() {
    let events = vec![
        event(3, "m.room.message", "@a:example.org", false),
        event(9, "m.room.message", "@a:example.org", false),
        event(-2, "m.room.message", "@a:example.org", false),
    ];
    assert_eq!(highest_stream_position(&events), Some(9));
    assert_eq!(highest_stream_position(&Vec::new()), None);
    let negative = vec![event(-7, "m.room.message", "@a:example.org", false)];
    let page = select_room_messages_page(negative, None, None, 5, true, None);
    assert_eq!(page.start, "-7");
    assert_eq!(positions(&page.chunk), vec![-7]);
}

#[test]
fn next_page_continues_where_the_last_one_ended() {
    let first = select_room_messages_page(timeline(), None, None, 2, true, None);
    assert_eq!(positions(&first.chunk), vec![5, 4]);
    let from: i64 = first.end.as_deref().unwrap().parse().unwrap();
    let second = select_room_messages_page(timeline(), Some(from), None, 2, true, None);
    assert_eq!(positions(&second.chunk), vec![3, 2]);
    let from: i64 = second.end.as_deref().unwrap().parse().unwrap();
    let third = select_room_messages_page(timeline(), Some(from), None, 2, true, None);
    assert_eq!(positions(&third.chunk), vec![1]);
    assert_eq!(third.end.as_deref(), Some("0"));

    let forward = select_room_messages_page(timeline(), None, None, 3, false, None);
    let from: i64 = forward.end.as_deref().unwrap().parse().unwrap();
    let rest = select_room_messages_page(timeline(), Some(from), None, 3, false, None);
    assert_eq!(positions(&rest.chunk), vec![4, 5]);
}

#[test]
fn timeline_given_out_of_order_is_walked_in_stream_order() {
    let mut shuffled = timeline();
    shuffled.reverse();
    shuffled.swap(0, 2);
    let page = select_room_messages_page(shuffled, None, None, 3, true, None);
    assert_eq!(positions(&page.chunk), vec![5, 4, 3]);
    assert_eq!(page.end.as_deref(), Some("2"));
    let mut shuffled = timeline();
    shuffled.swap(1, 4);
    let page = select_room_messages_page(shuffled, None, None, 10, false, None);
    assert_eq!(positions(&page.chunk), vec![1, 2, 3, 4, 5]);
    let mut shuffled = timeline();
    shuffled.swap(0, 3);
    let sorted = gridstack::timeline_pages::sort_by_stream_position(shuffled);
    assert_eq!(positions(&sorted), vec![1, 2, 3, 4, 5]);
}
