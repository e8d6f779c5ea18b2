//! Reading a page of a room's timeline: which events a message page
//! request selects from the timeline, in which order, and the positions
//! the page starts and ends at.
use vstd::prelude::*;

use crate::decimal::{i64_to_decimal, signed_decimal};
use crate::json::{json_get, JsonValue};
use crate::room_events::RoomTimelineEvent;
use crate::room_queries::{RoomEventFilter, RoomMessagesPage};
use crate::sync::{contains_string, opt_strings_view};

verus! {

/// A list of the filter that, given and not empty, must hold `value`.
pub open spec fn list_admits(list: Option<Seq<Seq<char>>>, value: Seq<char>) -> bool {
    match list {
        Some(l) => l.len() > 0 ==> l.contains(value),
        None => true,
    }
}

/// A list of the filter that, given, must not hold `value`.
pub open spec fn list_refuses(list: Option<Seq<Seq<char>>>, value: Seq<char>) -> bool {
    list matches Some(l) && l.contains(value)
}

/// Whether the message filter lets an event through: by type, by sender
/// and by whether its content has a top-level `url` member.
pub open spec fn page_filter_allows(filter: Option<RoomEventFilter>, event: RoomTimelineEvent) -> bool {
    match filter {
        None => true,
        Some(f) => {
            &&& list_admits(opt_strings_view(f.types), event.event_type@)
            &&& !list_refuses(opt_strings_view(f.not_types), event.event_type@)
            &&& list_admits(opt_strings_view(f.senders), event.sender@)
            &&& !list_refuses(opt_strings_view(f.not_senders), event.sender@)
            &&& (f.contains_url matches Some(wanted) ==> (json_get(event.content@, "url"@) is Some)
                == wanted)
        },
    }
}

/// Whether a stream position lies in the page's window: going backward, at
/// or before `start` and after `to`; going forward, at or after `start` and
/// before `to`.
pub open spec fn in_page_window(position: int, start: int, to: Option<i64>, backward: bool) -> bool {
    if backward {
        position <= start && (to matches Some(t) ==> position > t)
    } else {
        position >= start && (to matches Some(t) ==> position < t)
    }
}

/// Whether the page takes an event.
pub open spec fn page_selects(
    event: RoomTimelineEvent,
    start: int,
    to: Option<i64>,
    backward: bool,
    filter: Option<RoomEventFilter>,
) -> bool {
    in_page_window(event.stream_position as int, start, to, backward) && page_filter_allows(
        filter,
        event,
    )
}

/// The events of `events` that the page takes, in their order.
pub open spec fn selected_events(
    events: Seq<RoomTimelineEvent>,
    start: int,
    to: Option<i64>,
    backward: bool,
    filter: Option<RoomEventFilter>,
) -> Seq<RoomTimelineEvent>
    decreases events.len(),
{
    if events.len() == 0 {
        Seq::empty()
    } else {
        let rest = selected_events(events.drop_last(), start, to, backward, filter);
        if page_selects(events.last(), start, to, backward, filter) {
            rest.push(events.last())
        } else {
            rest
        }
    }
}

/// The highest stream position of the timeline, if it has events.
pub open spec fn highest_position(events: Seq<RoomTimelineEvent>) -> Option<int>
    decreases events.len(),
{
    if events.len() == 0 {
        None
    } else {
        let last = events.last().stream_position as int;
        match highest_position(events.drop_last()) {
            Some(m) if m >= last => Some(m),
            _ => Some(last),
        }
    }
}

/// Where the page starts: at `from` when given; else, going backward, at
/// the timeline's highest position (0 for an empty timeline) and, going
/// forward, at 0.
pub open spec fn page_start(events: Seq<RoomTimelineEvent>, from: Option<i64>, backward: bool) -> int {
    match from {
        Some(f) => f as int,
        None => if backward {
            match highest_position(events) {
                Some(m) => m,
                None => 0,
            }
        } else {
            0
        },
    }
}

/// `sorted` with `event` put after every event at or before its stream
/// position.
pub open spec fn insert_by_position(sorted: Seq<RoomTimelineEvent>, event: RoomTimelineEvent) -> Seq<
    RoomTimelineEvent,
>
    decreases sorted.len(),
{
    if sorted.len() == 0 {
        seq![event]
    } else if sorted.last().stream_position <= event.stream_position {
        sorted.push(event)
    } else {
        insert_by_position(sorted.drop_last(), event).push(sorted.last())
    }
}

/// The timeline in stream order (events at one position keep their order).
pub open spec fn stream_order(events: Seq<RoomTimelineEvent>) -> Seq<RoomTimelineEvent>
    decreases events.len(),
{
    if events.len() == 0 {
        Seq::empty()
    } else {
        insert_by_position(stream_order(events.drop_last()), events.last())
    }
}

/// The timeline in the order the page walks it: newest first going
/// backward, oldest first going forward.
pub open spec fn walk_order(events: Seq<RoomTimelineEvent>, backward: bool) -> Seq<RoomTimelineEvent> {
    if backward {
        stream_order(events).reverse()
    } else {
        stream_order(events)
    }
}

/// No two events of the timeline share a stream position.
pub open spec fn distinct_positions(events: Seq<RoomTimelineEvent>) -> bool {
    forall|i: int, j: int|
        0 <= i < events.len() && 0 <= j < events.len() && i != j ==> (#[trigger] events[i]).stream_position
            != (#[trigger] events[j]).stream_position
}

proof fn lemma_insert_by_position_contains(sorted: Seq<RoomTimelineEvent>, event: RoomTimelineEvent)
    ensures
        insert_by_position(sorted, event).len() == sorted.len() + 1,
        forall|x: RoomTimelineEvent|
            #[trigger] insert_by_position(sorted, event).contains(x) <==> (sorted.contains(x) || x
                == event),
    decreases sorted.len(),
{
    let r = insert_by_position(sorted, event);
    if sorted.len() == 0 {
        assert forall|x: RoomTimelineEvent| #[trigger] r.contains(x) <==> (sorted.contains(x) || x == event) by {
            if x == event {
                assert(r[0] == event);
            }
        }
    } else if sorted.last().stream_position <= event.stream_position {
        assert forall|x: RoomTimelineEvent| #[trigger] r.contains(x) <==> (sorted.contains(x) || x == event) by {
            if r.contains(x) {
                let i = choose|i: int| 0 <= i < r.len() && r[i] == x;
                if i < sorted.len() {
                    assert(sorted[i] == x);
                }
            }
            if sorted.contains(x) {
                let i = choose|i: int| 0 <= i < sorted.len() && sorted[i] == x;
                assert(r[i] == x);
            }
            if x == event {
                assert(r[sorted.len() as int] == x);
            }
        }
    } else {
        let front = sorted.drop_last();
        lemma_insert_by_position_contains(front, event);
        let inner = insert_by_position(front, event);
        assert forall|x: RoomTimelineEvent| #[trigger] r.contains(x) <==> (sorted.contains(x) || x == event) by {
            if r.contains(x) {
                let i = choose|i: int| 0 <= i < r.len() && r[i] == x;
                if i < inner.len() {
                    assert(inner[i] == x);
                    assert(inner.contains(x));
                    if front.contains(x) {
                        let k = choose|k: int| 0 <= k < front.len() && front[k] == x;
                        assert(sorted[k] == x);
                    }
                } else {
                    assert(sorted[sorted.len() - 1] == x);
                }
            }
            if sorted.contains(x) {
                let k = choose|k: int| 0 <= k < sorted.len() && sorted[k] == x;
                if k < sorted.len() - 1 {
                    assert(front[k] == x);
                    assert(inner.contains(x));
                    let i = choose|i: int| 0 <= i < inner.len() && inner[i] == x;
                    assert(r[i] == x);
                } else {
                    assert(r[r.len() - 1] == x);
                }
            }
            if x == event {
                assert(inner.contains(x));
                let i = choose|i: int| 0 <= i < inner.len() && inner[i] == x;
                assert(r[i] == x);
            }
        }
    }
}

proof fn lemma_stream_order_contains(events: Seq<RoomTimelineEvent>)
    ensures
        stream_order(events).len() == events.len(),
        forall|x: RoomTimelineEvent| #[trigger] stream_order(events).contains(x) <==> events.contains(x),
    decreases events.len(),
{
    if events.len() > 0 {
        let front = events.drop_last();
        lemma_stream_order_contains(front);
        lemma_insert_by_position_contains(stream_order(front), events.last());
        assert forall|x: RoomTimelineEvent| #[trigger] stream_order(events).contains(x) <==> events.contains(x) by {
            if front.contains(x) {
                let k = choose|k: int| 0 <= k < front.len() && front[k] == x;
                assert(events[k] == x);
            }
            if events.contains(x) {
                let k = choose|k: int| 0 <= k < events.len() && events[k] == x;
                if k < events.len() - 1 {
                    assert(front[k] == x);
                } else {
                    assert(events.last() == x);
                }
            }
        }
    }
}

/// Inserting an event at a position no event of a rising sequence has
/// keeps it rising.
proof fn lemma_insert_by_position_rises(sorted: Seq<RoomTimelineEvent>, event: RoomTimelineEvent)
    requires
        rising_positions(sorted),
        forall|x: RoomTimelineEvent| #[trigger] sorted.contains(x) ==> x.stream_position != event.stream_position,
    ensures
        rising_positions(insert_by_position(sorted, event)),
    decreases sorted.len(),
{
    let r = insert_by_position(sorted, event);
    if sorted.len() == 0 {
    } else if sorted.last().stream_position <= event.stream_position {
        assert(sorted.contains(sorted.last())) by {
            assert(sorted[sorted.len() - 1] == sorted.last());
        }
        assert forall|i: int, j: int| 0 <= i < j < r.len() implies r[i].stream_position < r[j].stream_position by {
            if j == r.len() - 1 {
                if i < sorted.len() - 1 {
                    assert(sorted[i].stream_position < sorted[sorted.len() - 1].stream_position);
                }
            } else {
                assert(r[i] == sorted[i] && r[j] == sorted[j]);
            }
        }
    } else {
        let front = sorted.drop_last();
        assert(rising_positions(front)) by {
            assert forall|i: int, j: int| 0 <= i < j < front.len() implies front[i].stream_position
                < front[j].stream_position by {
                assert(front[i] == sorted[i] && front[j] == sorted[j]);
            }
        }
        assert forall|x: RoomTimelineEvent| #[trigger] front.contains(x) implies x.stream_position
            != event.stream_position by {
            let k = choose|k: int| 0 <= k < front.len() && front[k] == x;
            assert(sorted[k] == x);
            assert(sorted.contains(x));
        }
        lemma_insert_by_position_rises(front, event);
        lemma_insert_by_position_contains(front, event);
        let inner = insert_by_position(front, event);
        let last = sorted.last();
        assert forall|i: int, j: int| 0 <= i < j < r.len() implies r[i].stream_position < r[j].stream_position by {
            if j == r.len() - 1 {
                assert(r[j] == last);
                assert(r[i] == inner[i]);
                assert(inner.contains(inner[i]));
                if inner[i] == event {
                } else {
                    assert(front.contains(inner[i]));
                    let k = choose|k: int| 0 <= k < front.len() && front[k] == inner[i];
                    assert(sorted[k] == front[k]);
                    assert(sorted[k].stream_position < sorted[sorted.len() - 1].stream_position);
                }
            } else {
                assert(r[i] == inner[i] && r[j] == inner[j]);
            }
        }
    }
}

/// With distinct positions, the timeline in stream order rises.
proof fn lemma_stream_order_rises(events: Seq<RoomTimelineEvent>)
    requires
        distinct_positions(events),
    ensures
        rising_positions(stream_order(events)),
    decreases events.len(),
{
    if events.len() > 0 {
        let front = events.drop_last();
        assert(distinct_positions(front)) by {
            assert forall|i: int, j: int|
                0 <= i < front.len() && 0 <= j < front.len() && i != j implies (#[trigger] front[i]).stream_position
                    != (#[trigger] front[j]).stream_position by {
                assert(front[i] == events[i] && front[j] == events[j]);
            }
        }
        lemma_stream_order_rises(front);
        lemma_stream_order_contains(front);
        let last = events.last();
        assert forall|x: RoomTimelineEvent| #[trigger] stream_order(front).contains(x) implies x.stream_position
            != last.stream_position by {
            assert(front.contains(x));
            let k = choose|k: int| 0 <= k < front.len() && front[k] == x;
            assert(events[k] == x);
            assert(events[events.len() - 1] == last);
        }
        lemma_insert_by_position_rises(stream_order(front), last);
    }
}

proof fn lemma_insert_by_position_split(sorted: Seq<RoomTimelineEvent>, event: RoomTimelineEvent, i: int)
    requires
        0 <= i <= sorted.len(),
        i == 0 || sorted[i - 1].stream_position <= event.stream_position,
        forall|k: int| i <= k < sorted.len() ==> (#[trigger] sorted[k]).stream_position > event.stream_position,
    ensures
        insert_by_position(sorted, event) == sorted.insert(i, event),
    decreases sorted.len(),
{
    if sorted.len() == 0 {
        assert(sorted.insert(i, event) =~= seq![event]);
    } else if i == sorted.len() {
        assert(sorted.insert(i, event) =~= sorted.push(event));
    } else {
        let front = sorted.drop_last();
        assert(sorted.last() == sorted[sorted.len() - 1]);
        lemma_insert_by_position_split(front, event, i);
        assert(sorted.insert(i, event) =~= front.insert(i, event).push(sorted.last()));
    }
}

/// Puts `event` into a timeline in stream order, after every event at or
/// before its position.
fn insert_in_stream_order(sorted: &mut Vec<RoomTimelineEvent>, event: RoomTimelineEvent)
    ensures
        final(sorted)@ == insert_by_position(old(sorted)@, event),
{
    let mut i = sorted.len();
    while i > 0 && sorted[i - 1].stream_position > event.stream_position
        invariant
            i <= sorted@.len(),
            sorted@ == old(sorted)@,
            forall|k: int| i <= k < sorted@.len() ==> (#[trigger] sorted@[k]).stream_position > event.stream_position,
        decreases i,
    {
        i = i - 1;
    }
    proof {
        lemma_insert_by_position_split(sorted@, event, i as int);
    }
    sorted.insert(i, event);
}

/// The timeline in stream order.
pub fn sort_by_stream_position(events: Vec<RoomTimelineEvent>) -> (r: Vec<RoomTimelineEvent>)
    ensures
        r@ == stream_order(events@),
{
    let ghost given = events@;
    let ghost n = given.len();
    let mut pending = reversed_events(events);
    let mut sorted: Vec<RoomTimelineEvent> = Vec::new();
    assert(given.take(0) =~= Seq::<RoomTimelineEvent>::empty());
    while pending.len() > 0
        invariant
            n == given.len(),
            pending@ == given.reverse().take(pending@.len() as int),
            pending@.len() <= n,
            sorted@ == stream_order(given.take(n - pending@.len())),
        decreases pending.len(),
    {
        let ghost done = n - pending@.len();
        let e = pending.pop().unwrap();
        assert(e == given[done]);
        assert(given.take(done + 1).drop_last() =~= given.take(done));
        assert(given.take(done + 1).last() == e);
        insert_in_stream_order(&mut sorted, e);
        assert(pending@ =~= given.reverse().take(pending@.len() as int));
    }
    assert(given.take(n as int) =~= given);
    sorted
}

/// The events of the page: the first `limit` events the page takes, in
/// walking order.
pub open spec fn page_chunk(
    events: Seq<RoomTimelineEvent>,
    from: Option<i64>,
    to: Option<i64>,
    limit: int,
    backward: bool,
    filter: Option<RoomEventFilter>,
) -> Seq<RoomTimelineEvent> {
    let taken = selected_events(
        walk_order(events, backward),
        page_start(events, from, backward),
        to,
        backward,
        filter,
    );
    if taken.len() <= limit {
        taken
    } else {
        taken.take(limit)
    }
}

/// One step beyond a stream position in the walking direction, kept
/// within `i64`.
pub open spec fn position_after(position: i64, backward: bool) -> int {
    if backward {
        if position == i64::MIN {
            position as int
        } else {
            position - 1
        }
    } else {
        if position == i64::MAX {
            position as int
        } else {
            position + 1
        }
    }
}

/// `selected_events` of a prefix is a prefix of `selected_events` of a
/// longer prefix.
proof fn lemma_selected_prefix(
    events: Seq<RoomTimelineEvent>,
    i: int,
    j: int,
    start: int,
    to: Option<i64>,
    backward: bool,
    filter: Option<RoomEventFilter>,
)
    requires
        0 <= i <= j <= events.len(),
    ensures
        ({
            let short = selected_events(events.take(i), start, to, backward, filter);
            let long = selected_events(events.take(j), start, to, backward, filter);
            short.len() <= long.len() && long.take(short.len() as int) == short
        }),
    decreases j - i,
{
    if i < j {
        lemma_selected_prefix(events, i, j - 1, start, to, backward, filter);
        assert(events.take(j).drop_last() =~= events.take(j - 1));
        let short = selected_events(events.take(i), start, to, backward, filter);
        let mid = selected_events(events.take(j - 1), start, to, backward, filter);
        let long = selected_events(events.take(j), start, to, backward, filter);
        if page_selects(events.take(j).last(), start, to, backward, filter) {
            assert(long == mid.push(events.take(j).last()));
            assert(long.take(short.len() as int) =~= mid.take(short.len() as int));
        } else {
            assert(long == mid);
        }
    } else {
        assert(events.take(i) == events.take(j));
        let short = selected_events(events.take(i), start, to, backward, filter);
        assert(short.take(short.len() as int) =~= short);
    }
}

/// Stream positions strictly rise along `events`.
pub open spec fn rising_positions(events: Seq<RoomTimelineEvent>) -> bool {
    forall|i: int, j: int|
        0 <= i < j < events.len() ==> events[i].stream_position < events[j].stream_position
}

/// Stream positions strictly fall along `events`.
pub open spec fn falling_positions(events: Seq<RoomTimelineEvent>) -> bool {
    forall|i: int, j: int|
        0 <= i < j < events.len() ==> events[i].stream_position > events[j].stream_position
}

/// Every event the page takes comes from `events`, is taken by the page,
/// and keeps its order.
proof fn lemma_selected_events_props(
    events: Seq<RoomTimelineEvent>,
    start: int,
    to: Option<i64>,
    backward: bool,
    filter: Option<RoomEventFilter>,
)
    ensures
        ({
            let taken = selected_events(events, start, to, backward, filter);
            &&& forall|x: RoomTimelineEvent| #[trigger] taken.contains(x) ==> events.contains(x)
                && page_selects(x, start, to, backward, filter)
            &&& rising_positions(events) ==> rising_positions(taken)
            &&& falling_positions(events) ==> falling_positions(taken)
        }),
    decreases events.len(),
{
    if events.len() > 0 {
        let rest_events = events.drop_last();
        lemma_selected_events_props(rest_events, start, to, backward, filter);
        let rest = selected_events(rest_events, start, to, backward, filter);
        let last = events.last();
        assert forall|x: RoomTimelineEvent| #[trigger] rest.contains(x) implies events.contains(x)
            && exists|i: int| 0 <= i < events.len() - 1 && events[i] == x by {
            let i = choose|i: int| 0 <= i < rest_events.len() && rest_events[i] == x;
            assert(events[i] == x);
        }
        if page_selects(last, start, to, backward, filter) {
            let taken = rest.push(last);
            assert forall|x: RoomTimelineEvent| #[trigger] taken.contains(x) implies events.contains(
                x,
            ) && page_selects(x, start, to, backward, filter) by {
                if x != last {
                    let i = choose|i: int| 0 <= i < taken.len() && taken[i] == x;
                    assert(rest.contains(x) && rest[i] == x);
                } else {
                    assert(events[events.len() - 1] == x);
                }
            }
            if rising_positions(events) {
                assert forall|i: int, j: int| 0 <= i < j < taken.len() implies taken[i].stream_position
                    < taken[j].stream_position by {
                    if j == taken.len() - 1 {
                        assert(rest.contains(taken[i]));
                        let k = choose|k: int| 0 <= k < events.len() - 1 && events[k] == taken[i];
                        assert(events[events.len() - 1] == last);
                    } else {
                        assert(taken[i] == rest[i] && taken[j] == rest[j]);
                    }
                }
            }
            if falling_positions(events) {
                assert forall|i: int, j: int| 0 <= i < j < taken.len() implies taken[i].stream_position
                    > taken[j].stream_position by {
                    if j == taken.len() - 1 {
                        assert(rest.contains(taken[i]));
                        let k = choose|k: int| 0 <= k < events.len() - 1 && events[k] == taken[i];
                        assert(events[events.len() - 1] == last);
                    } else {
                        assert(taken[i] == rest[i] && taken[j] == rest[j]);
                    }
                }
            }
        }
    }
}

/// Over a timeline whose events have distinct stream positions, given in
/// any order, a page holds only events in its window that pass its
/// filter, no more than `limit` of them, newest first going backward and
/// oldest first going forward.
pub proof fn lemma_page_chunk_order(
    timeline: Seq<RoomTimelineEvent>,
    from: Option<i64>,
    to: Option<i64>,
    limit: nat,
    backward: bool,
    filter: Option<RoomEventFilter>,
)
    requires
        distinct_positions(timeline),
    ensures
        ({
            let chunk = page_chunk(timeline, from, to, limit as int, backward, filter);
            let start = page_start(timeline, from, backward);
            &&& chunk.len() <= limit
            &&& forall|i: int|
                0 <= i < chunk.len() ==> timeline.contains(#[trigger] chunk[i]) && page_selects(
                    chunk[i],
                    start,
                    to,
                    backward,
                    filter,
                )
            &&& backward ==> falling_positions(chunk)
            &&& !backward ==> rising_positions(chunk)
        }),
{
    let order = walk_order(timeline, backward);
    let start = page_start(timeline, from, backward);
    let sorted = stream_order(timeline);
    lemma_stream_order_rises(timeline);
    lemma_stream_order_contains(timeline);
    if backward {
        assert forall|i: int, j: int| 0 <= i < j < order.len() implies order[i].stream_position
            > order[j].stream_position by {
            assert(order[i] == sorted[sorted.len() - 1 - i]);
            assert(order[j] == sorted[sorted.len() - 1 - j]);
        }
    }
    lemma_selected_events_props(order, start, to, backward, filter);
    let taken = selected_events(order, start, to, backward, filter);
    let chunk = page_chunk(timeline, from, to, limit as int, backward, filter);
    assert forall|i: int| 0 <= i < chunk.len() implies timeline.contains(#[trigger] chunk[i])
        && page_selects(chunk[i], start, to, backward, filter) by {
        assert(chunk[i] == taken[i]);
        assert(taken.contains(taken[i]));
        let k = choose|k: int| 0 <= k < order.len() && order[k] == taken[i];
        if backward {
            assert(sorted[sorted.len() - 1 - k] == order[k]);
        } else {
            assert(sorted[k] == order[k]);
        }
        assert(sorted.contains(order[k]));
    }
}

/// The events a page takes from the timeline, in walking order, before
/// its limit applies.
pub open spec fn page_taken(
    events: Seq<RoomTimelineEvent>,
    from: Option<i64>,
    to: Option<i64>,
    backward: bool,
    filter: Option<RoomEventFilter>,
) -> Seq<RoomTimelineEvent> {
    selected_events(walk_order(events, backward), page_start(events, from, backward), to, backward, filter)
}

/// Whether a position lies on the far side of `start` in the walking
/// direction (at or before it going backward, at or after it going forward).
pub open spec fn within_start(position: int, start: int, backward: bool) -> bool {
    if backward {
        position <= start
    } else {
        position >= start
    }
}

/// The events of `events` that lie within `start`, in order.
pub open spec fn within_start_events(events: Seq<RoomTimelineEvent>, start: int, backward: bool) -> Seq<
    RoomTimelineEvent,
>
    decreases events.len(),
{
    if events.len() == 0 {
        Seq::empty()
    } else {
        let rest = within_start_events(events.drop_last(), start, backward);
        if within_start(events.last().stream_position as int, start, backward) {
            rest.push(events.last())
        } else {
            rest
        }
    }
}

/// Narrowing the start of a window keeps, of the events taken, those
/// within the new start.
proof fn lemma_selected_narrowed(
    events: Seq<RoomTimelineEvent>,
    start: int,
    narrower: int,
    to: Option<i64>,
    backward: bool,
    filter: Option<RoomEventFilter>,
)
    requires
        within_start(narrower, start, backward),
    ensures
        selected_events(events, narrower, to, backward, filter) == within_start_events(
            selected_events(events, start, to, backward, filter),
            narrower,
            backward,
        ),
    decreases events.len(),
{
    if events.len() > 0 {
        lemma_selected_narrowed(events.drop_last(), start, narrower, to, backward, filter);
        let wide = selected_events(events.drop_last(), start, to, backward, filter);
        let e = events.last();
        if page_selects(e, start, to, backward, filter) {
            let pushed = wide.push(e);
            assert(pushed.drop_last() =~= wide);
            assert(pushed.last() == e);
        }
    }
}

/// In walking order, the events after the `limit`-th are exactly those
/// within the position one step past it.
proof fn lemma_within_after_prefix(q: Seq<RoomTimelineEvent>, limit: int, backward: bool)
    requires
        0 < limit <= q.len(),
        backward ==> falling_positions(q) && q[limit - 1].stream_position != i64::MIN,
        !backward ==> rising_positions(q) && q[limit - 1].stream_position != i64::MAX,
    ensures
        within_start_events(q, position_after(q[limit - 1].stream_position, backward), backward)
            == q.skip(limit),
    decreases q.len(),
{
    let bound = position_after(q[limit - 1].stream_position, backward);
    if q.len() > limit {
        let front = q.drop_last();
        assert(front[limit - 1] == q[limit - 1]);
        assert(backward ==> falling_positions(front)) by {
            if backward {
                assert forall|i: int, j: int| 0 <= i < j < front.len() implies front[i].stream_position
                    > front[j].stream_position by {
                    assert(front[i] == q[i] && front[j] == q[j]);
                }
            }
        }
        assert(!backward ==> rising_positions(front)) by {
            if !backward {
                assert forall|i: int, j: int| 0 <= i < j < front.len() implies front[i].stream_position
                    < front[j].stream_position by {
                    assert(front[i] == q[i] && front[j] == q[j]);
                }
            }
        }
        lemma_within_after_prefix(front, limit, backward);
        assert(within_start(q.last().stream_position as int, bound, backward)) by {
            assert(q[q.len() - 1] == q.last());
        }
        assert(q.skip(limit) =~= front.skip(limit).push(q.last()));
    } else {
        lemma_within_none(q, bound, backward);
        assert(q.skip(limit) =~= Seq::<RoomTimelineEvent>::empty());
    }
}

/// No event of `q` lies within `bound` when each lies before it.
proof fn lemma_within_none(q: Seq<RoomTimelineEvent>, bound: int, backward: bool)
    requires
        forall|i: int| 0 <= i < q.len() ==> !within_start(#[trigger] q[i].stream_position as int, bound, backward),
    ensures
        within_start_events(q, bound, backward) == Seq::<RoomTimelineEvent>::empty(),
    decreases q.len(),
{
    if q.len() > 0 {
        assert(q[q.len() - 1] == q.last());
        assert forall|i: int| 0 <= i < q.drop_last().len() implies !within_start(
            #[trigger] q.drop_last()[i].stream_position as int,
            bound,
            backward,
        ) by {
            assert(q.drop_last()[i] == q[i]);
        }
        lemma_within_none(q.drop_last(), bound, backward);
    }
}

/// Over a timeline whose events have distinct stream positions, given in
/// any order, a page cut short by its limit ends at a position from which the next page takes exactly the events this page
/// left: none twice and none skipped (away from the ends of `i64`, where
/// the position past the last event cannot move).
pub proof fn lemma_next_page_takes_the_rest(
    timeline: Seq<RoomTimelineEvent>,
    from: Option<i64>,
    to: Option<i64>,
    limit: nat,
    backward: bool,
    filter: Option<RoomEventFilter>,
)
    requires
        distinct_positions(timeline),
        0 < limit < page_taken(timeline, from, to, backward, filter).len(),
        backward ==> page_taken(timeline, from, to, backward, filter)[limit - 1].stream_position
            != i64::MIN,
        !backward ==> page_taken(timeline, from, to, backward, filter)[limit - 1].stream_position
            != i64::MAX,
    ensures
        ({
            let taken = page_taken(timeline, from, to, backward, filter);
            let chunk = page_chunk(timeline, from, to, limit as int, backward, filter);
            let end = position_after(chunk.last().stream_position, backward);
            &&& chunk == taken.take(limit as int)
            &&& page_taken(timeline, Some(end as i64), to, backward, filter) == taken.skip(limit as int)
        }),
{
    let order = walk_order(timeline, backward);
    let start = page_start(timeline, from, backward);
    let taken = page_taken(timeline, from, to, backward, filter);
    let chunk = page_chunk(timeline, from, to, limit as int, backward, filter);
    assert(chunk == taken.take(limit as int));
    assert(chunk.last() == taken[limit - 1]);
    let last = taken[limit - 1];
    let end = position_after(last.stream_position, backward);
    let sorted = stream_order(timeline);
    lemma_stream_order_rises(timeline);
    lemma_stream_order_contains(timeline);
    if backward {
        assert forall|i: int, j: int| 0 <= i < j < order.len() implies order[i].stream_position
            > order[j].stream_position by {
            assert(order[i] == sorted[sorted.len() - 1 - i]);
            assert(order[j] == sorted[sorted.len() - 1 - j]);
        }
    }
    lemma_selected_events_props(order, start, to, backward, filter);
    assert(taken.contains(last));
    assert(page_selects(last, start, to, backward, filter));
    assert(within_start(end, start, backward));
    assert(page_start(timeline, Some(end as i64), backward) == end);
    lemma_selected_narrowed(order, start, end, to, backward, filter);
    lemma_within_after_prefix(taken, limit as int, backward);
}

/// Whether a list of the filter, given and not empty, holds `value`.
fn admits(list: &Option<Vec<String>>, value: &str) -> (r: bool)
    ensures
        r == list_admits(opt_strings_view(*list), value@),
{
    match list {
        Some(l) => if l.len() == 0 {
            true
        } else {
            contains_string(l, value)
        },
        None => true,
    }
}

/// Whether a list of the filter is given and holds `value`.
fn refuses(list: &Option<Vec<String>>, value: &str) -> (r: bool)
    ensures
        r == list_refuses(opt_strings_view(*list), value@),
{
    match list {
        Some(l) => contains_string(l, value),
        None => false,
    }
}

/// Decides whether the page takes `event`.
pub fn page_takes(
    event: &RoomTimelineEvent,
    start: i64,
    to: Option<i64>,
    backward: bool,
    filter: Option<&RoomEventFilter>,
) -> (r: bool)
    ensures
        r == page_selects(
            *event,
            start as int,
            to,
            backward,
            match filter {
                Some(f) => Some(*f),
                None => None,
            },
        ),
{
    let position = event.stream_position;
    let in_window = if backward {
        position <= start && match to {
            Some(t) => position > t,
            None => true,
        }
    } else {
        position >= start && match to {
            Some(t) => position < t,
            None => true,
        }
    };
    if !in_window {
        return false;
    }
    match filter {
        None => true,
        Some(f) => {
            if !admits(&f.types, event.event_type.as_str()) || refuses(
                &f.not_types,
                event.event_type.as_str(),
            ) {
                return false;
            }
            if !admits(&f.senders, event.sender.as_str()) || refuses(
                &f.not_senders,
                event.sender.as_str(),
            ) {
                return false;
            }
            match f.contains_url {
                Some(wanted) => event.content.get("url").is_some() == wanted,
                None => true,
            }
        },
    }
}

/// The highest stream position of the timeline, if it has events.
pub fn highest_stream_position(events: &Vec<RoomTimelineEvent>) -> (r: Option<i64>)
    ensures
        match r {
            Some(m) => highest_position(events@) == Some(m as int),
            None => highest_position(events@) is None,
        },
{
    let mut best: Option<i64> = None;
    let mut i: usize = 0;
    while i < events.len()
        invariant
            i <= events@.len(),
            match best {
                Some(m) => highest_position(events@.take(i as int)) == Some(m as int),
                None => highest_position(events@.take(i as int)) is None,
            },
        decreases events.len() - i,
    {
        assert(events@.take(i as int + 1).drop_last() =~= events@.take(i as int));
        let p = events[i].stream_position;
        best = match best {
            Some(m) if m >= p => Some(m),
            _ => Some(p),
        };
        i = i + 1;
    }
    assert(events@.take(events@.len() as int) =~= events@);
    best
}

/// The events in reverse order.
fn reversed_events(events: Vec<RoomTimelineEvent>) -> (r: Vec<RoomTimelineEvent>)
    ensures
        r@ == events@.reverse(),
{
    let ghost given = events@;
    let ghost n = events@.len();
    let mut rest = events;
    let mut out: Vec<RoomTimelineEvent> = Vec::new();
    while rest.len() > 0
        invariant
            n == given.len(),
            rest@ == given.take(n - out@.len()),
            out@ == given.reverse().take(out@.len() as int),
            out@.len() <= n,
        decreases rest.len(),
    {
        let ghost k = out@.len();
        let e = rest.pop().unwrap();
        assert(e == given[n - 1 - k]);
        out.push(e);
        assert(rest@ =~= given.take(n - out@.len()));
        assert(out@ =~= given.reverse().take(out@.len() as int));
    }
    assert(out@ =~= given.reverse());
    out
}

/// A page of the room's `timeline`, as the store reads it for a message
/// page request: the window starts at `from` (or, when absent, at the
/// newest position going backward and at 0 going forward) and stops
/// before `to`; the filter thins it; the first `limit` events in walking
/// order (the timeline put in stream order, then newest first going
/// backward) form the chunk; `start` is the window's start, and `end` is one
/// step past the chunk's last event, when there is one.
pub fn select_room_messages_page(
    timeline: Vec<RoomTimelineEvent>,
    from: Option<i64>,
    to: Option<i64>,
    limit: usize,
    backward: bool,
    filter: Option<&RoomEventFilter>,
) -> (r: RoomMessagesPage)
    ensures
        ({
            let filter_value = match filter {
                Some(f) => Some(*f),
                None => None,
            };
            let chunk = page_chunk(timeline@, from, to, limit as int, backward, filter_value);
            &&& r.start@ == signed_decimal(page_start(timeline@, from, backward))
            &&& r.chunk@ == chunk
            &&& r.state@.len() == 0
            &&& if chunk.len() == 0 {
                r.end is None
            } else {
                r.end matches Some(e) && e@ == signed_decimal(
                    position_after(chunk.last().stream_position, backward),
                )
            }
        }),
{
    let ghost s = timeline@;
    let ghost filter_value = match filter {
        Some(f) => Some(*f),
        None => None,
    };
    let start: i64 = match from {
        Some(f) => f,
        None => if backward {
            match highest_stream_position(&timeline) {
                Some(m) => m,
                None => 0,
            }
        } else {
            0
        },
    };
    assert(start as int == page_start(s, from, backward));
    let total = timeline.len();
    let ghost n = s.len();
    let ghost order = walk_order(s, backward);
    proof {
        lemma_stream_order_contains(s);
    }
    let sorted = sort_by_stream_position(timeline);
    let ghost stack = if backward {
        stream_order(s)
    } else {
        stream_order(s).reverse()
    };
    let mut queue = if backward {
        sorted
    } else {
        reversed_events(sorted)
    };
    assert(queue@ == stack);
    assert(stack.take(n as int) =~= stack);
    let mut chunk: Vec<RoomTimelineEvent> = Vec::new();
    let mut k: usize = 0;
    assert(order.take(0) =~= Seq::<RoomTimelineEvent>::empty());
    while chunk.len() < limit && queue.len() > 0
        invariant
            n == s.len(),
            n == total,
            order == walk_order(s, backward),
            stream_order(s).len() == n,
            stack == (if backward {
                stream_order(s)
            } else {
                stream_order(s).reverse()
            }),
            k <= n,
            queue@ == stack.take(n - k),
            chunk@ == selected_events(order.take(k as int), start as int, to, backward, filter_value),
            chunk@.len() <= limit,
            start as int == page_start(s, from, backward),
            filter_value == (match filter {
                Some(f) => Some(*f),
                None => None,
            }),
        decreases queue.len(),
    {
        let e = queue.pop().unwrap();
        assert(e == stack[n - 1 - k]);
        assert(e == order[k as int]);
        assert(order.take(k as int + 1).drop_last() =~= order.take(k as int));
        assert(order.take(k as int + 1).last() == e);
        if page_takes(&e, start, to, backward, filter) {
            chunk.push(e);
        }
        k = k + 1;
        assert(queue@ =~= stack.take(n - k));
    }
    proof {
        let taken = selected_events(order, start as int, to, backward, filter_value);
        assert(order.len() == n);
        assert(order.take(n as int) =~= order);
        lemma_selected_prefix(order, k as int, n as int, start as int, to, backward, filter_value);
        if chunk@.len() < limit {
            assert(k == n);
            assert(chunk@ == taken);
        } else {
            assert(taken.take(limit as int) == chunk@);
        }
        assert(chunk@ == page_chunk(s, from, to, limit as int, backward, filter_value));
    }
    let end = if chunk.len() == 0 {
        None
    } else {
        let last = chunk[chunk.len() - 1].stream_position;
        let next: i64 = if backward {
            if last == i64::MIN {
                last
            } else {
                last - 1
            }
        } else {
            if last == i64::MAX {
                last
            } else {
                last + 1
            }
        };
        Some(i64_to_decimal(next))
    };
    RoomMessagesPage { start: i64_to_decimal(start), end, chunk, state: Vec::new() }
}

} // verus!
