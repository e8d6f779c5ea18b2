//! The state rows written with a batch of room events: each current-state
//! update names the event that now holds a state key; the rows keep, for
//! every state key, the content of its latest update, ordered by when that
//! update came.
use vstd::prelude::*;

use crate::json::{Json, JsonValue};
use crate::text::str_eq;

verus! {

/// An event of a batch, with the content it carries.
#[derive(Debug)]
pub struct EventContentRow {
    pub event_id: String,
    pub content: JsonValue,
}

/// An update of a room's current state: the event that now holds the
/// state key (`room_id`, `event_type`, `state_key`).
#[derive(Debug)]
pub struct CurrentStateUpdate {
    pub room_id: String,
    pub event_type: String,
    pub state_key: String,
    pub event_id: String,
}

/// The rows one event write brings: its events and the current-state
/// updates they make.
#[derive(Debug)]
pub struct EventWriteContract {
    pub event_rows: Vec<EventContentRow>,
    pub current_state_updates: Vec<CurrentStateUpdate>,
}

/// A state row to store: the state key, the content that holds it, and
/// the row's place among the batch's state rows.
#[derive(Debug)]
pub struct OrderedStateEventRow {
    pub room_id: String,
    pub event_type: String,
    pub state_key: String,
    pub content: JsonValue,
    pub ordering: i32,
}

/// The state key an update is about.
pub open spec fn update_key(update: CurrentStateUpdate) -> (Seq<char>, Seq<char>, Seq<char>) {
    (update.room_id@, update.event_type@, update.state_key@)
}

/// A state row as a state key and its content.
pub open spec fn row_write(row: OrderedStateEventRow) -> ((Seq<char>, Seq<char>, Seq<char>), Json) {
    ((row.room_id@, row.event_type@, row.state_key@), row.content@)
}

/// State rows as state keys and contents.
pub open spec fn rows_writes(rows: Seq<OrderedStateEventRow>) -> Seq<
    ((Seq<char>, Seq<char>, Seq<char>), Json),
> {
    Seq::new(rows.len(), |i: int| row_write(rows[i]))
}

/// The content of the first event of `rows` with id `event_id`.
pub open spec fn row_content(rows: Seq<EventContentRow>, event_id: Seq<char>) -> Option<Json>
    decreases rows.len(),
{
    if rows.len() == 0 {
        None
    } else {
        match row_content(rows.drop_last(), event_id) {
            Some(c) => Some(c),
            None => if rows.last().event_id@ == event_id {
                Some(rows.last().content@)
            } else {
                None
            },
        }
    }
}

/// The state writes of one event write, in order: each update whose event
/// is among the write's events gives its key that event's content; an
/// update whose event is not there writes nothing.
pub open spec fn contract_state_writes(
    rows: Seq<EventContentRow>,
    updates: Seq<CurrentStateUpdate>,
) -> Seq<((Seq<char>, Seq<char>, Seq<char>), Json)>
    decreases updates.len(),
{
    if updates.len() == 0 {
        Seq::empty()
    } else {
        let earlier = contract_state_writes(rows, updates.drop_last());
        match row_content(rows, updates.last().event_id@) {
            Some(c) => earlier.push((update_key(updates.last()), c)),
            None => earlier,
        }
    }
}

/// The state writes of a batch, event write after event write.
pub open spec fn batch_state_writes(batch: Seq<EventWriteContract>) -> Seq<
    ((Seq<char>, Seq<char>, Seq<char>), Json),
>
    decreases batch.len(),
{
    if batch.len() == 0 {
        Seq::empty()
    } else {
        batch_state_writes(batch.drop_last()) + contract_state_writes(
            batch.last().event_rows@,
            batch.last().current_state_updates@,
        )
    }
}

/// `writes` without the writes of `key`.
pub open spec fn without_key(
    writes: Seq<((Seq<char>, Seq<char>, Seq<char>), Json)>,
    key: (Seq<char>, Seq<char>, Seq<char>),
) -> Seq<((Seq<char>, Seq<char>, Seq<char>), Json)>
    decreases writes.len(),
{
    if writes.len() == 0 {
        Seq::empty()
    } else {
        let rest = without_key(writes.drop_last(), key);
        if writes.last().0 == key {
            rest
        } else {
            rest.push(writes.last())
        }
    }
}

/// The latest write of each state key, ordered by when it came.
pub open spec fn latest_state_writes(writes: Seq<((Seq<char>, Seq<char>, Seq<char>), Json)>) -> Seq<
    ((Seq<char>, Seq<char>, Seq<char>), Json),
>
    decreases writes.len(),
{
    if writes.len() == 0 {
        Seq::empty()
    } else {
        without_key(latest_state_writes(writes.drop_last()), writes.last().0).push(writes.last())
    }
}

/// A row's place, kept within `i32`.
pub open spec fn state_ordering(index: int) -> int {
    if index <= i32::MAX {
        index
    } else {
        i32::MAX as int
    }
}

/// Whether no later write than the `i`-th is about the same key.
pub open spec fn is_last_write_of_key(writes: Seq<((Seq<char>, Seq<char>, Seq<char>), Json)>, i: int) -> bool {
    forall|j: int| i < j < writes.len() ==> (#[trigger] writes[j]).0 != writes[i].0
}

/// No two writes of `writes` are about the same key.
pub open spec fn distinct_keys(writes: Seq<((Seq<char>, Seq<char>, Seq<char>), Json)>) -> bool {
    forall|i: int, j: int| 0 <= i < j < writes.len() ==> (#[trigger] writes[i]).0 != (#[trigger] writes[j]).0
}

proof fn lemma_without_key(
    writes: Seq<((Seq<char>, Seq<char>, Seq<char>), Json)>,
    key: (Seq<char>, Seq<char>, Seq<char>),
)
    ensures
        forall|x: ((Seq<char>, Seq<char>, Seq<char>), Json)| #[trigger] without_key(writes, key).contains(x)
            <==> (writes.contains(x) && x.0 != key),
        distinct_keys(writes) ==> distinct_keys(without_key(writes, key)),
    decreases writes.len(),
{
    if writes.len() > 0 {
        let front = writes.drop_last();
        lemma_without_key(front, key);
        let rest = without_key(front, key);
        let last = writes.last();
        assert forall|x: ((Seq<char>, Seq<char>, Seq<char>), Json)| writes.contains(x) <==> (front.contains(x) || x == last) by {
            if writes.contains(x) {
                let i = choose|i: int| 0 <= i < writes.len() && writes[i] == x;
                if i < writes.len() - 1 {
                    assert(front[i] == x);
                }
            }
            if front.contains(x) {
                let i = choose|i: int| 0 <= i < front.len() && front[i] == x;
                assert(writes[i] == x);
            }
            if x == last {
                assert(writes[writes.len() - 1] == x);
            }
        }
        if last.0 != key {
            let r = rest.push(last);
            assert forall|x: ((Seq<char>, Seq<char>, Seq<char>), Json)| r.contains(x) <==> (rest.contains(x) || x == last) by {
                if r.contains(x) {
                    let i = choose|i: int| 0 <= i < r.len() && r[i] == x;
                    if i < rest.len() {
                        assert(rest[i] == x);
                    }
                }
                if rest.contains(x) {
                    let i = choose|i: int| 0 <= i < rest.len() && rest[i] == x;
                    assert(r[i] == x);
                }
                if x == last {
                    assert(r[rest.len() as int] == x);
                }
            }
            if distinct_keys(writes) {
                assert(distinct_keys(front)) by {
                    assert forall|i: int, j: int| 0 <= i < j < front.len() implies (#[trigger] front[i]).0
                        != (#[trigger] front[j]).0 by {
                        assert(front[i] == writes[i] && front[j] == writes[j]);
                    }
                }
                assert forall|i: int, j: int| 0 <= i < j < r.len() implies (#[trigger] r[i]).0 != (
                #[trigger] r[j]).0 by {
                    if j == r.len() - 1 {
                        assert(rest.contains(r[i]));
                        assert(front.contains(r[i]));
                        let k = choose|k: int| 0 <= k < front.len() && front[k] == r[i];
                        assert(writes[k] == r[i]);
                        assert(writes[writes.len() - 1] == last);
                    } else {
                        assert(r[i] == rest[i] && r[j] == rest[j]);
                    }
                }
            }
        } else {
            if distinct_keys(writes) {
                assert forall|i: int, j: int| 0 <= i < j < front.len() implies (#[trigger] front[i]).0
                    != (#[trigger] front[j]).0 by {
                    assert(front[i] == writes[i] && front[j] == writes[j]);
                }
            }
        }
    }
}

/// Each state key keeps one row, holding its latest write, and the rows
/// are the latest writes of their keys.
proof fn lemma_latest_state_writes(writes: Seq<((Seq<char>, Seq<char>, Seq<char>), Json)>)
    ensures
        distinct_keys(latest_state_writes(writes)),
        forall|x: ((Seq<char>, Seq<char>, Seq<char>), Json)| #[trigger] latest_state_writes(writes).contains(x)
            ==> exists|i: int| 0 <= i < writes.len() && writes[i] == x && is_last_write_of_key(writes, i),
        forall|i: int| 0 <= i < writes.len() && is_last_write_of_key(writes, i) ==> latest_state_writes(
            writes,
        ).contains(#[trigger] writes[i]),
    decreases writes.len(),
{
    if writes.len() > 0 {
        let front = writes.drop_last();
        let last = writes.last();
        let n = writes.len();
        lemma_latest_state_writes(front);
        let earlier = latest_state_writes(front);
        lemma_without_key(earlier, last.0);
        let kept = without_key(earlier, last.0);
        let latest = kept.push(last);
        assert(latest == latest_state_writes(writes));
        assert forall|x: ((Seq<char>, Seq<char>, Seq<char>), Json)| latest.contains(x) <==> (kept.contains(x) || x == last) by {
            if latest.contains(x) {
                let i = choose|i: int| 0 <= i < latest.len() && latest[i] == x;
                if i < kept.len() {
                    assert(kept[i] == x);
                }
            }
            if kept.contains(x) {
                let i = choose|i: int| 0 <= i < kept.len() && kept[i] == x;
                assert(latest[i] == x);
            }
            if x == last {
                assert(latest[kept.len() as int] == x);
            }
        }
        assert forall|i: int, j: int| 0 <= i < j < latest.len() implies (#[trigger] latest[i]).0 != (
        #[trigger] latest[j]).0 by {
            if j == latest.len() - 1 {
                assert(kept.contains(latest[i]));
            } else {
                assert(latest[i] == kept[i] && latest[j] == kept[j]);
            }
        }
        assert forall|x: ((Seq<char>, Seq<char>, Seq<char>), Json)| #[trigger] latest.contains(x) implies exists|i: int|
            0 <= i < writes.len() && writes[i] == x && is_last_write_of_key(writes, i) by {
            if x == last {
                assert(writes[n - 1] == x && is_last_write_of_key(writes, n - 1));
            } else {
                assert(kept.contains(x));
                assert(earlier.contains(x) && x.0 != last.0);
                let i = choose|i: int| 0 <= i < front.len() && front[i] == x && is_last_write_of_key(front, i);
                assert(writes[i] == x);
                assert forall|j: int| i < j < writes.len() implies (#[trigger] writes[j]).0 != writes[i].0 by {
                    if j < n - 1 {
                        assert(writes[j] == front[j]);
                    }
                }
            }
        }
        assert forall|i: int| 0 <= i < writes.len() && is_last_write_of_key(writes, i) implies latest.contains(
            #[trigger] writes[i],
        ) by {
            if i == n - 1 {
                assert(latest[kept.len() as int] == writes[i]);
            } else {
                assert(writes[i] == front[i]);
                assert(is_last_write_of_key(front, i)) by {
                    assert forall|j: int| i < j < front.len() implies (#[trigger] front[j]).0 != front[i].0 by {
                        assert(front[j] == writes[j]);
                    }
                }
                assert(earlier.contains(front[i]));
                assert(writes[n - 1] == last);
                assert(last.0 != writes[i].0);
                assert(kept.contains(writes[i]));
            }
        }
    }
}

/// The state rows of a batch hold, for each state key it writes, one row:
/// the content of that key's latest write; no key has two rows, and every
/// row is the latest write of its key.
pub proof fn lemma_state_rows_last_write_wins(batch: Seq<EventWriteContract>)
    ensures
        ({
            let writes = batch_state_writes(batch);
            let rows = latest_state_writes(writes);
            &&& distinct_keys(rows)
            &&& forall|i: int|
                0 <= i < writes.len() && is_last_write_of_key(writes, i) ==> rows.contains(
                    #[trigger] writes[i],
                )
            &&& forall|x: ((Seq<char>, Seq<char>, Seq<char>), Json)| #[trigger] rows.contains(x) ==> exists|i: int|
                0 <= i < writes.len() && writes[i] == x && is_last_write_of_key(writes, i)
        }),
{
    lemma_latest_state_writes(batch_state_writes(batch));
}

/// The position of the last write of `key` in `writes`, or -1 when there
/// is none.
pub open spec fn last_write_index(
    writes: Seq<((Seq<char>, Seq<char>, Seq<char>), Json)>,
    key: (Seq<char>, Seq<char>, Seq<char>),
) -> int
    decreases writes.len(),
{
    if writes.len() == 0 {
        -1
    } else if writes.last().0 == key {
        writes.len() - 1
    } else {
        last_write_index(writes.drop_last(), key)
    }
}

/// Along `rows`, `rank` of the keys strictly rises.
pub open spec fn ranks_rise(
    rows: Seq<((Seq<char>, Seq<char>, Seq<char>), Json)>,
    rank: spec_fn((Seq<char>, Seq<char>, Seq<char>)) -> int,
) -> bool {
    forall|a: int, b: int| 0 <= a < b < rows.len() ==> rank((#[trigger] rows[a]).0) < rank((#[trigger] rows[b]).0)
}

proof fn lemma_last_write_index_bounds(
    writes: Seq<((Seq<char>, Seq<char>, Seq<char>), Json)>,
    key: (Seq<char>, Seq<char>, Seq<char>),
)
    ensures
        -1 <= last_write_index(writes, key) < writes.len(),
        last_write_index(writes, key) >= 0 ==> writes[last_write_index(writes, key)].0 == key,
    decreases writes.len(),
{
    if writes.len() > 0 && writes.last().0 != key {
        lemma_last_write_index_bounds(writes.drop_last(), key);
    }
}

proof fn lemma_without_key_keeps_rise(
    rows: Seq<((Seq<char>, Seq<char>, Seq<char>), Json)>,
    key: (Seq<char>, Seq<char>, Seq<char>),
    rank: spec_fn((Seq<char>, Seq<char>, Seq<char>)) -> int,
)
    requires
        ranks_rise(rows, rank),
    ensures
        ranks_rise(without_key(rows, key), rank),
    decreases rows.len(),
{
    if rows.len() > 0 {
        let front = rows.drop_last();
        assert(ranks_rise(front, rank)) by {
            assert forall|a: int, b: int| 0 <= a < b < front.len() implies rank((#[trigger] front[a]).0)
                < rank((#[trigger] front[b]).0) by {
                assert(front[a] == rows[a] && front[b] == rows[b]);
            }
        }
        lemma_without_key_keeps_rise(front, key, rank);
        lemma_without_key(front, key);
        let rest = without_key(front, key);
        let last = rows.last();
        if last.0 != key {
            let r = rest.push(last);
            assert forall|a: int, b: int| 0 <= a < b < r.len() implies rank((#[trigger] r[a]).0) < rank(
                (#[trigger] r[b]).0,
            ) by {
                if b == r.len() - 1 {
                    assert(rest.contains(r[a]));
                    assert(front.contains(r[a]));
                    let k = choose|k: int| 0 <= k < front.len() && front[k] == r[a];
                    assert(rows[k] == r[a]);
                    assert(rows[rows.len() - 1] == last);
                } else {
                    assert(r[a] == rest[a] && r[b] == rest[b]);
                }
            }
        }
    }
}

proof fn lemma_latest_writes_rise(writes: Seq<((Seq<char>, Seq<char>, Seq<char>), Json)>)
    ensures
        ranks_rise(latest_state_writes(writes), |k: (Seq<char>, Seq<char>, Seq<char>)| last_write_index(writes, k)),
    decreases writes.len(),
{
    if writes.len() > 0 {
        let front = writes.drop_last();
        let last = writes.last();
        let rank_front = |k: (Seq<char>, Seq<char>, Seq<char>)| last_write_index(front, k);
        let rank = |k: (Seq<char>, Seq<char>, Seq<char>)| last_write_index(writes, k);
        lemma_latest_writes_rise(front);
        let earlier = latest_state_writes(front);
        lemma_without_key_keeps_rise(earlier, last.0, rank_front);
        lemma_without_key(earlier, last.0);
        let kept = without_key(earlier, last.0);
        let latest = kept.push(last);
        assert(latest == latest_state_writes(writes));
        assert forall|a: int, b: int| 0 <= a < b < latest.len() implies rank((#[trigger] latest[a]).0) < rank(
            (#[trigger] latest[b]).0,
        ) by {
            assert(kept.contains(latest[a]));
            assert(latest[a].0 != last.0);
            assert(rank(latest[a].0) == rank_front(latest[a].0));
            lemma_last_write_index_bounds(front, latest[a].0);
            if b == latest.len() - 1 {
                assert(latest[b] == last);
                assert(rank(last.0) == writes.len() - 1);
            } else {
                assert(latest[a] == kept[a] && latest[b] == kept[b]);
                assert(kept.contains(latest[b]));
                assert(latest[b].0 != last.0);
                assert(rank(latest[b].0) == rank_front(latest[b].0));
            }
        }
    }
}

/// The state rows of a batch come in the order of the last writes of
/// their keys: a row before another is the row whose key was last written
/// earlier in the batch.
pub proof fn lemma_state_rows_follow_last_writes(batch: Seq<EventWriteContract>)
    ensures
        ({
            let writes = batch_state_writes(batch);
            let rows = latest_state_writes(writes);
            forall|a: int, b: int|
                0 <= a < b < rows.len() ==> last_write_index(writes, (#[trigger] rows[a]).0)
                    < last_write_index(writes, (#[trigger] rows[b]).0)
        }),
{
    lemma_latest_writes_rise(batch_state_writes(batch));
}

proof fn lemma_row_content_extends(rows: Seq<EventContentRow>, event_id: Seq<char>, i: int)
    requires
        0 <= i <= rows.len(),
        row_content(rows.take(i), event_id) is Some,
    ensures
        row_content(rows, event_id) == row_content(rows.take(i), event_id),
    decreases rows.len() - i,
{
    if i < rows.len() {
        assert(rows.take(i + 1).drop_last() =~= rows.take(i));
        lemma_row_content_extends(rows, event_id, i + 1);
    } else {
        assert(rows.take(i) =~= rows);
    }
}

/// The content of the first event of `rows` with id `event_id`.
fn find_row_content<'a>(rows: &'a Vec<EventContentRow>, event_id: &str) -> (r: Option<&'a JsonValue>)
    ensures
        match r {
            Some(c) => row_content(rows@, event_id@) == Some(c@),
            None => row_content(rows@, event_id@) is None,
        },
{
    let mut i: usize = 0;
    while i < rows.len()
        invariant
            i <= rows@.len(),
            row_content(rows@.take(i as int), event_id@) is None,
        decreases rows.len() - i,
    {
        assert(rows@.take(i as int + 1).drop_last() =~= rows@.take(i as int));
        if str_eq(rows[i].event_id.as_str(), event_id) {
            proof {
                lemma_row_content_extends(rows@, event_id@, i as int + 1);
            }
            return Some(&rows[i].content);
        }
        i = i + 1;
    }
    assert(rows@.take(rows@.len() as int) =~= rows@);
    None
}

/// A copy of a state row with another place.
fn copy_row(row: &OrderedStateEventRow, ordering: i32) -> (r: OrderedStateEventRow)
    ensures
        row_write(r) == row_write(*row),
        r.ordering == ordering,
{
    OrderedStateEventRow {
        room_id: row.room_id.clone(),
        event_type: row.event_type.clone(),
        state_key: row.state_key.clone(),
        content: row.content.deep_clone(),
        ordering,
    }
}

/// The rows without those of the state key (`room_id`, `event_type`,
/// `state_key`).
fn rows_without_key(
    rows: &Vec<OrderedStateEventRow>,
    room_id: &str,
    event_type: &str,
    state_key: &str,
) -> (r: Vec<OrderedStateEventRow>)
    ensures
        rows_writes(r@) == without_key(rows_writes(rows@), (room_id@, event_type@, state_key@)),
{
    let ghost key = (room_id@, event_type@, state_key@);
    let mut out: Vec<OrderedStateEventRow> = Vec::new();
    let mut i: usize = 0;
    while i < rows.len()
        invariant
            i <= rows@.len(),
            key == (room_id@, event_type@, state_key@),
            rows_writes(out@) == without_key(rows_writes(rows@.take(i as int)), key),
        decreases rows.len() - i,
    {
        assert(rows_writes(rows@.take(i as int + 1)).drop_last() =~= rows_writes(rows@.take(i as int)));
        assert(rows_writes(rows@.take(i as int + 1)).last() == row_write(rows@[i as int]));
        let row = &rows[i];
        let same = str_eq(row.room_id.as_str(), room_id) && str_eq(row.event_type.as_str(), event_type)
            && str_eq(row.state_key.as_str(), state_key);
        if !same {
            let ghost before = out@;
            out.push(copy_row(row, 0));
            assert(rows_writes(out@) =~= rows_writes(before).push(row_write(rows@[i as int])));
        }
        i = i + 1;
    }
    assert(rows@.take(rows@.len() as int) =~= rows@);
    out
}

/// The state rows a batch of event writes stores: for each state key, the
/// content of its latest update whose event the write carries, ordered by
/// when that update came, each row numbered by its place.
pub fn ordered_state_event_rows(batch: &Vec<EventWriteContract>) -> (r: Vec<OrderedStateEventRow>)
    ensures
        rows_writes(r@) == latest_state_writes(batch_state_writes(batch@)),
        forall|i: int| 0 <= i < r@.len() ==> (#[trigger] r@[i]).ordering == state_ordering(i),
{
    let mut latest: Vec<OrderedStateEventRow> = Vec::new();
    let mut b: usize = 0;
    while b < batch.len()
        invariant
            b <= batch@.len(),
            rows_writes(latest@) == latest_state_writes(batch_state_writes(batch@.take(b as int))),
        decreases batch.len() - b,
    {
        let contract = &batch[b];
        let ghost done = batch_state_writes(batch@.take(b as int));
        let mut u: usize = 0;
        while u < contract.current_state_updates.len()
            invariant
                u <= contract.current_state_updates@.len(),
                done == batch_state_writes(batch@.take(b as int)),
                rows_writes(latest@) == latest_state_writes(
                    done + contract_state_writes(
                        contract.event_rows@,
                        contract.current_state_updates@.take(u as int),
                    ),
                ),
            decreases contract.current_state_updates.len() - u,
        {
            let update = &contract.current_state_updates[u];
            let ghost ups = contract.current_state_updates@;
            assert(ups.take(u as int + 1).drop_last() =~= ups.take(u as int));
            assert(ups.take(u as int + 1).last() == *update);
            let ghost writes = done + contract_state_writes(contract.event_rows@, ups.take(u as int));
            match find_row_content(&contract.event_rows, update.event_id.as_str()) {
                Some(content) => {
                    let ghost w = (update_key(*update), content@);
                    assert(done + contract_state_writes(contract.event_rows@, ups.take(u as int + 1))
                        =~= writes.push(w));
                    assert(writes.push(w).drop_last() =~= writes);
                    let mut kept = rows_without_key(
                        &latest,
                        update.room_id.as_str(),
                        update.event_type.as_str(),
                        update.state_key.as_str(),
                    );
                    let ghost before = kept@;
                    kept.push(
                        OrderedStateEventRow {
                            room_id: update.room_id.clone(),
                            event_type: update.event_type.clone(),
                            state_key: update.state_key.clone(),
                            content: content.deep_clone(),
                            ordering: 0,
                        },
                    );
                    assert(rows_writes(kept@) =~= rows_writes(before).push(w));
                    latest = kept;
                },
                None => {
                    assert(done + contract_state_writes(contract.event_rows@, ups.take(u as int + 1))
                        =~= writes);
                },
            }
            u = u + 1;
        }
        assert(contract.current_state_updates@.take(contract.current_state_updates@.len() as int)
            =~= contract.current_state_updates@);
        assert(batch@.take(b as int + 1).drop_last() =~= batch@.take(b as int));
        assert(batch@.take(b as int + 1).last() == *contract);
        b = b + 1;
    }
    assert(batch@.take(batch@.len() as int) =~= batch@);
    let mut out: Vec<OrderedStateEventRow> = Vec::new();
    let mut i: usize = 0;
    while i < latest.len()
        invariant
            i <= latest@.len(),
            out@.len() == i,
            forall|k: int| 0 <= k < i ==> row_write(#[trigger] out@[k]) == row_write(latest@[k]),
            forall|k: int| 0 <= k < i ==> (#[trigger] out@[k]).ordering == state_ordering(k),
        decreases latest.len() - i,
    {
        let ordering: i32 = if i <= 2147483647usize {
            i as i32
        } else {
            i32::MAX
        };
        out.push(copy_row(&latest[i], ordering));
        i = i + 1;
    }
    assert(rows_writes(out@) =~= rows_writes(latest@));
    out
}

} // verus!
