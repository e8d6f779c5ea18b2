//! Synchronisation: the sync request, the filters that narrow what a sync
//! returns, and how the reply is put together.
use vstd::prelude::*;

use crate::decimal::{parse_i64, parse_signed, signed_decimal};
use crate::errors::SyncronizationApplicationError;
use crate::json::{entries_view, json_as_bool, json_as_u64, json_get, json_text, parse_json_text, Json, JsonValue};
use crate::room_access::DomainError;
use crate::text::{split_once, str_eq, strip_prefix, trim, trim_str};

verus! {

/// The presence a sync sets.
#[derive(Clone, Copy, Debug, PartialEq, Eq, Structural)]
pub enum SyncSetPresence {
    Offline,
    Online,
    Unavailable,
}

/// The presence stored for a sync: what it sets, `online` by default.
pub open spec fn presence_name(p: Option<SyncSetPresence>) -> Seq<char> {
    match p {
        Some(SyncSetPresence::Offline) => "offline"@,
        Some(SyncSetPresence::Unavailable) => "unavailable"@,
        _ => "online"@,
    }
}

pub fn presence_for_sync(set_presence: Option<SyncSetPresence>) -> (r: &'static str)
    ensures
        r@ == presence_name(set_presence),
{
    match set_presence {
        Some(SyncSetPresence::Offline) => "offline",
        Some(SyncSetPresence::Unavailable) => "unavailable",
        _ => "online",
    }
}

/// The filter of a sync: a stored filter's identifier, or a filter given
/// inline.
#[derive(Debug)]
pub enum SyncFilterSelection {
    StoredFilterIdentifier(String),
    InlineFilterDefinition(JsonValue),
}

/// The query of a sync request.
#[derive(Debug)]
pub struct SyncQueryInfo {
    pub filter: Option<String>,
    pub since: Option<String>,
    pub full_state: Option<bool>,
    pub set_presence: Option<SyncSetPresence>,
    pub timeout: Option<u64>,
    pub use_state_after: Option<bool>,
}

/// A sync request.
#[derive(Debug)]
pub struct SyncRequest {
    pub filter: Option<SyncFilterSelection>,
    pub since: Option<String>,
    pub full_state: bool,
    pub set_presence: Option<SyncSetPresence>,
    pub timeout_milliseconds: u64,
    pub use_state_after: bool,
    pub timeline_limit: usize,
}

/// What the `filter` parameter of a sync stands for. Trimmed, a text that
/// starts with `{` is an inline filter and must be a JSON object
/// (`inline_parse` is what parsing the trimmed text as JSON gave); any
/// other text that is not empty names a stored filter.
pub open spec fn sync_filter_outcome(raw: Seq<char>, inline_parse: Option<Json>) -> Option<
    Option<Json>,
> {
    let t = trim(raw);
    if t.len() > 0 && t[0] == '{' {
        match inline_parse {
            Some(j) => if j is Object {
                Some(Some(j))
            } else {
                None
            },
            None => None,
        }
    } else if t.len() == 0 {
        None
    } else {
        Some(None)
    }
}

/// Reads a sync's `filter` parameter; `inline_parse` is the JSON that the
/// trimmed text parses to, if it does.
pub fn parse_sync_filter(raw_filter: &str, inline_parse: Option<JsonValue>) -> (r: Result<
    SyncFilterSelection,
    SyncronizationApplicationError,
>)
    ensures
        match sync_filter_outcome(
            raw_filter@,
            match inline_parse {
                Some(j) => Some(j@),
                None => None,
            },
        ) {
            None => r == Err::<SyncFilterSelection, _>(SyncronizationApplicationError::InvalidParameter),
            Some(Some(j)) => r matches Ok(SyncFilterSelection::InlineFilterDefinition(v)) && v@ == j,
            Some(None) => r matches Ok(SyncFilterSelection::StoredFilterIdentifier(id)) && id@ == trim(
                raw_filter@,
            ),
        },
{
    let trimmed = trim_str(raw_filter);
    if trimmed.unicode_len() > 0 && trimmed.get_char(0) == '{' {
        return match inline_parse {
            Some(j) => if j.is_object() {
                Ok(SyncFilterSelection::InlineFilterDefinition(j))
            } else {
                Err(SyncronizationApplicationError::InvalidParameter)
            },
            None => Err(SyncronizationApplicationError::InvalidParameter),
        };
    }
    if trimmed.unicode_len() == 0 {
        return Err(SyncronizationApplicationError::InvalidParameter);
    }
    Ok(SyncFilterSelection::StoredFilterIdentifier(String::from_str(trimmed)))
}

/// Reads a sync's `filter` parameter from its raw text: trimmed, a text
/// that starts with `{` is parsed as JSON and must be an object; any other
/// text that is not empty names a stored filter.
pub fn parse_sync_filter_text(raw_filter: &str) -> (r: Result<
    SyncFilterSelection,
    SyncronizationApplicationError,
>)
    ensures
        match sync_filter_outcome(raw_filter@, json_text(trim(raw_filter@))) {
            None => r == Err::<SyncFilterSelection, _>(SyncronizationApplicationError::InvalidParameter),
            Some(Some(j)) => r matches Ok(SyncFilterSelection::InlineFilterDefinition(v)) && v@ == j,
            Some(None) => r matches Ok(SyncFilterSelection::StoredFilterIdentifier(id)) && id@ == trim(
                raw_filter@,
            ),
        },
{
    let trimmed = trim_str(raw_filter);
    let inline = if trimmed.unicode_len() > 0 && trimmed.get_char(0) == '{' {
        parse_json_text(trimmed)
    } else {
        None
    };
    let ghost parsed = match &inline {
        Some(j) => Some(j@),
        None => None,
    };
    assert(sync_filter_outcome(raw_filter@, parsed) == sync_filter_outcome(
        raw_filter@,
        json_text(trim(raw_filter@)),
    ));
    parse_sync_filter(raw_filter, inline)
}

/// Whether some room of `rooms`, synced under `c`, is `key` with a
/// membership that `wanted` picks.
pub open spec fn filed_as(
    rooms: Seq<(UserRoomMembershipRecord, RoomSyncEntry)>,
    c: SyncFilterConstraints,
    key: Seq<char>,
    wanted: spec_fn(Seq<char>) -> bool,
) -> bool {
    exists|i: int|
        0 <= i < rooms.len() && (#[trigger] rooms[i]).0.room_id@ == key && wanted(rooms[i].0.membership@)
            && room_synced(c, rooms[i].0.room_id@, rooms[i].0.membership@)
}

/// Files one room of a sync reply into the joined rooms, invites and rooms
/// left (in that order in `filed`): a room the filter lets through is
/// inserted under its identifier, with its entry when joined, left or
/// banned from, and with the state it shows when invited; any other room
/// is not filed.
pub open spec fn file_room(
    filed: (Seq<(Seq<char>, Json)>, Seq<(Seq<char>, Json)>, Seq<(Seq<char>, Json)>),
    record: UserRoomMembershipRecord,
    room: RoomSyncEntry,
    c: SyncFilterConstraints,
) -> (Seq<(Seq<char>, Json)>, Seq<(Seq<char>, Json)>, Seq<(Seq<char>, Json)>) {
    let id = record.room_id@;
    let m = record.membership@;
    if !room_synced(c, id, m) {
        filed
    } else if m == "join"@ {
        (crate::json::entries_insert(filed.0, id, room.entry@), filed.1, filed.2)
    } else if m == "invite"@ {
        (
            filed.0,
            crate::json::entries_insert(
                filed.1,
                id,
                invite_entry_json(crate::json::items_view(room.state_events@)),
            ),
            filed.2,
        )
    } else if m == "leave"@ || m == "ban"@ {
        (filed.0, filed.1, crate::json::entries_insert(filed.2, id, room.entry@))
    } else {
        filed
    }
}

/// The joined rooms, invites and rooms left of a sync reply: the rooms
/// filed one after another, in order.
pub open spec fn filed_rooms(rooms: Seq<(UserRoomMembershipRecord, RoomSyncEntry)>, c: SyncFilterConstraints) -> (
    Seq<(Seq<char>, Json)>,
    Seq<(Seq<char>, Json)>,
    Seq<(Seq<char>, Json)>,
)
    decreases rooms.len(),
{
    if rooms.len() == 0 {
        (Seq::empty(), Seq::empty(), Seq::empty())
    } else {
        file_room(filed_rooms(rooms.drop_last(), c), rooms.last().0, rooms.last().1, c)
    }
}

/// The rooms of a sync reply: each room the filter lets through is filed
/// under its membership, in order, with its entry. So the joined rooms
/// are exactly the synced rooms with membership `join`, the invites those
/// with `invite`, the rooms left those with `leave` or `ban`, and nothing
/// is filed under knocks.
pub fn file_synced_rooms(
    constraints: &SyncFilterConstraints,
    rooms: Vec<(UserRoomMembershipRecord, RoomSyncEntry)>,
) -> (r: SyncRoomsBatch)
    ensures
        r.join@ == Json::Object(filed_rooms(rooms@, *constraints).0),
        r.invite@ == Json::Object(filed_rooms(rooms@, *constraints).1),
        r.leave@ == Json::Object(filed_rooms(rooms@, *constraints).2),
        r.knock@ == Json::Object(Seq::empty()),
        forall|key: Seq<char>|
            (#[trigger] json_get(r.join@, key) is Some) <==> filed_as(
                rooms@,
                *constraints,
                key,
                |m: Seq<char>| m == "join"@,
            ),
        forall|key: Seq<char>|
            (#[trigger] json_get(r.invite@, key) is Some) <==> filed_as(
                rooms@,
                *constraints,
                key,
                |m: Seq<char>| m == "invite"@,
            ),
        forall|key: Seq<char>|
            (#[trigger] json_get(r.leave@, key) is Some) <==> filed_as(
                rooms@,
                *constraints,
                key,
                |m: Seq<char>| m == "leave"@ || m == "ban"@,
            ),
{
    let ghost given = rooms@;
    let ghost n = given.len();
    let ghost c = *constraints;
    let ghost is_join = |m: Seq<char>| m == "join"@;
    let ghost is_invite = |m: Seq<char>| m == "invite"@;
    let ghost is_leave = |m: Seq<char>| m == "leave"@ || m == "ban"@;
    let mut remaining = rooms;
    let mut pending: Vec<(UserRoomMembershipRecord, RoomSyncEntry)> = Vec::new();
    while remaining.len() > 0
        invariant
            n == given.len(),
            remaining@.len() + pending@.len() == n,
            forall|k: int| 0 <= k < remaining@.len() ==> #[trigger] remaining@[k] == given[k],
            forall|j: int| 0 <= j < pending@.len() ==> #[trigger] pending@[j] == given[n - 1 - j],
        decreases remaining.len(),
    {
        let ghost at = remaining@.len() - 1;
        let item = remaining.pop().unwrap();
        assert(item == given[at]);
        pending.push(item);
    }
    let mut batch = SyncRoomsBatch::new();
    let ghost mut done: int = 0;
    assert(forall|key: Seq<char>| !(#[trigger] json_get(batch.join@, key) is Some));
    while pending.len() > 0
        invariant
            n == given.len(),
            c == *constraints,
            pending@.len() + done == n,
            0 <= done <= n,
            forall|j: int| 0 <= j < pending@.len() ==> #[trigger] pending@[j] == given[n - 1 - j],
            batch.join@ == Json::Object(filed_rooms(given.take(done), c).0),
            batch.invite@ == Json::Object(filed_rooms(given.take(done), c).1),
            batch.leave@ == Json::Object(filed_rooms(given.take(done), c).2),
            batch.knock@ == Json::Object(Seq::empty()),
            is_join == (|m: Seq<char>| m == "join"@),
            is_invite == (|m: Seq<char>| m == "invite"@),
            is_leave == (|m: Seq<char>| m == "leave"@ || m == "ban"@),
            forall|key: Seq<char>|
                (#[trigger] json_get(batch.join@, key) is Some) <==> filed_as(given.take(done), c, key, is_join),
            forall|key: Seq<char>|
                (#[trigger] json_get(batch.invite@, key) is Some) <==> filed_as(given.take(done), c, key, is_invite),
            forall|key: Seq<char>|
                (#[trigger] json_get(batch.leave@, key) is Some) <==> filed_as(given.take(done), c, key, is_leave),
        decreases pending.len(),
    {
        let (record, entry) = pending.pop().unwrap();
        let ghost item = given[done];
        assert(record == item.0 && entry == item.1);
        let ghost before = given.take(done);
        let ghost after = given.take(done + 1);
        assert(after =~= before.push(item));
        assert(after.drop_last() =~= before);
        let ghost old_join = batch.join@;
        let ghost old_invite = batch.invite@;
        let ghost old_leave = batch.leave@;
        let ghost ev = entry.entry@;
        let ghost iv = invite_entry_json(crate::json::items_view(entry.state_events@));
        let synced = constraints.room_allows(record.room_id.as_str(), record.membership.as_str());
        if synced {
            batch.add_room(record.room_id.as_str(), record.membership.as_str(), entry);
        }
        proof {
            let rid = item.0.room_id@;
            let mem = item.0.membership@;
            reveal_strlit("join");
            reveal_strlit("invite");
            reveal_strlit("leave");
            reveal_strlit("ban");
            assert("join"@.len() == 4 && "invite"@.len() == 6 && "leave"@.len() == 5 && "ban"@.len() == 3);
            crate::json::lemma_entries_insert_keys(old_join->Object_0, rid, ev);
            crate::json::lemma_entries_insert_keys(old_invite->Object_0, rid, iv);
            crate::json::lemma_entries_insert_keys(old_leave->Object_0, rid, ev);
            assert forall|key: Seq<char>, wanted: spec_fn(Seq<char>) -> bool|
                #[trigger] filed_as(after, c, key, wanted) <==> (filed_as(before, c, key, wanted) || (
                rid == key && wanted(mem) && room_synced(c, rid, mem))) by {
                if filed_as(after, c, key, wanted) {
                    let i = choose|i: int|
                        0 <= i < after.len() && (#[trigger] after[i]).0.room_id@ == key && wanted(
                            after[i].0.membership@,
                        ) && room_synced(c, after[i].0.room_id@, after[i].0.membership@);
                    if i < before.len() {
                        assert(before[i] == after[i]);
                    }
                }
                if filed_as(before, c, key, wanted) {
                    let i = choose|i: int|
                        0 <= i < before.len() && (#[trigger] before[i]).0.room_id@ == key && wanted(
                            before[i].0.membership@,
                        ) && room_synced(c, before[i].0.room_id@, before[i].0.membership@);
                    assert(after[i] == before[i]);
                }
                if rid == key && wanted(mem) && room_synced(c, rid, mem) {
                    assert(after[before.len() as int] == item);
                }
            }
            assert forall|key: Seq<char>|
                (#[trigger] json_get(batch.join@, key) is Some) <==> filed_as(after, c, key, is_join) by {
                assert(filed_as(after, c, key, is_join) <==> (filed_as(before, c, key, is_join) || (rid
                    == key && is_join(mem) && room_synced(c, rid, mem))));
                assert(is_join(mem) == (mem == "join"@));
                if synced && mem == "join"@ {
                    assert(batch.join@ == Json::Object(crate::json::entries_insert(old_join->Object_0, rid, ev)));
                } else {
                    assert(batch.join@ == old_join);
                }
            }
            assert forall|key: Seq<char>|
                (#[trigger] json_get(batch.invite@, key) is Some) <==> filed_as(after, c, key, is_invite) by {
                assert(filed_as(after, c, key, is_invite) <==> (filed_as(before, c, key, is_invite) || (rid
                    == key && is_invite(mem) && room_synced(c, rid, mem))));
                assert(is_invite(mem) == (mem == "invite"@));
                if synced && mem == "invite"@ {
                    assert(batch.invite@ == Json::Object(crate::json::entries_insert(old_invite->Object_0, rid, iv)));
                } else {
                    assert(batch.invite@ == old_invite);
                }
            }
            assert forall|key: Seq<char>|
                (#[trigger] json_get(batch.leave@, key) is Some) <==> filed_as(after, c, key, is_leave) by {
                assert(filed_as(after, c, key, is_leave) <==> (filed_as(before, c, key, is_leave) || (rid
                    == key && is_leave(mem) && room_synced(c, rid, mem))));
                assert(is_leave(mem) == (mem == "leave"@ || mem == "ban"@));
                if synced && (mem == "leave"@ || mem == "ban"@) {
                    assert(batch.leave@ == Json::Object(crate::json::entries_insert(old_leave->Object_0, rid, ev)));
                } else {
                    assert(batch.leave@ == old_leave);
                }
            }
        }
        proof {
            done = done + 1;
        }
    }
    assert(given.take(n as int) =~= given);
    batch
}

/// The member at `path` of a JSON value.
pub open spec fn json_path(value: Json, first: Seq<char>, second: Seq<char>, third: Seq<char>) -> Option<Json> {
    match json_get(value, first) {
        Some(a) => match json_get(a, second) {
            Some(b) => json_get(b, third),
            None => None,
        },
        None => None,
    }
}

/// The timeline limit an inline filter sets at `room.timeline.limit`, when
/// it is a non-negative integer.
pub open spec fn filter_timeline_limit(filter: Option<SyncFilterSelection>) -> Option<int> {
    match filter {
        Some(SyncFilterSelection::InlineFilterDefinition(j)) => match json_path(
            j@,
            "room"@,
            "timeline"@,
            "limit"@,
        ) {
            Some(l) => json_as_u64(l),
            None => None,
        },
        _ => None,
    }
}

/// The timeline limit an inline filter sets, if any; one that does not fit
/// a `usize` is refused.
pub fn parse_timeline_limit_from_filter(filter: Option<&SyncFilterSelection>) -> (r: Result<
    Option<usize>,
    SyncronizationApplicationError,
>)
    ensures
        match filter_timeline_limit(
            match filter {
                Some(f) => Some(*f),
                None => None,
            },
        ) {
            None => r == Ok::<Option<usize>, SyncronizationApplicationError>(None),
            Some(l) => if l <= usize::MAX {
                r == Ok::<Option<usize>, SyncronizationApplicationError>(Some(l as usize))
            } else {
                r == Err::<Option<usize>, _>(SyncronizationApplicationError::InvalidParameter)
            },
        },
{
    let inline = match filter {
        Some(SyncFilterSelection::InlineFilterDefinition(j)) => j,
        _ => return Ok(None),
    };
    let limit = match inline.get("room") {
        Some(room) => match room.get("timeline") {
            Some(timeline) => match timeline.get("limit") {
                Some(l) => l.as_u64(),
                None => None,
            },
            None => None,
        },
        None => None,
    };
    match limit {
        None => Ok(None),
        Some(l) => if (l as u128) <= (usize::MAX as u128) {
            Ok(Some(l as usize))
        } else {
            Err(SyncronizationApplicationError::InvalidParameter)
        },
    }
}

/// The sync request of a query whose filter was read as `filter`: the
/// timeline limit is the filter's, or 10; the other settings default to
/// off and a timeout of 0.
pub fn build_sync_request(query: SyncQueryInfo, filter: Option<SyncFilterSelection>) -> (r: Result<
    SyncRequest,
    SyncronizationApplicationError,
>)
    ensures
        match filter_timeline_limit(filter) {
            Some(l) if l > usize::MAX => r == Err::<SyncRequest, _>(
                SyncronizationApplicationError::InvalidParameter,
            ),
            limit => r matches Ok(req) && req.filter == filter && req.since == query.since
                && req.full_state == (query.full_state == Some(true)) && req.set_presence
                == query.set_presence && req.timeout_milliseconds == (match query.timeout {
                Some(t) => t,
                None => 0,
            }) && req.use_state_after == (query.use_state_after == Some(true)) && req.timeline_limit
                == (match limit {
                Some(l) => l,
                None => 10,
            }),
        },
{
    let timeline_limit = match parse_timeline_limit_from_filter(
        match &filter {
            Some(f) => Some(f),
            None => None,
        },
    ) {
        Ok(Some(l)) => l,
        Ok(None) => 10,
        Err(e) => return Err(e),
    };
    Ok(
        SyncRequest {
            filter,
            since: query.since,
            full_state: match query.full_state {
                Some(b) => b,
                None => false,
            },
            set_presence: query.set_presence,
            timeout_milliseconds: match query.timeout {
                Some(t) => t,
                None => 0,
            },
            use_state_after: match query.use_state_after {
                Some(b) => b,
                None => false,
            },
            timeline_limit,
        },
    )
}

/// The text before the first `_` of `s`, or all of `s`.
pub open spec fn before_underscore(s: Seq<char>) -> Seq<char> {
    match split_once(s, '_') {
        Some((head, _)) => head,
        None => s,
    }
}

/// The stream position of a sync token `s<position>_...`.
pub open spec fn sync_stream_position(token: Seq<char>) -> Option<int> {
    match strip_prefix(token, 's') {
        Some(rest) => parse_signed(before_underscore(rest), i64::MIN as int, i64::MAX as int),
        None => None,
    }
}

pub fn parse_sync_stream_position(sync_token: &str) -> (r: Result<i64, SyncronizationApplicationError>)
    ensures
        match sync_stream_position(sync_token@) {
            Some(p) => r == Ok::<i64, SyncronizationApplicationError>(p as i64),
            None => r == Err::<i64, _>(SyncronizationApplicationError::InvalidParameter),
        },
{
    let rest = match crate::text::strip_prefix_char(sync_token, 's') {
        Some(r) => r,
        None => return Err(SyncronizationApplicationError::InvalidParameter),
    };
    let fragment = match crate::text::split_once_char(rest, '_') {
        Some((head, _)) => head,
        None => rest,
    };
    match parse_i64(fragment) {
        Some(p) => Ok(p),
        None => Err(SyncronizationApplicationError::InvalidParameter),
    }
}

/// The sync token of a stream position.
pub open spec fn sync_token(position: int) -> Seq<char> {
    "s"@ + signed_decimal(position) + "_0_0_0_0_0_0_0_0"@
}

pub fn encode_sync_token(stream_position: i64) -> (r: String)
    ensures
        r@ == sync_token(stream_position as int),
{
    String::from_str("s").concat(crate::decimal::i64_to_decimal(stream_position).as_str()).concat(
        "_0_0_0_0_0_0_0_0",
    )
}

/// Whether a sync waits for news: it is not a full-state sync, it has a
/// timeout, and nothing happened since its token.
pub fn should_wait_for_events(
    full_state: bool,
    timeout_milliseconds: u64,
    current_stream_position: i64,
    since_stream_position: i64,
) -> (r: bool)
    ensures
        r == (!full_state && timeout_milliseconds > 0 && current_stream_position
            <= since_stream_position),
{
    !full_state && timeout_milliseconds > 0 && current_stream_position <= since_stream_position
}

/// How a failed store operation is answered in a sync.
pub fn map_domain_error(error: DomainError) -> (r: SyncronizationApplicationError)
    ensures
        r == (match error {
            DomainError::InvalidRequest(_) => SyncronizationApplicationError::InvalidParameter,
            _ => SyncronizationApplicationError::Internal,
        }),
{
    match error {
        DomainError::InvalidRequest(_) => SyncronizationApplicationError::InvalidParameter,
        _ => SyncronizationApplicationError::Internal,
    }
}

/// The strings of a JSON array, other items skipped; none for anything
/// else, or when no string is left.
pub open spec fn string_array_of(value: Option<Json>) -> Option<Seq<Seq<char>>> {
    match value {
        Some(Json::Array(items)) => {
            let strings = strings_in(items);
            if strings.len() == 0 {
                None
            } else {
                Some(strings)
            }
        },
        _ => None,
    }
}

/// The strings among `items`, in order.
pub open spec fn strings_in(items: Seq<Json>) -> Seq<Seq<char>>
    decreases items.len(),
{
    if items.len() == 0 {
        Seq::empty()
    } else {
        let rest = strings_in(items.drop_last());
        match items.last() {
            Json::Str(s) => rest.push(s),
            _ => rest,
        }
    }
}

pub open spec fn opt_strings_view(o: Option<Vec<String>>) -> Option<Seq<Seq<char>>> {
    match o {
        Some(v) => Some(Seq::new(v@.len(), |i: int| v@[i]@)),
        None => None,
    }
}

pub fn read_string_array(value: Option<&JsonValue>) -> (r: Option<Vec<String>>)
    ensures
        opt_strings_view(r) == string_array_of(
            match value {
                Some(v) => Some(v@),
                None => None,
            },
        ),
{
    let items = match value {
        Some(v) => match v.as_array() {
            Some(items) => items,
            None => return None,
        },
        None => return None,
    };
    let ghost iv = Seq::new(items@.len(), |k: int| crate::json::json_view(items@[k]));
    let mut out: Vec<String> = Vec::new();
    let mut i: usize = 0;
    assert(iv.subrange(0, 0) =~= Seq::<Json>::empty());
    while i < items.len()
        invariant
            i <= items@.len(),
            iv == Seq::new(items@.len(), |k: int| crate::json::json_view(items@[k])),
            Seq::new(out@.len(), |k: int| out@[k]@) == strings_in(iv.subrange(0, i as int)),
        decreases items.len() - i,
    {
        let ghost before = Seq::new(out@.len(), |k: int| out@[k]@);
        assert(iv.subrange(0, i as int + 1).drop_last() =~= iv.subrange(0, i as int));
        assert(iv.subrange(0, i as int + 1).last() == iv[i as int]);
        match items[i].as_str() {
            Some(s) => {
                out.push(String::from_str(s));
                assert(Seq::new(out@.len(), |k: int| out@[k]@) =~= before.push(s@));
            },
            None => {},
        }
        i = i + 1;
    }
    assert(iv.subrange(0, i as int) =~= iv);
    if out.len() == 0 {
        None
    } else {
        Some(out)
    }
}

/// A room event filter of a sync filter.
#[derive(Debug)]
pub struct RoomEventFilterConstraints {
    pub types: Option<Vec<String>>,
    pub not_types: Option<Vec<String>>,
    pub senders: Option<Vec<String>>,
    pub not_senders: Option<Vec<String>>,
    pub contains_url: Option<bool>,
}

/// Whether `r` is the room event filter that the optional JSON object `f`
/// describes: each list is the member's list of strings, and `contains_url`
/// the member's boolean.
pub open spec fn event_filter_from(r: RoomEventFilterConstraints, f: Option<Json>) -> bool {
    &&& opt_strings_view(r.types) == string_array_of(member_of(f, "types"@))
    &&& opt_strings_view(r.not_types) == string_array_of(member_of(f, "not_types"@))
    &&& opt_strings_view(r.senders) == string_array_of(member_of(f, "senders"@))
    &&& opt_strings_view(r.not_senders) == string_array_of(member_of(f, "not_senders"@))
    &&& r.contains_url == (match member_of(f, "contains_url"@) {
        Some(b) => json_as_bool(b),
        None => None,
    })
}

/// The member `field` of an optional JSON value.
pub open spec fn member_of(value: Option<Json>, field: Seq<char>) -> Option<Json> {
    match value {
        Some(v) => json_get(v, field),
        None => None,
    }
}

fn member<'a>(value: Option<&'a JsonValue>, field: &str) -> (r: Option<&'a JsonValue>)
    ensures
        match r {
            Some(m) => member_of(
                match value {
                    Some(v) => Some(v@),
                    None => None,
                },
                field@,
            ) == Some(m@),
            None => member_of(
                match value {
                    Some(v) => Some(v@),
                    None => None,
                },
                field@,
            ) is None,
        },
{
    match value {
        Some(v) => v.get(field),
        None => None,
    }
}

impl RoomEventFilterConstraints {
    pub fn default() -> (r: Self)
        ensures
            r.types is None && r.not_types is None && r.senders is None && r.not_senders is None
                && r.contains_url is None,
    {
        RoomEventFilterConstraints {
            types: None,
            not_types: None,
            senders: None,
            not_senders: None,
            contains_url: None,
        }
    }

    /// The filter an optional JSON object describes.
    pub fn from_json(filter_json: Option<&JsonValue>) -> (r: Self)
        ensures
            event_filter_from(
                r,
                match filter_json {
                    Some(v) => Some(v@),
                    None => None,
                },
            ),
    {
        RoomEventFilterConstraints {
            types: read_string_array(member(filter_json, "types")),
            not_types: read_string_array(member(filter_json, "not_types")),
            senders: read_string_array(member(filter_json, "senders")),
            not_senders: read_string_array(member(filter_json, "not_senders")),
            contains_url: match member(filter_json, "contains_url") {
                Some(b) => b.as_bool(),
                None => None,
            },
        }
    }

    /// Whether an event passes: its type is among `types` and not among
    /// `not_types`, its sender among `senders` and not among `not_senders`
    /// (each list only where given), and whether its content has a `url`
    /// is what `contains_url` asks for, when it asks.
    pub fn allows(&self, event_type: &str, sender: &str, content: &JsonValue) -> (r: bool)
        ensures
            r == event_filter_allows(
                opt_strings_view(self.types),
                opt_strings_view(self.not_types),
                opt_strings_view(self.senders),
                opt_strings_view(self.not_senders),
                self.contains_url,
                event_type@,
                sender@,
                content@,
            ),
    {
        match &self.types {
            Some(types) => if !contains_string(types, event_type) {
                return false;
            },
            None => {},
        }
        match &self.not_types {
            Some(not_types) => if contains_string(not_types, event_type) {
                return false;
            },
            None => {},
        }
        match &self.senders {
            Some(senders) => if !contains_string(senders, sender) {
                return false;
            },
            None => {},
        }
        match &self.not_senders {
            Some(not_senders) => if contains_string(not_senders, sender) {
                return false;
            },
            None => {},
        }
        match self.contains_url {
            Some(wanted) => {
                let has_url = content.get("url").is_some();
                if has_url != wanted {
                    return false;
                }
            },
            None => {},
        }
        true
    }
}

/// What `RoomEventFilterConstraints::allows` decides.
pub open spec fn event_filter_allows(
    types: Option<Seq<Seq<char>>>,
    not_types: Option<Seq<Seq<char>>>,
    senders: Option<Seq<Seq<char>>>,
    not_senders: Option<Seq<Seq<char>>>,
    contains_url: Option<bool>,
    event_type: Seq<char>,
    sender: Seq<char>,
    content: Json,
) -> bool {
    &&& (types matches Some(t) ==> t.contains(event_type))
    &&& (not_types matches Some(t) ==> !t.contains(event_type))
    &&& (senders matches Some(s) ==> s.contains(sender))
    &&& (not_senders matches Some(s) ==> !s.contains(sender))
    &&& (contains_url matches Some(wanted) ==> (json_get(content, "url"@) is Some) == wanted)
}

/// What each part of a room event filter does to an event, on its own: an
/// event whose type is not listed in `types`, or is listed in `not_types`,
/// is left out; so is one whose sender is not listed in `senders`, or is
/// listed in `not_senders`; so is one whose content has a `url` when
/// `contains_url` is false, or has none when it is true. An event that no
/// part leaves out passes, and a filter that sets nothing passes every
/// event.
pub proof fn lemma_event_filter_parts(
    types: Option<Seq<Seq<char>>>,
    not_types: Option<Seq<Seq<char>>>,
    senders: Option<Seq<Seq<char>>>,
    not_senders: Option<Seq<Seq<char>>>,
    contains_url: Option<bool>,
    event_type: Seq<char>,
    sender: Seq<char>,
    content: Json,
)
    ensures
        ({
            let allowed = event_filter_allows(
                types,
                not_types,
                senders,
                not_senders,
                contains_url,
                event_type,
                sender,
                content,
            );
            let has_url = json_get(content, "url"@) is Some;
            &&& (types matches Some(t) && !t.contains(event_type)) ==> !allowed
            &&& (not_types matches Some(t) && t.contains(event_type)) ==> !allowed
            &&& (senders matches Some(t) && !t.contains(sender)) ==> !allowed
            &&& (not_senders matches Some(t) && t.contains(sender)) ==> !allowed
            &&& (contains_url == Some(true) && !has_url) ==> !allowed
            &&& (contains_url == Some(false) && has_url) ==> !allowed
            &&& (types is None && not_types is None && senders is None && not_senders is None
                && contains_url is None) ==> allowed
            &&& (types.unwrap_or(seq![event_type]).contains(event_type) && !not_types.unwrap_or(
                Seq::empty(),
            ).contains(event_type) && senders.unwrap_or(seq![sender]).contains(sender)
                && !not_senders.unwrap_or(Seq::empty()).contains(sender) && (contains_url matches Some(
                w,
            ) ==> has_url == w)) ==> allowed
        }),
{
    assert(seq![event_type][0] == event_type);
    assert(seq![sender][0] == sender);
}

/// Decides whether `values` holds `value`.
pub fn contains_string(values: &Vec<String>, value: &str) -> (r: bool)
    ensures
        r == Seq::new(values@.len(), |i: int| values@[i]@).contains(value@),
{
    let ghost vv = Seq::new(values@.len(), |i: int| values@[i]@);
    let mut i: usize = 0;
    while i < values.len()
        invariant
            i <= values@.len(),
            vv == Seq::new(values@.len(), |k: int| values@[k]@),
            forall|k: int| 0 <= k < i ==> vv[k] != value@,
        decreases values.len() - i,
    {
        if str_eq(values[i].as_str(), value) {
            assert(vv[i as int] == value@);
            return true;
        }
        i = i + 1;
    }
    false
}

/// The filters of a sync.
#[derive(Debug)]
pub struct SyncFilterConstraints {
    pub include_leave: bool,
    pub rooms: Option<Vec<String>>,
    pub not_rooms: Option<Vec<String>>,
    pub timeline_filter: RoomEventFilterConstraints,
    pub state_filter: RoomEventFilterConstraints,
}

/// Whether a room is synced under a filter: rooms left or banned from only
/// when the filter includes them, and only rooms the filter lists and does
/// not exclude.
pub open spec fn room_synced(c: SyncFilterConstraints, room_id: Seq<char>, membership: Seq<char>) -> bool {
    &&& (!(membership == "leave"@ || membership == "ban"@) || c.include_leave)
    &&& (opt_strings_view(c.rooms) matches Some(rooms) ==> rooms.contains(room_id))
    &&& (opt_strings_view(c.not_rooms) matches Some(not_rooms) ==> !not_rooms.contains(room_id))
}

/// A room event filter that lets every event through.
pub open spec fn no_event_filter(f: RoomEventFilterConstraints) -> bool {
    f.types is None && f.not_types is None && f.senders is None && f.not_senders is None
        && f.contains_url is None
}

/// The filters of a sync that asks for none: every event, and rooms left
/// out only when the user left them.
pub open spec fn default_sync_filter(c: SyncFilterConstraints) -> bool {
    &&& !c.include_leave
    &&& c.rooms is None
    &&& c.not_rooms is None
    &&& no_event_filter(c.timeline_filter)
    &&& no_event_filter(c.state_filter)
}

/// Whether `c` is what a filter definition sets under `room`: whether rooms
/// left are included, the room lists, and the timeline and state event
/// filters.
pub open spec fn sync_filter_from(c: SyncFilterConstraints, filter: Json) -> bool {
    let room = json_get(filter, "room"@);
    &&& c.include_leave == (match member_of(room, "include_leave"@) {
        Some(b) => json_as_bool(b) == Some(true),
        None => false,
    })
    &&& opt_strings_view(c.rooms) == string_array_of(member_of(room, "rooms"@))
    &&& opt_strings_view(c.not_rooms) == string_array_of(member_of(room, "not_rooms"@))
    &&& event_filter_from(c.timeline_filter, member_of(room, "timeline"@))
    &&& event_filter_from(c.state_filter, member_of(room, "state"@))
}

impl SyncFilterConstraints {
    /// No filtering, except that rooms the user left are left out.
    pub fn default() -> (r: Self)
        ensures
            default_sync_filter(r),
    {
        SyncFilterConstraints {
            include_leave: false,
            rooms: None,
            not_rooms: None,
            timeline_filter: RoomEventFilterConstraints::default(),
            state_filter: RoomEventFilterConstraints::default(),
        }
    }

    /// The filters a filter definition sets under `room`.
    pub fn from_json(filter_json: &JsonValue) -> (r: Self)
        ensures
            sync_filter_from(r, filter_json@),
    {
        let room = filter_json.get("room");
        let include_leave = match member(room, "include_leave") {
            Some(b) => match b.as_bool() {
                Some(v) => v,
                None => false,
            },
            None => false,
        };
        SyncFilterConstraints {
            include_leave,
            rooms: read_string_array(member(room, "rooms")),
            not_rooms: read_string_array(member(room, "not_rooms")),
            timeline_filter: RoomEventFilterConstraints::from_json(member(room, "timeline")),
            state_filter: RoomEventFilterConstraints::from_json(member(room, "state")),
        }
    }

    /// Whether a room is synced: rooms left or banned from only when the
    /// filter includes them, and only rooms the filter lists and does not
    /// exclude.
    pub fn room_allows(&self, room_id: &str, membership: &str) -> (r: bool)
        ensures
            r == room_synced(*self, room_id@, membership@),
    {
        if (str_eq(membership, "leave") || str_eq(membership, "ban")) && !self.include_leave {
            return false;
        }
        match &self.rooms {
            Some(rooms) => if !contains_string(rooms, room_id) {
                return false;
            },
            None => {},
        }
        match &self.not_rooms {
            Some(not_rooms) => if contains_string(not_rooms, room_id) {
                return false;
            },
            None => {},
        }
        true
    }

    pub fn timeline_allows(&self, event: &TimelineEventRecord) -> (r: bool)
        ensures
            r == event_filter_allows(
                opt_strings_view(self.timeline_filter.types),
                opt_strings_view(self.timeline_filter.not_types),
                opt_strings_view(self.timeline_filter.senders),
                opt_strings_view(self.timeline_filter.not_senders),
                self.timeline_filter.contains_url,
                event.event_type@,
                event.sender_user_id@,
                event.content_json@,
            ),
    {
        self.timeline_filter.allows(
            event.event_type.as_str(),
            event.sender_user_id.as_str(),
            &event.content_json,
        )
    }

    pub fn state_allows(&self, event: &StateEventRecord) -> (r: bool)
        ensures
            r == event_filter_allows(
                opt_strings_view(self.state_filter.types),
                opt_strings_view(self.state_filter.not_types),
                opt_strings_view(self.state_filter.senders),
                opt_strings_view(self.state_filter.not_senders),
                self.state_filter.contains_url,
                event.event_type@,
                event.sender_user_id@,
                event.content_json@,
            ),
    {
        self.state_filter.allows(
            event.event_type.as_str(),
            event.sender_user_id.as_str(),
            &event.content_json,
        )
    }
}

/// The filters of a sync: none asked for gives the defaults; a stored
/// filter is looked up (`stored`), and one that is not found is refused.
pub fn resolve_sync_filter_constraints(
    filter_selection: Option<SyncFilterSelection>,
    stored: Option<Result<Option<JsonValue>, DomainError>>,
) -> (r: Result<SyncFilterConstraints, SyncronizationApplicationError>)
    ensures
        match filter_selection {
            None => r matches Ok(c) && default_sync_filter(c),
            Some(SyncFilterSelection::InlineFilterDefinition(j)) => r matches Ok(c)
                && sync_filter_from(c, j@),
            Some(SyncFilterSelection::StoredFilterIdentifier(_)) => match stored {
                Some(Ok(Some(j))) => r matches Ok(c) && sync_filter_from(c, j@),
                Some(Ok(None)) | None => r == Err::<SyncFilterConstraints, _>(
                    SyncronizationApplicationError::InvalidParameter,
                ),
                Some(Err(e)) => r matches Err(x) && x == (match e {
                    DomainError::InvalidRequest(_) => SyncronizationApplicationError::InvalidParameter,
                    _ => SyncronizationApplicationError::Internal,
                }),
            },
        },
{
    match filter_selection {
        None => Ok(SyncFilterConstraints::default()),
        Some(SyncFilterSelection::InlineFilterDefinition(j)) => Ok(
            SyncFilterConstraints::from_json(&j),
        ),
        Some(SyncFilterSelection::StoredFilterIdentifier(_)) => match stored {
            Some(Ok(Some(j))) => Ok(SyncFilterConstraints::from_json(&j)),
            Some(Ok(None)) | None => Err(SyncronizationApplicationError::InvalidParameter),
            Some(Err(e)) => Err(map_domain_error(e)),
        },
    }
}

/// A room membership of the syncing user.
#[derive(Debug)]
pub struct UserRoomMembershipRecord {
    pub room_id: String,
    pub membership: String,
}

/// A timeline event as the store returns it for a sync.
#[derive(Debug)]
pub struct TimelineEventRecord {
    pub event_id: String,
    pub event_type: String,
    pub sender_user_id: String,
    pub state_key: Option<String>,
    pub origin_server_ts: i64,
    pub content_json: JsonValue,
    pub unsigned_json: Option<JsonValue>,
    pub stream_position: i64,
}

/// A state event as the store returns it for a sync.
#[derive(Debug)]
pub struct StateEventRecord {
    pub event_id: String,
    pub event_type: String,
    pub sender_user_id: String,
    pub state_key: Option<String>,
    pub origin_server_ts: i64,
    pub content_json: JsonValue,
    pub unsigned_json: Option<JsonValue>,
}

/// The JSON of a synced event: `event_id`, `type`, `sender`,
/// `origin_server_ts`, `content`, then `state_key` and `unsigned` when
/// present.
pub open spec fn synced_event_json(
    event_id: Seq<char>,
    event_type: Seq<char>,
    sender: Seq<char>,
    origin_server_ts: int,
    content: Json,
    state_key: Option<Seq<char>>,
    unsigned: Option<Json>,
) -> Json {
    let base = seq![
        ("event_id"@, Json::Str(event_id)),
        ("type"@, Json::Str(event_type)),
        ("sender"@, Json::Str(sender)),
        ("origin_server_ts"@, Json::Number(origin_server_ts)),
        ("content"@, content),
    ];
    let with_key = match state_key {
        Some(k) => base.push(("state_key"@, Json::Str(k))),
        None => base,
    };
    Json::Object(
        match unsigned {
            Some(u) => with_key.push(("unsigned"@, u)),
            None => with_key,
        },
    )
}

fn synced_event(
    event_id: String,
    event_type: String,
    sender: String,
    origin_server_ts: i64,
    content: JsonValue,
    state_key: Option<String>,
    unsigned: Option<JsonValue>,
) -> (r: JsonValue)
    ensures
        r@ == synced_event_json(
            event_id@,
            event_type@,
            sender@,
            origin_server_ts as int,
            content@,
            crate::room_queries::opt_string_view(state_key),
            crate::room_events::opt_json_view(unsigned),
        ),
{
    let ghost expected = synced_event_json(
        event_id@,
        event_type@,
        sender@,
        origin_server_ts as int,
        content@,
        crate::room_queries::opt_string_view(state_key),
        crate::room_events::opt_json_view(unsigned),
    );
    let mut entries: Vec<(String, JsonValue)> = Vec::new();
    entries.push((String::from_str("event_id"), JsonValue::Str(event_id)));
    entries.push((String::from_str("type"), JsonValue::Str(event_type)));
    entries.push((String::from_str("sender"), JsonValue::Str(sender)));
    entries.push((String::from_str("origin_server_ts"), JsonValue::Int(origin_server_ts)));
    entries.push((String::from_str("content"), content));
    match state_key {
        Some(k) => entries.push((String::from_str("state_key"), JsonValue::Str(k))),
        None => {},
    }
    match unsigned {
        Some(u) => entries.push((String::from_str("unsigned"), u)),
        None => {},
    }
    let r = crate::creation_plan::object_of(entries);
    assert(entries_view(entries@) =~= expected->Object_0);
    r
}

pub fn timeline_event_to_json(event: TimelineEventRecord) -> (r: JsonValue)
    ensures
        r@ == synced_event_json(
            event.event_id@,
            event.event_type@,
            event.sender_user_id@,
            event.origin_server_ts as int,
            event.content_json@,
            crate::room_queries::opt_string_view(event.state_key),
            crate::room_events::opt_json_view(event.unsigned_json),
        ),
{
    synced_event(
        event.event_id,
        event.event_type,
        event.sender_user_id,
        event.origin_server_ts,
        event.content_json,
        event.state_key,
        event.unsigned_json,
    )
}

pub fn state_event_to_json(event: StateEventRecord) -> (r: JsonValue)
    ensures
        r@ == synced_event_json(
            event.event_id@,
            event.event_type@,
            event.sender_user_id@,
            event.origin_server_ts as int,
            event.content_json@,
            crate::room_queries::opt_string_view(event.state_key),
            crate::room_events::opt_json_view(event.unsigned_json),
        ),
{
    synced_event(
        event.event_id,
        event.event_type,
        event.sender_user_id,
        event.origin_server_ts,
        event.content_json,
        event.state_key,
        event.unsigned_json,
    )
}

/// The JSON of a timeline event record.
pub open spec fn timeline_record_json(e: TimelineEventRecord) -> Json {
    synced_event_json(
        e.event_id@,
        e.event_type@,
        e.sender_user_id@,
        e.origin_server_ts as int,
        e.content_json@,
        crate::room_queries::opt_string_view(e.state_key),
        crate::room_events::opt_json_view(e.unsigned_json),
    )
}

/// The JSON of a state event record.
pub open spec fn state_record_json(e: StateEventRecord) -> Json {
    synced_event_json(
        e.event_id@,
        e.event_type@,
        e.sender_user_id@,
        e.origin_server_ts as int,
        e.content_json@,
        crate::room_queries::opt_string_view(e.state_key),
        crate::room_events::opt_json_view(e.unsigned_json),
    )
}

/// The JSON of the timeline events that the filters let through, in order.
pub open spec fn allowed_timeline_json(events: Seq<TimelineEventRecord>, c: SyncFilterConstraints) -> Seq<
    Json,
>
    decreases events.len(),
{
    if events.len() == 0 {
        Seq::empty()
    } else {
        let rest = allowed_timeline_json(events.drop_last(), c);
        let e = events.last();
        if event_filter_allows(
            opt_strings_view(c.timeline_filter.types),
            opt_strings_view(c.timeline_filter.not_types),
            opt_strings_view(c.timeline_filter.senders),
            opt_strings_view(c.timeline_filter.not_senders),
            c.timeline_filter.contains_url,
            e.event_type@,
            e.sender_user_id@,
            e.content_json@,
        ) {
            rest.push(timeline_record_json(e))
        } else {
            rest
        }
    }
}

/// The JSON of the state events that the filters let through, in order.
pub open spec fn allowed_state_json(events: Seq<StateEventRecord>, c: SyncFilterConstraints) -> Seq<Json>
    decreases events.len(),
{
    if events.len() == 0 {
        Seq::empty()
    } else {
        let rest = allowed_state_json(events.drop_last(), c);
        let e = events.last();
        if event_filter_allows(
            opt_strings_view(c.state_filter.types),
            opt_strings_view(c.state_filter.not_types),
            opt_strings_view(c.state_filter.senders),
            opt_strings_view(c.state_filter.not_senders),
            c.state_filter.contains_url,
            e.event_type@,
            e.sender_user_id@,
            e.content_json@,
        ) {
            rest.push(state_record_json(e))
        } else {
            rest
        }
    }
}

fn clone_opt_string(o: &Option<String>) -> (r: Option<String>)
    ensures
        crate::room_queries::opt_string_view(r) == crate::room_queries::opt_string_view(*o),
{
    match o {
        Some(s) => Some(s.clone()),
        None => None,
    }
}

fn clone_opt_json(o: &Option<JsonValue>) -> (r: Option<JsonValue>)
    ensures
        crate::room_events::opt_json_view(r) == crate::room_events::opt_json_view(*o),
{
    match o {
        Some(v) => Some(v.deep_clone()),
        None => None,
    }
}

/// The timeline events a sync shows, as JSON.
pub fn allowed_timeline_events(events: &Vec<TimelineEventRecord>, c: &SyncFilterConstraints) -> (r: Vec<
    JsonValue,
>)
    ensures
        crate::json::items_view(r@) == allowed_timeline_json(events@, *c),
{
    let mut out: Vec<JsonValue> = Vec::new();
    let mut i: usize = 0;
    assert(events@.subrange(0, 0) =~= Seq::<TimelineEventRecord>::empty());
    assert(crate::json::items_view(out@) =~= Seq::<Json>::empty());
    while i < events.len()
        invariant
            i <= events@.len(),
            crate::json::items_view(out@) == allowed_timeline_json(events@.subrange(0, i as int), *c),
        decreases events.len() - i,
    {
        let e = &events[i];
        assert(events@.subrange(0, i as int + 1).drop_last() =~= events@.subrange(0, i as int));
        assert(events@.subrange(0, i as int + 1).last() == *e);
        if c.timeline_allows(e) {
            let ghost before = crate::json::items_view(out@);
            let j = synced_event(
                e.event_id.clone(),
                e.event_type.clone(),
                e.sender_user_id.clone(),
                e.origin_server_ts,
                e.content_json.deep_clone(),
                clone_opt_string(&e.state_key),
                clone_opt_json(&e.unsigned_json),
            );
            out.push(j);
            assert(crate::json::items_view(out@) =~= before.push(timeline_record_json(*e)));
        }
        i = i + 1;
    }
    assert(events@.subrange(0, i as int) =~= events@);
    out
}

/// The state events a sync shows, as JSON.
pub fn allowed_state_events(events: &Vec<StateEventRecord>, c: &SyncFilterConstraints) -> (r: Vec<
    JsonValue,
>)
    ensures
        crate::json::items_view(r@) == allowed_state_json(events@, *c),
{
    let mut out: Vec<JsonValue> = Vec::new();
    let mut i: usize = 0;
    assert(events@.subrange(0, 0) =~= Seq::<StateEventRecord>::empty());
    assert(crate::json::items_view(out@) =~= Seq::<Json>::empty());
    while i < events.len()
        invariant
            i <= events@.len(),
            crate::json::items_view(out@) == allowed_state_json(events@.subrange(0, i as int), *c),
        decreases events.len() - i,
    {
        let e = &events[i];
        assert(events@.subrange(0, i as int + 1).drop_last() =~= events@.subrange(0, i as int));
        assert(events@.subrange(0, i as int + 1).last() == *e);
        if c.state_allows(e) {
            let ghost before = crate::json::items_view(out@);
            let j = synced_event(
                e.event_id.clone(),
                e.event_type.clone(),
                e.sender_user_id.clone(),
                e.origin_server_ts,
                e.content_json.deep_clone(),
                clone_opt_string(&e.state_key),
                clone_opt_json(&e.unsigned_json),
            );
            out.push(j);
            assert(crate::json::items_view(out@) =~= before.push(state_record_json(*e)));
        }
        i = i + 1;
    }
    assert(events@.subrange(0, i as int) =~= events@);
    out
}

/// `{"events": [...]}`.
pub open spec fn events_object(events: Seq<Json>) -> Json {
    Json::Object(seq![("events"@, Json::Array(events))])
}

fn events_object_of(events: Vec<JsonValue>) -> (r: JsonValue)
    ensures
        r@ == events_object(crate::json::items_view(events@)),
{
    proof {
        crate::json::lemma_array_view(events);
    }
    let mut entries: Vec<(String, JsonValue)> = Vec::new();
    entries.push((String::from_str("events"), JsonValue::Array(events)));
    let r = crate::creation_plan::object_of(entries);
    assert(entries_view(entries@) =~= events_object(crate::json::items_view(events@))->Object_0);
    r
}

/// The sync entry of one room: its timeline (the events, whether it was
/// cut at the limit, and the token before it), its state, its ephemeral
/// events, its account data, and zero unread notifications.
pub open spec fn room_sync_entry_json(
    timeline: Seq<Json>,
    limited: bool,
    prev_batch: int,
    state: Seq<Json>,
    ephemeral: Seq<Json>,
    account_data: Seq<Json>,
) -> Json {
    Json::Object(
        seq![
            (
                "timeline"@,
                Json::Object(
                    seq![
                        ("events"@, Json::Array(timeline)),
                        ("limited"@, Json::Bool(limited)),
                        ("prev_batch"@, Json::Str(sync_token(prev_batch))),
                    ],
                ),
            ),
            ("state"@, events_object(state)),
            ("ephemeral"@, events_object(ephemeral)),
            ("account_data"@, events_object(account_data)),
            (
                "unread_notifications"@,
                Json::Object(
                    seq![
                        ("highlight_count"@, Json::Number(0)),
                        ("notification_count"@, Json::Number(0)),
                    ],
                ),
            ),
        ],
    )
}

/// A room's sync entry, and the state events shown in it.
pub struct RoomSyncEntry {
    pub entry: JsonValue,
    pub state_events: Vec<JsonValue>,
}

/// Builds a room's sync entry from what the store returned: the filters
/// thin the timeline and the state, and the timeline is `limited` when it
/// reached a positive limit.
pub fn build_room_sync_entry(
    timeline_events: &Vec<TimelineEventRecord>,
    state_events: &Vec<StateEventRecord>,
    timeline_limit: usize,
    prev_batch: i64,
    ephemeral_events: Vec<JsonValue>,
    room_account_data_events: Vec<JsonValue>,
    constraints: &SyncFilterConstraints,
) -> (r: RoomSyncEntry)
    ensures
        ({
            let timeline = allowed_timeline_json(timeline_events@, *constraints);
            let state = allowed_state_json(state_events@, *constraints);
            &&& r.entry@ == room_sync_entry_json(
                timeline,
                timeline.len() >= timeline_limit && timeline_limit > 0,
                prev_batch as int,
                state,
                crate::json::items_view(ephemeral_events@),
                crate::json::items_view(room_account_data_events@),
            )
            &&& crate::json::items_view(r.state_events@) == state
        }),
{
    let timeline = allowed_timeline_events(timeline_events, constraints);
    let state = allowed_state_events(state_events, constraints);
    let limited = timeline.len() >= timeline_limit && timeline_limit > 0;
    let ghost tv = crate::json::items_view(timeline@);
    let ghost sv = crate::json::items_view(state@);
    let ghost ev = crate::json::items_view(ephemeral_events@);
    let ghost av = crate::json::items_view(room_account_data_events@);
    let mut state_copy: Vec<JsonValue> = Vec::new();
    let mut k: usize = 0;
    while k < state.len()
        invariant
            k <= state@.len(),
            state_copy@.len() == k,
            forall|j: int| 0 <= j < k ==> (#[trigger] state_copy@[j])@ == state@[j]@,
        decreases state.len() - k,
    {
        state_copy.push(state[k].deep_clone());
        k = k + 1;
    }
    assert(crate::json::items_view(state_copy@) =~= sv);
    proof {
        crate::json::lemma_array_view(timeline);
    }
    let mut timeline_entries: Vec<(String, JsonValue)> = Vec::new();
    timeline_entries.push((String::from_str("events"), JsonValue::Array(timeline)));
    timeline_entries.push((String::from_str("limited"), JsonValue::Bool(limited)));
    timeline_entries.push(
        (String::from_str("prev_batch"), JsonValue::Str(encode_sync_token(prev_batch))),
    );
    let timeline_object = crate::creation_plan::object_of(timeline_entries);
    let mut counts: Vec<(String, JsonValue)> = Vec::new();
    counts.push((String::from_str("highlight_count"), JsonValue::Int(0)));
    counts.push((String::from_str("notification_count"), JsonValue::Int(0)));
    let counts_object = crate::creation_plan::object_of(counts);
    let mut entries: Vec<(String, JsonValue)> = Vec::new();
    entries.push((String::from_str("timeline"), timeline_object));
    entries.push((String::from_str("state"), events_object_of(state)));
    entries.push((String::from_str("ephemeral"), events_object_of(ephemeral_events)));
    entries.push((String::from_str("account_data"), events_object_of(room_account_data_events)));
    entries.push((String::from_str("unread_notifications"), counts_object));
    let entry = crate::creation_plan::object_of(entries);
    proof {
        assert(entries_view(timeline_entries@) =~= seq![
            ("events"@, Json::Array(tv)),
            ("limited"@, Json::Bool(limited)),
            ("prev_batch"@, Json::Str(sync_token(prev_batch as int))),
        ]);
        assert(entries_view(counts@) =~= seq![
            ("highlight_count"@, Json::Number(0)),
            ("notification_count"@, Json::Number(0)),
        ]);
        assert(entries_view(entries@) =~= room_sync_entry_json(
            tv,
            limited,
            prev_batch as int,
            sv,
            ev,
            av,
        )->Object_0);
    }
    RoomSyncEntry { entry, state_events: state_copy }
}

/// The rooms of a sync reply, by membership; each is an object from room
/// identifier to entry.
#[derive(Debug)]
pub struct SyncRoomsBatch {
    pub join: JsonValue,
    pub invite: JsonValue,
    pub leave: JsonValue,
    pub knock: JsonValue,
}

/// The entry of a room the user is invited to: the state it can see.
pub open spec fn invite_entry_json(state: Seq<Json>) -> Json {
    Json::Object(seq![("invite_state"@, events_object(state))])
}

impl SyncRoomsBatch {
    pub fn new() -> (r: Self)
        ensures
            r.join@ == Json::Object(Seq::empty()),
            r.invite@ == Json::Object(Seq::empty()),
            r.leave@ == Json::Object(Seq::empty()),
            r.knock@ == Json::Object(Seq::empty()),
    {
        SyncRoomsBatch {
            join: JsonValue::new_object(),
            invite: JsonValue::new_object(),
            leave: JsonValue::new_object(),
            knock: JsonValue::new_object(),
        }
    }

    /// Files a room under its membership: a joined room with its entry, an
    /// invite with the state it shows, a room left or banned from with its
    /// entry; any other membership is not synced.
    pub fn add_room(&mut self, room_id: &str, membership: &str, room: RoomSyncEntry)
        requires
            old(self).join@ is Object,
            old(self).invite@ is Object,
            old(self).leave@ is Object,
        ensures
            final(self).knock@ == old(self).knock@,
            final(self).join@ == if membership@ == "join"@ {
                Json::Object(
                    crate::json::entries_insert(old(self).join@->Object_0, room_id@, room.entry@),
                )
            } else {
                old(self).join@
            },
            final(self).invite@ == if membership@ == "invite"@ {
                Json::Object(
                    crate::json::entries_insert(
                        old(self).invite@->Object_0,
                        room_id@,
                        invite_entry_json(crate::json::items_view(room.state_events@)),
                    ),
                )
            } else {
                old(self).invite@
            },
            final(self).leave@ == if membership@ == "leave"@ || membership@ == "ban"@ {
                Json::Object(
                    crate::json::entries_insert(old(self).leave@->Object_0, room_id@, room.entry@),
                )
            } else {
                old(self).leave@
            },
    {
        proof {
            reveal_strlit("join");
            reveal_strlit("invite");
            reveal_strlit("leave");
            reveal_strlit("ban");
            assert("join"@.len() == 4);
            assert("invite"@.len() == 6);
            assert("leave"@.len() == 5);
            assert("ban"@.len() == 3);
        }
        if str_eq(membership, "join") {
            self.join.insert(room_id, room.entry);
        } else if str_eq(membership, "invite") {
            let ghost sv = crate::json::items_view(room.state_events@);
            let state = events_object_of(room.state_events);
            let mut entries: Vec<(String, JsonValue)> = Vec::new();
            entries.push((String::from_str("invite_state"), state));
            let invite = crate::creation_plan::object_of(entries);
            assert(entries_view(entries@) =~= invite_entry_json(sv)->Object_0);
            self.invite.insert(room_id, invite);
        } else if str_eq(membership, "leave") || str_eq(membership, "ban") {
            self.leave.insert(room_id, room.entry);
        }
    }
}

/// The device list changes of a sync reply.
#[derive(Debug)]
pub struct SyncDeviceListsBatch {
    pub changed: Vec<String>,
    pub left: Vec<String>,
}

/// A list of events of a sync reply.
#[derive(Debug)]
pub struct SyncEventsBatch {
    pub events: Vec<JsonValue>,
}

/// A sync reply.
#[derive(Debug)]
pub struct SyncBatch {
    pub next_batch: String,
    pub rooms: SyncRoomsBatch,
    pub presence: SyncEventsBatch,
    pub account_data: SyncEventsBatch,
    pub to_device: SyncEventsBatch,
    pub device_lists: SyncDeviceListsBatch,
    pub device_one_time_keys_count: JsonValue,
}

impl SyncBatch {
    /// The reply at `current_stream_position`: its token, the rooms and
    /// events gathered, no device list changes and no one-time keys.
    pub fn assemble(
        current_stream_position: i64,
        rooms: SyncRoomsBatch,
        presence_events: Vec<JsonValue>,
        account_data_events: Vec<JsonValue>,
        to_device_events: Vec<JsonValue>,
    ) -> (r: Self)
        ensures
            r.next_batch@ == sync_token(current_stream_position as int),
            r.rooms == rooms,
            r.presence.events == presence_events,
            r.account_data.events == account_data_events,
            r.to_device.events == to_device_events,
            r.device_lists.changed@.len() == 0,
            r.device_lists.left@.len() == 0,
            r.device_one_time_keys_count@ == Json::Object(
                seq![("signed_curve25519"@, Json::Number(0))],
            ),
    {
        let mut counts: Vec<(String, JsonValue)> = Vec::new();
        counts.push((String::from_str("signed_curve25519"), JsonValue::Int(0)));
        let counts_object = crate::creation_plan::object_of(counts);
        assert(entries_view(counts@) =~= seq![("signed_curve25519"@, Json::Number(0))]);
        SyncBatch {
            next_batch: encode_sync_token(current_stream_position),
            rooms,
            presence: SyncEventsBatch { events: presence_events },
            account_data: SyncEventsBatch { events: account_data_events },
            to_device: SyncEventsBatch { events: to_device_events },
            device_lists: SyncDeviceListsBatch { changed: Vec::new(), left: Vec::new() },
            device_one_time_keys_count: counts_object,
        }
    }
}

impl SyncBatch {
    /// The reply of a sync at `current_stream_position`: its token, and
    /// the rooms the filter lets through filed by membership (joined rooms
    /// under `join`, invites under `invite`, rooms left or banned from under
    /// `leave`, none under `knock`), with the events gathered.
    pub fn answer(
        constraints: &SyncFilterConstraints,
        current_stream_position: i64,
        rooms: Vec<(UserRoomMembershipRecord, RoomSyncEntry)>,
        presence_events: Vec<JsonValue>,
        account_data_events: Vec<JsonValue>,
        to_device_events: Vec<JsonValue>,
    ) -> (r: Self)
        ensures
            r.next_batch@ == sync_token(current_stream_position as int),
            r.rooms.join@ == Json::Object(filed_rooms(rooms@, *constraints).0),
            r.rooms.invite@ == Json::Object(filed_rooms(rooms@, *constraints).1),
            r.rooms.leave@ == Json::Object(filed_rooms(rooms@, *constraints).2),
            r.rooms.knock@ == Json::Object(Seq::empty()),
            forall|key: Seq<char>|
                (#[trigger] json_get(r.rooms.join@, key) is Some) <==> filed_as(
                    rooms@,
                    *constraints,
                    key,
                    |m: Seq<char>| m == "join"@,
                ),
            forall|key: Seq<char>|
                (#[trigger] json_get(r.rooms.invite@, key) is Some) <==> filed_as(
                    rooms@,
                    *constraints,
                    key,
                    |m: Seq<char>| m == "invite"@,
                ),
            forall|key: Seq<char>|
                (#[trigger] json_get(r.rooms.leave@, key) is Some) <==> filed_as(
                    rooms@,
                    *constraints,
                    key,
                    |m: Seq<char>| m == "leave"@ || m == "ban"@,
                ),
            r.presence.events == presence_events,
            r.account_data.events == account_data_events,
            r.to_device.events == to_device_events,
    {
        let filed = file_synced_rooms(constraints, rooms);
        SyncBatch::assemble(
            current_stream_position,
            filed,
            presence_events,
            account_data_events,
            to_device_events,
        )
    }
}

/// The content of the account data event that records the stream
/// position a sync saw, and of the to-device hint sent to the syncing
/// user: `{"stream_position": position}`.
pub fn stream_position_content(current_stream_position: i64) -> (r: JsonValue)
    ensures
        r@ == Json::Object(seq![("stream_position"@, Json::Number(current_stream_position as int))]),
{
    let mut entries: Vec<(String, JsonValue)> = Vec::new();
    entries.push((String::from_str("stream_position"), JsonValue::Int(current_stream_position)));
    let r = crate::creation_plan::object_of(entries);
    assert(entries_view(entries@) =~= seq![
        ("stream_position"@, Json::Number(current_stream_position as int)),
    ]);
    r
}

/// Reading the token that a sync reply hands out gives back its stream
/// position.
pub proof fn lemma_sync_token_round_trip(position: i64)
    ensures
        sync_stream_position(sync_token(position as int)) == Some(position as int),
{
    let d = signed_decimal(position as int);
    crate::decimal::lemma_parse_signed_decimal(position as int, i64::MIN as int, i64::MAX as int);
    reveal_strlit("s");
    reveal_strlit("_0_0_0_0_0_0_0_0");
    let tail = "_0_0_0_0_0_0_0_0"@;
    let t = sync_token(position as int);
    assert(t == seq!['s'] + d + tail);
    let rest = t.drop_first();
    assert(rest =~= d + tail);
    assert(strip_prefix(t, 's') == Some(rest));
    assert(rest[d.len() as int] == '_');
    assert forall|j: int| 0 <= j < d.len() implies rest[j] != '_' by {
        assert(rest[j] == d[j]);
    }
    crate::text::lemma_first_index_of(rest, '_', d.len() as int);
    assert(rest.subrange(0, d.len() as int) =~= d);
}


/// A read receipt as the store keeps it: `thread_id` is empty when the
/// receipt names no thread.
#[derive(Debug)]
pub struct ReceiptRecord {
    pub event_id: String,
    pub receipt_type: String,
    pub user_id: String,
    pub thread_id: String,
    pub receipt_ts: i64,
    pub stream_position: i64,
}

/// Whether a sync since `since` shows a receipt to `user`: it came after
/// `since`, and it is a public read receipt, or a private one of the user.
pub open spec fn receipt_shown(r: ReceiptRecord, user: Seq<char>, since: int) -> bool {
    &&& r.stream_position > since
    &&& (r.receipt_type@ == "m.read"@ || (r.receipt_type@ == "m.read.private"@ && r.user_id@ == user))
}

/// The `m.receipt` event of a receipt: its event, then its type, then its
/// user, with the time and, when there is one, the thread.
pub open spec fn receipt_json(r: ReceiptRecord) -> Json {
    let inner = seq![("ts"@, Json::Number(r.receipt_ts as int))] + if r.thread_id@.len() > 0 {
        seq![("thread_id"@, Json::Str(r.thread_id@))]
    } else {
        Seq::empty()
    };
    Json::Object(
        seq![
            ("type"@, Json::Str("m.receipt"@)),
            (
                "content"@,
                Json::Object(
                    seq![
                        (
                            r.event_id@,
                            Json::Object(
                                seq![
                                    (
                                        r.receipt_type@,
                                        Json::Object(seq![(r.user_id@, Json::Object(inner))]),
                                    ),
                                ],
                            ),
                        ),
                    ],
                ),
            ),
        ],
    )
}

/// The receipt events a sync shows, in the order of the receipts.
pub open spec fn shown_receipts(rs: Seq<ReceiptRecord>, user: Seq<char>, since: int) -> Seq<Json>
    decreases rs.len(),
{
    if rs.len() == 0 {
        Seq::empty()
    } else {
        let rest = shown_receipts(rs.drop_last(), user, since);
        if receipt_shown(rs.last(), user, since) {
            rest.push(receipt_json(rs.last()))
        } else {
            rest
        }
    }
}

fn single_member(key: String, value: JsonValue) -> (r: JsonValue)
    ensures
        r@ == Json::Object(seq![(key@, value@)]),
{
    let mut entries: Vec<(String, JsonValue)> = Vec::new();
    entries.push((key, value));
    let r = crate::creation_plan::object_of(entries);
    assert(entries_view(entries@) =~= seq![(key@, value@)]);
    r
}

/// The `m.receipt` event of a receipt.
pub fn receipt_event(r: &ReceiptRecord) -> (j: JsonValue)
    ensures
        j@ == receipt_json(*r),
{
    let mut inner: Vec<(String, JsonValue)> = Vec::new();
    inner.push((String::from_str("ts"), JsonValue::Int(r.receipt_ts)));
    if r.thread_id.unicode_len() > 0 {
        inner.push((String::from_str("thread_id"), JsonValue::Str(r.thread_id.clone())));
    }
    let ghost iv = entries_view(inner@);
    proof {
        reveal_strlit("ts");
        reveal_strlit("thread_id");
    }
    assert(iv =~= seq![("ts"@, Json::Number(r.receipt_ts as int))] + if r.thread_id@.len() > 0 {
        seq![("thread_id"@, Json::Str(r.thread_id@))]
    } else {
        Seq::<(Seq<char>, Json)>::empty()
    });
    let by_user = single_member(r.user_id.clone(), crate::creation_plan::object_of(inner));
    let by_type = single_member(r.receipt_type.clone(), by_user);
    let by_event = single_member(r.event_id.clone(), by_type);
    let mut entries: Vec<(String, JsonValue)> = Vec::new();
    entries.push((String::from_str("type"), JsonValue::Str(String::from_str("m.receipt"))));
    entries.push((String::from_str("content"), by_event));
    let j = crate::creation_plan::object_of(entries);
    assert(entries_view(entries@) =~= receipt_json(*r)->Object_0);
    j
}

/// The receipt events a sync since `since` shows `user` in a room, in the
/// order the store gives the receipts (that of their stream positions):
/// public read receipts of anyone and the user's own private ones, made
/// after `since`.
pub fn receipt_events_for_sync(receipts: &Vec<ReceiptRecord>, user_id: &str, since: i64) -> (r: Vec<
    JsonValue,
>)
    ensures
        crate::json::items_view(r@) == shown_receipts(receipts@, user_id@, since as int),
{
    let mut out: Vec<JsonValue> = Vec::new();
    let mut i: usize = 0;
    proof {
        reveal_strlit("m.read");
        reveal_strlit("m.read.private");
    }
    while i < receipts.len()
        invariant
            i <= receipts@.len(),
            crate::json::items_view(out@) == shown_receipts(receipts@.take(i as int), user_id@, since as int),
        decreases receipts.len() - i,
    {
        let r = &receipts[i];
        assert(receipts@.take(i as int + 1).drop_last() =~= receipts@.take(i as int));
        assert(receipts@.take(i as int + 1).last() == receipts@[i as int]);
        let shown = r.stream_position > since && (str_eq(r.receipt_type.as_str(), "m.read") || (
        str_eq(r.receipt_type.as_str(), "m.read.private") && str_eq(r.user_id.as_str(), user_id)));
        if shown {
            let ghost before = out@;
            out.push(receipt_event(r));
            assert(crate::json::items_view(out@) =~= crate::json::items_view(before).push(
                receipt_json(*r),
            ));
        }
        i = i + 1;
    }
    assert(receipts@.take(receipts@.len() as int) =~= receipts@);
    out
}

/// A fully-read marker as the store keeps it.
#[derive(Debug)]
pub struct ReadMarkerRecord {
    pub fully_read_event_id: String,
    pub stream_position: i64,
}

/// The `m.fully_read` event of a marker.
pub open spec fn fully_read_json(event_id: Seq<char>) -> Json {
    Json::Object(
        seq![
            ("type"@, Json::Str("m.fully_read"@)),
            ("content"@, Json::Object(seq![("event_id"@, Json::Str(event_id))])),
        ],
    )
}

/// The markers made after `since`, in order.
pub open spec fn markers_after(ms: Seq<ReadMarkerRecord>, since: int) -> Seq<Json>
    decreases ms.len(),
{
    if ms.len() == 0 {
        Seq::empty()
    } else {
        let rest = markers_after(ms.drop_last(), since);
        if ms.last().stream_position > since {
            rest.push(fully_read_json(ms.last().fully_read_event_id@))
        } else {
            rest
        }
    }
}

/// Whether `k` holds the marker with the greatest stream position (the
/// first such one).
pub open spec fn latest_marker_at(ms: Seq<ReadMarkerRecord>, k: int) -> bool {
    &&& 0 <= k < ms.len()
    &&& forall|j: int| 0 <= j < ms.len() ==> (#[trigger] ms[j]).stream_position <= ms[k].stream_position
    &&& forall|j: int| 0 <= j < k ==> (#[trigger] ms[j]).stream_position < ms[k].stream_position
}

fn fully_read_event(event_id: &String) -> (r: JsonValue)
    ensures
        r@ == fully_read_json(event_id@),
{
    let content = single_member(String::from_str("event_id"), JsonValue::Str(event_id.clone()));
    let mut entries: Vec<(String, JsonValue)> = Vec::new();
    entries.push((String::from_str("type"), JsonValue::Str(String::from_str("m.fully_read"))));
    entries.push((String::from_str("content"), content));
    let r = crate::creation_plan::object_of(entries);
    assert(entries_view(entries@) =~= fully_read_json(event_id@)->Object_0);
    r
}

/// The room account data a sync shows a user: for a full sync the
/// `m.fully_read` event of their latest marker (none without markers);
/// otherwise one for each marker made after `since`, in order.
pub fn fully_read_events_for_sync(markers: &Vec<ReadMarkerRecord>, since: i64, full_state: bool) -> (r:
    Vec<JsonValue>)
    ensures
        full_state ==> if markers@.len() == 0 {
            r@.len() == 0
        } else {
            exists|k: int|
                latest_marker_at(markers@, k) && crate::json::items_view(r@) == seq![
                    fully_read_json(markers@[k].fully_read_event_id@),
                ]
        },
        !full_state ==> crate::json::items_view(r@) == markers_after(markers@, since as int),
{
    let mut out: Vec<JsonValue> = Vec::new();
    if full_state {
        if markers.len() == 0 {
            return out;
        }
        let mut best: usize = 0;
        let mut i: usize = 1;
        while i < markers.len()
            invariant
                1 <= i <= markers@.len(),
                best < i,
                forall|j: int| 0 <= j < i ==> (#[trigger] markers@[j]).stream_position <= markers@[best as int].stream_position,
                forall|j: int| 0 <= j < best ==> (#[trigger] markers@[j]).stream_position < markers@[best as int].stream_position,
            decreases markers.len() - i,
        {
            if markers[i].stream_position > markers[best].stream_position {
                best = i;
            }
            i = i + 1;
        }
        out.push(fully_read_event(&markers[best].fully_read_event_id));
        assert(latest_marker_at(markers@, best as int));
        assert(crate::json::items_view(out@) =~= seq![
            fully_read_json(markers@[best as int].fully_read_event_id@),
        ]);
        return out;
    }
    let mut i: usize = 0;
    while i < markers.len()
        invariant
            i <= markers@.len(),
            crate::json::items_view(out@) == markers_after(markers@.take(i as int), since as int),
        decreases markers.len() - i,
    {
        assert(markers@.take(i as int + 1).drop_last() =~= markers@.take(i as int));
        assert(markers@.take(i as int + 1).last() == markers@[i as int]);
        if markers[i].stream_position > since {
            let ghost before = out@;
            out.push(fully_read_event(&markers[i].fully_read_event_id));
            assert(crate::json::items_view(out@) =~= crate::json::items_view(before).push(
                fully_read_json(markers@[i as int].fully_read_event_id@),
            ));
        }
        i = i + 1;
    }
    assert(markers@.take(markers@.len() as int) =~= markers@);
    out
}


/// A to-device event waiting for a user.
#[derive(Debug)]
pub struct ToDeviceRecord {
    pub stream_position: i64,
    pub user_id: String,
    pub event_type: String,
    pub content: JsonValue,
}

/// A to-device event as a sync hands it to `user`.
pub open spec fn to_device_json(r: ToDeviceRecord, user: Seq<char>) -> Json {
    Json::Object(
        seq![
            ("type"@, Json::Str(r.event_type@)),
            ("sender"@, Json::Str(user)),
            ("content"@, r.content@),
        ],
    )
}

/// The to-device events a sync since `since` hands `user`: those waiting
/// for the user that came after `since`, in order.
pub open spec fn to_device_since(rs: Seq<ToDeviceRecord>, user: Seq<char>, since: int) -> Seq<Json>
    decreases rs.len(),
{
    if rs.len() == 0 {
        Seq::empty()
    } else {
        let rest = to_device_since(rs.drop_last(), user, since);
        if rs.last().user_id@ == user && rs.last().stream_position > since {
            rest.push(to_device_json(rs.last(), user))
        } else {
            rest
        }
    }
}

/// The to-device events a sync since `since` hands `user`, in the order
/// they were queued.
pub fn to_device_events_for_sync(records: &Vec<ToDeviceRecord>, user_id: &str, since: i64) -> (r: Vec<
    JsonValue,
>)
    ensures
        crate::json::items_view(r@) == to_device_since(records@, user_id@, since as int),
{
    let mut out: Vec<JsonValue> = Vec::new();
    let mut i: usize = 0;
    while i < records.len()
        invariant
            i <= records@.len(),
            crate::json::items_view(out@) == to_device_since(records@.take(i as int), user_id@, since as int),
        decreases records.len() - i,
    {
        let r = &records[i];
        assert(records@.take(i as int + 1).drop_last() =~= records@.take(i as int));
        assert(records@.take(i as int + 1).last() == records@[i as int]);
        if str_eq(r.user_id.as_str(), user_id) && r.stream_position > since {
            let mut entries: Vec<(String, JsonValue)> = Vec::new();
            entries.push((String::from_str("type"), JsonValue::Str(r.event_type.clone())));
            entries.push((String::from_str("sender"), JsonValue::Str(String::from_str(user_id))));
            entries.push((String::from_str("content"), r.content.deep_clone()));
            let event = crate::creation_plan::object_of(entries);
            assert(entries_view(entries@) =~= to_device_json(*r, user_id@)->Object_0);
            let ghost before = out@;
            out.push(event);
            assert(crate::json::items_view(out@) =~= crate::json::items_view(before).push(
                to_device_json(*r, user_id@),
            ));
        }
        i = i + 1;
    }
    assert(records@.take(records@.len() as int) =~= records@);
    out
}

/// An account data event: `{"type": event_type, "content": content}`.
pub fn account_data_event(event_type: &str, content: JsonValue) -> (r: JsonValue)
    ensures
        r@ == Json::Object(seq![("type"@, Json::Str(event_type@)), ("content"@, content@)]),
{
    let mut entries: Vec<(String, JsonValue)> = Vec::new();
    entries.push((String::from_str("type"), JsonValue::Str(String::from_str(event_type))));
    entries.push((String::from_str("content"), content));
    let ghost cv = entries@[1].1@;
    let r = crate::creation_plan::object_of(entries);
    assert(entries_view(entries@) =~= seq![("type"@, Json::Str(event_type@)), ("content"@, cv)]);
    r
}

} // verus!
