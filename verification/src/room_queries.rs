//! The read side of rooms: the public room directory, message pages and
//! the stream tokens that page through them.
use vstd::prelude::*;

use crate::decimal::{
    all_digits, decimal, is_ascii_digit, parse_i64, parse_signed, parse_unsigned, parse_usize,
    signed_decimal, usize_to_decimal, i64_to_decimal,
};
use crate::errors::RoomsApplicationError;
use crate::identifiers::is_ascii_alpha;
use crate::json::Json;
use crate::room_events::{
    first_state_content_index, json_string_field, room_state_content, string_field,
    RoomStateEvent, RoomTimelineEvent,
};
use crate::text::{is_blank, str_eq, trim, trim_str};

verus! {

/// The query of a public room directory request.
#[derive(Debug)]
pub struct GetPublicRoomsQuery {
    pub limit: Option<i64>,
    pub server: Option<String>,
    pub since: Option<String>,
}

/// A public room directory request.
#[derive(Debug)]
pub struct GetPublicRoomsCommand {
    pub limit: usize,
    pub server: Option<String>,
    pub since: Option<String>,
}

impl GetPublicRoomsCommand {
    /// The request of a query: the limit must be a `usize` (10 when absent).
    pub fn try_from_query(value: GetPublicRoomsQuery) -> (r: Result<
        GetPublicRoomsCommand,
        RoomsApplicationError,
    >)
        ensures
            match value.limit {
                Some(l) => if 0 <= l <= usize::MAX {
                    r matches Ok(c) && c.limit == l && c.server == value.server && c.since
                        == value.since
                } else {
                    r == Err::<GetPublicRoomsCommand, _>(RoomsApplicationError::InvalidParameter)
                },
                None => r matches Ok(c) && c.limit == 10 && c.server == value.server && c.since
                    == value.since,
            },
    {
        let limit: usize = match value.limit {
            Some(l) => {
                if l < 0 || (l as u64) > (usize::MAX as u64) {
                    return Err(RoomsApplicationError::InvalidParameter);
                }
                l as usize
            },
            None => 10,
        };
        Ok(GetPublicRoomsCommand { limit, server: value.server, since: value.since })
    }
}

/// The offset a `since` token stands for: none is 0; otherwise the trimmed
/// token must be a `usize`.
pub open spec fn public_rooms_offset(value: Option<Seq<char>>) -> Option<int> {
    match value {
        None => Some(0),
        Some(v) => if trim(v).len() == 0 {
            None
        } else {
            parse_unsigned(trim(v), usize::MAX as int)
        },
    }
}

pub fn parse_public_rooms_offset(value: Option<&str>) -> (r: Result<usize, RoomsApplicationError>)
    ensures
        match public_rooms_offset(
            match value {
                Some(v) => Some(v@),
                None => None,
            },
        ) {
            Some(n) => r == Ok::<usize, RoomsApplicationError>(n as usize),
            None => r == Err::<usize, _>(RoomsApplicationError::InvalidParameter),
        },
{
    let token = match value {
        Some(v) => trim_str(v),
        None => return Ok(0),
    };
    if token.unicode_len() == 0 {
        return Err(RoomsApplicationError::InvalidParameter);
    }
    match parse_usize(token) {
        Some(n) => Ok(n),
        None => Err(RoomsApplicationError::InvalidParameter),
    }
}

/// A directory request may name only this server, and not by a blank name.
pub fn check_public_rooms_server(server: Option<&str>, server_name: &str) -> (r: Result<
    (),
    RoomsApplicationError,
>)
    ensures
        match server {
            Some(s) => if is_blank(s@) || s@ != server_name@ {
                r == Err::<(), _>(RoomsApplicationError::InvalidParameter)
            } else {
                r is Ok
            },
            None => r is Ok,
        },
{
    match server {
        Some(s) => {
            if crate::text::is_blank_str(s) || !str_eq(s, server_name) {
                return Err(RoomsApplicationError::InvalidParameter);
            }
            Ok(())
        },
        None => Ok(()),
    }
}

/// The offset and limit of a directory page as the store takes them.
pub fn public_rooms_offset_and_limit(since_offset: usize, limit: usize) -> (r: Result<
    (i64, i64),
    RoomsApplicationError,
>)
    ensures
        if since_offset <= i64::MAX && limit <= i64::MAX {
            r == Ok::<(i64, i64), RoomsApplicationError>((since_offset as i64, limit as i64))
        } else {
            r == Err::<(i64, i64), _>(RoomsApplicationError::InvalidParameter)
        },
{
    if (since_offset as u64) > (i64::MAX as u64) || (limit as u64) > (i64::MAX as u64) {
        return Err(RoomsApplicationError::InvalidParameter);
    }
    Ok((since_offset as i64, limit as i64))
}

/// The `next_batch` of a directory page: the offset after it, when there
/// are more rooms; and the `prev_batch`: the offset a page back (not below
/// zero), when the page is not the first.
pub open spec fn public_rooms_batches(
    since_offset: int,
    chunk_len: int,
    limit: int,
    total: int,
) -> (Option<Seq<char>>, Option<Seq<char>>) {
    let next_offset = if since_offset + chunk_len <= usize::MAX {
        since_offset + chunk_len
    } else {
        usize::MAX as int
    };
    let prev_offset = if since_offset >= limit {
        since_offset - limit
    } else {
        0
    };
    (
        if limit > 0 && 0 <= total <= usize::MAX && next_offset < total {
            Some(decimal(next_offset as nat))
        } else {
            None
        },
        if limit > 0 && since_offset > 0 {
            Some(decimal(prev_offset as nat))
        } else {
            None
        },
    )
}

pub fn public_rooms_page_batches(since_offset: usize, chunk_len: usize, limit: usize, total: i64) -> (r: (
    Option<String>,
    Option<String>,
))
    ensures
        ({
            let (next, prev) = public_rooms_batches(
                since_offset as int,
                chunk_len as int,
                limit as int,
                total as int,
            );
            &&& match r.0 {
                Some(s) => next == Some(s@),
                None => next is None,
            }
            &&& match r.1 {
                Some(s) => prev == Some(s@),
                None => prev is None,
            }
        }),
{
    let next_offset = since_offset.saturating_add(chunk_len);
    let total_fits = total >= 0 && (total as u64) <= (usize::MAX as u64);
    let next = if limit > 0 && total_fits && (next_offset as u64) < (total as u64) {
        Some(usize_to_decimal(next_offset))
    } else {
        None
    };
    let prev = if limit > 0 && since_offset > 0 {
        Some(usize_to_decimal(since_offset.saturating_sub(limit)))
    } else {
        None
    };
    (next, prev)
}

/// A public room as the store lists it.
#[derive(Debug)]
pub struct PublicRoomRosterEntry {
    pub room_id: String,
    pub num_joined_members: i64,
    pub fallback_name: Option<String>,
    pub fallback_topic: Option<String>,
}

/// A public room as the directory shows it.
#[derive(Debug)]
pub struct PublicRoomsChunk {
    pub room_id: String,
    pub num_joined_members: i64,
    pub world_readable: bool,
    pub guest_can_join: bool,
    pub canonical_alias: Option<String>,
    pub name: Option<String>,
    pub topic: Option<String>,
    pub avatar_url: Option<String>,
    pub join_rule: Option<String>,
    pub room_type: Option<String>,
}

/// A page of the public room directory.
#[derive(Debug)]
pub struct PublicRoomsPage {
    pub chunk: Vec<PublicRoomsChunk>,
    pub next_batch: Option<String>,
    pub prev_batch: Option<String>,
    pub total_room_count_estimate: Option<i64>,
}

/// The content of the room's `event_type` state, if the room has it.
pub open spec fn state_content(events: Seq<RoomStateEvent>, event_type: Seq<char>) -> Option<Json> {
    match first_state_content_index(events, event_type, 0) {
        Some(i) => Some(events[i].content@),
        None => None,
    }
}

/// A field of the room's `event_type` state.
pub open spec fn state_field(events: Seq<RoomStateEvent>, event_type: Seq<char>, field: Seq<char>) -> Option<
    Seq<char>,
> {
    string_field(state_content(events, event_type), field)
}

pub open spec fn opt_string_view(o: Option<String>) -> Option<Seq<char>> {
    match o {
        Some(s) => Some(s@),
        None => None,
    }
}

fn state_string(events: &Vec<RoomStateEvent>, event_type: &str, field: &str) -> (r: Option<String>)
    ensures
        opt_string_view(r) == state_field(events@, event_type@, field@),
{
    let content = room_state_content(events, event_type);
    json_string_field(content, field)
}

/// A directory entry, with what the room's state says of it: readable by
/// anyone when its history is `world_readable`, open to guests when guests
/// `can_join`, and its alias, name, topic, avatar, join rule and type; a
/// room without a name or topic state keeps the stored one.
pub fn map_public_room_chunk(public_room: PublicRoomRosterEntry, state_events: &Vec<RoomStateEvent>) -> (r:
    PublicRoomsChunk)
    ensures
        r.room_id == public_room.room_id,
        r.num_joined_members == public_room.num_joined_members,
        r.world_readable == (state_field(
            state_events@,
            "m.room.history_visibility"@,
            "history_visibility"@,
        ) == Some("world_readable"@)),
        r.guest_can_join == (state_field(state_events@, "m.room.guest_access"@, "guest_access"@)
            == Some("can_join"@)),
        opt_string_view(r.canonical_alias) == state_field(
            state_events@,
            "m.room.canonical_alias"@,
            "alias"@,
        ),
        opt_string_view(r.name) == (match state_field(state_events@, "m.room.name"@, "name"@) {
            Some(n) => Some(n),
            None => opt_string_view(public_room.fallback_name),
        }),
        opt_string_view(r.topic) == (match state_field(state_events@, "m.room.topic"@, "topic"@) {
            Some(t) => Some(t),
            None => opt_string_view(public_room.fallback_topic),
        }),
        opt_string_view(r.avatar_url) == state_field(state_events@, "m.room.avatar"@, "url"@),
        opt_string_view(r.join_rule) == state_field(
            state_events@,
            "m.room.join_rules"@,
            "join_rule"@,
        ),
        opt_string_view(r.room_type) == state_field(state_events@, "m.room.create"@, "type"@),
{
    let world_readable = match state_string(
        state_events,
        "m.room.history_visibility",
        "history_visibility",
    ) {
        Some(v) => str_eq(v.as_str(), "world_readable"),
        None => false,
    };
    let guest_can_join = match state_string(state_events, "m.room.guest_access", "guest_access") {
        Some(v) => str_eq(v.as_str(), "can_join"),
        None => false,
    };
    let name = match state_string(state_events, "m.room.name", "name") {
        Some(n) => Some(n),
        None => public_room.fallback_name,
    };
    let topic = match state_string(state_events, "m.room.topic", "topic") {
        Some(t) => Some(t),
        None => public_room.fallback_topic,
    };
    PublicRoomsChunk {
        room_id: public_room.room_id,
        num_joined_members: public_room.num_joined_members,
        world_readable,
        guest_can_join,
        canonical_alias: state_string(state_events, "m.room.canonical_alias", "alias"),
        name,
        topic,
        avatar_url: state_string(state_events, "m.room.avatar", "url"),
        join_rule: state_string(state_events, "m.room.join_rules", "join_rule"),
        room_type: state_string(state_events, "m.room.create", "type"),
    }
}

/// `s` without its leading ASCII letters.
pub open spec fn skip_ascii_letters(s: Seq<char>) -> Seq<char>
    decreases s.len(),
{
    if s.len() > 0 && is_ascii_alpha(s[0]) {
        skip_ascii_letters(s.drop_first())
    } else {
        s
    }
}

/// The ASCII digits at the start of `s`.
pub open spec fn leading_digits(s: Seq<char>) -> Seq<char>
    decreases s.len(),
{
    if s.len() > 0 && is_ascii_digit(s[0]) {
        seq![s[0]] + leading_digits(s.drop_first())
    } else {
        Seq::empty()
    }
}

/// The first run of ASCII digits in `s`.
pub open spec fn first_digit_run(s: Seq<char>) -> Option<Seq<char>>
    decreases s.len(),
{
    if s.len() == 0 {
        None
    } else if is_ascii_digit(s[0]) {
        Some(leading_digits(s))
    } else {
        first_digit_run(s.drop_first())
    }
}

/// The stream position a pagination token stands for: the token itself as
/// an `i64`, or else the first run of digits after its leading letters.
pub open spec fn stream_position_of_token(token: Seq<char>) -> Option<int> {
    match parse_signed(token, i64::MIN as int, i64::MAX as int) {
        Some(v) => Some(v),
        None => match first_digit_run(skip_ascii_letters(token)) {
            Some(run) => parse_signed(run, i64::MIN as int, i64::MAX as int),
            None => None,
        },
    }
}

fn is_digit(c: char) -> (r: bool)
    ensures
        r == is_ascii_digit(c),
{
    '0' <= c && c <= '9'
}

fn is_ascii_letter(c: char) -> (r: bool)
    ensures
        r == is_ascii_alpha(c),
{
    ('a' <= c && c <= 'z') || ('A' <= c && c <= 'Z')
}

proof fn lemma_skip_step(s: Seq<char>, i: int)
    requires
        0 <= i < s.len(),
        is_ascii_alpha(s[i]),
    ensures
        skip_ascii_letters(s.subrange(i, s.len() as int)) == skip_ascii_letters(
            s.subrange(i + 1, s.len() as int),
        ),
{
    assert(s.subrange(i, s.len() as int).drop_first() =~= s.subrange(i + 1, s.len() as int));
}

proof fn lemma_run_skip_step(s: Seq<char>, i: int)
    requires
        0 <= i < s.len(),
        !is_ascii_digit(s[i]),
    ensures
        first_digit_run(s.subrange(i, s.len() as int)) == first_digit_run(
            s.subrange(i + 1, s.len() as int),
        ),
{
    assert(s.subrange(i, s.len() as int).drop_first() =~= s.subrange(i + 1, s.len() as int));
}

proof fn lemma_leading_digits_step(s: Seq<char>, i: int, j: int)
    requires
        0 <= i <= j < s.len(),
        is_ascii_digit(s[j]),
        leading_digits(s.subrange(i, s.len() as int)) == s.subrange(i, j) + leading_digits(
            s.subrange(j, s.len() as int),
        ),
    ensures
        leading_digits(s.subrange(i, s.len() as int)) == s.subrange(i, j + 1) + leading_digits(
            s.subrange(j + 1, s.len() as int),
        ),
{
    let t = s.subrange(j, s.len() as int);
    assert(t.drop_first() =~= s.subrange(j + 1, s.len() as int));
    assert(s.subrange(i, j) + (seq![s[j]] + leading_digits(t.drop_first())) =~= s.subrange(
        i,
        j + 1,
    ) + leading_digits(s.subrange(j + 1, s.len() as int)));
}

/// Reads the stream position of a pagination token such as `s42_0_0`.
pub fn parse_room_stream_position_token(token: &str) -> (r: Result<i64, RoomsApplicationError>)
    ensures
        match stream_position_of_token(token@) {
            Some(v) => r == Ok::<i64, RoomsApplicationError>(v as i64),
            None => r == Err::<i64, _>(RoomsApplicationError::InvalidParameter),
        },
{
    match parse_i64(token) {
        Some(v) => return Ok(v),
        None => {},
    }
    let n = token.unicode_len();
    let ghost s = token@;
    let mut i: usize = 0;
    assert(s.subrange(0, n as int) =~= s);
    while i < n && is_ascii_letter(token.get_char(i))
        invariant
            n == s.len(),
            s == token@,
            i <= n,
            skip_ascii_letters(s) == skip_ascii_letters(s.subrange(i as int, n as int)),
        decreases n - i,
    {
        proof {
            lemma_skip_step(s, i as int);
        }
        i = i + 1;
    }
    let ghost rest = s.subrange(i as int, n as int);
    assert(skip_ascii_letters(rest) == rest);
    while i < n && !is_digit(token.get_char(i))
        invariant
            n == s.len(),
            s == token@,
            i <= n,
            first_digit_run(rest) == first_digit_run(s.subrange(i as int, n as int)),
        decreases n - i,
    {
        proof {
            lemma_run_skip_step(s, i as int);
        }
        i = i + 1;
    }
    if i == n {
        assert(s.subrange(i as int, n as int) =~= Seq::<char>::empty());
        return Err(RoomsApplicationError::InvalidParameter);
    }
    let start = i;
    assert(s.subrange(start as int, start as int) =~= Seq::<char>::empty());
    while i < n && is_digit(token.get_char(i))
        invariant
            n == s.len(),
            s == token@,
            start <= i <= n,
            start < n,
            leading_digits(s.subrange(start as int, n as int)) == s.subrange(start as int, i as int)
                + leading_digits(s.subrange(i as int, n as int)),
        decreases n - i,
    {
        proof {
            lemma_leading_digits_step(s, start as int, i as int);
        }
        i = i + 1;
    }
    proof {
        if i < n {
            assert(leading_digits(s.subrange(i as int, n as int)) =~= Seq::<char>::empty());
        } else {
            assert(s.subrange(i as int, n as int) =~= Seq::<char>::empty());
        }
        assert(s.subrange(start as int, i as int) + Seq::<char>::empty() =~= s.subrange(
            start as int,
            i as int,
        ));
    }
    let run = token.substring_char(start, i);
    match parse_i64(run) {
        Some(v) => Ok(v),
        None => Err(RoomsApplicationError::InvalidParameter),
    }
}

/// The pagination token of a stream position: `s<position>_0_0`.
pub open spec fn stream_token(position: int) -> Seq<char> {
    "s"@ + signed_decimal(position) + "_0_0"@
}

pub fn encode_stream_token(stream_position: i64) -> (r: String)
    ensures
        r@ == stream_token(stream_position as int),
{
    String::from_str("s").concat(i64_to_decimal(stream_position).as_str()).concat("_0_0")
}

/// The direction a message page is read in.
#[derive(Clone, Copy, Debug, PartialEq, Eq, Structural)]
pub enum RoomMessageDirection {
    Backward,
    Forward,
}

/// A filter on room events.
#[derive(Debug)]
pub struct RoomEventFilter {
    pub types: Option<Vec<String>>,
    pub not_types: Option<Vec<String>>,
    pub senders: Option<Vec<String>>,
    pub not_senders: Option<Vec<String>>,
    pub contains_url: Option<bool>,
}

/// The query of a message page request.
#[derive(Debug)]
pub struct GetRoomMessagesQuery {
    pub from_token: Option<String>,
    pub to_token: Option<String>,
    pub dir: Option<String>,
    pub limit: Option<i64>,
    pub filter: Option<String>,
}

/// A message page request.
#[derive(Debug)]
pub struct GetRoomMessagesCommand {
    pub from_token: Option<String>,
    pub to_token: Option<String>,
    pub direction: RoomMessageDirection,
    pub limit: usize,
    pub filter: Option<RoomEventFilter>,
}

/// The direction a `dir` parameter names: `b` or `f`.
pub open spec fn message_direction(dir: Option<String>) -> Option<RoomMessageDirection> {
    match dir {
        Some(d) => if d@ == "b"@ {
            Some(RoomMessageDirection::Backward)
        } else if d@ == "f"@ {
            Some(RoomMessageDirection::Forward)
        } else {
            None
        },
        None => None,
    }
}

impl GetRoomMessagesCommand {
    /// The request of a query. `parsed_filter` is the query's `filter`
    /// decoded as JSON: `None` when the query has none, an error when it
    /// does not decode.
    pub fn try_from_query(
        value: GetRoomMessagesQuery,
        parsed_filter: Option<Result<RoomEventFilter, ()>>,
    ) -> (r: Result<GetRoomMessagesCommand, RoomsApplicationError>)
        ensures
            r is Ok <==> (message_direction(value.dir) is Some && (value.limit matches Some(l) ==> 0
                <= l <= usize::MAX) && !(parsed_filter matches Some(Err(_)))),
            r matches Err(e) ==> e == RoomsApplicationError::InvalidParameter,
            r matches Ok(c) ==> {
                &&& Some(c.direction) == message_direction(value.dir)
                &&& c.limit == (match value.limit {
                    Some(l) => l as int,
                    None => 10,
                })
                &&& c.from_token == value.from_token
                &&& c.to_token == value.to_token
                &&& (match parsed_filter {
                    Some(Ok(f)) => c.filter == Some(f),
                    _ => c.filter is None,
                })
            },
    {
        let direction = match &value.dir {
            Some(d) => if str_eq(d.as_str(), "b") {
                RoomMessageDirection::Backward
            } else if str_eq(d.as_str(), "f") {
                RoomMessageDirection::Forward
            } else {
                return Err(RoomsApplicationError::InvalidParameter);
            },
            None => return Err(RoomsApplicationError::InvalidParameter),
        };
        let limit: usize = match value.limit {
            Some(l) => {
                if l < 0 || (l as u64) > (usize::MAX as u64) {
                    return Err(RoomsApplicationError::InvalidParameter);
                }
                l as usize
            },
            None => 10,
        };
        let filter = match parsed_filter {
            Some(Ok(f)) => Some(f),
            Some(Err(())) => return Err(RoomsApplicationError::InvalidParameter),
            None => None,
        };
        Ok(
            GetRoomMessagesCommand {
                from_token: value.from_token,
                to_token: value.to_token,
                direction,
                limit,
                filter,
            },
        )
    }
}

/// The stream positions a message page request starts and stops at.
pub fn message_page_bounds(command: &GetRoomMessagesCommand) -> (r: Result<
    (Option<i64>, Option<i64>),
    RoomsApplicationError,
>)
    ensures
        ({
            let from = match command.from_token {
                Some(t) => Some(stream_position_of_token(t@)),
                None => None,
            };
            let to = match command.to_token {
                Some(t) => Some(stream_position_of_token(t@)),
                None => None,
            };
            if from == Some(None::<int>) || to == Some(None::<int>) {
                r == Err::<(Option<i64>, Option<i64>), _>(RoomsApplicationError::InvalidParameter)
            } else {
                r matches Ok(b) && (match from {
                    Some(Some(p)) => b.0 == Some(p as i64),
                    _ => b.0 is None,
                }) && (match to {
                    Some(Some(p)) => b.1 == Some(p as i64),
                    _ => b.1 is None,
                })
            }
        }),
{
    let from = match &command.from_token {
        Some(t) => match parse_room_stream_position_token(t.as_str()) {
            Ok(p) => Some(p),
            Err(e) => return Err(e),
        },
        None => None,
    };
    let to = match &command.to_token {
        Some(t) => match parse_room_stream_position_token(t.as_str()) {
            Ok(p) => Some(p),
            Err(e) => return Err(e),
        },
        None => None,
    };
    Ok((from, to))
}

/// A page of room messages.
#[derive(Debug)]
pub struct RoomMessagesPage {
    pub start: String,
    pub end: Option<String>,
    pub chunk: Vec<RoomTimelineEvent>,
    pub state: Vec<RoomTimelineEvent>,
}

/// The page the client gets for a page the store read: its `start` and
/// `end` positions as pagination tokens; a position that is not an `i64`
/// is an internal error.
pub fn encode_message_page(page: RoomMessagesPage) -> (r: Result<RoomMessagesPage, RoomsApplicationError>)
    ensures
        match (
            parse_signed(page.start@, i64::MIN as int, i64::MAX as int),
            page.end,
        ) {
            (None, _) => r == Err::<RoomMessagesPage, _>(RoomsApplicationError::Internal),
            (Some(s), None) => r matches Ok(p) && p.start@ == stream_token(s) && p.end is None
                && p.chunk == page.chunk && p.state == page.state,
            (Some(s), Some(e)) => match parse_signed(e@, i64::MIN as int, i64::MAX as int) {
                None => r == Err::<RoomMessagesPage, _>(RoomsApplicationError::Internal),
                Some(ev) => r matches Ok(p) && p.start@ == stream_token(s) && (p.end matches Some(
                    pe,
                ) && pe@ == stream_token(ev)) && p.chunk == page.chunk && p.state == page.state,
            },
        },
{
    let start = match parse_i64(page.start.as_str()) {
        Some(v) => v,
        None => return Err(RoomsApplicationError::Internal),
    };
    let end = match &page.end {
        Some(e) => match parse_i64(e.as_str()) {
            Some(v) => Some(encode_stream_token(v)),
            None => return Err(RoomsApplicationError::Internal),
        },
        None => None,
    };
    Ok(
        RoomMessagesPage {
            start: encode_stream_token(start),
            end,
            chunk: page.chunk,
            state: page.state,
        },
    )
}

proof fn lemma_leading_digits_of_run(a: Seq<char>, b: Seq<char>)
    requires
        all_digits(a),
        b.len() > 0,
        !is_ascii_digit(b[0]),
    ensures
        leading_digits(a + b) == a,
    decreases a.len(),
{
    if a.len() == 0 {
        assert(a + b =~= b);
    } else {
        let t = a.drop_first();
        assert(all_digits(t)) by {
            assert forall|i: int| 0 <= i < t.len() implies is_ascii_digit(#[trigger] t[i]) by {
                assert(t[i] == a[i + 1]);
            }
        }
        lemma_leading_digits_of_run(t, b);
        assert((a + b).drop_first() =~= t + b);
        assert(is_ascii_digit(a[0]));
        assert(seq![a[0]] + t =~= a);
    }
}

/// Reading the pagination token of a message page gives back its stream
/// position, for positions that are not negative.
pub proof fn lemma_stream_token_round_trip(position: i64)
    requires
        position >= 0,
    ensures
        stream_position_of_token(stream_token(position as int)) == Some(position as int),
{
    let d = decimal(position as nat);
    crate::decimal::lemma_decimal_digits(position as nat);
    crate::decimal::lemma_parse_signed_decimal(position as int, i64::MIN as int, i64::MAX as int);
    reveal_strlit("s");
    reveal_strlit("_0_0");
    let tail = "_0_0"@;
    let t = stream_token(position as int);
    assert(signed_decimal(position as int) == d);
    assert(t == seq!['s'] + d + tail);
    assert(!is_ascii_digit(t[0]));
    assert(crate::decimal::unsigned_digits(t) == t);
    assert(!all_digits(t));
    assert(parse_signed(t, i64::MIN as int, i64::MAX as int) is None);
    let rest = t.drop_first();
    assert(rest =~= d + tail);
    assert(is_ascii_digit(rest[0]));
    assert(!is_ascii_alpha(rest[0]));
    assert(skip_ascii_letters(rest) == rest);
    assert(skip_ascii_letters(t) == rest);
    lemma_leading_digits_of_run(d, tail);
    assert(first_digit_run(rest) == Some(d));
}

} // verus!
