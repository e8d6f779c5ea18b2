//! The checks before a room is written to: state events, messages,
//! receipts and read markers; and the visibility check of a single event.
use vstd::prelude::*;

use crate::errors::RoomsApplicationError;
use crate::history_visibility::{
    evaluate_event_visibility, event_visibility, EventVisibilityEvaluationInput,
};
use crate::identifiers::parse_room_identifier;
use crate::json::{json_get, Json, JsonValue};
use crate::room_access::{
    context_room_version, opt_is, require_context_room_version, require_joined_membership,
    require_room_identifier, DomainError, RoomJoinContext,
};
use crate::room_events::{
    history_visibility_from_timeline_event, membership_filter_named,
    room_membership_from_timeline_event, state_event_kind_named, string_field, RoomMembershipFilter,
    RoomStateEvent, RoomTimelineEvent, StateEventKind,
};
use crate::versions::RoomVersion;
use crate::state_contents::{
    content_fits_event_type, message_content_fits, message_content_fits_type, state_content_fits,
};
use crate::text::{is_blank, is_blank_str, split_once, split_once_char, str_eq, strip_prefix, strip_prefix_char, trim, trim_str};

verus! {

/// The receipt types a client can send.
#[derive(Clone, Copy, Debug, PartialEq, Eq, Structural)]
pub enum RoomReceiptType {
    Read,
    ReadPrivate,
    FullyRead,
}

/// The receipt type a name stands for.
pub open spec fn receipt_type_named(name: Seq<char>) -> Option<RoomReceiptType> {
    if name == "m.read"@ {
        Some(RoomReceiptType::Read)
    } else if name == "m.read.private"@ {
        Some(RoomReceiptType::ReadPrivate)
    } else if name == "m.fully_read"@ {
        Some(RoomReceiptType::FullyRead)
    } else {
        None
    }
}

/// The name of a receipt type.
pub open spec fn receipt_type_name(t: RoomReceiptType) -> Seq<char> {
    match t {
        RoomReceiptType::Read => "m.read"@,
        RoomReceiptType::ReadPrivate => "m.read.private"@,
        RoomReceiptType::FullyRead => "m.fully_read"@,
    }
}

impl RoomReceiptType {
    pub fn parse(value: &str) -> (r: Option<RoomReceiptType>)
        ensures
            r == receipt_type_named(value@),
    {
        if str_eq(value, "m.read") {
            Some(RoomReceiptType::Read)
        } else if str_eq(value, "m.read.private") {
            Some(RoomReceiptType::ReadPrivate)
        } else if str_eq(value, "m.fully_read") {
            Some(RoomReceiptType::FullyRead)
        } else {
            None
        }
    }

    pub fn as_str(self) -> (r: &'static str)
        ensures
            r@ == receipt_type_name(self),
    {
        match self {
            RoomReceiptType::Read => "m.read",
            RoomReceiptType::ReadPrivate => "m.read.private",
            RoomReceiptType::FullyRead => "m.fully_read",
        }
    }
}

/// The thread a receipt is for, once checked: a present thread id must,
/// trimmed, be `main` or an event id (starting with `$`), and a fully-read
/// marker takes none.
pub open spec fn receipt_thread_id(
    receipt_type: RoomReceiptType,
    thread_id: Option<Seq<char>>,
) -> Result<Option<Seq<char>>, RoomsApplicationError> {
    match thread_id {
        None => Ok(None),
        Some(t) => {
            let trimmed = trim(t);
            if trimmed.len() == 0 {
                Err(RoomsApplicationError::InvalidParameter)
            } else if receipt_type == RoomReceiptType::FullyRead {
                Err(RoomsApplicationError::InvalidParameter)
            } else if trimmed != "main"@ && trimmed[0] != '$' {
                Err(RoomsApplicationError::InvalidParameter)
            } else {
                Ok(Some(trimmed))
            }
        },
    }
}

pub fn validate_receipt_thread_id(receipt_type: RoomReceiptType, thread_id: Option<&str>) -> (r:
    Result<Option<String>, RoomsApplicationError>)
    ensures
        match receipt_thread_id(
            receipt_type,
            match thread_id {
                Some(t) => Some(t@),
                None => None,
            },
        ) {
            Ok(Some(t)) => r matches Ok(Some(s)) && s@ == t,
            Ok(None) => r matches Ok(None),
            Err(e) => r == Err::<Option<String>, _>(e),
        },
{
    let thread_id = match thread_id {
        Some(t) => t,
        None => return Ok(None),
    };
    let trimmed = trim_str(thread_id);
    if trimmed.unicode_len() == 0 {
        return Err(RoomsApplicationError::InvalidParameter);
    }
    if receipt_type == RoomReceiptType::FullyRead {
        return Err(RoomsApplicationError::InvalidParameter);
    }
    if !str_eq(trimmed, "main") && trimmed.get_char(0) != '$' {
        return Err(RoomsApplicationError::InvalidParameter);
    }
    Ok(Some(String::from_str(trimmed)))
}

/// An event id a receipt or marker may point at: trimmed, it is not empty
/// and starts with `$`.
pub open spec fn receipt_event_id(event_id: Seq<char>) -> Option<Seq<char>> {
    let t = trim(event_id);
    if t.len() > 0 && t[0] == '$' {
        Some(t)
    } else {
        None
    }
}

/// The trimmed event id of a receipt, or an invalid parameter.
pub fn check_receipt_event_id(event_id: &str) -> (r: Result<String, RoomsApplicationError>)
    ensures
        match receipt_event_id(event_id@) {
            Some(t) => r matches Ok(s) && s@ == t,
            None => r == Err::<String, _>(RoomsApplicationError::InvalidParameter),
        },
{
    let t = trim_str(event_id);
    if t.unicode_len() == 0 || t.get_char(0) != '$' {
        return Err(RoomsApplicationError::InvalidParameter);
    }
    Ok(String::from_str(t))
}

/// Whether a receipt's target is fine: the event is in the room
/// (`event_found`) and, when the receipt names a thread, in that thread
/// (`thread_matches`). A failed lookup is an internal error.
pub fn require_receipt_target_event(
    event_found: Result<bool, DomainError>,
    thread_matches: Option<Result<bool, DomainError>>,
) -> (r: Result<(), RoomsApplicationError>)
    ensures
        match event_found {
            Err(_) => r == Err::<(), _>(RoomsApplicationError::Internal),
            Ok(false) => r == Err::<(), _>(RoomsApplicationError::InvalidParameter),
            Ok(true) => match thread_matches {
                None => r is Ok,
                Some(Err(_)) => r == Err::<(), _>(RoomsApplicationError::Internal),
                Some(Ok(false)) => r == Err::<(), _>(RoomsApplicationError::InvalidParameter),
                Some(Ok(true)) => r is Ok,
            },
        },
{
    match event_found {
        Err(_) => return Err(RoomsApplicationError::Internal),
        Ok(false) => return Err(RoomsApplicationError::InvalidParameter),
        Ok(true) => {},
    }
    match thread_matches {
        None => Ok(()),
        Some(Err(_)) => Err(RoomsApplicationError::Internal),
        Some(Ok(false)) => Err(RoomsApplicationError::InvalidParameter),
        Some(Ok(true)) => Ok(()),
    }
}

/// The body of a receipt request.
#[derive(Debug)]
pub struct SendReceiptRequestDto {
    pub thread_id: Option<String>,
}

/// A receipt request.
#[derive(Debug)]
pub struct SendReceiptCommand {
    pub receipt_type: RoomReceiptType,
    pub event_id: String,
    pub thread_id: Option<String>,
}

impl SendReceiptCommand {
    /// The request for a receipt type name, an event id and a body; an
    /// unknown receipt type is an invalid parameter.
    pub fn try_from_parts(receipt_type: &str, event_id: String, request: SendReceiptRequestDto) -> (r:
        Result<SendReceiptCommand, RoomsApplicationError>)
        ensures
            match receipt_type_named(receipt_type@) {
                Some(t) => r matches Ok(c) && c.receipt_type == t && c.event_id == event_id
                    && c.thread_id == request.thread_id,
                None => r == Err::<SendReceiptCommand, _>(RoomsApplicationError::InvalidParameter),
            },
    {
        match RoomReceiptType::parse(receipt_type) {
            Some(t) => Ok(
                SendReceiptCommand { receipt_type: t, event_id, thread_id: request.thread_id },
            ),
            None => Err(RoomsApplicationError::InvalidParameter),
        }
    }
}

/// What a receipt comes to in the store.
#[derive(Debug)]
pub enum ReceiptWrite {
    FullyReadMarker { event_id: String },
    Receipt { receipt_type: RoomReceiptType, event_id: String, thread_id: Option<String> },
}

/// Sending a receipt.
pub struct SendRoomReceiptUseCase {
    pub room_id: String,
    pub command: SendReceiptCommand,
}

impl SendRoomReceiptUseCase {
    pub fn new(room_id: String, command: SendReceiptCommand) -> (r: Self)
        ensures
            r.room_id == room_id,
            r.command == command,
    {
        SendRoomReceiptUseCase { room_id, command }
    }

    /// The checks made before the user's membership is looked up: the
    /// room identifier, then the event id. Gives the trimmed event id.
    pub fn check_request(&self) -> (r: Result<String, RoomsApplicationError>)
        ensures
            parse_room_identifier(self.room_id@) is None ==> r == Err::<String, _>(
                RoomsApplicationError::Forbidden,
            ),
            parse_room_identifier(self.room_id@) is Some ==> match receipt_event_id(
                self.command.event_id@,
            ) {
                Some(t) => r matches Ok(s) && s@ == t,
                None => r == Err::<String, _>(RoomsApplicationError::InvalidParameter),
            },
    {
        match require_room_identifier(self.room_id.as_str()) {
            Ok(()) => {},
            Err(e) => return Err(e),
        }
        check_receipt_event_id(self.command.event_id.as_str())
    }

    /// The thread of the receipt, once the user is known to have joined.
    pub fn thread_id(&self) -> (r: Result<Option<String>, RoomsApplicationError>)
        ensures
            match receipt_thread_id(
                self.command.receipt_type,
                match self.command.thread_id {
                    Some(t) => Some(t@),
                    None => None,
                },
            ) {
                Ok(Some(t)) => r matches Ok(Some(s)) && s@ == t,
                Ok(None) => r matches Ok(None),
                Err(e) => r == Err::<Option<String>, _>(e),
            },
    {
        let thread = match &self.command.thread_id {
            Some(t) => Some(t.as_str()),
            None => None,
        };
        validate_receipt_thread_id(self.command.receipt_type, thread)
    }

    /// What to store: a fully-read marker, or a receipt of its type.
    pub fn execute(&self, event_id: String, thread_id: Option<String>) -> (r: ReceiptWrite)
        ensures
            match self.command.receipt_type {
                RoomReceiptType::FullyRead => r == ReceiptWrite::FullyReadMarker { event_id },
                t => r == ReceiptWrite::Receipt { receipt_type: t, event_id, thread_id },
            },
    {
        match self.command.receipt_type {
            RoomReceiptType::FullyRead => ReceiptWrite::FullyReadMarker { event_id },
            t => ReceiptWrite::Receipt { receipt_type: t, event_id, thread_id },
        }
    }
}

/// The body of a read-markers request.
#[derive(Debug)]
pub struct SetReadMarkersRequestDto {
    pub fully_read_event_id: Option<String>,
    pub read_event_id: Option<String>,
    pub private_read_event_id: Option<String>,
}

/// A read-markers request.
#[derive(Debug)]
pub struct SetReadMarkersCommand {
    pub fully_read_event_id: Option<String>,
    pub read_event_id: Option<String>,
    pub private_read_event_id: Option<String>,
}

impl SetReadMarkersCommand {
    pub fn from_request(value: SetReadMarkersRequestDto) -> (r: Self)
        ensures
            r.fully_read_event_id == value.fully_read_event_id,
            r.read_event_id == value.read_event_id,
            r.private_read_event_id == value.private_read_event_id,
    {
        SetReadMarkersCommand {
            fully_read_event_id: value.fully_read_event_id,
            read_event_id: value.read_event_id,
            private_read_event_id: value.private_read_event_id,
        }
    }
}

/// The markers a request sets, in order (fully read, read, private read),
/// each with its trimmed event id.
pub open spec fn read_marker_targets(c: SetReadMarkersCommand) -> Seq<(RoomReceiptType, Seq<char>)> {
    (match c.fully_read_event_id {
        Some(e) => seq![(RoomReceiptType::FullyRead, trim(e@))],
        None => Seq::empty(),
    }) + (match c.read_event_id {
        Some(e) => seq![(RoomReceiptType::Read, trim(e@))],
        None => Seq::empty(),
    }) + (match c.private_read_event_id {
        Some(e) => seq![(RoomReceiptType::ReadPrivate, trim(e@))],
        None => Seq::empty(),
    })
}

/// Each marker of a request comes from its own field, under its own
/// receipt type: a fully-read marker only from `fully_read_event_id`, a
/// public read receipt only from `read_event_id`, a private read receipt
/// only from `private_read_event_id`, each with the trimmed event id; every
/// field that is given yields exactly one marker, and no type appears twice.
pub proof fn lemma_read_marker_types(c: SetReadMarkersCommand)
    ensures
        ({
            let t = read_marker_targets(c);
            &&& t.len() == (if c.fully_read_event_id is Some { 1int } else { 0 }) + (if c.read_event_id is Some { 1int } else { 0 })
                + (if c.private_read_event_id is Some { 1int } else { 0 })
            &&& forall|i: int| 0 <= i < t.len() && (#[trigger] t[i]).0 == RoomReceiptType::FullyRead
                ==> (c.fully_read_event_id matches Some(e) && t[i].1 == trim(e@))
            &&& forall|i: int| 0 <= i < t.len() && (#[trigger] t[i]).0 == RoomReceiptType::Read
                ==> (c.read_event_id matches Some(e) && t[i].1 == trim(e@))
            &&& forall|i: int| 0 <= i < t.len() && (#[trigger] t[i]).0 == RoomReceiptType::ReadPrivate
                ==> (c.private_read_event_id matches Some(e) && t[i].1 == trim(e@))
            &&& c.private_read_event_id matches Some(e) ==> exists|i: int|
                0 <= i < t.len() && #[trigger] t[i] == (RoomReceiptType::ReadPrivate, trim(e@))
            &&& c.read_event_id matches Some(e) ==> exists|i: int|
                0 <= i < t.len() && #[trigger] t[i] == (RoomReceiptType::Read, trim(e@))
            &&& c.fully_read_event_id matches Some(e) ==> exists|i: int|
                0 <= i < t.len() && #[trigger] t[i] == (RoomReceiptType::FullyRead, trim(e@))
            &&& forall|i: int, j: int| 0 <= i < j < t.len() ==> (#[trigger] t[i]).0 != (#[trigger] t[j]).0
        }),
{
    let a: Seq<(RoomReceiptType, Seq<char>)> = match c.fully_read_event_id {
        Some(e) => seq![(RoomReceiptType::FullyRead, trim(e@))],
        None => Seq::empty(),
    };
    let b: Seq<(RoomReceiptType, Seq<char>)> = match c.read_event_id {
        Some(e) => seq![(RoomReceiptType::Read, trim(e@))],
        None => Seq::empty(),
    };
    let p: Seq<(RoomReceiptType, Seq<char>)> = match c.private_read_event_id {
        Some(e) => seq![(RoomReceiptType::ReadPrivate, trim(e@))],
        None => Seq::empty(),
    };
    let t = read_marker_targets(c);
    assert(t == a + b + p);
    assert forall|i: int| 0 <= i < t.len() implies (#[trigger] t[i]) == (if i < a.len() {
        a[i]
    } else if i < a.len() + b.len() {
        b[i - a.len()]
    } else {
        p[i - a.len() - b.len()]
    }) by {}
    if let Some(e) = c.private_read_event_id {
        assert(t[(a.len() + b.len()) as int] == (RoomReceiptType::ReadPrivate, trim(e@)));
    }
    if let Some(e) = c.read_event_id {
        assert(t[a.len() as int] == (RoomReceiptType::Read, trim(e@)));
    }
    if let Some(e) = c.fully_read_event_id {
        assert(t[0] == (RoomReceiptType::FullyRead, trim(e@)));
    }
}

/// The first marker, from place `i` on, that is refused, and why: its
/// event id must start with `$`, and the event must be found in the room
/// (`found[k]` is the lookup of the `k`-th marker's event).
pub open spec fn first_marker_fault(
    targets: Seq<(RoomReceiptType, Seq<char>)>,
    found: Seq<Result<bool, DomainError>>,
    i: int,
) -> Option<RoomsApplicationError>
    decreases targets.len() - i,
{
    if i < 0 || i >= targets.len() {
        None
    } else if receipt_event_id(targets[i].1) is None {
        Some(RoomsApplicationError::InvalidParameter)
    } else {
        match found[i] {
            Err(_) => Some(RoomsApplicationError::Internal),
            Ok(false) => Some(RoomsApplicationError::InvalidParameter),
            Ok(true) => first_marker_fault(targets, found, i + 1),
        }
    }
}

/// Setting read markers.
pub struct SetReadMarkersUseCase {
    pub room_id: String,
    pub command: SetReadMarkersCommand,
}

impl SetReadMarkersUseCase {
    pub fn new(room_id: String, command: SetReadMarkersCommand) -> (r: Self)
        ensures
            r.room_id == room_id,
            r.command == command,
    {
        SetReadMarkersUseCase { room_id, command }
    }

    /// The room identifier must parse.
    pub fn check_request(&self) -> (r: Result<(), RoomsApplicationError>)
        ensures
            r is Ok <==> parse_room_identifier(self.room_id@) is Some,
            r matches Err(e) ==> e == RoomsApplicationError::Forbidden,
    {
        require_room_identifier(self.room_id.as_str())
    }

    /// The markers to check and then store, in order.
    pub fn targets(&self) -> (r: Vec<(RoomReceiptType, String)>)
        ensures
            r@.len() == read_marker_targets(self.command).len(),
            forall|i: int|
                0 <= i < r@.len() ==> (#[trigger] r@[i]).0 == read_marker_targets(self.command)[i].0
                    && r@[i].1@ == read_marker_targets(self.command)[i].1,
    {
        let mut out: Vec<(RoomReceiptType, String)> = Vec::new();
        match &self.command.fully_read_event_id {
            Some(e) => out.push((RoomReceiptType::FullyRead, String::from_str(trim_str(e.as_str())))),
            None => {},
        }
        match &self.command.read_event_id {
            Some(e) => out.push((RoomReceiptType::Read, String::from_str(trim_str(e.as_str())))),
            None => {},
        }
        match &self.command.private_read_event_id {
            Some(e) => out.push(
                (RoomReceiptType::ReadPrivate, String::from_str(trim_str(e.as_str()))),
            ),
            None => {},
        }
        out
    }

    /// Checks every marker before any is stored: given the lookup of each
    /// marker's event (`found`, in the order of `targets`), either the
    /// first refusal, and then nothing is stored, or the markers to store,
    /// all of them, in order.
    pub fn execute(&self, found: Vec<Result<bool, DomainError>>) -> (r: Result<
        Vec<(RoomReceiptType, String)>,
        RoomsApplicationError,
    >)
        requires
            found@.len() == read_marker_targets(self.command).len(),
        ensures
            match first_marker_fault(read_marker_targets(self.command), found@, 0) {
                Some(e) => r == Err::<Vec<(RoomReceiptType, String)>, _>(e),
                None => r matches Ok(v) && v@.len() == read_marker_targets(self.command).len()
                    && forall|i: int|
                    0 <= i < v@.len() ==> (#[trigger] v@[i]).0 == read_marker_targets(
                        self.command,
                    )[i].0 && v@[i].1@ == read_marker_targets(self.command)[i].1,
            },
    {
        let markers = self.targets();
        let ghost t = read_marker_targets(self.command);
        let mut i: usize = 0;
        while i < markers.len()
            invariant
                t == read_marker_targets(self.command),
                found@.len() == t.len(),
                markers@.len() == t.len(),
                i <= t.len(),
                forall|k: int|
                    0 <= k < markers@.len() ==> (#[trigger] markers@[k]).0 == t[k].0
                        && markers@[k].1@ == t[k].1,
                first_marker_fault(t, found@, 0) == first_marker_fault(t, found@, i as int),
            decreases markers.len() - i,
        {
            match check_receipt_event_id(markers[i].1.as_str()) {
                Ok(_) => {},
                Err(e) => return Err(e),
            }
            let lookup = match &found[i] {
                Ok(b) => Ok(*b),
                Err(_) => Err(DomainError::NotFound),
            };
            match require_receipt_target_event(lookup, None) {
                Ok(()) => {},
                Err(e) => return Err(e),
            }
            i = i + 1;
        }
        Ok(markers)
    }
}

/// The localpart of `#localpart:server` when `server` is this server and
/// neither part is blank.
pub open spec fn local_alias_localpart(alias: Seq<char>, server_name: Seq<char>) -> Option<Seq<char>> {
    match strip_prefix(alias, '#') {
        Some(rest) => match split_once(rest, ':') {
            Some((localpart, server)) => if is_blank(localpart) || is_blank(server) || server
                != server_name {
                None
            } else {
                Some(localpart)
            },
            None => None,
        },
        None => None,
    }
}

pub fn parse_room_alias_localpart_for_local_server<'a>(room_alias: &'a str, server_name: &str) -> (r:
    Option<&'a str>)
    ensures
        match r {
            Some(l) => local_alias_localpart(room_alias@, server_name@) == Some(l@),
            None => local_alias_localpart(room_alias@, server_name@) is None,
        },
{
    let rest = match strip_prefix_char(room_alias, '#') {
        Some(r) => r,
        None => return None,
    };
    let (localpart, server) = match split_once_char(rest, ':') {
        Some(p) => p,
        None => return None,
    };
    if is_blank_str(localpart) || is_blank_str(server) || !str_eq(server, server_name) {
        return None;
    }
    Some(localpart)
}

/// The aliases a canonical-alias content names: its `alias`, then each of
/// its `alt_aliases`; a member of the wrong type refuses the content.
pub open spec fn canonical_aliases(content: Json) -> Option<Seq<Seq<char>>> {
    let first: Option<Seq<Seq<char>>> = match json_get(content, "alias"@) {
        None => Some(Seq::empty()),
        Some(Json::Str(a)) => Some(seq![a]),
        Some(_) => None,
    };
    let rest: Option<Seq<Seq<char>>> = match json_get(content, "alt_aliases"@) {
        None => Some(Seq::empty()),
        Some(Json::Array(items)) => if forall|i: int| 0 <= i < items.len() ==> (#[trigger] items[i]) is Str {
            Some(Seq::new(items.len(), |i: int| items[i]->Str_0))
        } else {
            None
        },
        Some(_) => None,
    };
    match (first, rest) {
        (Some(f), Some(r)) => Some(f + r),
        _ => None,
    }
}

/// The aliases of a canonical-alias content, or an invalid parameter.
pub fn canonical_alias_list(content: &JsonValue) -> (r: Result<Vec<String>, RoomsApplicationError>)
    ensures
        match canonical_aliases(content@) {
            Some(a) => r matches Ok(v) && v@.len() == a.len() && forall|i: int|
                0 <= i < a.len() ==> (#[trigger] v@[i])@ == a[i],
            None => r == Err::<Vec<String>, _>(RoomsApplicationError::InvalidParameter),
        },
{
    let mut aliases: Vec<String> = Vec::new();
    let ghost mut first: Seq<Seq<char>> = Seq::empty();
    match content.get("alias") {
        Some(v) => match v.as_str() {
            Some(a) => {
                aliases.push(String::from_str(a));
                proof {
                    first = seq![a@];
                }
            },
            None => return Err(RoomsApplicationError::InvalidParameter),
        },
        None => {},
    }
    assert(aliases@.len() == first.len());
    assert(forall|k: int| 0 <= k < first.len() ==> (#[trigger] aliases@[k])@ == first[k]);
    match content.get("alt_aliases") {
        Some(v) => match v.as_array() {
            Some(items) => {
                let ghost iv = Seq::new(items@.len(), |k: int| crate::json::json_view(items@[k]));
                let mut i: usize = 0;
                while i < items.len()
                    invariant
                        i <= items@.len(),
                        iv == Seq::new(items@.len(), |k: int| crate::json::json_view(items@[k])),
                        json_get(content@, "alt_aliases"@) == Some(Json::Array(iv)),
                        aliases@.len() == first.len() + i,
                        forall|k: int| 0 <= k < i ==> (#[trigger] iv[k]) is Str,
                        forall|k: int| 0 <= k < first.len() ==> (#[trigger] aliases@[k])@ == first[k],
                        forall|k: int|
                            0 <= k < i ==> (#[trigger] aliases@[first.len() + k])@ == iv[k]->Str_0,
                    decreases items.len() - i,
                {
                    match items[i].as_str() {
                        Some(a) => aliases.push(String::from_str(a)),
                        None => {
                            assert(!(iv[i as int] is Str));
                            return Err(RoomsApplicationError::InvalidParameter);
                        },
                    }
                    i = i + 1;
                }
                let ghost rest = Seq::new(iv.len(), |k: int| iv[k]->Str_0);
                assert(canonical_aliases(content@) == Some(first + rest));
                assert forall|k: int| 0 <= k < first.len() + rest.len() implies (
                #[trigger] aliases@[k])@ == (first + rest)[k] by {
                    if k >= first.len() {
                        assert(aliases@[first.len() + (k - first.len())] == aliases@[k]);
                    }
                }
            },
            None => return Err(RoomsApplicationError::InvalidParameter),
        },
        None => {
            assert(first + Seq::<Seq<char>>::empty() =~= first);
        },
    }
    Ok(aliases)
}

/// Whether an alias may be set on the room: the alias must be bound to
/// this room (`bound_room_id`, looked up by its localpart).
pub fn check_alias_binding(bound_room_id: Result<Option<String>, DomainError>, room_id: &str) -> (r:
    Result<(), RoomsApplicationError>)
    ensures
        match bound_room_id {
            Err(_) => r == Err::<(), _>(RoomsApplicationError::Internal),
            Ok(Some(b)) => if b@ == room_id@ {
                r is Ok
            } else {
                r == Err::<(), _>(RoomsApplicationError::BadAlias)
            },
            Ok(None) => r == Err::<(), _>(RoomsApplicationError::BadAlias),
        },
{
    match bound_room_id {
        Err(_) => Err(RoomsApplicationError::Internal),
        Ok(Some(b)) => if str_eq(b.as_str(), room_id) {
            Ok(())
        } else {
            Err(RoomsApplicationError::BadAlias)
        },
        Ok(None) => Err(RoomsApplicationError::BadAlias),
    }
}

/// Setting a state event.
pub struct SetRoomStateWithKeyUseCase {
    pub room_id: String,
    pub server_name: String,
}

impl SetRoomStateWithKeyUseCase {
    pub fn new(room_id: String, server_name: String) -> (r: Self)
        ensures
            r.room_id == room_id,
            r.server_name == server_name,
    {
        SetRoomStateWithKeyUseCase { room_id, server_name }
    }

    /// The checks made before the sender's membership is looked up: the
    /// room identifier, then an object content.
    pub fn check_request(&self, content: &JsonValue) -> (r: Result<(), RoomsApplicationError>)
        ensures
            parse_room_identifier(self.room_id@) is None ==> r == Err::<(), _>(
                RoomsApplicationError::Forbidden,
            ),
            parse_room_identifier(self.room_id@) is Some ==> if content@ is Object {
                r is Ok
            } else {
                r == Err::<(), _>(RoomsApplicationError::InvalidParameter)
            },
    {
        match require_room_identifier(self.room_id.as_str()) {
            Ok(()) => {},
            Err(e) => return Err(e),
        }
        if !content.is_object() {
            return Err(RoomsApplicationError::InvalidParameter);
        }
        Ok(())
    }

    /// The check made once the aliases are known to be good: the content
    /// must have the shape that the kind named by `event_type` asks for.
    pub fn check_content(&self, event_type: &str, content: &JsonValue) -> (r: Result<
        (),
        RoomsApplicationError,
    >)
        ensures
            content_fits_event_type(event_type@, content@) ==> r is Ok,
            !content_fits_event_type(event_type@, content@) ==> r == Err::<(), _>(
                RoomsApplicationError::InvalidRoomState,
            ),
    {
        let kind = StateEventKind::parse(event_type);
        if state_content_fits(&kind, content) {
            Ok(())
        } else {
            Err(RoomsApplicationError::InvalidRoomState)
        }
    }

    /// The alias localparts to look up before a canonical-alias event is
    /// set: every alias it names must be on this server. Other events need
    /// none.
    pub fn aliases_to_check(&self, event_type: &str, content: &JsonValue) -> (r: Result<
        Vec<String>,
        RoomsApplicationError,
    >)
        ensures
            event_type@ != "m.room.canonical_alias"@ ==> (r matches Ok(v) && v@.len() == 0),
            event_type@ == "m.room.canonical_alias"@ ==> match canonical_aliases(content@) {
                None => r == Err::<Vec<String>, _>(RoomsApplicationError::InvalidParameter),
                Some(a) => if forall|i: int|
                    0 <= i < a.len() ==> local_alias_localpart(#[trigger] a[i], self.server_name@)
                        is Some {
                    r matches Ok(v) && v@.len() == a.len() && forall|i: int|
                        0 <= i < a.len() ==> Some((#[trigger] v@[i])@) == local_alias_localpart(
                            a[i],
                            self.server_name@,
                        )
                } else {
                    r == Err::<Vec<String>, _>(RoomsApplicationError::InvalidParameter)
                },
            },
    {
        if !str_eq(event_type, "m.room.canonical_alias") {
            return Ok(Vec::new());
        }
        let aliases = match canonical_alias_list(content) {
            Ok(a) => a,
            Err(e) => return Err(e),
        };
        let ghost a = canonical_aliases(content@)->Some_0;
        let mut out: Vec<String> = Vec::new();
        let mut i: usize = 0;
        while i < aliases.len()
            invariant
                event_type@ == "m.room.canonical_alias"@,
                canonical_aliases(content@) == Some(a),
                i <= aliases@.len(),
                aliases@.len() == a.len(),
                forall|k: int| 0 <= k < a.len() ==> (#[trigger] aliases@[k])@ == a[k],
                out@.len() == i,
                forall|k: int|
                    0 <= k < i ==> Some((#[trigger] out@[k])@) == local_alias_localpart(
                        a[k],
                        self.server_name@,
                    ),
            decreases aliases.len() - i,
        {
            match parse_room_alias_localpart_for_local_server(
                aliases[i].as_str(),
                self.server_name.as_str(),
            ) {
                Some(l) => out.push(String::from_str(l)),
                None => {
                    assert(local_alias_localpart(a[i as int], self.server_name@) is None);
                    return Err(RoomsApplicationError::InvalidParameter);
                },
            }
            i = i + 1;
        }
        assert forall|k: int| 0 <= k < a.len() implies local_alias_localpart(
            #[trigger] a[k],
            self.server_name@,
        ) is Some by {
            assert(Some(out@[k]@) == local_alias_localpart(a[k], self.server_name@));
        }
        Ok(out)
    }
}

/// What sending a message comes to once the request is well formed.
#[derive(Debug, PartialEq, Eq)]
pub enum SendStep {
    /// The transaction id was used before: answer with the event it made
    /// and write nothing.
    Existing { event_id: String },
    /// Write the message in a room of this version.
    Append { room_version: RoomVersion },
}

/// Sending a message event.
pub struct SendRoomMessageEventUseCase {
    pub room_id: String,
}

impl SendRoomMessageEventUseCase {
    pub fn new(room_id: String) -> (r: Self)
        ensures
            r.room_id == room_id,
    {
        SendRoomMessageEventUseCase { room_id }
    }

    /// The check made once the sender is known to have joined: a message
    /// or redaction must carry the fields its type reads, filled in.
    pub fn check_content(&self, event_type: &str, content: &JsonValue) -> (r: Result<
        (),
        RoomsApplicationError,
    >)
        ensures
            message_content_fits(event_type@, content@) ==> r is Ok,
            !message_content_fits(event_type@, content@) ==> r == Err::<(), _>(
                RoomsApplicationError::InvalidRoomState,
            ),
    {
        if message_content_fits_type(event_type, content) {
            Ok(())
        } else {
            Err(RoomsApplicationError::InvalidRoomState)
        }
    }

    /// The checks made before anything is looked up: the room identifier;
    /// then a type and transaction id that are not blank and an object
    /// content; and a type that is not one of the known state event types.
    pub fn check_request(&self, event_type: &str, transaction_id: &str, content: &JsonValue) -> (r:
        Result<(), RoomsApplicationError>)
        ensures
            parse_room_identifier(self.room_id@) is None ==> r == Err::<(), _>(
                RoomsApplicationError::Forbidden,
            ),
            parse_room_identifier(self.room_id@) is Some ==> if is_blank(event_type@) || is_blank(
                transaction_id@,
            ) || !(content@ is Object) || state_event_kind_named(event_type@) is Some {
                r == Err::<(), _>(RoomsApplicationError::InvalidParameter)
            } else {
                r is Ok
            },
    {
        match require_room_identifier(self.room_id.as_str()) {
            Ok(()) => {},
            Err(e) => return Err(e),
        }
        if is_blank_str(event_type) || is_blank_str(transaction_id) || !content.is_object() {
            return Err(RoomsApplicationError::InvalidParameter);
        }
        match StateEventKind::parse(event_type) {
            StateEventKind::Custom(_) => Ok(()),
            _ => Err(RoomsApplicationError::InvalidParameter),
        }
    }

    /// Decides a send once `check_request` passed, from the lookup of the
    /// sender's transaction id (`found`) and, when it is new, the sender's
    /// membership: a transaction id used before answers with its event and
    /// writes nothing, whatever the membership; otherwise the sender must
    /// have joined and the content must fit the event type, and the message
    /// is written.
    pub fn execute(
        &self,
        event_type: &str,
        content: &JsonValue,
        found: Result<Option<String>, DomainError>,
        membership: Result<Option<RoomJoinContext>, DomainError>,
        default_version: &str,
    ) -> (r: Result<SendStep, RoomsApplicationError>)
        ensures
            match found {
                Err(_) => r == Err::<SendStep, _>(RoomsApplicationError::Internal),
                Ok(Some(id)) => r matches Ok(SendStep::Existing { event_id }) && event_id@ == id@,
                Ok(None) => match membership {
                    Err(_) => r == Err::<SendStep, _>(RoomsApplicationError::Internal),
                    Ok(None) => r == Err::<SendStep, _>(RoomsApplicationError::Forbidden),
                    Ok(Some(c)) => if !opt_is(c.membership_state, "join"@) {
                        r == Err::<SendStep, _>(RoomsApplicationError::Forbidden)
                    } else {
                        match context_room_version(c.room_version, default_version@) {
                            None => r == Err::<SendStep, _>(RoomsApplicationError::Internal),
                            Some(v) => if !message_content_fits(event_type@, content@) {
                                r == Err::<SendStep, _>(RoomsApplicationError::InvalidRoomState)
                            } else {
                                r == Ok::<_, RoomsApplicationError>(
                                    SendStep::Append { room_version: v },
                                )
                            },
                        }
                    },
                },
            },
    {
        match self.existing_event(found) {
            Err(e) => return Err(e),
            Ok(Some(event_id)) => return Ok(SendStep::Existing { event_id }),
            Ok(None) => {},
        }
        let context = match require_joined_membership(membership) {
            Ok(c) => c,
            Err(e) => return Err(e),
        };
        let room_version = match require_context_room_version(&context, default_version) {
            Ok(v) => v,
            Err(e) => return Err(e),
        };
        match self.check_content(event_type, content) {
            Ok(()) => Ok(SendStep::Append { room_version }),
            Err(e) => Err(e),
        }
    }

    /// A transaction id already used by the sender gives back the event
    /// it made; a failed lookup is an internal error.
    pub fn existing_event(&self, found: Result<Option<String>, DomainError>) -> (r: Result<
        Option<String>,
        RoomsApplicationError,
    >)
        ensures
            match found {
                Err(_) => r == Err::<Option<String>, _>(RoomsApplicationError::Internal),
                Ok(o) => r == Ok::<_, RoomsApplicationError>(o),
            },
    {
        match found {
            Err(_) => Err(RoomsApplicationError::Internal),
            Ok(o) => Ok(o),
        }
    }
}

/// Looking up one state event.
pub struct GetRoomStateWithKeyUseCase {
    pub room_id: String,
}

impl GetRoomStateWithKeyUseCase {
    pub fn new(room_id: String) -> (r: Self)
        ensures
            r.room_id == room_id,
    {
        GetRoomStateWithKeyUseCase { room_id }
    }

    /// The event found, or not found; a failed lookup is an internal error.
    pub fn execute(&self, found: Result<Option<RoomStateEvent>, DomainError>) -> (r: Result<
        RoomStateEvent,
        RoomsApplicationError,
    >)
        ensures
            match found {
                Err(_) => r == Err::<RoomStateEvent, _>(RoomsApplicationError::Internal),
                Ok(None) => r == Err::<RoomStateEvent, _>(RoomsApplicationError::NotFound),
                Ok(Some(e)) => r == Ok::<_, RoomsApplicationError>(e),
            },
    {
        match found {
            Err(_) => Err(RoomsApplicationError::Internal),
            Ok(None) => Err(RoomsApplicationError::NotFound),
            Ok(Some(e)) => Ok(e),
        }
    }
}

/// The query of a member listing.
#[derive(Debug)]
pub struct GetRoomMembersQuery {
    pub at_token: Option<String>,
    pub membership: Option<String>,
    pub not_membership: Option<String>,
}

/// A member listing request.
#[derive(Debug)]
pub struct GetRoomMembersCommand {
    pub at_token: Option<String>,
    pub membership: Option<RoomMembershipFilter>,
    pub not_membership: Option<RoomMembershipFilter>,
}

/// The filter a query names, if any; an unknown name is refused.
pub open spec fn membership_filter_of(value: Option<String>) -> Result<
    Option<RoomMembershipFilter>,
    RoomsApplicationError,
> {
    match value {
        None => Ok(None),
        Some(v) => match membership_filter_named(v@) {
            Some(f) => Ok(Some(f)),
            None => Err(RoomsApplicationError::InvalidParameter),
        },
    }
}

fn parse_membership_filter(value: Option<&str>) -> (r: Result<
    Option<RoomMembershipFilter>,
    RoomsApplicationError,
>)
    ensures
        match value {
            None => r == Ok::<Option<RoomMembershipFilter>, RoomsApplicationError>(None),
            Some(v) => match membership_filter_named(v@) {
                Some(f) => r == Ok::<Option<RoomMembershipFilter>, RoomsApplicationError>(Some(f)),
                None => r == Err::<Option<RoomMembershipFilter>, _>(
                    RoomsApplicationError::InvalidParameter,
                ),
            },
        },
{
    match value {
        None => Ok(None),
        Some(v) => match RoomMembershipFilter::parse(v) {
            Some(f) => Ok(Some(f)),
            None => Err(RoomsApplicationError::InvalidParameter),
        },
    }
}

impl GetRoomMembersCommand {
    pub fn try_from_query(value: GetRoomMembersQuery) -> (r: Result<
        GetRoomMembersCommand,
        RoomsApplicationError,
    >)
        ensures
            match (membership_filter_of(value.membership), membership_filter_of(value.not_membership)) {
                (Ok(m), Ok(n)) => r matches Ok(c) && c.membership == m && c.not_membership == n
                    && c.at_token == value.at_token,
                (Err(e), _) => r == Err::<GetRoomMembersCommand, _>(e),
                (Ok(_), Err(e)) => r == Err::<GetRoomMembersCommand, _>(e),
            },
    {
        let membership = match parse_membership_filter(
            match &value.membership {
                Some(m) => Some(m.as_str()),
                None => None,
            },
        ) {
            Ok(m) => m,
            Err(e) => return Err(e),
        };
        let not_membership = match parse_membership_filter(
            match &value.not_membership {
                Some(m) => Some(m.as_str()),
                None => None,
            },
        ) {
            Ok(m) => m,
            Err(e) => return Err(e),
        };
        Ok(GetRoomMembersCommand { at_token: value.at_token, membership, not_membership })
    }
}

/// Fetching one timeline event.
pub struct GetRoomEventUseCase {
    pub room_id: String,
    pub user_id: String,
}

/// What the visibility of a fetched event is decided from, besides the
/// event: the user's membership and the room's history visibility at the
/// event, whether the user joined since, and, read only for a history
/// visibility event or the user's own membership event, the values before
/// the event.
pub open spec fn room_event_visibility_input<'a>(
    event_type: &'a str,
    event_state_key: Option<&'a str>,
    user_id: &'a str,
    history_visibility_at_event: Option<&'a str>,
    history_visibility_before_event: Option<&'a str>,
    history_visibility_after_event: Option<&'a str>,
    membership_at_event: Option<&'a str>,
    membership_before_event: Option<&'a str>,
    membership_after_event: Option<&'a str>,
    user_joined_since_event: bool,
) -> EventVisibilityEvaluationInput<'a> {
    EventVisibilityEvaluationInput {
        event_type,
        event_state_key,
        requesting_user_id: user_id,
        history_visibility_at_event,
        history_visibility_before_event,
        history_visibility_after_event,
        membership_at_event,
        membership_before_event,
        membership_after_event,
        user_joined_since_event,
    }
}

/// Whether a timeline event is a `m.room.history_visibility` event with
/// the empty state key.
pub open spec fn is_history_visibility_change(event: RoomTimelineEvent) -> bool {
    event.event_type@ == "m.room.history_visibility"@ && (event.state_key matches Some(k) && k@
        == ""@)
}

/// Whether a timeline event is the user's own membership event.
pub open spec fn is_own_membership_change(event: RoomTimelineEvent, user_id: Seq<char>) -> bool {
    event.event_type@ == "m.room.member"@ && (event.state_key matches Some(k) && k@ == user_id)
}

impl GetRoomEventUseCase {
    pub fn new(room_id: String, user_id: String) -> (r: Self)
        ensures
            r.room_id == room_id,
            r.user_id == user_id,
    {
        GetRoomEventUseCase { room_id, user_id }
    }

    /// The event fetched, or not found; a failed lookup is an internal error.
    pub fn require_event(&self, found: Result<Option<RoomTimelineEvent>, DomainError>) -> (r: Result<
        RoomTimelineEvent,
        RoomsApplicationError,
    >)
        ensures
            match found {
                Err(_) => r == Err::<RoomTimelineEvent, _>(RoomsApplicationError::Internal),
                Ok(None) => r == Err::<RoomTimelineEvent, _>(RoomsApplicationError::NotFound),
                Ok(Some(e)) => r == Ok::<_, RoomsApplicationError>(e),
            },
    {
        match found {
            Err(_) => Err(RoomsApplicationError::Internal),
            Ok(None) => Err(RoomsApplicationError::NotFound),
            Ok(Some(e)) => Ok(e),
        }
    }

    /// Whether the history visibility before the event must be looked up.
    pub fn needs_history_visibility_before(&self, event: &RoomTimelineEvent) -> (r: bool)
        ensures
            r == is_history_visibility_change(*event),
    {
        str_eq(event.event_type.as_str(), "m.room.history_visibility") && match &event.state_key {
            Some(k) => str_eq(k.as_str(), ""),
            None => false,
        }
    }

    /// Whether the user's membership before the event must be looked up.
    pub fn needs_membership_before(&self, event: &RoomTimelineEvent) -> (r: bool)
        ensures
            r == is_own_membership_change(*event, self.user_id@),
    {
        str_eq(event.event_type.as_str(), "m.room.member") && match &event.state_key {
            Some(k) => str_eq(k.as_str(), self.user_id.as_str()),
            None => false,
        }
    }

    /// Gives the event back when the user may see it. For a history
    /// visibility change, the setting after it is the one the event sets,
    /// else the one at the event; for the user's own membership change, the
    /// membership after it likewise.
    pub fn execute(
        &self,
        event: RoomTimelineEvent,
        membership_at_event: Option<String>,
        user_joined_since_event: bool,
        history_visibility_at_event: Option<String>,
        history_visibility_before_event: Option<String>,
        membership_before_event: Option<String>,
    ) -> (r: Result<RoomTimelineEvent, RoomsApplicationError>)
        ensures
            ({
                let hv_change = is_history_visibility_change(event);
                let own_change = is_own_membership_change(event, self.user_id@);
                let hv_after: Option<Seq<char>> = if hv_change {
                    match string_field(Some(event.content@), "history_visibility"@) {
                        Some(v) => Some(v),
                        None => crate::room_queries::opt_string_view(history_visibility_at_event),
                    }
                } else {
                    None
                };
                let membership_after: Option<Seq<char>> = if own_change {
                    match string_field(Some(event.content@), "membership"@) {
                        Some(v) => Some(v),
                        None => crate::room_queries::opt_string_view(membership_at_event),
                    }
                } else {
                    None
                };
                let visible = crate::history_visibility::visibility_of(
                    event.event_type@,
                    crate::room_queries::opt_string_view(event.state_key),
                    self.user_id@,
                    crate::room_queries::opt_string_view(history_visibility_at_event),
                    if hv_change {
                        crate::room_queries::opt_string_view(history_visibility_before_event)
                    } else {
                        None
                    },
                    hv_after,
                    crate::room_queries::opt_string_view(membership_at_event),
                    if own_change {
                        crate::room_queries::opt_string_view(membership_before_event)
                    } else {
                        None
                    },
                    membership_after,
                    user_joined_since_event,
                );
                if visible {
                    r == Ok::<_, RoomsApplicationError>(event)
                } else {
                    r == Err::<RoomTimelineEvent, _>(RoomsApplicationError::Forbidden)
                }
            }),
    {
        let hv_change = self.needs_history_visibility_before(&event);
        let own_change = self.needs_membership_before(&event);
        let hv_after: Option<String> = if hv_change {
            match history_visibility_from_timeline_event(&event) {
                Some(v) => Some(v),
                None => match &history_visibility_at_event {
                    Some(v) => Some(v.clone()),
                    None => None,
                },
            }
        } else {
            None
        };
        let membership_after: Option<String> = if own_change {
            match room_membership_from_timeline_event(&event) {
                Some(v) => Some(v),
                None => match &membership_at_event {
                    Some(v) => Some(v.clone()),
                    None => None,
                },
            }
        } else {
            None
        };
        let hv_before: Option<&str> = if hv_change {
            match &history_visibility_before_event {
                Some(v) => Some(v.as_str()),
                None => None,
            }
        } else {
            None
        };
        let membership_before: Option<&str> = if own_change {
            match &membership_before_event {
                Some(v) => Some(v.as_str()),
                None => None,
            }
        } else {
            None
        };
        let input = EventVisibilityEvaluationInput {
            event_type: event.event_type.as_str(),
            event_state_key: match &event.state_key {
                Some(k) => Some(k.as_str()),
                None => None,
            },
            requesting_user_id: self.user_id.as_str(),
            history_visibility_at_event: match &history_visibility_at_event {
                Some(v) => Some(v.as_str()),
                None => None,
            },
            history_visibility_before_event: hv_before,
            history_visibility_after_event: match &hv_after {
                Some(v) => Some(v.as_str()),
                None => None,
            },
            membership_at_event: match &membership_at_event {
                Some(v) => Some(v.as_str()),
                None => None,
            },
            membership_before_event: membership_before,
            membership_after_event: match &membership_after {
                Some(v) => Some(v.as_str()),
                None => None,
            },
            user_joined_since_event,
        };
        let visible = evaluate_event_visibility(&input);
        if visible {
            Ok(event)
        } else {
            Err(RoomsApplicationError::Forbidden)
        }
    }
}

/// The name of a receipt type reads back as that type.
pub proof fn lemma_receipt_type_name_round_trip(t: RoomReceiptType)
    ensures
        receipt_type_named(receipt_type_name(t)) == Some(t),
{
    reveal_strlit("m.read");
    reveal_strlit("m.read.private");
    reveal_strlit("m.fully_read");
    assert("m.read"@.len() == 6);
    assert("m.read.private"@.len() == 14);
    assert("m.fully_read"@.len() == 12);
}

} // verus!
