//! Whether a user may see a room event, given the room's history visibility
//! and the user's membership around that event.
use vstd::prelude::*;

use crate::text::str_eq;

verus! {

/// The text of an optional string.
pub open spec fn opt_str_view(o: Option<&str>) -> Option<Seq<char>> {
    match o {
        Some(s) => Some(s@),
        None => None,
    }
}

/// Decides whether `o` holds exactly `lit`.
pub fn option_str_is(o: Option<&str>, lit: &str) -> (r: bool)
    ensures
        r == (opt_str_view(o) == Some(lit@)),
{
    match o {
        Some(s) => str_eq(s, lit),
        None => false,
    }
}

/// What the visibility of one event depends on.
pub struct EventVisibilityEvaluationInput<'a> {
    pub event_type: &'a str,
    pub event_state_key: Option<&'a str>,
    pub requesting_user_id: &'a str,
    pub history_visibility_at_event: Option<&'a str>,
    pub history_visibility_before_event: Option<&'a str>,
    pub history_visibility_after_event: Option<&'a str>,
    pub membership_at_event: Option<&'a str>,
    pub membership_before_event: Option<&'a str>,
    pub membership_after_event: Option<&'a str>,
    pub user_joined_since_event: bool,
}

/// The `history_visibility` settings of a room.
#[derive(Clone, Copy, Debug, PartialEq, Eq, Structural)]
pub enum RoomHistoryVisibility {
    WorldReadable,
    Shared,
    Invited,
    Joined,
}

/// The setting that a stored value names; a missing or unknown value means `shared`.
pub open spec fn spec_parse_history_visibility(value: Option<Seq<char>>) -> RoomHistoryVisibility {
    if value == Some("world_readable"@) {
        RoomHistoryVisibility::WorldReadable
    } else if value == Some("invited"@) {
        RoomHistoryVisibility::Invited
    } else if value == Some("joined"@) {
        RoomHistoryVisibility::Joined
    } else {
        RoomHistoryVisibility::Shared
    }
}

/// The general rule: world-readable history is open to all, a joined member sees
/// everything, shared history is open to one who joined later, and invited
/// history is open to an invited user.
pub open spec fn general_visibility(
    history_visibility: RoomHistoryVisibility,
    membership: Option<Seq<char>>,
    user_joined_since_event: bool,
) -> bool {
    ||| history_visibility == RoomHistoryVisibility::WorldReadable
    ||| membership == Some("join"@)
    ||| (history_visibility == RoomHistoryVisibility::Shared && user_joined_since_event)
    ||| (membership == Some("invite"@) && history_visibility == RoomHistoryVisibility::Invited)
}

/// An `m.room.history_visibility` state event with the empty state key.
pub open spec fn is_history_visibility_event(input: EventVisibilityEvaluationInput) -> bool {
    input.event_type@ == "m.room.history_visibility"@ && opt_str_view(input.event_state_key) == Some(
        ""@,
    )
}

/// An `m.room.member` event about the requesting user.
pub open spec fn is_own_membership_event(input: EventVisibilityEvaluationInput) -> bool {
    input.event_type@ == "m.room.member"@ && opt_str_view(input.event_state_key) == Some(
        input.requesting_user_id@,
    )
}

/// Whether an event is visible, from what it depends on: the event's type
/// and state key, the requesting user, the history visibility at, before
/// and after the event, the user's membership at, before and after it, and
/// whether the user joined since.
pub open spec fn visibility_of(
    event_type: Seq<char>,
    event_state_key: Option<Seq<char>>,
    requesting_user_id: Seq<char>,
    history_visibility_at_event: Option<Seq<char>>,
    history_visibility_before_event: Option<Seq<char>>,
    history_visibility_after_event: Option<Seq<char>>,
    membership_at_event: Option<Seq<char>>,
    membership_before_event: Option<Seq<char>>,
    membership_after_event: Option<Seq<char>>,
    user_joined_since_event: bool,
) -> bool {
    let at = spec_parse_history_visibility(history_visibility_at_event);
    let general = general_visibility(at, membership_at_event, user_joined_since_event);
    let base = if event_type == "m.room.history_visibility"@ && event_state_key == Some(""@) {
        let after_value = match history_visibility_after_event {
            Some(v) => Some(v),
            None => history_visibility_at_event,
        };
        general_visibility(
            spec_parse_history_visibility(history_visibility_before_event),
            membership_at_event,
            user_joined_since_event,
        ) || general_visibility(
            spec_parse_history_visibility(after_value),
            membership_at_event,
            user_joined_since_event,
        )
    } else {
        general
    };
    if event_type == "m.room.member"@ && event_state_key == Some(requesting_user_id) {
        let membership_after = match membership_after_event {
            Some(v) => Some(v),
            None => membership_at_event,
        };
        base || general_visibility(at, membership_before_event, user_joined_since_event)
            || general_visibility(at, membership_after, user_joined_since_event)
    } else {
        base
    }
}

/// What `evaluate_event_visibility` decides.
pub open spec fn event_visibility(input: EventVisibilityEvaluationInput) -> bool {
    visibility_of(
        input.event_type@,
        opt_str_view(input.event_state_key),
        input.requesting_user_id@,
        opt_str_view(input.history_visibility_at_event),
        opt_str_view(input.history_visibility_before_event),
        opt_str_view(input.history_visibility_after_event),
        opt_str_view(input.membership_at_event),
        opt_str_view(input.membership_before_event),
        opt_str_view(input.membership_after_event),
        input.user_joined_since_event,
    )
}

pub fn parse_room_history_visibility(value: Option<&str>) -> (r: RoomHistoryVisibility)
    ensures
        r == spec_parse_history_visibility(opt_str_view(value)),
{
    if option_str_is(value, "world_readable") {
        RoomHistoryVisibility::WorldReadable
    } else if option_str_is(value, "invited") {
        RoomHistoryVisibility::Invited
    } else if option_str_is(value, "joined") {
        RoomHistoryVisibility::Joined
    } else {
        RoomHistoryVisibility::Shared
    }
}

pub fn evaluate_general_event_visibility(
    history_visibility: RoomHistoryVisibility,
    membership: Option<&str>,
    user_joined_since_event: bool,
) -> (r: bool)
    ensures
        r == general_visibility(history_visibility, opt_str_view(membership), user_joined_since_event),
{
    if history_visibility == RoomHistoryVisibility::WorldReadable {
        return true;
    }
    if option_str_is(membership, "join") {
        return true;
    }
    if history_visibility == RoomHistoryVisibility::Shared && user_joined_since_event {
        return true;
    }
    option_str_is(membership, "invite") && history_visibility == RoomHistoryVisibility::Invited
}

/// Decides whether the requesting user may see the event.
pub fn evaluate_event_visibility(input: &EventVisibilityEvaluationInput) -> (r: bool)
    ensures
        r == event_visibility(*input),
{
    let history_visibility_at_event = parse_room_history_visibility(
        input.history_visibility_at_event,
    );
    let mut visible = evaluate_general_event_visibility(
        history_visibility_at_event,
        input.membership_at_event,
        input.user_joined_since_event,
    );

    if str_eq(input.event_type, "m.room.history_visibility") && option_str_is(
        input.event_state_key,
        "",
    ) {
        let visible_before = evaluate_general_event_visibility(
            parse_room_history_visibility(input.history_visibility_before_event),
            input.membership_at_event,
            input.user_joined_since_event,
        );
        let after = match input.history_visibility_after_event {
            Some(v) => Some(v),
            None => input.history_visibility_at_event,
        };
        let visible_after = evaluate_general_event_visibility(
            parse_room_history_visibility(after),
            input.membership_at_event,
            input.user_joined_since_event,
        );
        visible = visible_before || visible_after;
    }

    if str_eq(input.event_type, "m.room.member") && option_str_is(
        input.event_state_key,
        input.requesting_user_id,
    ) {
        let visible_before = evaluate_general_event_visibility(
            history_visibility_at_event,
            input.membership_before_event,
            input.user_joined_since_event,
        );
        let membership_after = match input.membership_after_event {
            Some(v) => Some(v),
            None => input.membership_at_event,
        };
        let visible_after = evaluate_general_event_visibility(
            history_visibility_at_event,
            membership_after,
            input.user_joined_since_event,
        );
        visible = visible || visible_before || visible_after;
    }

    visible
}

/// A user who was joined when an event was sent may see it, whatever the
/// event and whatever the room's history visibility.
pub proof fn lemma_joined_member_sees_event(input: EventVisibilityEvaluationInput)
    requires
        opt_str_view(input.membership_at_event) == Some("join"@),
    ensures
        event_visibility(input),
{
}

/// An event sent while the history was world-readable is visible to every user,
/// whatever their membership.
pub proof fn lemma_world_readable_event_visible(input: EventVisibilityEvaluationInput)
    requires
        opt_str_view(input.history_visibility_at_event) == Some("world_readable"@),
        !is_history_visibility_event(input),
    ensures
        event_visibility(input),
{
}

/// A change of history visibility is visible to a user who could see events
/// under the setting before it or under the setting it introduces.
pub proof fn lemma_history_visibility_change_visible_under_either_setting(
    input: EventVisibilityEvaluationInput,
)
    requires
        is_history_visibility_event(input),
        input.history_visibility_after_event is Some,
    ensures
        event_visibility(input) <== general_visibility(
            spec_parse_history_visibility(opt_str_view(input.history_visibility_before_event)),
            opt_str_view(input.membership_at_event),
            input.user_joined_since_event,
        ) || general_visibility(
            spec_parse_history_visibility(opt_str_view(input.history_visibility_after_event)),
            opt_str_view(input.membership_at_event),
            input.user_joined_since_event,
        ),
{
}

/// Under `joined` history, an event that is neither a history visibility change
/// nor about the user stays hidden from a user who was not joined when it was sent.
pub proof fn lemma_joined_history_hides_event_from_non_member(input: EventVisibilityEvaluationInput)
    requires
        opt_str_view(input.history_visibility_at_event) == Some("joined"@),
        opt_str_view(input.membership_at_event) != Some("join"@),
        !is_history_visibility_event(input),
        !is_own_membership_event(input),
    ensures
        !event_visibility(input),
{
    reveal_strlit("joined");
    reveal_strlit("world_readable");
    reveal_strlit("invited");
    assert("joined"@.len() == 6);
    assert("world_readable"@.len() == 14);
    assert("invited"@.len() == 7);
    assert(spec_parse_history_visibility(opt_str_view(input.history_visibility_at_event))
        == RoomHistoryVisibility::Joined);
}

/// Under `shared` history (the setting a room without one has), an event
/// that is neither a history visibility change nor about the user stays
/// hidden from a user who was neither joined nor invited when it was sent
/// and has not joined since.
pub proof fn lemma_shared_history_hides_event_from_outsider(input: EventVisibilityEvaluationInput)
    requires
        opt_str_view(input.history_visibility_at_event) == Some("shared"@)
            || input.history_visibility_at_event is None,
        opt_str_view(input.membership_at_event) != Some("join"@),
        opt_str_view(input.membership_at_event) != Some("invite"@),
        !input.user_joined_since_event,
        !is_history_visibility_event(input),
        !is_own_membership_event(input),
    ensures
        !event_visibility(input),
{
    reveal_strlit("shared");
    reveal_strlit("world_readable");
    reveal_strlit("invited");
    reveal_strlit("joined");
    assert("shared"@.len() == 6);
    assert("joined"@.len() == 6);
    assert("shared"@[0] != "joined"@[0]);
    assert("world_readable"@.len() == 14);
    assert("invited"@.len() == 7);
    assert(spec_parse_history_visibility(opt_str_view(input.history_visibility_at_event))
        == RoomHistoryVisibility::Shared);
}

/// Under `shared` history, a user who has joined since an event may see it,
/// whatever their membership when it was sent (a change of the setting
/// itself goes by the settings around it instead).
pub proof fn lemma_shared_history_shows_event_to_later_joiner(input: EventVisibilityEvaluationInput)
    requires
        opt_str_view(input.history_visibility_at_event) == Some("shared"@)
            || input.history_visibility_at_event is None,
        input.user_joined_since_event,
        !is_history_visibility_event(input),
    ensures
        event_visibility(input),
{
    reveal_strlit("shared");
    reveal_strlit("world_readable");
    reveal_strlit("invited");
    reveal_strlit("joined");
    assert("shared"@.len() == 6);
    assert("joined"@.len() == 6);
    assert("shared"@[0] != "joined"@[0]);
    assert("world_readable"@.len() == 14);
    assert("invited"@.len() == 7);
    assert(spec_parse_history_visibility(opt_str_view(input.history_visibility_at_event))
        == RoomHistoryVisibility::Shared);
}

/// Outside world-readable history, a user who is neither joined nor invited,
/// and has not joined since, is refused by the general rule, whatever the
/// setting.
pub proof fn lemma_general_rule_refuses_outsider(
    history_visibility: RoomHistoryVisibility,
    membership: Option<Seq<char>>,
)
    requires
        history_visibility != RoomHistoryVisibility::WorldReadable,
        membership != Some("join"@),
        membership != Some("invite"@),
    ensures
        !general_visibility(history_visibility, membership, false),
{
}

/// Under `invited` history, a user who was invited when an event was sent
/// may see it; under `joined` history an invitation is not enough (for an
/// event that is neither a history visibility change nor about the user).
pub proof fn lemma_invited_history_shows_event_to_invitee(input: EventVisibilityEvaluationInput)
    requires
        opt_str_view(input.membership_at_event) == Some("invite"@),
        !is_history_visibility_event(input),
    ensures
        opt_str_view(input.history_visibility_at_event) == Some("invited"@) ==> event_visibility(
            input,
        ),
        opt_str_view(input.history_visibility_at_event) == Some("joined"@) && !input.user_joined_since_event
            && !is_own_membership_event(input) ==> !event_visibility(input),
{
    reveal_strlit("invite");
    reveal_strlit("join");
    reveal_strlit("world_readable");
    reveal_strlit("invited");
    reveal_strlit("joined");
    assert("invite"@.len() == 6 && "join"@.len() == 4);
    assert("joined"@.len() == 6 && "invited"@.len() == 7 && "world_readable"@.len() == 14);
}

} // verus!
