use gridstack::history_visibility::{evaluate_event_visibility, EventVisibilityEvaluationInput};

#[test]
fn history_visibility_event_visible_when_previous_policy_allows() {
    let input = EventVisibilityEvaluationInput {
        event_type: "m.room.history_visibility",
        event_state_key: Some(""),
        requesting_user_id: "@alice:example.org",
        history_visibility_at_event: Some("joined"),
        history_visibility_before_event: Some("world_readable"),
        history_visibility_after_event: Some("joined"),
        membership_at_event: Some("leave"),
        membership_before_event: None,
        membership_after_event: None,
        user_joined_since_event: false,
    };

    assert!(evaluate_event_visibility(&input));
}

#[test]
fn history_visibility_event_visible_when_new_policy_allows() {
    let input = EventVisibilityEvaluationInput {
        event_type: "m.room.history_visibility",
        event_state_key: Some(""),
        requesting_user_id: "@alice:example.org",
        history_visibility_at_event: Some("joined"),
        history_visibility_before_event: Some("joined"),
        history_visibility_after_event: Some("world_readable"),
        membership_at_event: Some("leave"),
        membership_before_event: None,
        membership_after_event: None,
        user_joined_since_event: false,
    };

    assert!(evaluate_event_visibility(&input));
}

#[test]
fn own_membership_event_visible_when_previous_membership_allowed() {
    let input = EventVisibilityEvaluationInput {
        event_type: "m.room.member",
        event_state_key: Some("@alice:example.org"),
        requesting_user_id: "@alice:example.org",
        history_visibility_at_event: Some("joined"),
        history_visibility_before_event: None,
        history_visibility_after_event: None,
        membership_at_event: Some("leave"),
        membership_before_event: Some("join"),
        membership_after_event: Some("leave"),
        user_joined_since_event: false,
    };

    assert!(evaluate_event_visibility(&input));
}

#[test]
fn own_membership_event_visible_when_invited_under_invited_policy() {
    let input = EventVisibilityEvaluationInput {
        event_type: "m.room.member",
        event_state_key: Some("@alice:example.org"),
        requesting_user_id: "@alice:example.org",
        history_visibility_at_event: Some("invited"),
        history_visibility_before_event: None,
        history_visibility_after_event: None,
        membership_at_event: Some("leave"),
        membership_before_event: Some("invite"),
        membership_after_event: Some("leave"),
        user_joined_since_event: false,
    };

    assert!(evaluate_event_visibility(&input));
}

#[test]
fn denies_unrelated_event_when_policy_does_not_allow() {
    let input = EventVisibilityEvaluationInput {
        event_type: "m.room.message",
        event_state_key: None,
        requesting_user_id: "@alice:example.org",
        history_visibility_at_event: Some("joined"),
        history_visibility_before_event: None,
        history_visibility_after_event: None,
        membership_at_event: Some("leave"),
        membership_before_event: None,
        membership_after_event: None,
        user_joined_since_event: false,
    };

    assert!(!evaluate_event_visibility(&input));
}

#[test]
fn shared_policy_allows_after_later_join() {
    let input = EventVisibilityEvaluationInput {
        event_type: "m.room.message",
        event_state_key: None,
        requesting_user_id: "@alice:example.org",
        history_visibility_at_event: Some("shared"),
        history_visibility_before_event: None,
        history_visibility_after_event: None,
        membership_at_event: Some("leave"),
        membership_before_event: None,
        membership_after_event: None,
        user_joined_since_event: true,
    };

    assert!(evaluate_event_visibility(&input));
}

#[test]
fn joined_member_sees_any_event() {
    let input = EventVisibilityEvaluationInput {
        event_type: "m.room.message",
        event_state_key: None,
        requesting_user_id: "@alice:example.org",
        history_visibility_at_event: Some("joined"),
        history_visibility_before_event: None,
        history_visibility_after_event: None,
        membership_at_event: Some("join"),
        membership_before_event: None,
        membership_after_event: None,
        user_joined_since_event: false,
    };
    assert!(evaluate_event_visibility(&input));
}

#[test]
fn world_readable_event_visible_to_outsider() {
    let input = EventVisibilityEvaluationInput {
        event_type: "m.room.message",
        event_state_key: None,
        requesting_user_id: "@bob:example.org",
        history_visibility_at_event: Some("world_readable"),
        history_visibility_before_event: None,
        history_visibility_after_event: None,
        membership_at_event: None,
        membership_before_event: None,
        membership_after_event: None,
        user_joined_since_event: false,
    };
    assert!(evaluate_event_visibility(&input));
}

#[test]
fn missing_history_visibility_is_shared() {
    let input = EventVisibilityEvaluationInput {
        event_type: "m.room.message",
        event_state_key: None,
        requesting_user_id: "@bob:example.org",
        history_visibility_at_event: None,
        history_visibility_before_event: None,
        history_visibility_after_event: None,
        membership_at_event: None,
        membership_before_event: None,
        membership_after_event: None,
        user_joined_since_event: true,
    };
    assert!(evaluate_event_visibility(&input));
}

#[test]
fn invited_history_hidden_from_left_user() {
    let input = EventVisibilityEvaluationInput {
        event_type: "m.room.message",
        event_state_key: None,
        requesting_user_id: "@bob:example.org",
        history_visibility_at_event: Some("invited"),
        history_visibility_before_event: None,
        history_visibility_after_event: None,
        membership_at_event: Some("leave"),
        membership_before_event: None,
        membership_after_event: None,
        user_joined_since_event: true,
    };
    assert!(!evaluate_event_visibility(&input));
}
