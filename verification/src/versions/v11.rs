use vstd::prelude::*;

use super::{CreatorPowerLevels, EventIdentifierFormat, RoomIdentifierFormat, RoomVersion, RoomVersionMarker, RoomVersionRules, SupportsKnocking, SupportsRestrictedJoinRules, SupportsKnockRestrictedJoinRule, rules_match_version};

verus! {

/// Marks room version 11.
#[derive(Clone, Copy, Debug, PartialEq, Eq)]
pub struct Version11;

impl RoomVersionMarker for Version11 {
    open spec fn spec_version() -> RoomVersion {
        RoomVersion::V11
    }

    fn version() -> (r: RoomVersion) {
        RoomVersion::V11
    }
}

impl SupportsKnocking for Version11 {}

impl SupportsRestrictedJoinRules for Version11 {}

impl SupportsKnockRestrictedJoinRule for Version11 {}

/// The rule set of room version 11.
pub fn rules() -> (r: RoomVersionRules)
    ensures
        rules_match_version(r, RoomVersion::V11),
{
    RoomVersionRules {
        version: RoomVersion::V11,
        description: "Clarifies redaction algorithm behavior.",
        event_identifier_format: EventIdentifierFormat::ReferenceHashUrlSafeBase64,
        room_identifier_format: RoomIdentifierFormat::LocalPartWithDomain,
        creator_power_levels: CreatorPowerLevels::DefaultLevel100ForCreator,
        supports_knocking: true,
        supports_restricted_join_rules: true,
        supports_knock_restricted_join_rule: true,
        supports_additional_room_creators: false,
        power_levels_must_be_integer_values: true,
    }
}

} // verus!
