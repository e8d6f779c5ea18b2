use vstd::prelude::*;

use super::{CreatorPowerLevels, EventIdentifierFormat, RoomIdentifierFormat, RoomVersion, RoomVersionMarker, RoomVersionRules, SupportsKnocking, SupportsRestrictedJoinRules, rules_match_version};

verus! {

/// Marks room version 8.
#[derive(Clone, Copy, Debug, PartialEq, Eq)]
pub struct Version8;

impl RoomVersionMarker for Version8 {
    open spec fn spec_version() -> RoomVersion {
        RoomVersion::V8
    }

    fn version() -> (r: RoomVersion) {
        RoomVersion::V8
    }
}

impl SupportsKnocking for Version8 {}

impl SupportsRestrictedJoinRules for Version8 {}

/// The rule set of room version 8.
pub fn rules() -> (r: RoomVersionRules)
    ensures
        rules_match_version(r, RoomVersion::V8),
{
    RoomVersionRules {
        version: RoomVersion::V8,
        description: "Adds restricted join rules based on membership in another room.",
        event_identifier_format: EventIdentifierFormat::ReferenceHashUrlSafeBase64,
        room_identifier_format: RoomIdentifierFormat::LocalPartWithDomain,
        creator_power_levels: CreatorPowerLevels::DefaultLevel100ForCreator,
        supports_knocking: true,
        supports_restricted_join_rules: true,
        supports_knock_restricted_join_rule: false,
        supports_additional_room_creators: false,
        power_levels_must_be_integer_values: false,
    }
}

} // verus!
