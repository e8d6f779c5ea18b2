use vstd::prelude::*;

use super::{CreatorPowerLevels, EventIdentifierFormat, RoomIdentifierFormat, RoomVersion, RoomVersionMarker, RoomVersionRules, SupportsKnocking, rules_match_version};

verus! {

/// Marks room version 7.
#[derive(Clone, Copy, Debug, PartialEq, Eq)]
pub struct Version7;

impl RoomVersionMarker for Version7 {
    open spec fn spec_version() -> RoomVersion {
        RoomVersion::V7
    }

    fn version() -> (r: RoomVersion) {
        RoomVersion::V7
    }
}

impl SupportsKnocking for Version7 {}

/// The rule set of room version 7.
pub fn rules() -> (r: RoomVersionRules)
    ensures
        rules_match_version(r, RoomVersion::V7),
{
    RoomVersionRules {
        version: RoomVersion::V7,
        description: "Adds knocking.",
        event_identifier_format: EventIdentifierFormat::ReferenceHashUrlSafeBase64,
        room_identifier_format: RoomIdentifierFormat::LocalPartWithDomain,
        creator_power_levels: CreatorPowerLevels::DefaultLevel100ForCreator,
        supports_knocking: true,
        supports_restricted_join_rules: false,
        supports_knock_restricted_join_rule: false,
        supports_additional_room_creators: false,
        power_levels_must_be_integer_values: false,
    }
}

} // verus!
