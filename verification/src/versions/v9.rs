use vstd::prelude::*;

use super::{CreatorPowerLevels, EventIdentifierFormat, RoomIdentifierFormat, RoomVersion, RoomVersionMarker, RoomVersionRules, SupportsKnocking, SupportsRestrictedJoinRules, rules_match_version};

verus! {

/// Marks room version 9.
#[derive(Clone, Copy, Debug, PartialEq, Eq)]
pub struct Version9;

impl RoomVersionMarker for Version9 {
    open spec fn spec_version() -> RoomVersion {
        RoomVersion::V9
    }

    fn version() -> (r: RoomVersion) {
        RoomVersion::V9
    }
}

impl SupportsKnocking for Version9 {}

impl SupportsRestrictedJoinRules for Version9 {}

/// The rule set of room version 9.
pub fn rules() -> (r: RoomVersionRules)
    ensures
        rules_match_version(r, RoomVersion::V9),
{
    RoomVersionRules {
        version: RoomVersion::V9,
        description: "Builds on v8 and fixes membership redaction edge cases.",
        event_identifier_format: EventIdentifierFormat::ReferenceHashUrlSafeBase64,
        room_identifier_format: RoomIdentifierFormat::LocalPartWithDomain,
        creator_power_levels: CreatorPowerLevels::DefaultLevel100ForCreator,
        supports_knocking: true,
        supports_restricted_join_rules: true,
        supports_knock_restricted_join_rule: false,
        supports_additional_room_creators: false,
        power_levels_must_be_integer_values: false,
    }
}

} // verus!
