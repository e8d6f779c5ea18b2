use vstd::prelude::*;

use super::{CreatorPowerLevels, EventIdentifierFormat, RoomIdentifierFormat, RoomVersion, RoomVersionMarker, RoomVersionRules, RoomVersionRulesContract, rules_match_version};

verus! {

/// Marks room version 1.
#[derive(Clone, Copy, Debug, PartialEq, Eq)]
pub struct Version1;

impl RoomVersionMarker for Version1 {
    open spec fn spec_version() -> RoomVersion {
        RoomVersion::V1
    }

    fn version() -> (r: RoomVersion) {
        RoomVersion::V1
    }
}

/// The rule set of room version 1.
pub type RoomVersionRulesV1 = RoomVersionRules;

impl RoomVersionRulesContract for RoomVersionRulesV1 {
    fn rules() -> (r: RoomVersionRules)
        ensures
            rules_match_version(r, RoomVersion::V1),
    {
        RoomVersionRules {
        version: RoomVersion::V1,
        description: "Initial room version.",
        event_identifier_format: EventIdentifierFormat::ServerAssignedWithDomain,
        room_identifier_format: RoomIdentifierFormat::LocalPartWithDomain,
        creator_power_levels: CreatorPowerLevels::DefaultLevel100ForCreator,
        supports_knocking: false,
        supports_restricted_join_rules: false,
        supports_knock_restricted_join_rule: false,
        supports_additional_room_creators: false,
        power_levels_must_be_integer_values: false,
    }
    }
}

} // verus!
