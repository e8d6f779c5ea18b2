use vstd::prelude::*;

use super::{CreatorPowerLevels, EventIdentifierFormat, RoomIdentifierFormat, RoomVersion, RoomVersionMarker, RoomVersionRules, rules_match_version};

verus! {

/// Marks room version 2.
#[derive(Clone, Copy, Debug, PartialEq, Eq)]
pub struct Version2;

impl RoomVersionMarker for Version2 {
    open spec fn spec_version() -> RoomVersion {
        RoomVersion::V2
    }

    fn version() -> (r: RoomVersion) {
        RoomVersion::V2
    }
}

/// The rule set of room version 2.
pub fn rules() -> (r: RoomVersionRules)
    ensures
        rules_match_version(r, RoomVersion::V2),
{
    RoomVersionRules {
        version: RoomVersion::V2,
        description: "Implements State Resolution Version 2.",
        event_identifier_format: EventIdentifierFormat::ServerAssignedWithDomain,
        room_identifier_format: RoomIdentifierFormat::LocalPartWithDomain,
        creator_power_levels: CreatorPowerLevels::DefaultLevel100ForCreator,
        supports_knocking: false,
        supports_restricted_join_rules: false,
        supports_knock_restricted_join_rule: false,
        supports_additional_room_creators: false,
        power_levels_must_be_integer_values: false,
    }
}

} // verus!
