use vstd::prelude::*;

use super::{CreatorPowerLevels, EventIdentifierFormat, RoomIdentifierFormat, RoomVersion, RoomVersionMarker, RoomVersionRules, rules_match_version};

verus! {

/// Marks room version 3.
#[derive(Clone, Copy, Debug, PartialEq, Eq)]
pub struct Version3;

impl RoomVersionMarker for Version3 {
    open spec fn spec_version() -> RoomVersion {
        RoomVersion::V3
    }

    fn version() -> (r: RoomVersion) {
        RoomVersion::V3
    }
}

/// The rule set of room version 3.
pub fn rules() -> (r: RoomVersionRules)
    ensures
        rules_match_version(r, RoomVersion::V3),
{
    RoomVersionRules {
        version: RoomVersion::V3,
        description: "Event IDs are reference hashes encoded in unpadded base64.",
        event_identifier_format: EventIdentifierFormat::ReferenceHashUnpaddedBase64,
        room_identifier_format: RoomIdentifierFormat::LocalPartWithDomain,
        creator_power_levels: CreatorPowerLevels::DefaultLevel100ForCreator,
        supports_knocking: false,
        supports_restricted_join_rules: false,
        supports_knock_restricted_join_rule: false,
        supports_additional_room_creators: false,
        power_levels_must_be_integer_values: false,
    }
}

} // verus!
