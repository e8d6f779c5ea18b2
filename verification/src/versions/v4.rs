use vstd::prelude::*;

use super::{CreatorPowerLevels, EventIdentifierFormat, RoomIdentifierFormat, RoomVersion, RoomVersionMarker, RoomVersionRules, rules_match_version};

verus! {

/// Marks room version 4.
#[derive(Clone, Copy, Debug, PartialEq, Eq)]
pub struct Version4;

impl RoomVersionMarker for Version4 {
    open spec fn spec_version() -> RoomVersion {
        RoomVersion::V4
    }

    fn version() -> (r: RoomVersion) {
        RoomVersion::V4
    }
}

/// The rule set of room version 4.
pub fn rules() -> (r: RoomVersionRules)
    ensures
        rules_match_version(r, RoomVersion::V4),
{
    RoomVersionRules {
        version: RoomVersion::V4,
        description: "Event IDs use the URL-safe base64 alphabet.",
        event_identifier_format: EventIdentifierFormat::ReferenceHashUrlSafeBase64,
        room_identifier_format: RoomIdentifierFormat::LocalPartWithDomain,
        creator_power_levels: CreatorPowerLevels::DefaultLevel100ForCreator,
        supports_knocking: false,
        supports_restricted_join_rules: false,
        supports_knock_restricted_join_rule: false,
        supports_additional_room_creators: false,
        power_levels_must_be_integer_values: false,
    }
}

} // verus!
