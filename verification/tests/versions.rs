use gridstack::versions::{
    EventIdentifierFormat, RoomBusinessMethod, RoomBusinessMethodImplementation,
    RoomMethodExecutionProvider, RoomVersion, RoomVersionBusinessRules,
};

#[test]
fn supported_versions_follow_manual_allowlist() {
    let expected_supported_versions = RoomVersion::supported_allowlist();
    let actual_supported_versions = RoomVersion::supported_versions();

    assert_eq!(actual_supported_versions, expected_supported_versions);
    assert_eq!(actual_supported_versions, vec![RoomVersion::V1]);
}

#[test]
fn version_numbers_and_names() {
    assert_eq!(RoomVersion::V1.as_number(), 1);
    assert_eq!(RoomVersion::V12.as_number(), 12);
    assert_eq!(RoomVersion::V10.as_str(), "10");
    assert_eq!(RoomVersion::parse("11"), Some(RoomVersion::V11));
    assert_eq!(RoomVersion::parse("13"), None);
    assert!(RoomVersion::V11.requires_creator_field());
    assert!(!RoomVersion::V12.requires_creator_field());
    assert!(RoomVersion::V12.supports_additional_creators());
    assert!(!RoomVersion::V11.supports_additional_creators());
}

#[test]
fn rules_follow_capability_matrix() {
    let v1 = RoomVersion::V1.rules();
    assert_eq!(v1.event_identifier_format, EventIdentifierFormat::ServerAssignedWithDomain);
    assert!(!v1.supports_knocking);
    let v7 = RoomVersion::V7.rules();
    assert!(v7.supports_knocking);
    assert!(!v7.supports_restricted_join_rules);
    let v10 = RoomVersion::V10.rules();
    assert!(v10.supports_knock_restricted_join_rule);
    assert!(v10.power_levels_must_be_integer_values);
    let v12 = RoomVersion::V12.rules();
    assert!(v12.supports_additional_room_creators);
    assert_eq!(v12.version, RoomVersion::V12);
}

#[test]
fn business_rules_by_version() {
    let v1 = RoomVersionBusinessRules::new(RoomVersion::V1);
    assert_eq!(v1.implementation_for(RoomBusinessMethod::StateResolutionV2), None);
    assert_eq!(
        v1.execution_provider_for(RoomBusinessMethod::PersistentDataUnitValidation),
        Some(RoomMethodExecutionProvider::EventsV1PersistentDataUnitValidator)
    );
    let v8 = RoomVersionBusinessRules::new(RoomVersion::V8);
    assert!(matches!(
        v8.implementation_for(RoomBusinessMethod::RestrictedJoinRules),
        Some(RoomBusinessMethodImplementation::RestrictedJoinRules(_))
    ));
    assert_eq!(
        v8.execution_provider_for(RoomBusinessMethod::KnockingMembership),
        Some(RoomMethodExecutionProvider::RoomVersionCapabilityFlag)
    );
    assert_eq!(v8.execution_provider_for(RoomBusinessMethod::AdditionalRoomCreators), None);
    let items = v8.iter_method_availability().unwrap();
    assert_eq!(items.len(), 7);
    assert_eq!(items[2].method, RoomBusinessMethod::StateResolutionV2);
    assert_eq!(v8.supported_events().len(), 3);
}

#[test]
fn room_versions_order_and_default() {
    assert!(RoomVersion::V1 < RoomVersion::V2);
    assert!(RoomVersion::V10 > RoomVersion::V9);
    assert_eq!(RoomVersion::default(), RoomVersion::V1);
}
