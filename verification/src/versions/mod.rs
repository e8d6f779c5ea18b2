//! Room versions, their rule sets and the business methods each one offers.
use vstd::prelude::*;

use crate::identifiers::RoomIdentifier;
use std::marker::PhantomData;

pub mod v1;
pub mod v10;
pub mod v11;
pub mod v12;
pub mod v2;
pub mod v3;
pub mod v4;
pub mod v5;
pub mod v6;
pub mod v7;
pub mod v8;
pub mod v9;

verus! {

/// A type that stands for one room version.
pub trait RoomVersionMarker {
    spec fn spec_version() -> RoomVersion;

    fn version() -> (r: RoomVersion)
        ensures
            r == Self::spec_version(),
    ;
}

pub trait SupportsKnocking: RoomVersionMarker {}

pub trait SupportsRestrictedJoinRules: RoomVersionMarker {}

pub trait SupportsKnockRestrictedJoinRule: RoomVersionMarker {}

pub trait SupportsAdditionalRoomCreators: RoomVersionMarker {}

/// The room versions of the Matrix specification.
#[derive(Clone, Copy, Debug, PartialEq, Eq, Structural, Hash, PartialOrd, Ord)]
pub enum RoomVersion {
    V1,
    V2,
    V3,
    V4,
    V5,
    V6,
    V7,
    V8,
    V9,
    V10,
    V11,
    V12,
}

/// The number of a room version.
pub open spec fn version_number(v: RoomVersion) -> int {
    match v {
        RoomVersion::V1 => 1,
        RoomVersion::V2 => 2,
        RoomVersion::V3 => 3,
        RoomVersion::V4 => 4,
        RoomVersion::V5 => 5,
        RoomVersion::V6 => 6,
        RoomVersion::V7 => 7,
        RoomVersion::V8 => 8,
        RoomVersion::V9 => 9,
        RoomVersion::V10 => 10,
        RoomVersion::V11 => 11,
        RoomVersion::V12 => 12,
    }
}

/// Every room version, in ascending order.
pub open spec fn all_versions() -> Seq<RoomVersion> {
    seq![
        RoomVersion::V1,
        RoomVersion::V2,
        RoomVersion::V3,
        RoomVersion::V4,
        RoomVersion::V5,
        RoomVersion::V6,
        RoomVersion::V7,
        RoomVersion::V8,
        RoomVersion::V9,
        RoomVersion::V10,
        RoomVersion::V11,
        RoomVersion::V12,
    ]
}

/// The versions that this server creates rooms in, listed by hand.
pub open spec fn supported_allowlist() -> Seq<RoomVersion> {
    seq![RoomVersion::V1]
}

pub open spec fn is_supported_version(v: RoomVersion) -> bool {
    supported_allowlist().contains(v)
}

/// The decimal name of a room version ("1" to "12").
pub open spec fn version_name(v: RoomVersion) -> Seq<char> {
    crate::decimal::decimal(version_number(v) as nat)
}

/// How event identifiers are formed in a room version.
#[derive(Clone, Copy, Debug, PartialEq, Eq, Structural)]
pub enum EventIdentifierFormat {
    ServerAssignedWithDomain,
    ReferenceHashUnpaddedBase64,
    ReferenceHashUrlSafeBase64,
}

/// How room identifiers are formed in a room version.
#[derive(Clone, Copy, Debug, PartialEq, Eq, Structural)]
pub enum RoomIdentifierFormat {
    LocalPartWithDomain,
    HashBasedRoomId,
}

/// The power that room creators hold in a room version.
#[derive(Clone, Copy, Debug, PartialEq, Eq, Structural)]
pub enum CreatorPowerLevels {
    DefaultLevel100ForCreator,
    InfiniteForRoomCreators,
}

/// The capability matrix of one room version.
#[derive(Clone, Copy, Debug)]
pub struct RoomVersionRules {
    pub version: RoomVersion,
    pub description: &'static str,
    pub event_identifier_format: EventIdentifierFormat,
    pub room_identifier_format: RoomIdentifierFormat,
    pub creator_power_levels: CreatorPowerLevels,
    pub supports_knocking: bool,
    pub supports_restricted_join_rules: bool,
    pub supports_knock_restricted_join_rule: bool,
    pub supports_additional_room_creators: bool,
    pub power_levels_must_be_integer_values: bool,
}

/// What the Matrix specification fixes for each room version: the event
/// identifier format changes at versions 3 and 4, knocking arrives in 7,
/// restricted joins in 8, knock-restricted joins and integer-only power levels
/// in 10, and version 12 brings hash-based room identifiers, creators with
/// infinite power and additional creators.
/// The description each room version's rules carry.
pub open spec fn version_description(v: RoomVersion) -> Seq<char> {
    match v {
        RoomVersion::V1 => "Initial room version."@,
        RoomVersion::V2 => "Implements State Resolution Version 2."@,
        RoomVersion::V3 => "Event IDs are reference hashes encoded in unpadded base64."@,
        RoomVersion::V4 => "Event IDs use the URL-safe base64 alphabet."@,
        RoomVersion::V5 => "Enforces the validity period of signing keys."@,
        RoomVersion::V6 => "Alters authorization rules for events."@,
        RoomVersion::V7 => "Adds knocking."@,
        RoomVersion::V8 => "Adds restricted join rules based on membership in another room."@,
        RoomVersion::V9 => "Builds on v8 and fixes membership redaction edge cases."@,
        RoomVersion::V10 => "Requires integer-only power levels and adds knock_restricted join rule."@,
        RoomVersion::V11 => "Clarifies redaction algorithm behavior."@,
        RoomVersion::V12 => "Room IDs are hash-derived, room creators are formalized with infinite power, and state resolution is updated."@,
    }
}

pub open spec fn rules_match_version(r: RoomVersionRules, v: RoomVersion) -> bool {
    let n = version_number(v);
    &&& r.version == v
    &&& r.description@ == version_description(v)
    &&& r.event_identifier_format == (if n <= 2 {
        EventIdentifierFormat::ServerAssignedWithDomain
    } else if n == 3 {
        EventIdentifierFormat::ReferenceHashUnpaddedBase64
    } else {
        EventIdentifierFormat::ReferenceHashUrlSafeBase64
    })
    &&& r.room_identifier_format == (if n == 12 {
        RoomIdentifierFormat::HashBasedRoomId
    } else {
        RoomIdentifierFormat::LocalPartWithDomain
    })
    &&& r.creator_power_levels == (if n == 12 {
        CreatorPowerLevels::InfiniteForRoomCreators
    } else {
        CreatorPowerLevels::DefaultLevel100ForCreator
    })
    &&& r.supports_knocking == (n >= 7)
    &&& r.supports_restricted_join_rules == (n >= 8)
    &&& r.supports_knock_restricted_join_rule == (n >= 10)
    &&& r.supports_additional_room_creators == (n >= 12)
    &&& r.power_levels_must_be_integer_values == (n >= 10)
}

/// Gives the rule set of a room version, as `rules` does for versions 2 to 12.
pub trait RoomVersionRulesContract {
    fn rules() -> RoomVersionRules;
}

proof fn lemma_filter_unsupported_tail(
    a: Seq<RoomVersion>,
    pred: spec_fn(RoomVersion) -> bool,
    i: int,
)
    requires
        1 <= i <= a.len(),
        forall|k: int| 1 <= k < a.len() ==> !pred(#[trigger] a[k]),
        a.take(i).filter(pred) == seq![RoomVersion::V1],
    ensures
        a.take(a.len() as int).filter(pred) == seq![RoomVersion::V1],
    decreases a.len() - i,
{
    if i < a.len() {
        a.take(i).lemma_filter_push(a[i], pred);
        assert(a.take(i + 1) =~= a.take(i).push(a[i]));
        lemma_filter_unsupported_tail(a, pred, i + 1);
    }
}

/// The versions that pass `is_supported`, taken in order from all versions,
/// are exactly the hand-written allowlist.
pub proof fn lemma_supported_versions_follow_allowlist()
    ensures
        all_versions().filter(|v: RoomVersion| is_supported_version(v)) == supported_allowlist(),
{
    let pred = |v: RoomVersion| is_supported_version(v);
    let a = all_versions();
    assert(supported_allowlist()[0] == RoomVersion::V1);
    assert forall|k: int| 1 <= k < 12 implies !pred(#[trigger] a[k]) by {
        if supported_allowlist().contains(a[k]) {
            let j = choose|j: int| 0 <= j < 1 && supported_allowlist()[j] == a[k];
        }
    }
    assert(a.take(1).filter(pred) =~= seq![RoomVersion::V1]) by {
        assert(a.take(1) =~= Seq::<RoomVersion>::empty().push(RoomVersion::V1));
        Seq::<RoomVersion>::empty().lemma_filter_push(RoomVersion::V1, pred);
        assert(Seq::<RoomVersion>::empty().filter(pred) =~= Seq::<RoomVersion>::empty()) by {
            reveal(Seq::filter);
        }
    }
    lemma_filter_unsupported_tail(a, pred, 1);
    assert(a.take(12) =~= a);
}

/// Rooms follow version 1 unless a version is asked for.
impl Default for RoomVersion {
    fn default() -> (r: Self)
        ensures
            r == RoomVersion::V1,
    {
        RoomVersion::V1
    }
}

impl RoomVersion {
    pub fn as_number(self) -> (r: u8)
        ensures
            r == version_number(self),
    {
        match self {
            RoomVersion::V1 => 1,
            RoomVersion::V2 => 2,
            RoomVersion::V3 => 3,
            RoomVersion::V4 => 4,
            RoomVersion::V5 => 5,
            RoomVersion::V6 => 6,
            RoomVersion::V7 => 7,
            RoomVersion::V8 => 8,
            RoomVersion::V9 => 9,
            RoomVersion::V10 => 10,
            RoomVersion::V11 => 11,
            RoomVersion::V12 => 12,
        }
    }

    /// Versions up to 11 carry a `creator` field in `m.room.create`.
    pub fn requires_creator_field(self) -> (r: bool)
        ensures
            r == (version_number(self) <= 11),
    {
        self.as_number() <= 11
    }

    /// Versions from 12 on accept `additional_creators`.
    pub fn supports_additional_creators(self) -> (r: bool)
        ensures
            r == (version_number(self) >= 12),
    {
        self.as_number() >= 12
    }

    pub fn rules(self) -> (r: RoomVersionRules)
        ensures
            rules_match_version(r, self),
    {
        match self {
            RoomVersion::V1 => <RoomVersionRules as RoomVersionRulesContract>::rules(),
            RoomVersion::V2 => v2::rules(),
            RoomVersion::V3 => v3::rules(),
            RoomVersion::V4 => v4::rules(),
            RoomVersion::V5 => v5::rules(),
            RoomVersion::V6 => v6::rules(),
            RoomVersion::V7 => v7::rules(),
            RoomVersion::V8 => v8::rules(),
            RoomVersion::V9 => v9::rules(),
            RoomVersion::V10 => v10::rules(),
            RoomVersion::V11 => v11::rules(),
            RoomVersion::V12 => v12::rules(),
        }
    }

    /// Every room version, in ascending order.
    pub fn all() -> (r: Vec<RoomVersion>)
        ensures
            r@ == all_versions(),
    {
        let r = vec![
            RoomVersion::V1,
            RoomVersion::V2,
            RoomVersion::V3,
            RoomVersion::V4,
            RoomVersion::V5,
            RoomVersion::V6,
            RoomVersion::V7,
            RoomVersion::V8,
            RoomVersion::V9,
            RoomVersion::V10,
            RoomVersion::V11,
            RoomVersion::V12,
        ];
        assert(r@ =~= all_versions());
        r
    }

    /// The versions that this server creates rooms in, as listed by hand.
    pub fn supported_allowlist() -> (r: Vec<RoomVersion>)
        ensures
            r@ == supported_allowlist(),
    {
        let r = vec![RoomVersion::V1];
        assert(r@ =~= supported_allowlist());
        r
    }

    pub fn is_supported(self) -> (r: bool)
        ensures
            r == is_supported_version(self),
    {
        proof {
            assert(supported_allowlist()[0] == RoomVersion::V1);
        }
        match self {
            RoomVersion::V1 => true,
            _ => {
                assert(!supported_allowlist().contains(self)) by {
                    if supported_allowlist().contains(self) {
                        let k = choose|k: int| 0 <= k < 1 && supported_allowlist()[k] == self;
                    }
                }
                false
            },
        }
    }

    /// The versions, in ascending order, that pass `is_supported`.
    pub fn supported_versions() -> (r: Vec<RoomVersion>)
        ensures
            r@ == all_versions().filter(|v: RoomVersion| is_supported_version(v)),
    {
        let all = RoomVersion::all();
        let ghost pred = |v: RoomVersion| is_supported_version(v);
        let mut r: Vec<RoomVersion> = Vec::new();
        let mut i: usize = 0;
        assert(all@.take(0) =~= Seq::<RoomVersion>::empty());
        while i < all.len()
            invariant
                all@ == all_versions(),
                i <= all.len(),
                pred == (|v: RoomVersion| is_supported_version(v)),
                r@ == all@.take(i as int).filter(pred),
            decreases all.len() - i,
        {
            let v = all[i];
            proof {
                all@.take(i as int).lemma_filter_push(v, pred);
                assert(all@.take(i as int + 1) =~= all@.take(i as int).push(v));
            }
            if v.is_supported() {
                r.push(v);
            }
            i = i + 1;
        }
        assert(all@.take(all.len() as int) =~= all@);
        r
    }

    /// The decimal name of the version, as its `Display` gives it.
    pub fn as_str(self) -> (r: &'static str)
        ensures
            r@ == version_name(self),
    {
        reveal_with_fuel(crate::decimal::decimal, 3);
        match self {
            RoomVersion::V1 => {
                proof { reveal_strlit("1"); }
                "1"
            },
            RoomVersion::V2 => {
                proof { reveal_strlit("2"); }
                "2"
            },
            RoomVersion::V3 => {
                proof { reveal_strlit("3"); }
                "3"
            },
            RoomVersion::V4 => {
                proof { reveal_strlit("4"); }
                "4"
            },
            RoomVersion::V5 => {
                proof { reveal_strlit("5"); }
                "5"
            },
            RoomVersion::V6 => {
                proof { reveal_strlit("6"); }
                "6"
            },
            RoomVersion::V7 => {
                proof { reveal_strlit("7"); }
                "7"
            },
            RoomVersion::V8 => {
                proof { reveal_strlit("8"); }
                "8"
            },
            RoomVersion::V9 => {
                proof { reveal_strlit("9"); }
                "9"
            },
            RoomVersion::V10 => {
                proof { reveal_strlit("10"); }
                assert("10"@ =~= version_name(self));
                "10"
            },
            RoomVersion::V11 => {
                proof { reveal_strlit("11"); }
                assert("11"@ =~= version_name(self));
                "11"
            },
            RoomVersion::V12 => {
                proof { reveal_strlit("12"); }
                assert("12"@ =~= version_name(self));
                "12"
            },
        }
    }

    /// The version whose decimal name is `s`, if any.
    pub fn parse(s: &str) -> (r: Option<RoomVersion>)
        ensures
            r matches Some(v) ==> version_name(v) == s@,
            r is None ==> forall|v: RoomVersion| version_name(v) != s@,
    {
        let all = RoomVersion::all();
        let mut i: usize = 0;
        while i < all.len()
            invariant
                all@ == all_versions(),
                i <= all.len(),
                forall|k: int| 0 <= k < i ==> version_name(#[trigger] all@[k]) != s@,
            decreases all.len() - i,
        {
            let v = all[i];
            if crate::text::str_eq(v.as_str(), s) {
                return Some(v);
            }
            i = i + 1;
        }
        assert forall|v: RoomVersion| version_name(v) != s@ by {
            let k = version_number(v) - 1;
            assert(all@[k] == v);
        }
        None
    }
}


/// The event definitions that rooms know about.
#[derive(Clone, Copy, Debug, PartialEq, Eq, Structural, Hash)]
pub enum EventDefinitionKey {
    RoomCreate,
    RoomAliases,
    RoomMessage,
}

/// The methods whose availability depends on the room version.
#[derive(Clone, Copy, Debug, PartialEq, Eq, Structural, Hash)]
pub enum RoomBusinessMethod {
    CreateEventContentValidation,
    PersistentDataUnitValidation,
    StateResolutionV2,
    KnockingMembership,
    RestrictedJoinRules,
    KnockRestrictedJoinRule,
    AdditionalRoomCreators,
}

pub open spec fn all_business_methods() -> Seq<RoomBusinessMethod> {
    seq![
        RoomBusinessMethod::CreateEventContentValidation,
        RoomBusinessMethod::PersistentDataUnitValidation,
        RoomBusinessMethod::StateResolutionV2,
        RoomBusinessMethod::KnockingMembership,
        RoomBusinessMethod::RestrictedJoinRules,
        RoomBusinessMethod::KnockRestrictedJoinRule,
        RoomBusinessMethod::AdditionalRoomCreators,
    ]
}

impl RoomBusinessMethod {
    /// Every business method, in declaration order.
    pub fn all() -> (r: Vec<RoomBusinessMethod>)
        ensures
            r@ == all_business_methods(),
    {
        let r = vec![
            RoomBusinessMethod::CreateEventContentValidation,
            RoomBusinessMethod::PersistentDataUnitValidation,
            RoomBusinessMethod::StateResolutionV2,
            RoomBusinessMethod::KnockingMembership,
            RoomBusinessMethod::RestrictedJoinRules,
            RoomBusinessMethod::KnockRestrictedJoinRule,
            RoomBusinessMethod::AdditionalRoomCreators,
        ];
        assert(r@ =~= all_business_methods());
        r
    }
}

#[derive(Clone, Copy, Debug, PartialEq, Eq, Structural)]
pub struct CreateEventContentValidationRule;

#[derive(Clone, Copy, Debug, PartialEq, Eq, Structural)]
pub struct PersistentDataUnitValidationRule;

#[derive(Clone, Copy, Debug, PartialEq, Eq, Structural)]
pub struct StateResolutionV2Rule;

#[derive(Clone, Copy, Debug, PartialEq, Eq, Structural)]
pub struct KnockingMembershipRule;

#[derive(Clone, Copy, Debug, PartialEq, Eq, Structural)]
pub struct RestrictedJoinRulesRule;

#[derive(Clone, Copy, Debug, PartialEq, Eq, Structural)]
pub struct KnockRestrictedJoinRuleRule;

#[derive(Clone, Copy, Debug, PartialEq, Eq, Structural)]
pub struct AdditionalRoomCreatorsRule;

/// The rule object that implements a business method.
#[derive(Clone, Copy, Debug, PartialEq, Eq, Structural)]
pub enum RoomBusinessMethodImplementation {
    CreateEventContentValidation(CreateEventContentValidationRule),
    PersistentDataUnitValidation(PersistentDataUnitValidationRule),
    StateResolutionV2(StateResolutionV2Rule),
    KnockingMembership(KnockingMembershipRule),
    RestrictedJoinRules(RestrictedJoinRulesRule),
    KnockRestrictedJoinRule(KnockRestrictedJoinRuleRule),
    AdditionalRoomCreators(AdditionalRoomCreatorsRule),
}

/// The component that executes a business method.
#[derive(Clone, Copy, Debug, PartialEq, Eq, Structural)]
pub enum RoomMethodExecutionProvider {
    SharedRoomCreateContentValidator,
    EventsV1PersistentDataUnitValidator,
    EventsV2PersistentDataUnitValidator,
    EventsV2StateResolution,
    RoomVersionCapabilityFlag,
}

/// Whether a method is available in a version, and how it is carried out.
#[derive(Clone, Copy, Debug, PartialEq, Eq, Structural)]
pub struct RoomBusinessMethodAvailability {
    pub method: RoomBusinessMethod,
    pub implementation: Option<RoomBusinessMethodImplementation>,
    pub execution_provider: Option<RoomMethodExecutionProvider>,
}

/// The first room version that offers a business method.
pub open spec fn method_introduced_in(method: RoomBusinessMethod) -> int {
    match method {
        RoomBusinessMethod::CreateEventContentValidation => 1,
        RoomBusinessMethod::PersistentDataUnitValidation => 1,
        RoomBusinessMethod::StateResolutionV2 => 2,
        RoomBusinessMethod::KnockingMembership => 7,
        RoomBusinessMethod::RestrictedJoinRules => 8,
        RoomBusinessMethod::KnockRestrictedJoinRule => 10,
        RoomBusinessMethod::AdditionalRoomCreators => 12,
    }
}

/// The rule object that stands for a method.
pub open spec fn method_implementation(method: RoomBusinessMethod) -> RoomBusinessMethodImplementation {
    match method {
        RoomBusinessMethod::CreateEventContentValidation => RoomBusinessMethodImplementation::CreateEventContentValidation(CreateEventContentValidationRule),
        RoomBusinessMethod::PersistentDataUnitValidation => RoomBusinessMethodImplementation::PersistentDataUnitValidation(PersistentDataUnitValidationRule),
        RoomBusinessMethod::StateResolutionV2 => RoomBusinessMethodImplementation::StateResolutionV2(StateResolutionV2Rule),
        RoomBusinessMethod::KnockingMembership => RoomBusinessMethodImplementation::KnockingMembership(KnockingMembershipRule),
        RoomBusinessMethod::RestrictedJoinRules => RoomBusinessMethodImplementation::RestrictedJoinRules(RestrictedJoinRulesRule),
        RoomBusinessMethod::KnockRestrictedJoinRule => RoomBusinessMethodImplementation::KnockRestrictedJoinRule(KnockRestrictedJoinRuleRule),
        RoomBusinessMethod::AdditionalRoomCreators => RoomBusinessMethodImplementation::AdditionalRoomCreators(AdditionalRoomCreatorsRule),
    }
}

/// What `implementation_for` gives: the method's rule object from the version
/// that introduced it on.
pub open spec fn spec_implementation_for(v: RoomVersion, method: RoomBusinessMethod) -> Option<
    RoomBusinessMethodImplementation,
> {
    if version_number(v) >= method_introduced_in(method) {
        Some(method_implementation(method))
    } else {
        None
    }
}

/// What `execution_provider_for` gives.
pub open spec fn spec_execution_provider_for(v: RoomVersion, method: RoomBusinessMethod) -> Option<
    RoomMethodExecutionProvider,
> {
    match method {
        RoomBusinessMethod::CreateEventContentValidation => Some(
            RoomMethodExecutionProvider::SharedRoomCreateContentValidator,
        ),
        RoomBusinessMethod::PersistentDataUnitValidation => Some(
            if v == RoomVersion::V1 {
                RoomMethodExecutionProvider::EventsV1PersistentDataUnitValidator
            } else {
                RoomMethodExecutionProvider::EventsV2PersistentDataUnitValidator
            },
        ),
        RoomBusinessMethod::StateResolutionV2 => if version_number(v) >= 2 {
            Some(RoomMethodExecutionProvider::EventsV2StateResolution)
        } else {
            None
        },
        _ => if spec_implementation_for(v, method) is Some {
            Some(RoomMethodExecutionProvider::RoomVersionCapabilityFlag)
        } else {
            None
        },
    }
}

/// The events that rooms of any version know about.
pub open spec fn supported_event_keys() -> Seq<EventDefinitionKey> {
    seq![EventDefinitionKey::RoomCreate, EventDefinitionKey::RoomAliases, EventDefinitionKey::RoomMessage]
}

/// The business rules of one room version.
#[derive(Clone, Copy, Debug, PartialEq, Eq, Structural)]
pub struct RoomVersionBusinessRules {
    pub room_version: RoomVersion,
}

impl RoomVersionBusinessRules {
    pub fn new(room_version: RoomVersion) -> (r: Self)
        ensures
            r.room_version == room_version,
    {
        RoomVersionBusinessRules { room_version }
    }

    pub fn implementation_for(&self, method: RoomBusinessMethod) -> (r: Option<
        RoomBusinessMethodImplementation,
    >)
        ensures
            r == spec_implementation_for(self.room_version, method),
    {
        let n = self.room_version.as_number();
        match method {
            RoomBusinessMethod::CreateEventContentValidation => Some(
                RoomBusinessMethodImplementation::CreateEventContentValidation(
                    CreateEventContentValidationRule,
                ),
            ),
            RoomBusinessMethod::PersistentDataUnitValidation => Some(
                RoomBusinessMethodImplementation::PersistentDataUnitValidation(
                    PersistentDataUnitValidationRule,
                ),
            ),
            RoomBusinessMethod::StateResolutionV2 => if n >= 2 {
                Some(RoomBusinessMethodImplementation::StateResolutionV2(StateResolutionV2Rule))
            } else {
                None
            },
            RoomBusinessMethod::KnockingMembership => if n >= 7 {
                Some(RoomBusinessMethodImplementation::KnockingMembership(KnockingMembershipRule))
            } else {
                None
            },
            RoomBusinessMethod::RestrictedJoinRules => if n >= 8 {
                Some(RoomBusinessMethodImplementation::RestrictedJoinRules(RestrictedJoinRulesRule))
            } else {
                None
            },
            RoomBusinessMethod::KnockRestrictedJoinRule => if n >= 10 {
                Some(
                    RoomBusinessMethodImplementation::KnockRestrictedJoinRule(
                        KnockRestrictedJoinRuleRule,
                    ),
                )
            } else {
                None
            },
            RoomBusinessMethod::AdditionalRoomCreators => if n >= 12 {
                Some(
                    RoomBusinessMethodImplementation::AdditionalRoomCreators(
                        AdditionalRoomCreatorsRule,
                    ),
                )
            } else {
                None
            },
        }
    }

    pub fn execution_provider_for(&self, method: RoomBusinessMethod) -> (r: Option<
        RoomMethodExecutionProvider,
    >)
        ensures
            r == spec_execution_provider_for(self.room_version, method),
    {
        match method {
            RoomBusinessMethod::CreateEventContentValidation => Some(
                RoomMethodExecutionProvider::SharedRoomCreateContentValidator,
            ),
            RoomBusinessMethod::PersistentDataUnitValidation => Some(
                match self.room_version {
                    RoomVersion::V1 => RoomMethodExecutionProvider::EventsV1PersistentDataUnitValidator,
                    _ => RoomMethodExecutionProvider::EventsV2PersistentDataUnitValidator,
                },
            ),
            RoomBusinessMethod::StateResolutionV2 => if self.room_version.as_number() >= 2 {
                Some(RoomMethodExecutionProvider::EventsV2StateResolution)
            } else {
                None
            },
            RoomBusinessMethod::KnockingMembership
            | RoomBusinessMethod::RestrictedJoinRules
            | RoomBusinessMethod::KnockRestrictedJoinRule
            | RoomBusinessMethod::AdditionalRoomCreators => match self.implementation_for(method) {
                Some(_) => Some(RoomMethodExecutionProvider::RoomVersionCapabilityFlag),
                None => None,
            },
        }
    }

    /// The event definitions known in rooms of this version.
    pub fn supported_events(self) -> (r: Vec<EventDefinitionKey>)
        ensures
            r@ == supported_event_keys(),
    {
        let r = match self.room_version {
            RoomVersion::V1 => vec![
                EventDefinitionKey::RoomCreate,
                EventDefinitionKey::RoomAliases,
                EventDefinitionKey::RoomMessage,
            ],
            _ => vec![
                EventDefinitionKey::RoomCreate,
                EventDefinitionKey::RoomAliases,
                EventDefinitionKey::RoomMessage,
            ],
        };
        assert(r@ =~= supported_event_keys());
        r
    }

    /// The availability of every business method, in declaration order.
    pub fn iter_method_availability(self) -> (r: Option<Vec<RoomBusinessMethodAvailability>>)
        ensures
            r matches Some(items) && items@.len() == all_business_methods().len() && forall|i: int|
                0 <= i < items@.len() ==> #[trigger] items@[i] == (RoomBusinessMethodAvailability {
                    method: all_business_methods()[i],
                    implementation: spec_implementation_for(
                        self.room_version,
                        all_business_methods()[i],
                    ),
                    execution_provider: spec_execution_provider_for(
                        self.room_version,
                        all_business_methods()[i],
                    ),
                }),
    {
        let methods = RoomBusinessMethod::all();
        let mut items: Vec<RoomBusinessMethodAvailability> = Vec::new();
        let mut i: usize = 0;
        while i < methods.len()
            invariant
                methods@ == all_business_methods(),
                i <= methods.len(),
                items@.len() == i,
                forall|k: int|
                    0 <= k < i ==> #[trigger] items@[k] == (RoomBusinessMethodAvailability {
                        method: all_business_methods()[k],
                        implementation: spec_implementation_for(
                            self.room_version,
                            all_business_methods()[k],
                        ),
                        execution_provider: spec_execution_provider_for(
                            self.room_version,
                            all_business_methods()[k],
                        ),
                    }),
            decreases methods.len() - i,
        {
            let method = methods[i];
            items.push(
                RoomBusinessMethodAvailability {
                    method,
                    implementation: self.implementation_for(method),
                    execution_provider: self.execution_provider_for(method),
                },
            );
            i = i + 1;
        }
        Some(items)
    }
}

/// A room known to be of the room version that `V` stands for.
#[derive(Debug, PartialEq, Eq)]
pub struct RoomForVersion<V: RoomVersionMarker> {
    room_id: RoomIdentifier,
    marker: PhantomData<V>,
}

impl<V: RoomVersionMarker> View for RoomForVersion<V> {
    type V = crate::identifiers::RoomIdentifierView;

    closed spec fn view(&self) -> crate::identifiers::RoomIdentifierView {
        self.room_id@
    }
}

impl<V: RoomVersionMarker> RoomForVersion<V> {
    pub fn new(room_id: RoomIdentifier) -> (r: Self)
        ensures
            r@ == room_id@,
    {
        RoomForVersion { room_id, marker: PhantomData }
    }

    pub fn room_id(&self) -> (r: &RoomIdentifier)
        ensures
            r@ == self@,
    {
        &self.room_id
    }

    pub fn version(&self) -> (r: RoomVersion)
        ensures
            r == V::spec_version(),
    {
        V::version()
    }

    pub fn rules(&self) -> (r: RoomVersionRules)
        ensures
            rules_match_version(r, V::spec_version()),
    {
        V::version().rules()
    }
}

impl<V: SupportsKnocking> RoomForVersion<V> {
    pub fn knocking_capability(&self) -> (r: &'static str)
        ensures
            r@ == "knock membership and knock join rules are valid in this room version"@,
    {
        "knock membership and knock join rules are valid in this room version"
    }
}

impl<V: SupportsRestrictedJoinRules> RoomForVersion<V> {
    pub fn restricted_join_rule_capability(&self) -> (r: &'static str)
        ensures
            r@ == "restricted join rules are valid in this room version"@,
    {
        "restricted join rules are valid in this room version"
    }
}

impl<V: SupportsKnockRestrictedJoinRule> RoomForVersion<V> {
    pub fn knock_restricted_join_rule_capability(&self) -> (r: &'static str)
        ensures
            r@ == "knock_restricted join rule is valid in this room version"@,
    {
        "knock_restricted join rule is valid in this room version"
    }
}

impl<V: SupportsAdditionalRoomCreators> RoomForVersion<V> {
    pub fn additional_room_creators_capability(&self) -> (r: &'static str)
        ensures
            r@ == "additional room creators are valid in this room version"@,
    {
        "additional room creators are valid in this room version"
    }
}

/// A room whose type names its version.
#[derive(Debug, PartialEq, Eq)]
pub enum VersionedRoom {
    V1(RoomForVersion<v1::Version1>),
    V2(RoomForVersion<v2::Version2>),
    V3(RoomForVersion<v3::Version3>),
    V4(RoomForVersion<v4::Version4>),
    V5(RoomForVersion<v5::Version5>),
    V6(RoomForVersion<v6::Version6>),
    V7(RoomForVersion<v7::Version7>),
    V8(RoomForVersion<v8::Version8>),
    V9(RoomForVersion<v9::Version9>),
    V10(RoomForVersion<v10::Version10>),
    V11(RoomForVersion<v11::Version11>),
    V12(RoomForVersion<v12::Version12>),
}

/// The version that a variant of `VersionedRoom` names.
pub open spec fn versioned_room_version(r: VersionedRoom) -> RoomVersion {
    match r {
        VersionedRoom::V1(_) => RoomVersion::V1,
        VersionedRoom::V2(_) => RoomVersion::V2,
        VersionedRoom::V3(_) => RoomVersion::V3,
        VersionedRoom::V4(_) => RoomVersion::V4,
        VersionedRoom::V5(_) => RoomVersion::V5,
        VersionedRoom::V6(_) => RoomVersion::V6,
        VersionedRoom::V7(_) => RoomVersion::V7,
        VersionedRoom::V8(_) => RoomVersion::V8,
        VersionedRoom::V9(_) => RoomVersion::V9,
        VersionedRoom::V10(_) => RoomVersion::V10,
        VersionedRoom::V11(_) => RoomVersion::V11,
        VersionedRoom::V12(_) => RoomVersion::V12,
    }
}

/// The room identifier that a `VersionedRoom` holds.
pub open spec fn versioned_room_id(r: VersionedRoom) -> crate::identifiers::RoomIdentifierView {
    match r {
        VersionedRoom::V1(x) => x@,
        VersionedRoom::V2(x) => x@,
        VersionedRoom::V3(x) => x@,
        VersionedRoom::V4(x) => x@,
        VersionedRoom::V5(x) => x@,
        VersionedRoom::V6(x) => x@,
        VersionedRoom::V7(x) => x@,
        VersionedRoom::V8(x) => x@,
        VersionedRoom::V9(x) => x@,
        VersionedRoom::V10(x) => x@,
        VersionedRoom::V11(x) => x@,
        VersionedRoom::V12(x) => x@,
    }
}

impl VersionedRoom {
    pub fn version(&self) -> (r: RoomVersion)
        ensures
            r == versioned_room_version(*self),
    {
        match self {
            VersionedRoom::V1(_) => RoomVersion::V1,
            VersionedRoom::V2(_) => RoomVersion::V2,
            VersionedRoom::V3(_) => RoomVersion::V3,
            VersionedRoom::V4(_) => RoomVersion::V4,
            VersionedRoom::V5(_) => RoomVersion::V5,
            VersionedRoom::V6(_) => RoomVersion::V6,
            VersionedRoom::V7(_) => RoomVersion::V7,
            VersionedRoom::V8(_) => RoomVersion::V8,
            VersionedRoom::V9(_) => RoomVersion::V9,
            VersionedRoom::V10(_) => RoomVersion::V10,
            VersionedRoom::V11(_) => RoomVersion::V11,
            VersionedRoom::V12(_) => RoomVersion::V12,
        }
    }

    pub fn rules(&self) -> (r: RoomVersionRules)
        ensures
            rules_match_version(r, versioned_room_version(*self)),
    {
        self.version().rules()
    }

    pub fn business_rules(&self) -> (r: RoomVersionBusinessRules)
        ensures
            r.room_version == versioned_room_version(*self),
    {
        RoomVersionBusinessRules::new(self.version())
    }

    pub fn supported_events(&self) -> (r: Vec<EventDefinitionKey>)
        ensures
            r@ == supported_event_keys(),
    {
        self.business_rules().supported_events()
    }
}

/// Room versions have distinct names, so a version's name parses back to
/// that version and to no other.
pub proof fn lemma_version_names_distinct(a: RoomVersion, b: RoomVersion)
    ensures
        version_name(a) == version_name(b) ==> a == b,
{
    crate::decimal::lemma_decimal_digits(version_number(a) as nat);
    crate::decimal::lemma_decimal_digits(version_number(b) as nat);
}

} // verus!
