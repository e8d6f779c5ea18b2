//! A room of a given version, and the contract under which a new room is
//! created.
use vstd::prelude::*;

use crate::create_room::{creation_event_entries, ValidatedCreateRoomRequest};
use crate::creation_plan::{
    opt_view, payloads_view, plan_outcome, CreateRoomStateEventPayload, ContractErrorView,
    PayloadView, PlanInputs, RoomCreateContractError, RoomCreationPlanBuilder, is_invite_token,
    strings_view,
};
use crate::identifiers::{
    is_simple_uuid, room_identifier_text, RoomIdentifier, RoomIdentifierValidationError, ServerName,
    UserIdentifier,
};
use crate::json::{entries_insert, Json};
use crate::versions::{
    is_supported_version, rules_match_version, supported_event_keys, version_name, version_number,
    versioned_room_id, versioned_room_version, EventDefinitionKey, RoomForVersion, RoomVersion,
    RoomVersionBusinessRules, RoomVersionRules, VersionedRoom,
};

verus! {

/// A room and the version of the rules it follows.
#[derive(Clone, Debug, PartialEq, Eq)]
pub struct Room {
    pub room_id: RoomIdentifier,
    pub room_version: RoomVersion,
}

/// A room that was created.
#[derive(Debug)]
pub struct CreatedRoom {
    pub room_id: String,
}

/// What is stored when a room is created.
#[derive(Debug)]
pub struct CreateRoomPersistencePayload {
    pub creator_user_id: String,
    pub initial_state: Vec<CreateRoomStateEventPayload>,
    pub is_direct: Option<bool>,
    pub name: Option<String>,
    pub preset: String,
    pub room_alias_name: Option<String>,
    pub room_id: String,
    pub room_version: String,
    pub topic: Option<String>,
    pub visibility: String,
}

/// A planned room and what is stored for it.
#[derive(Debug)]
pub struct CreateRoomContract {
    pub persistence_payload: CreateRoomPersistencePayload,
    pub room: Room,
}

/// The plan inputs of a create-room request for the room `room_id`: the
/// creation content with the server's `creator` and `room_version`, the
/// preset, the invitees and third-party invitees, the alias, name, topic,
/// initial state and power-level override of the request.
pub open spec fn request_plan_inputs(
    creator_user_id: Seq<char>,
    info: ValidatedCreateRoomRequest,
    home_server_name: Seq<char>,
    room_id: Seq<char>,
) -> PlanInputs {
    PlanInputs {
        creator_user_id,
        room_id,
        home_server_name,
        room_version: info.room_version,
        preset: info.preset,
        invitees: Seq::new(info.invite@.len(), |i: int| info.invite@[i]@),
        third_party_invitees: info.invite_3pid@,
        is_direct: Some(info.is_direct),
        name: opt_view(info.name),
        topic: opt_view(info.topic),
        room_alias_name: opt_view(info.room_alias_name),
        initial_state: Some(info.initial_state@),
        power_level_content_override: Some(info.power_level_content_override),
        room_create_event_content: Some(
            Json::Object(
                entries_insert(
                    entries_insert(
                        creation_event_entries(info.creation_content),
                        "creator"@,
                        Json::Str(creator_user_id),
                    ),
                    "room_version"@,
                    Json::Str(version_name(info.room_version)),
                ),
            ),
        ),
    }
}

/// What `try_create_contract` returns when the new room's localpart is
/// `localpart` and the third-party invites get the state keys `tokens`.
pub open spec fn create_contract_outcome(
    r: Result<CreateRoomContract, RoomCreateContractError>,
    creator_user_id: Seq<char>,
    info: ValidatedCreateRoomRequest,
    home_server_name: Seq<char>,
    localpart: Seq<char>,
    tokens: Seq<Seq<char>>,
) -> bool {
    let room_id = room_identifier_text(localpart, Some(home_server_name));
    match plan_outcome(
        request_plan_inputs(creator_user_id, info, home_server_name, room_id),
        tokens,
    ) {
        Ok(events) => match r {
            Ok(c) => {
                &&& payloads_view(c.persistence_payload.initial_state@) == events
                &&& c.persistence_payload.creator_user_id@ == creator_user_id
                &&& c.persistence_payload.is_direct == Some(info.is_direct)
                &&& opt_view(c.persistence_payload.name) == opt_view(info.name)
                &&& c.persistence_payload.preset@ == crate::create_room::preset_name(info.preset)
                &&& opt_view(c.persistence_payload.room_alias_name) == opt_view(
                    info.room_alias_name,
                )
                &&& c.persistence_payload.room_id@ == room_id
                &&& c.persistence_payload.room_version@ == version_name(info.room_version)
                &&& opt_view(c.persistence_payload.topic) == opt_view(info.topic)
                &&& c.persistence_payload.visibility@ == crate::create_room::visibility_name(
                    info.visibility,
                )
                &&& c.room.room_id@.full == room_id
                &&& c.room.room_id@.server_name == Some(home_server_name)
                &&& c.room.room_version == info.room_version
            },
            Err(_) => false,
        },
        Err(f) => match r {
            Ok(_) => false,
            Err(e) => e@ == f,
        },
    }
}

fn clone_opt(s: &Option<String>) -> (r: Option<String>)
    ensures
        opt_view(r) == opt_view(*s),
{
    match s {
        Some(v) => Some(v.clone()),
        None => None,
    }
}

impl Room {
    /// A room of `room_version`, when the identifier has the form that the
    /// version requires.
    pub fn new(room_id: &RoomIdentifier, room_version: RoomVersion) -> (r: Result<
        Room,
        RoomIdentifierValidationError,
    >)
        ensures
            r is Ok <==> (version_number(room_version) != 1 && version_number(room_version) != 2)
                || room_id@.server_name is Some,
            r matches Ok(room) ==> room.room_id@ == room_id@ && room.room_version == room_version,
            r matches Err(RoomIdentifierValidationError::InvalidStructure { room_id: given, expected })
                ==> given@ == room_id@.full && expected@
                == "room IDs must use the `!localpart:server.name` format"@,
    {
        match room_id.validate_for_room_version(room_version.as_number()) {
            Ok(()) => {},
            Err(e) => return Err(e),
        }
        Ok(Room { room_id: room_id.clone(), room_version })
    }

    pub fn rules(&self) -> (r: RoomVersionRules)
        ensures
            rules_match_version(r, self.room_version),
    {
        self.room_version.rules()
    }

    pub fn business_rules(&self) -> (r: RoomVersionBusinessRules)
        ensures
            r.room_version == self.room_version,
    {
        RoomVersionBusinessRules::new(self.room_version)
    }

    pub fn supported_events(&self) -> (r: Vec<EventDefinitionKey>)
        ensures
            r@ == supported_event_keys(),
    {
        self.business_rules().supported_events()
    }

    /// The room, typed by its version.
    pub fn versioned(self) -> (r: VersionedRoom)
        ensures
            versioned_room_version(r) == self.room_version,
            versioned_room_id(r) == self.room_id@,
    {
        match self.room_version {
            RoomVersion::V1 => VersionedRoom::V1(RoomForVersion::new(self.room_id)),
            RoomVersion::V2 => VersionedRoom::V2(RoomForVersion::new(self.room_id)),
            RoomVersion::V3 => VersionedRoom::V3(RoomForVersion::new(self.room_id)),
            RoomVersion::V4 => VersionedRoom::V4(RoomForVersion::new(self.room_id)),
            RoomVersion::V5 => VersionedRoom::V5(RoomForVersion::new(self.room_id)),
            RoomVersion::V6 => VersionedRoom::V6(RoomForVersion::new(self.room_id)),
            RoomVersion::V7 => VersionedRoom::V7(RoomForVersion::new(self.room_id)),
            RoomVersion::V8 => VersionedRoom::V8(RoomForVersion::new(self.room_id)),
            RoomVersion::V9 => VersionedRoom::V9(RoomForVersion::new(self.room_id)),
            RoomVersion::V10 => VersionedRoom::V10(RoomForVersion::new(self.room_id)),
            RoomVersion::V11 => VersionedRoom::V11(RoomForVersion::new(self.room_id)),
            RoomVersion::V12 => VersionedRoom::V12(RoomForVersion::new(self.room_id)),
        }
    }

    /// Plans a new room on `home_server_name` for a validated request: a
    /// fresh room identifier, and the room's first state events in order.
    /// A room version outside the supported allowlist is refused.
    pub fn try_create_contract(
        creator_user_id: &UserIdentifier,
        info: ValidatedCreateRoomRequest,
        home_server_name: &ServerName,
    ) -> (r: Result<CreateRoomContract, RoomCreateContractError>)
        ensures
            !is_supported_version(info.room_version) ==> (r matches Err(e) && e@
                == (ContractErrorView::UnsupportedRoomVersion {
                room_version: version_name(info.room_version),
            })),
            is_supported_version(info.room_version) ==> exists|
                localpart: Seq<char>,
                tokens: Seq<Seq<char>>,
            |
                is_simple_uuid(localpart) && tokens.len() == info.invite_3pid@.len() && (forall|
                    i: int,
                | 0 <= i < tokens.len() ==> is_invite_token(#[trigger] tokens[i]))
                    && create_contract_outcome(
                    r,
                    creator_user_id@,
                    info,
                    home_server_name@,
                    localpart,
                    tokens,
                ),
    {
        let ghost given = info;
        let room_version = info.room_version;
        if !room_version.is_supported() {
            return Err(
                RoomCreateContractError::UnsupportedRoomVersion {
                    room_version: String::from_str(room_version.as_str()),
                },
            );
        }
        let room_id = RoomIdentifier::generate(home_server_name);
        assert(crate::versions::supported_allowlist() =~= seq![RoomVersion::V1]);
        let room = match Room::new(&room_id, room_version) {
            Ok(room) => room,
            Err(_) => {
                assert(false);
                return Err(RoomCreateContractError::InvalidCreationContent);
            },
        };
        let mut invitee_user_ids: Vec<String> = Vec::new();
        let mut i: usize = 0;
        while i < info.invite.len()
            invariant
                i <= info.invite@.len(),
                invitee_user_ids@.len() == i,
                forall|k: int| 0 <= k < i ==> (#[trigger] invitee_user_ids@[k])@ == info.invite@[k]@,
            decreases info.invite.len() - i,
        {
            invitee_user_ids.push(String::from_str(info.invite[i].as_str()));
            i = i + 1;
        }
        let creation_content = info.creation_content.to_event_content_map();
        let name = clone_opt(&info.name);
        let topic = clone_opt(&info.topic);
        let room_alias_name = clone_opt(&info.room_alias_name);
        let builder = RoomCreationPlanBuilder::new(
            creator_user_id,
            room_id.as_str(),
            home_server_name.as_str(),
            room_version,
        ).with_room_create_event_content(creation_content).with_preset(info.preset).with_invitees(
            invitee_user_ids,
            info.invite_3pid,
            Some(info.is_direct),
        ).with_alias(room_alias_name).with_profile(name, topic).with_initial_state(
            Some(info.initial_state),
        ).with_power_level_override(Some(info.power_level_content_override));
        let ghost room_id_text = room_identifier_text(room_id@.localpart, Some(home_server_name@));
        assert(builder@ == request_plan_inputs(
            creator_user_id@,
            given,
            home_server_name@,
            room_id_text,
        )) by {
            assert(strings_view(invitee_user_ids@) =~= Seq::new(
                given.invite@.len(),
                |k: int| given.invite@[k]@,
            ));
        }
        let ghost inputs = builder@;
        let built = builder.build();
        let ghost tokens = choose|tokens: Seq<Seq<char>>|
            tokens.len() == inputs.third_party_invitees.len() && (forall|k: int|
                0 <= k < tokens.len() ==> is_invite_token(#[trigger] tokens[k]))
                && crate::creation_plan::plan_result_view(built) == plan_outcome(inputs, tokens);
        let initial_state = match built {
            Ok(events) => events,
            Err(e) => {
                let r: Result<CreateRoomContract, RoomCreateContractError> = Err(e);
                assert(create_contract_outcome(
                    r,
                    creator_user_id@,
                    given,
                    home_server_name@,
                    room_id@.localpart,
                    tokens,
                ));
                return r;
            },
        };
        let payload = CreateRoomPersistencePayload {
            creator_user_id: String::from_str(creator_user_id.as_str()),
            initial_state,
            is_direct: Some(info.is_direct),
            name: info.name,
            preset: String::from_str(info.preset.as_str()),
            room_alias_name: info.room_alias_name,
            room_id: String::from_str(room_id.as_str()),
            room_version: String::from_str(room_version.as_str()),
            topic: info.topic,
            visibility: String::from_str(info.visibility.as_str()),
        };
        let r: Result<CreateRoomContract, RoomCreateContractError> = Ok(
            CreateRoomContract { persistence_payload: payload, room },
        );
        assert(create_contract_outcome(
            r,
            creator_user_id@,
            given,
            home_server_name@,
            room_id@.localpart,
            tokens,
        ));
        r
    }
}

/// No event of `s` is a create event.
pub open spec fn has_no_create_event(s: Seq<PayloadView>) -> bool {
    forall|i: int| 0 <= i < s.len() ==> (#[trigger] s[i]).event_type != "m.room.create"@
}

proof fn lemma_no_create_concat(a: Seq<PayloadView>, b: Seq<PayloadView>)
    requires
        has_no_create_event(a),
        has_no_create_event(b),
    ensures
        has_no_create_event(a + b),
{
    assert forall|i: int| 0 <= i < (a + b).len() implies (#[trigger] (a + b)[i]).event_type
        != "m.room.create"@ by {
        if i < a.len() {
            assert((a + b)[i] == a[i]);
        } else {
            assert((a + b)[i] == b[i - a.len()]);
        }
    }
}

proof fn lemma_initial_state_has_no_create(s: Seq<crate::create_room::RoomStateEventInfo>)
    requires
        crate::creation_plan::first_initial_state_fault(s) is None,
    ensures
        has_no_create_event(crate::creation_plan::initial_state_events(s)),
    decreases s.len(),
{
    if s.len() > 0 {
        lemma_initial_state_has_no_create(s.drop_first());
        let e = crate::creation_plan::initial_state_events(s);
        let t = crate::creation_plan::initial_state_events(s.drop_first());
        assert forall|i: int| 0 <= i < e.len() implies (#[trigger] e[i]).event_type
            != "m.room.create"@ by {
            if i > 0 {
                assert(e[i].event_type == t[i - 1].event_type);
            }
        }
    }
}

proof fn lemma_create_event_names_distinct()
    ensures
        "m.room.member"@ != "m.room.create"@,
        "m.room.power_levels"@ != "m.room.create"@,
        "m.room.canonical_alias"@ != "m.room.create"@,
        "m.room.join_rules"@ != "m.room.create"@,
        "m.room.history_visibility"@ != "m.room.create"@,
        "m.room.guest_access"@ != "m.room.create"@,
        "m.room.name"@ != "m.room.create"@,
        "m.room.topic"@ != "m.room.create"@,
        "m.room.third_party_invite"@ != "m.room.create"@,
        "additional_creators"@ != "creator"@,
        "room_version"@ != "creator"@,
        "additional_creators"@ != "room_version"@,
{
    reveal_strlit("m.room.create");
    reveal_strlit("m.room.member");
    reveal_strlit("m.room.power_levels");
    reveal_strlit("m.room.canonical_alias");
    reveal_strlit("m.room.join_rules");
    reveal_strlit("m.room.history_visibility");
    reveal_strlit("m.room.guest_access");
    reveal_strlit("m.room.name");
    reveal_strlit("m.room.topic");
    reveal_strlit("m.room.third_party_invite");
    reveal_strlit("additional_creators");
    reveal_strlit("creator");
    reveal_strlit("room_version");
    assert("m.room.create"@.len() == 13);
    assert("m.room.member"@[7] != "m.room.create"@[7]);
    assert("m.room.power_levels"@.len() == 19);
    assert("m.room.canonical_alias"@.len() == 22);
    assert("m.room.join_rules"@.len() == 17);
    assert("m.room.history_visibility"@.len() == 25);
    assert("m.room.guest_access"@.len() == 19);
    assert("m.room.name"@.len() == 11);
    assert("m.room.topic"@.len() == 12);
    assert("m.room.third_party_invite"@.len() == 25);
    assert("additional_creators"@.len() == 19);
    assert("creator"@.len() == 7);
    assert("room_version"@.len() == 12);
}

proof fn lemma_raw_plan_first_is_only_create(b: PlanInputs, create_content: Json, tokens: Seq<Seq<char>>)
    requires
        crate::creation_plan::first_initial_state_fault(
            match b.initial_state {
                Some(s) => s,
                None => Seq::empty(),
            },
        ) is None,
    ensures
        crate::creation_plan::raw_plan(b, create_content, tokens)[0]
            == crate::creation_plan::planned_event("m.room.create"@, ""@, create_content),
        has_no_create_event(crate::creation_plan::raw_plan(b, create_content, tokens).drop_first()),
{
    let raw = crate::creation_plan::raw_plan(b, create_content, tokens);
    let init = match b.initial_state {
        Some(s) => s,
        None => Seq::empty(),
    };
    lemma_create_event_names_distinct();
    lemma_initial_state_has_no_create(init);
    let fixed = seq![
        crate::creation_plan::planned_event(
            "m.room.member"@,
            b.creator_user_id,
            Json::Object(seq![("membership"@, Json::Str("join"@))]),
        ),
        crate::creation_plan::planned_event(
            "m.room.power_levels"@,
            ""@,
            crate::creation_plan::power_levels_content(
                b.creator_user_id,
                b.invitees,
                b.preset,
                b.power_level_content_override,
            ),
        ),
    ];
    let alias = crate::creation_plan::alias_events(b.room_alias_name, b.home_server_name);
    let preset = crate::creation_plan::preset_events(b.preset);
    let initial = crate::creation_plan::initial_state_events(init);
    let profile = crate::creation_plan::profile_events(b.name, b.topic);
    let invites = crate::creation_plan::invite_events(
        b.invitees,
        match b.is_direct {
            Some(d) => d,
            None => false,
        },
    );
    let third = crate::creation_plan::third_party_invite_events(b.third_party_invitees, tokens);
    assert(raw.drop_first() =~= fixed + alias + preset + initial + profile + invites + third);
    assert(has_no_create_event(fixed));
    assert(has_no_create_event(alias));
    assert(has_no_create_event(preset));
    assert(has_no_create_event(profile)) by {
        let p = profile;
        assert forall|i: int| 0 <= i < p.len() implies (#[trigger] p[i]).event_type
            != "m.room.create"@ by {}
    }
    assert(has_no_create_event(invites));
    assert(has_no_create_event(third));
    lemma_no_create_concat(fixed, alias);
    lemma_no_create_concat(fixed + alias, preset);
    lemma_no_create_concat(fixed + alias + preset, initial);
    lemma_no_create_concat(fixed + alias + preset + initial, profile);
    lemma_no_create_concat(fixed + alias + preset + initial + profile, invites);
    lemma_no_create_concat(fixed + alias + preset + initial + profile + invites, third);
}

proof fn lemma_collapse_keeps_lone_first(raw: Seq<PayloadView>)
    requires
        raw.len() > 0,
        raw[0].event_type == "m.room.create"@,
        has_no_create_event(raw.drop_first()),
    ensures
        crate::creation_plan::collapse_state_events(raw).len() > 0,
        crate::creation_plan::collapse_state_events(raw)[0] == raw[0],
{
    assert(!crate::creation_plan::slot_taken_later(raw, 0)) by {
        if crate::creation_plan::slot_taken_later(raw, 0) {
            let j = choose|j: int|
                0 < j < raw.len() && #[trigger] crate::creation_plan::same_state_slot(raw[j], raw[0]);
            assert(raw[j] == raw.drop_first()[j - 1]);
        }
    }
    let c = crate::creation_plan::collapsed_from(raw, 0);
    assert(c =~= seq![raw[0]] + crate::creation_plan::collapsed_from(raw, 1));
}

proof fn lemma_trusted_creators_keep_members(c: Json, preset: crate::create_room::RoomPreset, invitees: Seq<Seq<char>>, key: Seq<char>)
    requires
        key != "additional_creators"@,
    ensures
        crate::json::json_get(crate::creation_plan::with_trusted_creators(c, preset, invitees), key)
            == crate::json::json_get(c, key),
{
    if preset == crate::create_room::RoomPreset::TrustedPrivateChat && invitees.len() > 0 {
        if let Json::Object(es) = c {
            match crate::json::json_get(c, "additional_creators"@) {
                None => {
                    crate::json::lemma_entries_get_insert(
                        es,
                        "additional_creators"@,
                        Json::Array(crate::creation_plan::add_missing_creators(Seq::empty(), invitees)),
                        key,
                    );
                },
                Some(Json::Array(a)) => {
                    crate::json::lemma_entries_get_insert(
                        es,
                        "additional_creators"@,
                        Json::Array(crate::creation_plan::add_missing_creators(a, invitees)),
                        key,
                    );
                },
                Some(_) => {},
            }
        }
    }
}

/// The create event of a planned room carries the server's own `creator`
/// (the requesting user) and `room_version`, whatever the request's
/// creation content said of them.
pub proof fn lemma_create_event_names_server_creator_and_version(
    creator_user_id: Seq<char>,
    info: ValidatedCreateRoomRequest,
    home_server_name: Seq<char>,
    room_id: Seq<char>,
    tokens: Seq<Seq<char>>,
)
    requires
        plan_outcome(request_plan_inputs(creator_user_id, info, home_server_name, room_id), tokens)
            is Ok,
    ensures
        ({
            let events = plan_outcome(
                request_plan_inputs(creator_user_id, info, home_server_name, room_id),
                tokens,
            )->Ok_0;
            &&& events.len() > 0
            &&& events[0].event_type == "m.room.create"@
            &&& crate::json::json_get(events[0].content, "creator"@) == Some(
                Json::Str(creator_user_id),
            )
            &&& crate::json::json_get(events[0].content, "room_version"@) == Some(
                Json::Str(version_name(info.room_version)),
            )
        }),
{
    let b = request_plan_inputs(creator_user_id, info, home_server_name, room_id);
    let c = b.room_create_event_content->Some_0;
    let wc = crate::creation_plan::with_trusted_creators(c, b.preset, b.invitees);
    let raw = crate::creation_plan::raw_plan(b, wc, tokens);
    lemma_create_event_names_distinct();
    lemma_raw_plan_first_is_only_create(b, wc, tokens);
    lemma_collapse_keeps_lone_first(raw);
    lemma_trusted_creators_keep_members(c, b.preset, b.invitees, "creator"@);
    lemma_trusted_creators_keep_members(c, b.preset, b.invitees, "room_version"@);
    let with_creator = entries_insert(
        creation_event_entries(info.creation_content),
        "creator"@,
        Json::Str(creator_user_id),
    );
    crate::json::lemma_entries_get_insert(
        with_creator,
        "room_version"@,
        Json::Str(version_name(info.room_version)),
        "creator"@,
    );
    crate::json::lemma_entries_get_insert(
        creation_event_entries(info.creation_content),
        "creator"@,
        Json::Str(creator_user_id),
        "creator"@,
    );
    crate::json::lemma_entries_get_insert(
        with_creator,
        "room_version"@,
        Json::Str(version_name(info.room_version)),
        "room_version"@,
    );
}

/// Every room contract built for a request (for whatever identifier and
/// invite tokens were drawn) begins with the create event, which names the
/// requesting user as `creator` and the room's version as `room_version`
/// whatever the request's creation content said; then the creator's join;
/// then the power levels. Every event carries its place, no two events set
/// the same state, and the room has the version asked for.
pub proof fn lemma_created_room_plan(
    c: CreateRoomContract,
    creator_user_id: Seq<char>,
    info: ValidatedCreateRoomRequest,
    home_server_name: Seq<char>,
    localpart: Seq<char>,
    tokens: Seq<Seq<char>>,
)
    requires
        create_contract_outcome(
            Ok::<CreateRoomContract, RoomCreateContractError>(c),
            creator_user_id,
            info,
            home_server_name,
            localpart,
            tokens,
        ),
    ensures
        ({
            let s = payloads_view(c.persistence_payload.initial_state@);
            &&& s.len() >= 3
            &&& s[0].event_type == "m.room.create"@
            &&& crate::json::json_get(s[0].content, "creator"@) == Some(Json::Str(creator_user_id))
            &&& crate::json::json_get(s[0].content, "room_version"@) == Some(
                Json::Str(version_name(info.room_version)),
            )
            &&& s[1].event_type == "m.room.member"@
            &&& s[1].state_key == creator_user_id
            &&& s[2].event_type == "m.room.power_levels"@
            &&& forall|i: int| 0 <= i < s.len() && i <= i32::MAX ==> #[trigger] s[i].ordering == i
            &&& forall|a: int, b: int|
                0 <= a < b < s.len() ==> !crate::creation_plan::same_state_slot(#[trigger] s[a], #[trigger] s[b])
            &&& c.room.room_version == info.room_version
        }),
{
    let room_id = room_identifier_text(localpart, Some(home_server_name));
    let b = request_plan_inputs(creator_user_id, info, home_server_name, room_id);
    lemma_create_event_names_server_creator_and_version(creator_user_id, info, home_server_name, room_id, tokens);
    crate::creation_plan::lemma_built_plan_shape(b, tokens);
    let cc = b.room_create_event_content->Some_0;
    let raw = crate::creation_plan::raw_plan(b, crate::creation_plan::with_trusted_creators(cc, b.preset, b.invitees), tokens);
    crate::creation_plan::lemma_collapse_last_write_wins(raw);
    let collapsed = crate::creation_plan::collapse_state_events(raw);
    let s = payloads_view(c.persistence_payload.initial_state@);
    assert forall|a: int, b2: int| 0 <= a < b2 < s.len() implies !crate::creation_plan::same_state_slot(
        #[trigger] s[a],
        #[trigger] s[b2],
    ) by {
        assert(!crate::creation_plan::same_state_slot(collapsed[a], collapsed[b2]));
    }
}

/// How a refused room plan is answered: an unsupported version as such,
/// faults of the requested state as an invalid room state, a taken or bad
/// alias and bad invitees as invalid parameters, and faults of the server's
/// own making as internal errors.
pub open spec fn contract_error_answer(e: ContractErrorView) -> crate::errors::RoomsApplicationError {
    match e {
        ContractErrorView::UnsupportedRoomVersion { .. } => crate::errors::RoomsApplicationError::UnsupportedRoomVersion,
        ContractErrorView::InvalidRoomStateEventType
        | ContractErrorView::InvalidRoomStateEventContentType { .. }
        | ContractErrorView::InitialStateContainsRoomCreateEvent
        | ContractErrorView::InvalidRoomCreationEventOrder { .. }
        | ContractErrorView::InvalidRoomCreateContent { .. } => crate::errors::RoomsApplicationError::InvalidRoomState,
        ContractErrorView::InvalidRoomAlias
        | ContractErrorView::InvalidInviteUserIdentifier
        | ContractErrorView::InvalidInviteThirdPartyIdentifier
        | ContractErrorView::InvalidCreationContent
        | ContractErrorView::InvalidPowerLevelContentOverride
        | ContractErrorView::RoomDomainAndCreatorDomainMismatch { .. } => crate::errors::RoomsApplicationError::InvalidParameter,
        _ => crate::errors::RoomsApplicationError::Internal,
    }
}

pub fn map_create_contract_error(error: &RoomCreateContractError) -> (r: crate::errors::RoomsApplicationError)
    ensures
        r == contract_error_answer(error@),
{
    match error {
        RoomCreateContractError::UnsupportedRoomVersion { .. } => crate::errors::RoomsApplicationError::UnsupportedRoomVersion,
        RoomCreateContractError::InvalidRoomStateEventType
        | RoomCreateContractError::InvalidRoomStateEventContentType { .. }
        | RoomCreateContractError::InitialStateContainsRoomCreateEvent
        | RoomCreateContractError::InvalidRoomCreationEventOrder { .. }
        | RoomCreateContractError::InvalidRoomCreateContent { .. } => crate::errors::RoomsApplicationError::InvalidRoomState,
        RoomCreateContractError::InvalidRoomAlias
        | RoomCreateContractError::InvalidInviteUserIdentifier
        | RoomCreateContractError::InvalidInviteThirdPartyIdentifier
        | RoomCreateContractError::InvalidCreationContent
        | RoomCreateContractError::InvalidPowerLevelContentOverride
        | RoomCreateContractError::RoomDomainAndCreatorDomainMismatch { .. } => crate::errors::RoomsApplicationError::InvalidParameter,
        _ => crate::errors::RoomsApplicationError::Internal,
    }
}

} // verus!
